use gigabroom::scanner::{
    calculate_dir_size, filter_by_categories, filter_by_min_size, scan_directory,
    validate_index_hit, FsNode, FsNodeKind,
};
use gigabroom::classify::{EntryInfo, Markers};
use gigabroom::types::{Category, DeletableItem};

fn file(name: &str, size: u64) -> FsNode {
    FsNode { name: name.to_string(), kind: FsNodeKind::File { size }, mtime: 1000 }
}

fn dir(name: &str, children: Vec<FsNode>) -> FsNode {
    FsNode { name: name.to_string(), kind: FsNodeKind::Dir { children }, mtime: 1000 }
}

fn special(name: &str) -> FsNode {
    FsNode { name: name.to_string(), kind: FsNodeKind::Special, mtime: 1000 }
}

#[test]
fn test_size_aggregation() {
    // Files of 100, 200 and 0 bytes plus one unreadable entry: the sum is
    // 300, and the unreadable entry contributes nothing without aborting.
    let tree = dir(
        "data",
        vec![
            file("a.bin", 100),
            dir("nested", vec![file("b.bin", 200), special("unreadable.bin")]),
            file("empty", 0),
        ],
    );
    assert_eq!(calculate_dir_size(&tree), 300);
}

#[test]
fn test_size_of_single_file_and_special() {
    assert_eq!(calculate_dir_size(&file("x", 77)), 77);
    assert_eq!(calculate_dir_size(&special("link")), 0);
    assert_eq!(calculate_dir_size(&dir("empty", vec![])), 0);
}

#[test]
fn test_end_to_end_scan() {
    // proj/target (with a sibling Cargo.toml) containing target/debug/deps:
    // exactly one candidate, proj/target, sized over everything below it.
    let tree = dir(
        "work",
        vec![dir(
            "proj",
            vec![
                file("Cargo.toml", 50),
                dir(
                    "target",
                    vec![
                        file("tmp.o", 10),
                        dir(
                            "debug",
                            vec![dir("deps", vec![file("libx.rlib", 4000)]), file("flags", 6)],
                        ),
                    ],
                ),
            ],
        )],
    );
    let items = scan_directory("/work", &tree, 10, false);
    assert_eq!(items.len(), 1);
    assert_eq!(items[0].path, "/work/proj/target");
    assert_eq!(items[0].category, Category::RustTarget);
    assert_eq!(items[0].size, 10 + 4000 + 6);
    assert_eq!(items[0].project_name, "proj");
    assert_eq!(items[0].last_modified, 1000);
}

#[test]
fn test_pruning_skips_nested_matches() {
    // node_modules inside a matched target is never listed on its own.
    let tree = dir(
        "w",
        vec![dir(
            "p",
            vec![
                file("Cargo.toml", 1),
                dir("target", vec![dir("node_modules", vec![file("x.js", 5)])]),
            ],
        )],
    );
    let items = scan_directory("/w", &tree, 10, false);
    assert_eq!(items.len(), 1);
    assert_eq!(items[0].path, "/w/p/target");
    assert_eq!(items[0].size, 5);
}

#[test]
fn test_scan_depth_bound() {
    let tree = dir(
        "w",
        vec![dir("a", vec![dir("b", vec![dir("node_modules", vec![file("x", 9)])])])],
    );
    // node_modules sits at depth 3 below the root.
    assert_eq!(scan_directory("/w", &tree, 3, false).len(), 1);
    assert_eq!(scan_directory("/w", &tree, 2, false).len(), 0);
    assert_eq!(scan_directory("/w", &tree, 0, false).len(), 0);
}

#[test]
fn test_scan_finds_several_candidates() {
    let tree = dir(
        "w",
        vec![
            dir(
                "php",
                vec![file("composer.json", 3), dir("vendor", vec![file("autoload.php", 100)])],
            ),
            dir("js", vec![dir("node_modules", vec![file("m.js", 40)])]),
            file(".DS_Store", 12),
        ],
    );
    let items = scan_directory("/w", &tree, 10, false);
    assert_eq!(items.len(), 3);
    let mut cats: Vec<Category> = items.iter().map(|i| i.category).collect();
    cats.sort_by_key(|c| c.name());
    assert!(cats.contains(&Category::PHPVendor));
    assert!(cats.contains(&Category::NodeModules));
    assert!(cats.contains(&Category::OSJunk));
    let junk = items.iter().find(|i| i.category == Category::OSJunk).unwrap();
    assert_eq!(junk.size, 12);
    assert_eq!(junk.project_name, "w");
}

#[test]
fn test_scan_root_is_never_a_candidate() {
    // Even a tree whose root is itself a node_modules only reports what
    // is below the root.
    let tree = dir("node_modules", vec![file("a.js", 1)]);
    let items = scan_directory("/w/node_modules", &tree, 10, false);
    assert_eq!(items.len(), 0);
}

#[test]
fn test_scan_packages_uses_root_sibling_solution() {
    let tree = dir("sln", vec![dir("proj", vec![dir("packages", vec![file("n.nupkg", 8)])])]);
    // The grandparent probe for proj/packages looks at the root's entries;
    // for a depth-1 packages dir it would look beside the root.
    let items = scan_directory("/sln", &tree, 10, false);
    assert_eq!(items.len(), 0);

    let tree2 = dir(
        "sln",
        vec![
            file("app.sln", 2),
            dir("proj", vec![dir("packages", vec![file("n.nupkg", 8)])]),
        ],
    );
    let items2 = scan_directory("/sln", &tree2, 10, false);
    assert_eq!(items2.len(), 1);
    assert_eq!(items2[0].path, "/sln/proj/packages");
}

#[test]
fn test_filter_by_min_size() {
    let mk = |name: &str, size: u64| {
        DeletableItem::new(
            format!("/w/{}", name),
            size,
            Category::BuildCache,
            "w".to_string(),
            0,
        )
    };
    let items = vec![mk("a", 10), mk("b", 500), mk("c", 100)];
    let kept = filter_by_min_size(items, 100);
    assert_eq!(kept.len(), 2);
    assert_eq!(kept[0].path, "/w/b");
    assert_eq!(kept[1].path, "/w/c");
}

#[test]
fn test_filter_by_categories() {
    let mk = |name: &str, cat: Category| {
        DeletableItem::new(format!("/w/{}", name), 1, cat, "w".to_string(), 0)
    };
    let items = vec![
        mk("a", Category::RustTarget),
        mk("b", Category::NodeModules),
        mk("c", Category::RustTarget),
    ];
    let selected = vec![Category::RustTarget];
    let kept = filter_by_categories(items, &selected);
    assert_eq!(kept.len(), 2);
    assert_eq!(kept[0].path, "/w/a");
    assert_eq!(kept[1].path, "/w/c");
}

fn hit(name: &str, path: &str, markers: Markers) -> EntryInfo {
    EntryInfo { name: name.to_string(), path: path.to_string(), is_dir: true, markers }
}

#[test]
fn test_validate_index_hit_accepts_matching_directory() {
    let h = hit("node_modules", "/w/js/node_modules", Markers::none());
    let r = validate_index_hit("/w", Category::NodeModules, &h, &vec![]);
    assert_eq!(r, Some(Category::NodeModules));
}

#[test]
fn test_validate_index_hit_rejects_outside_root() {
    let h = hit("node_modules", "/elsewhere/node_modules", Markers::none());
    assert_eq!(validate_index_hit("/w", Category::NodeModules, &h, &vec![]), None);
    // A path that only shares a name prefix with the root is outside it.
    let h2 = hit("node_modules", "/warehouse/node_modules", Markers::none());
    assert_eq!(validate_index_hit("/w", Category::NodeModules, &h2, &vec![]), None);
}

#[test]
fn test_validate_index_hit_rejects_non_directory_and_mismatch() {
    let mut h = hit("node_modules", "/w/js/node_modules", Markers::none());
    h.is_dir = false;
    assert_eq!(validate_index_hit("/w", Category::NodeModules, &h, &vec![]), None);

    // The detected category is authoritative: a target without Cargo.toml
    // detects nothing, and a query for the wrong category is discarded.
    let t = hit("target", "/w/p/target", Markers::none());
    assert_eq!(validate_index_hit("/w", Category::RustTarget, &t, &vec![]), None);
    let b = hit("build", "/w/p/build", Markers::none());
    assert_eq!(validate_index_hit("/w", Category::RustTarget, &b, &vec![]), None);
}

#[test]
fn test_validate_index_hit_vendor_query_accepts_php() {
    let mut m = Markers::none();
    m.parent_has_composer_json = true;
    let h = hit("vendor", "/w/p/vendor", m);
    // A vendor query is issued under the Go category but accepts every
    // vendor ecosystem; the detected category wins.
    assert_eq!(validate_index_hit("/w", Category::GoVendor, &h, &vec![]), Some(Category::PHPVendor));
}

#[test]
fn test_validate_index_hit_rejects_nested() {
    let h = hit("node_modules", "/w/target/node_modules", Markers::none());
    let mut m = Markers::none();
    m.parent_has_cargo_toml = true;
    let ancestor = EntryInfo {
        name: "target".to_string(),
        path: "/w/target".to_string(),
        is_dir: true,
        markers: m,
    };
    assert_eq!(validate_index_hit("/w", Category::NodeModules, &h, &vec![ancestor]), None);

    let clear = EntryInfo {
        name: "target".to_string(),
        path: "/w/target".to_string(),
        is_dir: true,
        markers: Markers::none(),
    };
    assert_eq!(
        validate_index_hit("/w", Category::NodeModules, &h, &vec![clear]),
        Some(Category::NodeModules)
    );
}

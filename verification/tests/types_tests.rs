use gigabroom::types::{Category, CategoryFilter, DeletableItem};

#[test]
fn test_category_names() {
    assert_eq!(Category::RustTarget.name(), "Rust target");
    assert_eq!(Category::NodeModules.name(), "Node modules");
    assert_eq!(Category::PackageCache.name(), "Package cache");
    assert_eq!(Category::BuildCache.name(), "Build cache");
}

#[test]
fn test_category_all_is_complete_and_ordered() {
    let all = Category::all();
    assert_eq!(all.len(), 16);
    assert_eq!(all[0], Category::RustTarget);
    assert_eq!(all[15], Category::BuildCache);
    // No duplicates.
    for i in 0..all.len() {
        for j in (i + 1)..all.len() {
            assert_ne!(all[i], all[j]);
        }
    }
}

#[test]
fn test_only_package_cache_is_dangerous() {
    for c in Category::all() {
        assert_eq!(c.is_dangerous(), c == Category::PackageCache);
    }
}

#[test]
fn test_category_filter_mapping() {
    assert_eq!(CategoryFilter::Rust.to_category(), Category::RustTarget);
    assert_eq!(CategoryFilter::Node.to_category(), Category::NodeModules);
    assert_eq!(CategoryFilter::JavaMaven.to_category(), Category::MavenTarget);
    assert_eq!(CategoryFilter::JavaGradle.to_category(), Category::GradleBuild);
    assert_eq!(CategoryFilter::PackageCache.to_category(), Category::PackageCache);
    assert_eq!(CategoryFilter::Build.to_category(), Category::BuildCache);
}

#[test]
fn test_deletable_item_new() {
    let it = DeletableItem::new(
        "/w/p/target".to_string(),
        42,
        Category::RustTarget,
        "p".to_string(),
        77,
    );
    assert_eq!(it.path, "/w/p/target");
    assert_eq!(it.size, 42);
    assert_eq!(it.category, Category::RustTarget);
    assert_eq!(it.project_name, "p");
    assert_eq!(it.last_modified, 77);
}

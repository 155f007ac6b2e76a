use gigabroom::classify::{is_cargo_target, is_deletable, EntryInfo, Markers};
use gigabroom::types::Category;

fn entry(name: &str, path: &str, is_dir: bool, markers: Markers) -> EntryInfo {
    EntryInfo { name: name.to_string(), path: path.to_string(), is_dir, markers }
}

#[test]
fn test_rust_target_needs_cargo_toml() {
    let mut m = Markers::none();
    let plain = entry("target", "/w/p/target", true, m);
    assert_eq!(is_deletable(&plain), None);
    assert!(!is_cargo_target(&plain));

    m.parent_has_cargo_toml = true;
    let with_marker = entry("target", "/w/p/target", true, m);
    assert!(is_cargo_target(&with_marker));
    assert_eq!(is_deletable(&with_marker), Some(Category::RustTarget));

    // A plain file named target is never a build directory.
    let file = entry("target", "/w/p/target", false, m);
    assert_eq!(is_deletable(&file), None);
}

#[test]
fn test_classifier_idempotent() {
    let mut m = Markers::none();
    m.parent_has_go_manifest = true;
    let e = entry("vendor", "/w/p/vendor", true, m);
    let first = is_deletable(&e);
    let second = is_deletable(&e);
    assert_eq!(first, second);
    assert_eq!(first, Some(Category::GoVendor));
}

#[test]
fn test_vendor_disambiguation_precedence() {
    // A vendor folder whose parent holds both a composer.json and a Go
    // manifest takes the more specific, earlier-checked vendor category.
    let mut m = Markers::none();
    m.parent_has_composer_json = true;
    m.parent_has_go_manifest = true;
    m.parent_has_gemfile = true;
    let e = entry("vendor", "/w/p/vendor", true, m);
    assert_eq!(is_deletable(&e), Some(Category::PHPVendor));

    let mut go_only = Markers::none();
    go_only.parent_has_go_manifest = true;
    assert_eq!(
        is_deletable(&entry("vendor", "/w/p/vendor", true, go_only)),
        Some(Category::GoVendor)
    );

    let mut gem_only = Markers::none();
    gem_only.parent_has_gemfile = true;
    assert_eq!(
        is_deletable(&entry("vendor", "/w/p/vendor", true, gem_only)),
        Some(Category::RubyGems)
    );

    // Without any manifest, vendor is not even a generic build folder.
    assert_eq!(is_deletable(&entry("vendor", "/w/p/vendor", true, Markers::none())), None);
}

#[test]
fn test_build_disambiguation_precedence() {
    let mut m = Markers::none();
    m.parent_has_gradle_file = true;
    assert_eq!(
        is_deletable(&entry("build", "/w/p/build", true, m)),
        Some(Category::GradleBuild)
    );
    // Without the Gradle marker the generic build rule catches it.
    assert_eq!(
        is_deletable(&entry("build", "/w/p/build", true, Markers::none())),
        Some(Category::BuildCache)
    );
    assert_eq!(
        is_deletable(&entry("dist", "/w/p/dist", true, Markers::none())),
        Some(Category::BuildCache)
    );
    assert_eq!(
        is_deletable(&entry("out", "/w/p/out", true, Markers::none())),
        Some(Category::BuildCache)
    );
}

#[test]
fn test_maven_target() {
    let mut m = Markers::none();
    m.parent_has_pom_xml = true;
    assert_eq!(
        is_deletable(&entry("target", "/w/p/target", true, m)),
        Some(Category::MavenTarget)
    );
}

#[test]
fn test_simple_directory_rules() {
    let m = Markers::none();
    assert_eq!(
        is_deletable(&entry("node_modules", "/w/p/node_modules", true, m)),
        Some(Category::NodeModules)
    );
    assert_eq!(
        is_deletable(&entry("__pycache__", "/w/p/__pycache__", true, m)),
        Some(Category::PythonCache)
    );
    assert_eq!(is_deletable(&entry(".venv", "/w/p/.venv", true, m)), Some(Category::PythonCache));
    assert_eq!(
        is_deletable(&entry("CMakeFiles", "/w/p/CMakeFiles", true, m)),
        Some(Category::CCache)
    );
    assert_eq!(is_deletable(&entry(".gradle", "/w/p/.gradle", true, m)), Some(Category::GradleBuild));
    assert_eq!(is_deletable(&entry(".idea", "/w/p/.idea", true, m)), Some(Category::IDECache));
    assert_eq!(is_deletable(&entry(".vscode", "/w/p/.vscode", true, m)), Some(Category::IDECache));
    assert_eq!(is_deletable(&entry(".bundle", "/w/p/.bundle", true, m)), Some(Category::RubyGems));
    assert_eq!(
        is_deletable(&entry("DerivedData", "/w/p/DerivedData", true, m)),
        Some(Category::SwiftBuild)
    );
    assert_eq!(
        is_deletable(&entry(".sass-cache", "/w/p/.sass-cache", true, m)),
        Some(Category::TempFiles)
    );
    // These rules want directories, not files.
    assert_eq!(is_deletable(&entry("node_modules", "/w/p/node_modules", false, m)), None);
}

#[test]
fn test_dotnet_pairing() {
    // bin counts only with a project file in the parent and an obj beside it.
    let mut m = Markers::none();
    m.parent_has_dotnet_project = true;
    assert_eq!(is_deletable(&entry("bin", "/w/p/bin", true, m)), None);
    m.sibling_obj = true;
    assert_eq!(is_deletable(&entry("bin", "/w/p/bin", true, m)), Some(Category::DotNetBuild));

    let mut mo = Markers::none();
    mo.parent_has_dotnet_project = true;
    mo.sibling_bin = true;
    assert_eq!(is_deletable(&entry("obj", "/w/p/obj", true, mo)), Some(Category::DotNetBuild));

    // Without the project file, the pairing alone does not count.
    let mut bare = Markers::none();
    bare.sibling_obj = true;
    assert_eq!(is_deletable(&entry("bin", "/w/p/bin", true, bare)), None);

    // packages needs a solution file two levels up.
    let mut ms = Markers::none();
    ms.grandparent_has_solution = true;
    assert_eq!(
        is_deletable(&entry("packages", "/w/p/packages", true, ms)),
        Some(Category::DotNetBuild)
    );
    assert_eq!(is_deletable(&entry("packages", "/w/p/packages", true, Markers::none())), None);
}

#[test]
fn test_swift_build() {
    let mut m = Markers::none();
    m.parent_has_package_swift = true;
    assert_eq!(is_deletable(&entry(".build", "/w/p/.build", true, m)), Some(Category::SwiftBuild));
    assert_eq!(is_deletable(&entry(".build", "/w/p/.build", true, Markers::none())), None);
}

#[test]
fn test_file_junk_rules() {
    let m = Markers::none();
    assert_eq!(
        is_deletable(&entry(".DS_Store", "/w/p/.DS_Store", false, m)),
        Some(Category::OSJunk)
    );
    assert_eq!(
        is_deletable(&entry("Thumbs.db", "/w/p/Thumbs.db", false, m)),
        Some(Category::OSJunk)
    );
    assert_eq!(
        is_deletable(&entry("mod.pyc", "/w/p/mod.pyc", false, m)),
        Some(Category::PythonCache)
    );
    assert_eq!(is_deletable(&entry("thing.o", "/w/p/thing.o", false, m)), Some(Category::CCache));
    assert_eq!(is_deletable(&entry("a.out", "/w/p/a.out", false, m)), Some(Category::CCache));
    assert_eq!(
        is_deletable(&entry("debug.log", "/w/p/debug.log", false, m)),
        Some(Category::TempFiles)
    );
    assert_eq!(is_deletable(&entry("x.tmp", "/w/p/x.tmp", false, m)), Some(Category::TempFiles));
    assert_eq!(is_deletable(&entry("notes.txt", "/w/p/notes.txt", false, m)), None);
}

#[test]
fn test_global_cache_paths_are_dangerous() {
    let m = Markers::none();
    let hit = is_deletable(&entry("cafe", "/home/u/.npm/_cacache/cafe", true, m));
    assert_eq!(hit, Some(Category::PackageCache));
    assert!(Category::PackageCache.is_dangerous());
    assert_eq!(
        is_deletable(&entry("pip", "/home/u/.cache/pip", true, m)),
        Some(Category::PackageCache)
    );
    assert_eq!(
        is_deletable(&entry("repository", "/home/u/.m2/repository", true, m)),
        Some(Category::PackageCache)
    );
}

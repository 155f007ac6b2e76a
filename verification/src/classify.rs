//! The classifier: decides whether a filesystem entry is a deletable
//! artifact and which category it belongs to.
//!
//! Classification is a pure function of a snapshot of the entry: its name,
//! its full path, whether it is a directory, and the marker probes taken
//! around it (which project files exist beside it and beside its parent).
//! Gathering those probes from the disk happens outside the library; the
//! rules themselves are verified here.

use vstd::prelude::*;
use crate::types::Category;
use crate::utils::{str_eq, str_ends_with, str_contains, spec_ends_with, spec_contains};

verus! {

/// Results of the read-only filesystem probes around an entry, used to
/// disambiguate directory names that several ecosystems share.
///
/// Each field records whether a marker exists: `parent_*` fields speak of
/// the entry's parent directory, `sibling_*` of entries beside this one,
/// and `grandparent_has_solution` of the parent's parent.  A probe that
/// could not be taken (missing or unreadable parent) is `false`.
#[derive(Debug, PartialEq, Eq, Structural, Clone, Copy)]
pub struct Markers {
    /// `Cargo.toml` exists in the parent.
    pub parent_has_cargo_toml: bool,
    /// `pom.xml` exists in the parent.
    pub parent_has_pom_xml: bool,
    /// `build.gradle` or `build.gradle.kts` exists in the parent.
    pub parent_has_gradle_file: bool,
    /// `composer.json` exists in the parent.
    pub parent_has_composer_json: bool,
    /// `go.mod` or `go.sum` exists in the parent.
    pub parent_has_go_manifest: bool,
    /// Some `*.csproj`, `*.vbproj` or `*.fsproj` exists in the parent.
    pub parent_has_dotnet_project: bool,
    /// An entry named `bin` exists beside this one.
    pub sibling_bin: bool,
    /// An entry named `obj` exists beside this one.
    pub sibling_obj: bool,
    /// `Package.swift` exists in the parent.
    pub parent_has_package_swift: bool,
    /// `Gemfile` or `Gemfile.lock` exists in the parent.
    pub parent_has_gemfile: bool,
    /// Some `*.sln` exists in the parent's parent.
    pub grandparent_has_solution: bool,
}

impl Markers {
    /// A snapshot with every probe negative.
    pub fn none() -> (r: Markers)
        ensures
            r == spec_markers_none(),
    {
        Markers {
            parent_has_cargo_toml: false,
            parent_has_pom_xml: false,
            parent_has_gradle_file: false,
            parent_has_composer_json: false,
            parent_has_go_manifest: false,
            parent_has_dotnet_project: false,
            sibling_bin: false,
            sibling_obj: false,
            parent_has_package_swift: false,
            parent_has_gemfile: false,
            grandparent_has_solution: false,
        }
    }
}

/// The all-negative probe snapshot.
pub open spec fn spec_markers_none() -> Markers {
    Markers {
        parent_has_cargo_toml: false,
        parent_has_pom_xml: false,
        parent_has_gradle_file: false,
        parent_has_composer_json: false,
        parent_has_go_manifest: false,
        parent_has_dotnet_project: false,
        sibling_bin: false,
        sibling_obj: false,
        parent_has_package_swift: false,
        parent_has_gemfile: false,
        grandparent_has_solution: false,
    }
}

/// Snapshot of one filesystem entry, as the classifier sees it.
#[derive(Debug)]
pub struct EntryInfo {
    /// The entry's file name (last path component).
    pub name: String,
    /// The entry's full path.
    pub path: String,
    /// Whether the entry is a directory.
    pub is_dir: bool,
    /// The marker probes taken around the entry.
    pub markers: Markers,
}

/// The Rust disambiguator: a `target` directory counts as a Cargo build
/// directory only when its parent holds a `Cargo.toml`.  The snapshot
/// carries that probe's result.
pub fn is_cargo_target(info: &EntryInfo) -> (r: bool)
    ensures
        r == info.markers.parent_has_cargo_toml,
{
    info.markers.parent_has_cargo_toml
}

/// The .NET disambiguator: `bin` and `obj` count only when the parent
/// holds a project file and the sibling counterpart directory exists too.
pub open spec fn spec_is_dotnet_build(name: Seq<char>, m: Markers) -> bool {
    m.parent_has_dotnet_project && if name == "bin"@ {
        m.sibling_obj
    } else if name == "obj"@ {
        m.sibling_bin
    } else {
        false
    }
}

fn is_dotnet_build(name: &str, m: &Markers) -> (r: bool)
    ensures
        r == spec_is_dotnet_build(name@, *m),
{
    if !m.parent_has_dotnet_project {
        return false;
    }
    if str_eq(name, "bin") {
        m.sibling_obj
    } else if str_eq(name, "obj") {
        m.sibling_bin
    } else {
        false
    }
}

/// The classification rules, in priority order; the first rule whose name
/// and markers fit decides.  `None` means the entry is not deletable.
pub open spec fn spec_classify(
    name: Seq<char>,
    path: Seq<char>,
    is_dir: bool,
    m: Markers,
) -> Option<Category> {
    if is_dir && name == "target"@ && m.parent_has_cargo_toml {
        Some(Category::RustTarget)
    } else if is_dir && name == "node_modules"@ {
        Some(Category::NodeModules)
    } else if is_dir && (name == "__pycache__"@ || name == ".pytest_cache"@ || name == ".tox"@
        || name == "venv"@ || name == ".venv"@) {
        Some(Category::PythonCache)
    } else if is_dir && name == "target"@ && m.parent_has_pom_xml {
        Some(Category::MavenTarget)
    } else if is_dir && name == "build"@ && m.parent_has_gradle_file {
        Some(Category::GradleBuild)
    } else if is_dir && name == ".gradle"@ {
        Some(Category::GradleBuild)
    } else if is_dir && name == "vendor"@ && m.parent_has_composer_json {
        Some(Category::PHPVendor)
    } else if is_dir && name == "vendor"@ && m.parent_has_go_manifest {
        Some(Category::GoVendor)
    } else if is_dir && name == "CMakeFiles"@ {
        Some(Category::CCache)
    } else if is_dir && (name == "bin"@ || name == "obj"@) && spec_is_dotnet_build(name, m) {
        Some(Category::DotNetBuild)
    } else if is_dir && name == "packages"@ && m.grandparent_has_solution {
        Some(Category::DotNetBuild)
    } else if is_dir && name == ".build"@ && m.parent_has_package_swift {
        Some(Category::SwiftBuild)
    } else if is_dir && name == "DerivedData"@ {
        Some(Category::SwiftBuild)
    } else if is_dir && (name == ".idea"@ || name == ".vscode"@ || name == ".vs"@) {
        Some(Category::IDECache)
    } else if is_dir && name == "vendor"@ && m.parent_has_gemfile {
        Some(Category::RubyGems)
    } else if is_dir && name == ".bundle"@ {
        Some(Category::RubyGems)
    } else if name == ".DS_Store"@ || name == "Thumbs.db"@ || name == "desktop.ini"@
        || name == ".localized"@ {
        Some(Category::OSJunk)
    } else if is_dir && (name == ".sass-cache"@ || name == ".parcel-cache"@ || name == ".cache"@) {
        Some(Category::TempFiles)
    } else if is_dir && (name == "build"@ || name == "dist"@ || name == "out"@) {
        Some(Category::BuildCache)
    } else if spec_ends_with(name, ".pyc"@) || spec_ends_with(name, ".pyo"@) {
        Some(Category::PythonCache)
    } else if spec_ends_with(name, ".o"@) || spec_ends_with(name, ".a"@) || name == "a.out"@ {
        Some(Category::CCache)
    } else if spec_ends_with(name, ".log"@) {
        Some(Category::TempFiles)
    } else if spec_ends_with(name, ".tmp"@) || spec_ends_with(name, ".temp"@) {
        Some(Category::TempFiles)
    } else if spec_contains(path, "/.npm/_cacache"@) {
        Some(Category::PackageCache)
    } else if spec_contains(path, "/.cache/pip"@) {
        Some(Category::PackageCache)
    } else if spec_contains(path, "/.cache/yarn"@) {
        Some(Category::PackageCache)
    } else if spec_contains(path, "/.m2/repository"@) {
        Some(Category::PackageCache)
    } else {
        None
    }
}

/// Decide whether an entry is a deletable artifact, and of which category.
///
/// The decision is a pure function of the snapshot: name-based rules with
/// marker disambiguation first, then extension and fixed-name rules for
/// single-file junk, then the (dangerous) global package-cache paths by
/// path substring.
pub fn is_deletable(info: &EntryInfo) -> (r: Option<Category>)
    ensures
        r == spec_classify(info.name@, info.path@, info.is_dir, info.markers),
{
    let name: &str = info.name.as_str();
    let path: &str = info.path.as_str();
    let is_dir = info.is_dir;
    let m = &info.markers;
    if is_dir && str_eq(name, "target") && is_cargo_target(info) {
        Some(Category::RustTarget)
    } else if is_dir && str_eq(name, "node_modules") {
        Some(Category::NodeModules)
    } else if is_dir && (str_eq(name, "__pycache__") || str_eq(name, ".pytest_cache")
        || str_eq(name, ".tox") || str_eq(name, "venv") || str_eq(name, ".venv")) {
        Some(Category::PythonCache)
    } else if is_dir && str_eq(name, "target") && m.parent_has_pom_xml {
        Some(Category::MavenTarget)
    } else if is_dir && str_eq(name, "build") && m.parent_has_gradle_file {
        Some(Category::GradleBuild)
    } else if is_dir && str_eq(name, ".gradle") {
        Some(Category::GradleBuild)
    } else if is_dir && str_eq(name, "vendor") && m.parent_has_composer_json {
        Some(Category::PHPVendor)
    } else if is_dir && str_eq(name, "vendor") && m.parent_has_go_manifest {
        Some(Category::GoVendor)
    } else if is_dir && str_eq(name, "CMakeFiles") {
        Some(Category::CCache)
    } else if is_dir && (str_eq(name, "bin") || str_eq(name, "obj")) && is_dotnet_build(name, m) {
        Some(Category::DotNetBuild)
    } else if is_dir && str_eq(name, "packages") && m.grandparent_has_solution {
        Some(Category::DotNetBuild)
    } else if is_dir && str_eq(name, ".build") && m.parent_has_package_swift {
        Some(Category::SwiftBuild)
    } else if is_dir && str_eq(name, "DerivedData") {
        Some(Category::SwiftBuild)
    } else if is_dir && (str_eq(name, ".idea") || str_eq(name, ".vscode") || str_eq(name, ".vs")) {
        Some(Category::IDECache)
    } else if is_dir && str_eq(name, "vendor") && m.parent_has_gemfile {
        Some(Category::RubyGems)
    } else if is_dir && str_eq(name, ".bundle") {
        Some(Category::RubyGems)
    } else if str_eq(name, ".DS_Store") || str_eq(name, "Thumbs.db") || str_eq(name, "desktop.ini")
        || str_eq(name, ".localized") {
        Some(Category::OSJunk)
    } else if is_dir && (str_eq(name, ".sass-cache") || str_eq(name, ".parcel-cache")
        || str_eq(name, ".cache")) {
        Some(Category::TempFiles)
    } else if is_dir && (str_eq(name, "build") || str_eq(name, "dist") || str_eq(name, "out")) {
        Some(Category::BuildCache)
    } else if str_ends_with(name, ".pyc") || str_ends_with(name, ".pyo") {
        Some(Category::PythonCache)
    } else if str_ends_with(name, ".o") || str_ends_with(name, ".a") || str_eq(name, "a.out") {
        Some(Category::CCache)
    } else if str_ends_with(name, ".log") {
        Some(Category::TempFiles)
    } else if str_ends_with(name, ".tmp") || str_ends_with(name, ".temp") {
        Some(Category::TempFiles)
    } else if str_contains(path, "/.npm/_cacache") {
        Some(Category::PackageCache)
    } else if str_contains(path, "/.cache/pip") {
        Some(Category::PackageCache)
    } else if str_contains(path, "/.cache/yarn") {
        Some(Category::PackageCache)
    } else if str_contains(path, "/.m2/repository") {
        Some(Category::PackageCache)
    } else {
        None
    }
}

/// The classifier is a function of the snapshot alone: two snapshots that
/// record the same facts classify identically, so classifying the same
/// unmodified entry twice yields the same category.
pub proof fn lemma_classifier_idempotent(a: EntryInfo, b: EntryInfo)
    requires
        a.name@ == b.name@,
        a.path@ == b.path@,
        a.is_dir == b.is_dir,
        a.markers == b.markers,
    ensures
        spec_classify(a.name@, a.path@, a.is_dir, a.markers) == spec_classify(
            b.name@,
            b.path@,
            b.is_dir,
            b.markers,
        ),
{
}

/// Disambiguation precedence for the shared `vendor` name: a manifest-linked
/// vendor directory (a `composer.json` beside it) is classified to the
/// vendor category even when markers of later rules (a Go manifest, a
/// Gemfile) are present as well.
pub proof fn lemma_vendor_precedence(path: Seq<char>, m: Markers)
    requires
        m.parent_has_composer_json,
    ensures
        spec_classify("vendor"@, path, true, m) == Some(Category::PHPVendor),
{
    reveal_strlit("vendor");
    reveal_strlit("target");
    reveal_strlit("node_modules");
    reveal_strlit("__pycache__");
    reveal_strlit(".pytest_cache");
    reveal_strlit(".tox");
    reveal_strlit("venv");
    reveal_strlit(".venv");
    reveal_strlit("build");
    reveal_strlit(".gradle");
    assert("vendor"@[0] != "target"@[0]);
    assert("vendor"@[0] != ".venv"@[0]);
    assert("vendor"@.len() != "venv"@.len());
    assert("vendor"@.len() != "node_modules"@.len());
    assert("vendor"@.len() != "__pycache__"@.len());
    assert("vendor"@.len() != ".pytest_cache"@.len());
    assert("vendor"@.len() != ".tox"@.len());
    assert("vendor"@.len() != "build"@.len());
    assert("vendor"@.len() != ".gradle"@.len());
}

/// Disambiguation precedence for the shared `build` name: a Gradle build
/// file beside it makes the directory a Gradle build directory, not a hit
/// of the lowest-priority generic `build`/`dist`/`out` rule.
pub proof fn lemma_build_precedence(path: Seq<char>, m: Markers)
    requires
        m.parent_has_gradle_file,
    ensures
        spec_classify("build"@, path, true, m) == Some(Category::GradleBuild),
{
    reveal_strlit("build");
    reveal_strlit("target");
    reveal_strlit("node_modules");
    reveal_strlit("__pycache__");
    reveal_strlit(".pytest_cache");
    reveal_strlit(".tox");
    reveal_strlit("venv");
    reveal_strlit(".venv");
    assert("build"@[0] != ".venv"@[0]);
    assert("build"@[0] != "target"@[0]);
    assert("build"@.len() != "node_modules"@.len());
    assert("build"@.len() != "__pycache__"@.len());
    assert("build"@.len() != ".pytest_cache"@.len());
    assert("build"@.len() != ".tox"@.len());
    assert("build"@.len() != "venv"@.len());
}

} // verus!

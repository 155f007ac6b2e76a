//! Core data types: artifact categories and scan results.

use vstd::prelude::*;

verus! {

/// Categories of build artifacts and caches that the scanner can detect.
///
/// Each variant stands for one ecosystem or tool.  The set is closed:
/// adding a category means adding a variant and a classifier rule.
#[derive(Debug, PartialEq, Eq, Structural, Clone, Copy, Hash)]
pub enum Category {
    RustTarget,
    NodeModules,
    PythonCache,
    PHPVendor,
    RubyGems,
    MavenTarget,
    GradleBuild,
    GoVendor,
    CCache,
    DotNetBuild,
    SwiftBuild,
    IDECache,
    OSJunk,
    TempFiles,
    PackageCache,
    BuildCache,
}

impl Category {
    /// Human-readable display name of the category.
    pub fn name(&self) -> (r: &'static str)
        ensures
            r@ == spec_category_name(*self),
    {
        match self {
            Category::RustTarget => "Rust target",
            Category::NodeModules => "Node modules",
            Category::PythonCache => "Python cache",
            Category::PHPVendor => "PHP vendor",
            Category::RubyGems => "Ruby gems",
            Category::MavenTarget => "Maven target",
            Category::GradleBuild => "Gradle build",
            Category::GoVendor => "Go vendor",
            Category::CCache => "C/C++ cache",
            Category::DotNetBuild => ".NET build",
            Category::SwiftBuild => "Swift build",
            Category::IDECache => "IDE cache",
            Category::OSJunk => "OS junk",
            Category::TempFiles => "Temp/log files",
            Category::PackageCache => "Package cache",
            Category::BuildCache => "Build cache",
        }
    }

    /// Every category, in a fixed order.
    pub fn all() -> (r: Vec<Category>)
        ensures
            r@ == spec_all_categories(),
    {
        let mut v: Vec<Category> = Vec::new();
        v.push(Category::RustTarget);
        v.push(Category::NodeModules);
        v.push(Category::PythonCache);
        v.push(Category::PHPVendor);
        v.push(Category::RubyGems);
        v.push(Category::MavenTarget);
        v.push(Category::GradleBuild);
        v.push(Category::GoVendor);
        v.push(Category::CCache);
        v.push(Category::DotNetBuild);
        v.push(Category::SwiftBuild);
        v.push(Category::IDECache);
        v.push(Category::OSJunk);
        v.push(Category::TempFiles);
        v.push(Category::PackageCache);
        v.push(Category::BuildCache);
        proof {
            assert(v@ =~= spec_all_categories());
        }
        v
    }

    /// A dangerous category's deletion affects shared state beyond the
    /// scanned tree (global package caches).
    pub fn is_dangerous(&self) -> (r: bool)
        ensures
            r == (*self is PackageCache),
    {
        match self {
            Category::PackageCache => true,
            _ => false,
        }
    }
}

/// Display name of each category.
pub open spec fn spec_category_name(c: Category) -> Seq<char> {
    match c {
        Category::RustTarget => "Rust target"@,
        Category::NodeModules => "Node modules"@,
        Category::PythonCache => "Python cache"@,
        Category::PHPVendor => "PHP vendor"@,
        Category::RubyGems => "Ruby gems"@,
        Category::MavenTarget => "Maven target"@,
        Category::GradleBuild => "Gradle build"@,
        Category::GoVendor => "Go vendor"@,
        Category::CCache => "C/C++ cache"@,
        Category::DotNetBuild => ".NET build"@,
        Category::SwiftBuild => "Swift build"@,
        Category::IDECache => "IDE cache"@,
        Category::OSJunk => "OS junk"@,
        Category::TempFiles => "Temp/log files"@,
        Category::PackageCache => "Package cache"@,
        Category::BuildCache => "Build cache"@,
    }
}

/// The fixed order in which `Category::all` lists the categories.
pub open spec fn spec_all_categories() -> Seq<Category> {
    seq![
        Category::RustTarget,
        Category::NodeModules,
        Category::PythonCache,
        Category::PHPVendor,
        Category::RubyGems,
        Category::MavenTarget,
        Category::GradleBuild,
        Category::GoVendor,
        Category::CCache,
        Category::DotNetBuild,
        Category::SwiftBuild,
        Category::IDECache,
        Category::OSJunk,
        Category::TempFiles,
        Category::PackageCache,
        Category::BuildCache,
    ]
}

/// Category selectors as they appear on a command line, one per category.
#[derive(Debug, PartialEq, Eq, Structural, Clone, Copy)]
pub enum CategoryFilter {
    Rust,
    Node,
    Python,
    PHP,
    Ruby,
    JavaMaven,
    JavaGradle,
    Go,
    CCache,
    DotNet,
    Swift,
    IDE,
    OSJunk,
    Temp,
    PackageCache,
    Build,
}

/// The category that each filter selects.
pub open spec fn spec_filter_category(f: CategoryFilter) -> Category {
    match f {
        CategoryFilter::Rust => Category::RustTarget,
        CategoryFilter::Node => Category::NodeModules,
        CategoryFilter::Python => Category::PythonCache,
        CategoryFilter::PHP => Category::PHPVendor,
        CategoryFilter::Ruby => Category::RubyGems,
        CategoryFilter::JavaMaven => Category::MavenTarget,
        CategoryFilter::JavaGradle => Category::GradleBuild,
        CategoryFilter::Go => Category::GoVendor,
        CategoryFilter::CCache => Category::CCache,
        CategoryFilter::DotNet => Category::DotNetBuild,
        CategoryFilter::Swift => Category::SwiftBuild,
        CategoryFilter::IDE => Category::IDECache,
        CategoryFilter::OSJunk => Category::OSJunk,
        CategoryFilter::Temp => Category::TempFiles,
        CategoryFilter::PackageCache => Category::PackageCache,
        CategoryFilter::Build => Category::BuildCache,
    }
}

impl CategoryFilter {
    /// Map a command-line filter to the category it selects.
    pub fn to_category(&self) -> (r: Category)
        ensures
            r == spec_filter_category(*self),
    {
        match self {
            CategoryFilter::Rust => Category::RustTarget,
            CategoryFilter::Node => Category::NodeModules,
            CategoryFilter::Python => Category::PythonCache,
            CategoryFilter::PHP => Category::PHPVendor,
            CategoryFilter::Ruby => Category::RubyGems,
            CategoryFilter::JavaMaven => Category::MavenTarget,
            CategoryFilter::JavaGradle => Category::GradleBuild,
            CategoryFilter::Go => Category::GoVendor,
            CategoryFilter::CCache => Category::CCache,
            CategoryFilter::DotNet => Category::DotNetBuild,
            CategoryFilter::Swift => Category::SwiftBuild,
            CategoryFilter::IDE => Category::IDECache,
            CategoryFilter::OSJunk => Category::OSJunk,
            CategoryFilter::Temp => Category::TempFiles,
            CategoryFilter::PackageCache => Category::PackageCache,
            CategoryFilter::Build => Category::BuildCache,
        }
    }
}

/// Mathematical model of a [`DeletableItem`]: the same data over sequences
/// of characters.
pub struct ItemModel {
    pub path: Seq<char>,
    pub size: u64,
    pub category: Category,
    pub project_name: Seq<char>,
    pub last_modified: u64,
}

/// A deletable build artifact or cache entry found by a scan.
///
/// `path` is the entry's filesystem path, `size` its aggregated byte count,
/// `project_name` a label derived from the parent directory's name, and
/// `last_modified` a timestamp in whole seconds.
#[derive(Debug, Clone)]
pub struct DeletableItem {
    pub path: String,
    pub size: u64,
    pub category: Category,
    pub project_name: String,
    pub last_modified: u64,
}

impl View for DeletableItem {
    type V = ItemModel;

    open spec fn view(&self) -> ItemModel {
        ItemModel {
            path: self.path@,
            size: self.size,
            category: self.category,
            project_name: self.project_name@,
            last_modified: self.last_modified,
        }
    }
}

impl DeletableItem {
    /// Bundle the parts of a scan hit into an item.
    pub fn new(
        path: String,
        size: u64,
        category: Category,
        project_name: String,
        last_modified: u64,
    ) -> (r: DeletableItem)
        ensures
            r@ == (ItemModel {
                path: path@,
                size: size,
                category: category,
                project_name: project_name@,
                last_modified: last_modified,
            }),
    {
        DeletableItem { path, size, category, project_name, last_modified }
    }
}

/// The items of a scan as their mathematical models.
pub open spec fn spec_items_view(items: Seq<DeletableItem>) -> Seq<ItemModel> {
    items.map(|_i: int, it: DeletableItem| it@)
}

/// One recorded scan: its parameters, its moment, and what it found.
///
/// A record is reusable only while the parameters match a new request and
/// the record is younger than the validity window.
pub struct ScanCache {
    pub scan_path: String,
    pub scan_time: u64,
    pub items: Vec<DeletableItem>,
    pub max_depth: usize,
}

} // verus!

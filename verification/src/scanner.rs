//! The scan engine: a depth-bounded walk over a filesystem snapshot with
//! classification-driven pruning, and size aggregation over candidate
//! subtrees.
//!
//! The engine works on [`FsNode`] snapshots: a caller reads the tree once
//! (names, kinds, sizes, modification times) and the engine does the rest
//! verified.  Every entry below the root is classified; a match becomes a
//! candidate and its subtree is not entered again — matched directories
//! are opaque leaves, which keeps items from being counted twice.  Each
//! candidate's size is the sum of the regular-file bytes beneath it.

use vstd::prelude::*;
use vstd::string::*;
use crate::types::{Category, DeletableItem, ItemModel, spec_items_view};
use crate::classify::{EntryInfo, Markers, spec_classify, is_deletable};
use crate::utils::{str_eq, str_ends_with, spec_ends_with, get_project_name, spec_project_name};

verus! {

/// What a snapshot entry is.
pub enum FsNodeKind {
    /// A directory and its entries.
    Dir { children: Vec<FsNode> },
    /// A regular file and its byte length.
    File { size: u64 },
    /// Anything else: symlinks and special files, which size sums exclude.
    Special,
}

/// One entry of a filesystem snapshot.
pub struct FsNode {
    /// The entry's file name (last path component).
    pub name: String,
    /// What the entry is, with its contents or size.
    pub kind: FsNodeKind,
    /// Modification time in whole seconds, with the snapshot taker's
    /// fallback already applied where the real one was unreadable.
    pub mtime: u64,
}

/// Total bytes of regular files in the subtree rooted at `n`, itself
/// included when it is a file.
pub open spec fn spec_size_nat(n: FsNode) -> nat
    decreases n, 1int,
{
    match n.kind {
        FsNodeKind::Dir { children } => spec_children_size(children@),
        FsNodeKind::File { size } => size as nat,
        FsNodeKind::Special => 0,
    }
}

/// Total bytes of regular files in a sequence of subtrees.
pub open spec fn spec_children_size(cs: Seq<FsNode>) -> nat
    decreases cs, 0int,
{
    if cs.len() == 0 {
        0
    } else {
        spec_children_size(cs.drop_last()) + spec_size_nat(cs.last())
    }
}

/// A value clamped into `u64`.
pub open spec fn spec_sat_u64(v: nat) -> u64 {
    if v > u64::MAX {
        u64::MAX
    } else {
        v as u64
    }
}

/// Aggregate the size of one candidate: the byte lengths of every regular
/// file beneath it (or its own length for a plain file), saturating at
/// `u64::MAX`.
pub fn calculate_dir_size(node: &FsNode) -> (r: u64)
    ensures
        r == spec_sat_u64(spec_size_nat(*node)),
    decreases *node,
{
    match &node.kind {
        FsNodeKind::File { size } => *size,
        FsNodeKind::Special => 0,
        FsNodeKind::Dir { children } => {
            let n = children.len();
            let mut total: u64 = 0;
            let mut i: usize = 0;
            proof {
                assert(children@.take(0) =~= Seq::<FsNode>::empty());
            }
            while i < n
                invariant
                    n == children@.len(),
                    i <= n,
                    total == spec_sat_u64(spec_children_size(children@.take(i as int))),
                    node.kind == (FsNodeKind::Dir { children: *children }),
                decreases n - i,
            {
                let c: &FsNode = &children[i];
                proof {
                    assert(decreases_to!(*node => node.kind));
                    assert(decreases_to!(node.kind => node.kind->children));
                    assert(decreases_to!(node.kind->children => node.kind->children@));
                    assert(decreases_to!(node.kind->children@ => node.kind->children@[i as int]));
                    assert(node.kind->children@[i as int] == *c);
                    assert(decreases_to!(*node => *c));
                }
                let s = calculate_dir_size(c);
                total = total.saturating_add(s);
                proof {
                    assert(children@.take(i + 1).drop_last() =~= children@.take(i as int));
                    assert(children@.take(i + 1).last() == children@[i as int]);
                }
                i += 1;
            }
            proof {
                assert(children@.take(n as int) =~= children@);
            }
            total
        },
    }
}

/// Whether some entry of `cs` bears exactly the name `name`.
pub open spec fn spec_has_entry(cs: Seq<FsNode>, name: Seq<char>) -> bool {
    exists|i: int| 0 <= i < cs.len() && (#[trigger] cs[i].name)@ == name
}

/// Whether some entry of `cs` has a name ending in `suf`.
pub open spec fn spec_has_suffix_entry(cs: Seq<FsNode>, suf: Seq<char>) -> bool {
    exists|i: int| 0 <= i < cs.len() && spec_ends_with((#[trigger] cs[i].name)@, suf)
}

fn has_entry(cs: &Vec<FsNode>, name: &str) -> (r: bool)
    ensures
        r == spec_has_entry(cs@, name@),
{
    let n = cs.len();
    let mut i: usize = 0;
    while i < n
        invariant
            n == cs@.len(),
            i <= n,
            forall|j: int| 0 <= j < i ==> (#[trigger] cs@[j].name)@ != name@,
        decreases n - i,
    {
        if str_eq(cs[i].name.as_str(), name) {
            return true;
        }
        i += 1;
    }
    false
}

fn has_suffix_entry(cs: &Vec<FsNode>, suf: &str) -> (r: bool)
    ensures
        r == spec_has_suffix_entry(cs@, suf@),
{
    let n = cs.len();
    let mut i: usize = 0;
    while i < n
        invariant
            n == cs@.len(),
            i <= n,
            forall|j: int| 0 <= j < i ==> !spec_ends_with((#[trigger] cs@[j].name)@, suf@),
        decreases n - i,
    {
        if str_ends_with(cs[i].name.as_str(), suf) {
            return true;
        }
        i += 1;
    }
    false
}

/// The marker probes for the children of a directory whose entries are
/// `siblings`, the way the on-disk probes would answer them: each marker
/// asks whether an entry of a given name (or name suffix) exists beside
/// the classified one.  `grandparent_has_solution` is handed down from
/// the level above.
pub open spec fn spec_markers_of(siblings: Seq<FsNode>, gp_solution: bool) -> Markers {
    Markers {
        parent_has_cargo_toml: spec_has_entry(siblings, "Cargo.toml"@),
        parent_has_pom_xml: spec_has_entry(siblings, "pom.xml"@),
        parent_has_gradle_file: spec_has_entry(siblings, "build.gradle"@) || spec_has_entry(
            siblings,
            "build.gradle.kts"@,
        ),
        parent_has_composer_json: spec_has_entry(siblings, "composer.json"@),
        parent_has_go_manifest: spec_has_entry(siblings, "go.mod"@) || spec_has_entry(
            siblings,
            "go.sum"@,
        ),
        parent_has_dotnet_project: spec_has_suffix_entry(siblings, ".csproj"@)
            || spec_has_suffix_entry(siblings, ".vbproj"@) || spec_has_suffix_entry(
            siblings,
            ".fsproj"@,
        ),
        sibling_bin: spec_has_entry(siblings, "bin"@),
        sibling_obj: spec_has_entry(siblings, "obj"@),
        parent_has_package_swift: spec_has_entry(siblings, "Package.swift"@),
        parent_has_gemfile: spec_has_entry(siblings, "Gemfile"@) || spec_has_entry(
            siblings,
            "Gemfile.lock"@,
        ),
        grandparent_has_solution: gp_solution,
    }
}

/// Take the marker probes for the children of one directory.
pub fn markers_of(siblings: &Vec<FsNode>, gp_solution: bool) -> (r: Markers)
    ensures
        r == spec_markers_of(siblings@, gp_solution),
{
    Markers {
        parent_has_cargo_toml: has_entry(siblings, "Cargo.toml"),
        parent_has_pom_xml: has_entry(siblings, "pom.xml"),
        parent_has_gradle_file: has_entry(siblings, "build.gradle") || has_entry(
            siblings,
            "build.gradle.kts",
        ),
        parent_has_composer_json: has_entry(siblings, "composer.json"),
        parent_has_go_manifest: has_entry(siblings, "go.mod") || has_entry(siblings, "go.sum"),
        parent_has_dotnet_project: has_suffix_entry(siblings, ".csproj") || has_suffix_entry(
            siblings,
            ".vbproj",
        ) || has_suffix_entry(siblings, ".fsproj"),
        sibling_bin: has_entry(siblings, "bin"),
        sibling_obj: has_entry(siblings, "obj"),
        parent_has_package_swift: has_entry(siblings, "Package.swift"),
        parent_has_gemfile: has_entry(siblings, "Gemfile") || has_entry(siblings, "Gemfile.lock"),
        grandparent_has_solution: gp_solution,
    }
}

/// A child's path below its directory.
pub open spec fn spec_child_path(dir: Seq<char>, name: Seq<char>) -> Seq<char> {
    dir + "/"@ + name
}

fn join_path(dir: &str, name: &str) -> (r: String)
    ensures
        r@ == spec_child_path(dir@, name@),
{
    let mut s = dir.to_owned();
    s.append("/");
    s.append(name);
    s
}

/// The scan result for the first `n` children of a directory at
/// `dir_path`, in order: each child is classified against its siblings'
/// markers; a match yields one item and ends the descent there; an
/// unmatched directory is entered while the depth budget allows.
pub open spec fn spec_scan_children(
    dir_path: Seq<char>,
    children: Seq<FsNode>,
    n: int,
    gp_solution: bool,
    depth_left: nat,
) -> Seq<ItemModel>
    decreases children, n, 0int,
{
    if n <= 0 {
        Seq::empty()
    } else {
        spec_scan_children(dir_path, children, n - 1, gp_solution, depth_left)
            + spec_scan_one(dir_path, children, n - 1, gp_solution, depth_left)
    }
}

/// The scan result contributed by the child at index `i`: its own item if
/// it classifies, else the results from inside it if it is a directory
/// and the depth budget lets the scan go one level further.
pub open spec fn spec_scan_one(
    dir_path: Seq<char>,
    children: Seq<FsNode>,
    i: int,
    gp_solution: bool,
    depth_left: nat,
) -> Seq<ItemModel>
    decreases children, i, 1int,
{
    if 0 <= i < children.len() {
        let c = children[i];
        let p = spec_child_path(dir_path, c.name@);
        match spec_classify(c.name@, p, c.kind is Dir, spec_markers_of(children, gp_solution)) {
            Some(cat) => seq![
                ItemModel {
                    path: p,
                    size: spec_sat_u64(spec_size_nat(c)),
                    category: cat,
                    project_name: spec_project_name(p),
                    last_modified: c.mtime,
                },
            ],
            None => {
                if c.kind is Dir && depth_left >= 2 {
                    spec_scan_children(
                        p,
                        c.kind->children@,
                        c.kind->children@.len() as int,
                        spec_has_suffix_entry(children, ".sln"@),
                        (depth_left - 1) as nat,
                    )
                } else {
                    Seq::empty()
                }
            },
        }
    } else {
        Seq::empty()
    }
}

/// The whole scan: every entry strictly below the root, to `max_depth`
/// levels, with matched directories treated as opaque leaves.
/// `root_parent_solution` carries the one probe that looks above the
/// root (whether a `*.sln` lies beside it).
pub open spec fn spec_scan(
    root_path: Seq<char>,
    root: FsNode,
    max_depth: int,
    root_parent_solution: bool,
) -> Seq<ItemModel> {
    if root.kind is Dir && max_depth >= 1 {
        spec_scan_children(
            root_path,
            root.kind->children@,
            root.kind->children@.len() as int,
            root_parent_solution,
            max_depth as nat,
        )
    } else {
        Seq::empty()
    }
}

fn scan_children_into(
    dir_path: &str,
    children: &Vec<FsNode>,
    gp_solution: bool,
    depth_left: usize,
    out: &mut Vec<DeletableItem>,
)
    requires
        depth_left >= 1,
    ensures
        spec_items_view(final(out)@) == spec_items_view(old(out)@) + spec_scan_children(
            dir_path@,
            children@,
            children@.len() as int,
            gp_solution,
            depth_left as nat,
        ),
    decreases children@,
{
    let m: Markers = markers_of(children, gp_solution);
    let here_solution: bool = has_suffix_entry(children, ".sln");
    let n = children.len();
    let mut i: usize = 0;
    proof {
        assert(spec_items_view(out@) =~= spec_items_view(out@) + spec_scan_children(
            dir_path@,
            children@,
            0,
            gp_solution,
            depth_left as nat,
        ));
    }
    while i < n
        invariant
            n == children@.len(),
            i <= n,
            1 <= depth_left,
            m == spec_markers_of(children@, gp_solution),
            here_solution == spec_has_suffix_entry(children@, ".sln"@),
            spec_items_view(out@) == spec_items_view(old(out)@) + spec_scan_children(
                dir_path@,
                children@,
                i as int,
                gp_solution,
                depth_left as nat,
            ),
        decreases n - i,
    {
        let c: &FsNode = &children[i];
        let child_path: String = join_path(dir_path, c.name.as_str());
        let is_dir: bool = match &c.kind {
            FsNodeKind::Dir { .. } => true,
            _ => false,
        };
        let info = EntryInfo {
            name: c.name.clone(),
            path: child_path.clone(),
            is_dir,
            markers: m,
        };
        let ghost pre_out = out@;
        let ghost one = spec_scan_one(
            dir_path@,
            children@,
            i as int,
            gp_solution,
            depth_left as nat,
        );
        match is_deletable(&info) {
            Some(cat) => {
                let size = calculate_dir_size(c);
                let pname = get_project_name(child_path.as_str());
                let mtime = c.mtime;
                let item = DeletableItem::new(child_path, size, cat, pname, mtime);
                let ghost model = item@;
                out.push(item);
                proof {
                    assert(one =~= seq![model]);
                    assert(spec_items_view(out@) =~= spec_items_view(pre_out) + one);
                }
            },
            None => {
                match &c.kind {
                    FsNodeKind::Dir { children: gc } => {
                        if depth_left >= 2 {
                            proof {
                                assert(decreases_to!(children@ => children@[i as int]));
                                assert(decreases_to!(children@[i as int] => c.kind));
                                assert(decreases_to!(c.kind => c.kind->children));
                                assert(decreases_to!(c.kind->children => c.kind->children@));
                                assert(c.kind->children@ == gc@);
                                assert(decreases_to!(children@ => gc@));
                            }
                            scan_children_into(
                                child_path.as_str(),
                                gc,
                                here_solution,
                                depth_left - 1,
                                out,
                            );
                            proof {
                                assert(one == spec_scan_children(
                                    spec_child_path(dir_path@, children@[i as int].name@),
                                    gc@,
                                    gc@.len() as int,
                                    spec_has_suffix_entry(children@, ".sln"@),
                                    (depth_left - 1) as nat,
                                ));
                                assert(spec_items_view(out@) =~= spec_items_view(pre_out) + one);
                            }
                        } else {
                            proof {
                                assert(one =~= Seq::<ItemModel>::empty());
                                assert(spec_items_view(out@) =~= spec_items_view(pre_out) + one);
                            }
                        }
                    },
                    _ => {
                        proof {
                            assert(one =~= Seq::<ItemModel>::empty());
                            assert(spec_items_view(out@) =~= spec_items_view(pre_out) + one);
                        }
                    },
                }
            },
        }
        proof {
            assert(spec_scan_children(
                dir_path@,
                children@,
                i + 1,
                gp_solution,
                depth_left as nat,
            ) == spec_scan_children(
                dir_path@,
                children@,
                i as int,
                gp_solution,
                depth_left as nat,
            ) + one);
            assert(spec_items_view(out@) =~= spec_items_view(old(out)@) + spec_scan_children(
                dir_path@,
                children@,
                i + 1,
                gp_solution,
                depth_left as nat,
            ));
        }
        i += 1;
    }
}

/// `p` lies strictly below `q` in the path hierarchy: `p` starts with
/// `q` followed by a separator.
pub open spec fn spec_strict_descendant(p: Seq<char>, q: Seq<char>) -> bool {
    p.len() > q.len() && p.subrange(0, q.len() as int) == q && p[q.len() as int] == '/'
}

/// A usable entry name: non-empty and free of separators.
pub open spec fn spec_valid_name(n: Seq<char>) -> bool {
    n.len() > 0 && forall|i: int| 0 <= i < n.len() ==> n[i] != '/'
}

/// No two entries of one directory share a name.
pub open spec fn spec_distinct_names(cs: Seq<FsNode>) -> bool {
    forall|i: int, j: int|
        0 <= i < j < cs.len() ==> (#[trigger] cs[i].name)@ != (#[trigger] cs[j].name)@
}

/// A snapshot as a real directory tree delivers it: in every directory,
/// entry names are non-empty, separator-free and pairwise distinct.
pub open spec fn spec_wf_node(n: FsNode) -> bool
    decreases n,
{
    match n.kind {
        FsNodeKind::Dir { children } => {
            &&& spec_distinct_names(children@)
            &&& forall|i: int|
                0 <= i < children@.len() ==> spec_valid_name((#[trigger] children@[i]).name@)
            &&& forall|i: int|
                0 <= i < children@.len() ==> spec_wf_node(#[trigger] children@[i])
        },
        _ => true,
    }
}

/// Paths that both sit at or below sibling entries of different names
/// cannot be nested.
proof fn lemma_sibling_paths_not_nested(
    dp: Seq<char>,
    na: Seq<char>,
    nb: Seq<char>,
    p: Seq<char>,
    q: Seq<char>,
)
    requires
        spec_valid_name(na),
        spec_valid_name(nb),
        na != nb,
        p == spec_child_path(dp, na) || spec_strict_descendant(p, spec_child_path(dp, na)),
        q == spec_child_path(dp, nb) || spec_strict_descendant(q, spec_child_path(dp, nb)),
    ensures
        !spec_strict_descendant(p, q),
{
    reveal_strlit("/");
    let a = spec_child_path(dp, na);
    let b = spec_child_path(dp, nb);
    let la = a.len() as int;
    let lb = b.len() as int;
    let ld = dp.len() as int;
    assert(la == ld + 1 + na.len());
    assert(lb == ld + 1 + nb.len());
    assert(p.len() >= la && p.subrange(0, la) == a);
    assert(q.len() >= lb && q.subrange(0, lb) == b);
    assert(forall|k: int| 0 <= k < la ==> p[k] == a[k]) by {
        assert(forall|k: int| 0 <= k < la ==> p[k] == #[trigger] p.subrange(0, la)[k]);
    }
    assert(forall|k: int| 0 <= k < lb ==> q[k] == b[k]) by {
        assert(forall|k: int| 0 <= k < lb ==> q[k] == #[trigger] q.subrange(0, lb)[k]);
    }
    assert(forall|k: int| 0 <= k < na.len() ==> a[ld + 1 + k] == na[k]);
    assert(forall|k: int| 0 <= k < nb.len() ==> b[ld + 1 + k] == nb[k]);
    assert(a[ld] == '/');
    assert(b[ld] == '/');
    if spec_strict_descendant(p, q) {
        let lq = q.len() as int;
        assert(p.len() > lq && p.subrange(0, lq) == q && p[lq] == '/');
        assert(forall|k: int| 0 <= k < lq ==> p[k] == q[k]) by {
            assert(forall|k: int| 0 <= k < lq ==> p[k] == #[trigger] p.subrange(0, lq)[k]);
        }
        if na.len() == nb.len() {
            assert(forall|k: int| 0 <= k < la ==> a[k] == b[k]);
            assert(na =~= nb);
            assert(false);
        } else if na.len() < nb.len() {
            // The position right after `na` inside `p` is a separator on
            // the `a` side but a character of `nb` on the `q` side.
            assert(la < lb);
            assert(p.len() > lq >= lb > la);
            assert(p[la] == '/');
            assert(p[la] == q[la]);
            assert(q[la] == b[la]);
            assert(b[la] == nb[la - ld - 1]);
            assert(nb[la - ld - 1] != '/');
            assert(false);
        } else {
            // Symmetric: the position right after `nb` inside `p` carries
            // a character of `na`, yet the `q` side needs a separator.
            assert(lb < la);
            assert(p[lb] == a[lb]);
            assert(a[lb] == na[lb - ld - 1]);
            assert(na[lb - ld - 1] != '/');
            if lq == lb {
                assert(p[lq] == '/');
                assert(false);
            } else {
                assert(lq > lb);
                assert(q[lb] == '/');
                assert(p[lb] == q[lb]);
                assert(false);
            }
        }
    }
}

/// `p` is the path of `name`'s entry below `dp`, or lies below it.
spec fn spec_under_child(dp: Seq<char>, name: Seq<char>, p: Seq<char>) -> bool {
    p == spec_child_path(dp, name) || spec_strict_descendant(p, spec_child_path(dp, name))
}

/// `p` sits at or below one of the first `n` entries of `cs`.
spec fn spec_under_some(dp: Seq<char>, cs: Seq<FsNode>, n: int, p: Seq<char>) -> bool {
    exists|i: int| 0 <= i < n && spec_under_child(dp, (#[trigger] cs[i]).name@, p)
}

proof fn lemma_under_child_below(dp: Seq<char>, name: Seq<char>, p: Seq<char>)
    requires
        spec_under_child(dp, name, p),
    ensures
        spec_strict_descendant(p, dp),
{
    reveal_strlit("/");
    let cp = spec_child_path(dp, name);
    let ld = dp.len() as int;
    assert(cp[ld] == '/');
    if p == cp {
        assert(p.subrange(0, ld) =~= dp);
    } else {
        assert(forall|k: int| 0 <= k < cp.len() ==> p[k] == #[trigger] p.subrange(
            0,
            cp.len() as int,
        )[k]);
        assert(p.subrange(0, ld) =~= dp);
    }
}

/// Every item of a scan lies at or below one of the scanned children.
proof fn lemma_scan_paths_under(dp: Seq<char>, cs: Seq<FsNode>, n: int, g: bool, d: nat)
    requires
        0 <= n <= cs.len(),
    ensures
        forall|k: int|
            0 <= k < spec_scan_children(dp, cs, n, g, d).len() ==> spec_under_some(
                dp,
                cs,
                n,
                (#[trigger] spec_scan_children(dp, cs, n, g, d)[k]).path,
            ),
    decreases cs, n, 0int,
{
    if n > 0 {
        let r = spec_scan_children(dp, cs, n, g, d);
        let prefix = spec_scan_children(dp, cs, n - 1, g, d);
        let one = spec_scan_one(dp, cs, n - 1, g, d);
        lemma_scan_paths_under(dp, cs, n - 1, g, d);
        let c = cs[n - 1];
        let cp = spec_child_path(dp, c.name@);
        assert forall|k: int| 0 <= k < one.len() implies spec_under_child(
            dp,
            c.name@,
            one[k].path,
        ) by {
            if spec_classify(c.name@, cp, c.kind is Dir, spec_markers_of(cs, g)) is Some {
                assert(one[k].path == cp);
            } else {
                assert(c.kind is Dir && d >= 2);
                let gcs = c.kind->children@;
                lemma_scan_paths_under(
                    cp,
                    gcs,
                    gcs.len() as int,
                    spec_has_suffix_entry(cs, ".sln"@),
                    (d - 1) as nat,
                );
                let j = choose|j: int|
                    0 <= j < gcs.len() && spec_under_child(cp, gcs[j].name@, one[k].path);
                lemma_under_child_below(cp, gcs[j].name@, one[k].path);
            }
        }
        assert forall|k: int| 0 <= k < r.len() implies spec_under_some(dp, cs, n, r[k].path) by {
            if k < prefix.len() {
                assert(r[k] == prefix[k]);
                let i = choose|i: int|
                    0 <= i < n - 1 && spec_under_child(dp, cs[i].name@, prefix[k].path);
                assert(spec_under_child(dp, (cs[i]).name@, r[k].path));
            } else {
                assert(r[k] == one[k - prefix.len()]);
                assert(spec_under_child(dp, (cs[n - 1]).name@, r[k].path));
            }
        }
    }
}

/// No item of a scan lies below another: matched directories are opaque
/// leaves, and items below different siblings cannot nest.
proof fn lemma_scan_children_no_nesting(dp: Seq<char>, cs: Seq<FsNode>, n: int, g: bool, d: nat)
    requires
        0 <= n <= cs.len(),
        spec_distinct_names(cs),
        forall|i: int| 0 <= i < cs.len() ==> spec_valid_name((#[trigger] cs[i]).name@),
        forall|i: int| 0 <= i < cs.len() ==> spec_wf_node(#[trigger] cs[i]),
    ensures
        forall|x: int, y: int|
            0 <= x < spec_scan_children(dp, cs, n, g, d).len() && 0 <= y < spec_scan_children(
                dp,
                cs,
                n,
                g,
                d,
            ).len() && x != y ==> !spec_strict_descendant(
                (#[trigger] spec_scan_children(dp, cs, n, g, d)[x]).path,
                (#[trigger] spec_scan_children(dp, cs, n, g, d)[y]).path,
            ),
    decreases cs, n, 0int,
{
    if n > 0 {
        let r = spec_scan_children(dp, cs, n, g, d);
        let prefix = spec_scan_children(dp, cs, n - 1, g, d);
        let one = spec_scan_one(dp, cs, n - 1, g, d);
        lemma_scan_children_no_nesting(dp, cs, n - 1, g, d);
        lemma_scan_paths_under(dp, cs, n - 1, g, d);
        let c = cs[n - 1];
        let cp = spec_child_path(dp, c.name@);
        // Each new item sits at or below the child at `n - 1`.
        assert forall|k: int| 0 <= k < one.len() implies spec_under_child(
            dp,
            c.name@,
            one[k].path,
        ) by {
            if spec_classify(c.name@, cp, c.kind is Dir, spec_markers_of(cs, g)) is Some {
                assert(one[k].path == cp);
            } else {
                assert(c.kind is Dir && d >= 2);
                let gcs = c.kind->children@;
                lemma_scan_paths_under(
                    cp,
                    gcs,
                    gcs.len() as int,
                    spec_has_suffix_entry(cs, ".sln"@),
                    (d - 1) as nat,
                );
                let j = choose|j: int|
                    0 <= j < gcs.len() && spec_under_child(cp, gcs[j].name@, one[k].path);
                lemma_under_child_below(cp, gcs[j].name@, one[k].path);
            }
        }
        // The new items are pairwise unnested among themselves.
        if spec_classify(c.name@, cp, c.kind is Dir, spec_markers_of(cs, g)) is None && c.kind
            is Dir && d >= 2 {
            assert(spec_wf_node(c));
            lemma_scan_children_no_nesting(
                cp,
                c.kind->children@,
                c.kind->children@.len() as int,
                spec_has_suffix_entry(cs, ".sln"@),
                (d - 1) as nat,
            );
        }
        assert forall|x: int, y: int|
            0 <= x < r.len() && 0 <= y < r.len() && x != y implies !spec_strict_descendant(
            r[x].path,
            r[y].path,
        ) by {
            let pl = prefix.len() as int;
            if x < pl && y < pl {
                assert(r[x] == prefix[x] && r[y] == prefix[y]);
            } else if x >= pl && y >= pl {
                assert(r[x] == one[x - pl] && r[y] == one[y - pl]);
            } else if x < pl {
                assert(r[x] == prefix[x] && r[y] == one[y - pl]);
                let i = choose|i: int|
                    0 <= i < n - 1 && spec_under_child(dp, cs[i].name@, prefix[x].path);
                assert(cs[i].name@ != c.name@);
                lemma_sibling_paths_not_nested(dp, cs[i].name@, c.name@, r[x].path, r[y].path);
            } else {
                assert(r[y] == prefix[y] && r[x] == one[x - pl]);
                let i = choose|i: int|
                    0 <= i < n - 1 && spec_under_child(dp, cs[i].name@, prefix[y].path);
                assert(cs[i].name@ != c.name@);
                lemma_sibling_paths_not_nested(dp, c.name@, cs[i].name@, r[x].path, r[y].path);
            }
        }
    }
}

/// The pruning invariant: no scan item's path lies strictly below another
/// scan item's path.  In particular, once a directory is classified as
/// deletable, nothing inside it appears in the result — matched
/// directories are opaque leaves, so nothing is counted twice.
///
/// It holds of every snapshot a real directory tree can produce: one in
/// which sibling names are non-empty, separator-free and distinct.
pub proof fn lemma_scan_pruning(
    root_path: Seq<char>,
    root: FsNode,
    max_depth: int,
    root_parent_solution: bool,
)
    requires
        spec_wf_node(root),
    ensures
        forall|x: int, y: int|
            0 <= x < spec_scan(root_path, root, max_depth, root_parent_solution).len() && 0 <= y
                < spec_scan(root_path, root, max_depth, root_parent_solution).len() && x != y
                ==> !spec_strict_descendant(
                (#[trigger] spec_scan(root_path, root, max_depth, root_parent_solution)[x]).path,
                (#[trigger] spec_scan(root_path, root, max_depth, root_parent_solution)[y]).path,
            ),
{
    if root.kind is Dir && max_depth >= 1 {
        let children = root.kind->children@;
        lemma_scan_children_no_nesting(
            root_path,
            children,
            children.len() as int,
            root_parent_solution,
            max_depth as nat,
        );
    }
}

/// Every scan item lies strictly below the scanned root: the scan never
/// reports the root itself, nor anything outside it.
pub proof fn lemma_scan_items_below_root(
    root_path: Seq<char>,
    root: FsNode,
    max_depth: int,
    root_parent_solution: bool,
)
    ensures
        forall|k: int|
            0 <= k < spec_scan(root_path, root, max_depth, root_parent_solution).len()
                ==> spec_strict_descendant(
                (#[trigger] spec_scan(root_path, root, max_depth, root_parent_solution)[k]).path,
                root_path,
            ),
{
    if root.kind is Dir && max_depth >= 1 {
        let children = root.kind->children@;
        let r = spec_scan(root_path, root, max_depth, root_parent_solution);
        lemma_scan_paths_under(
            root_path,
            children,
            children.len() as int,
            root_parent_solution,
            max_depth as nat,
        );
        assert forall|k: int| 0 <= k < r.len() implies spec_strict_descendant(
            r[k].path,
            root_path,
        ) by {
            let i = choose|i: int|
                0 <= i < children.len() && spec_under_child(
                    root_path,
                    children[i].name@,
                    r[k].path,
                );
            lemma_under_child_below(root_path, children[i].name@, r[k].path);
        }
    }
}

/// Scan a snapshot: walk the tree below `root` (itself at `root_path`),
/// bounded by `max_depth` levels, classify every visited entry, prune at
/// matches, and return the dated, sized, categorised items.
///
/// A root that is not a directory yields nothing; callers reject such a
/// request before snapshotting.  `root_parent_has_solution` reports
/// whether a `*.sln` file lies beside the root, the one probe that looks
/// outside the snapshot.
pub fn scan_directory(
    root_path: &str,
    root: &FsNode,
    max_depth: usize,
    root_parent_has_solution: bool,
) -> (r: Vec<DeletableItem>)
    ensures
        spec_items_view(r@) == spec_scan(
            root_path@,
            *root,
            max_depth as int,
            root_parent_has_solution,
        ),
{
    let mut out: Vec<DeletableItem> = Vec::new();
    if max_depth == 0 {
        proof {
            assert(spec_items_view(out@) =~= Seq::<ItemModel>::empty());
        }
        return out;
    }
    match &root.kind {
        FsNodeKind::Dir { children } => {
            scan_children_into(root_path, children, root_parent_has_solution, max_depth, &mut out);
            proof {
                assert(spec_items_view(out@) =~= Seq::<ItemModel>::empty() + spec_scan_children(
                    root_path@,
                    children@,
                    children@.len() as int,
                    root_parent_has_solution,
                    max_depth as nat,
                ));
                assert(spec_items_view(out@) =~= spec_scan(
                    root_path@,
                    *root,
                    max_depth as int,
                    root_parent_has_solution,
                ));
            }
        },
        _ => {
            proof {
                assert(spec_items_view(out@) =~= Seq::<ItemModel>::empty());
            }
        },
    }
    out
}

/// Whether a detected category satisfies an index query's intent.  A
/// query for the shared `vendor` name accepts all three vendor-folder
/// categories; every other query accepts exactly its own category.
pub open spec fn spec_category_agrees(query: Category, detected: Category) -> bool {
    match query {
        Category::GoVendor => detected == Category::GoVendor || detected == Category::PHPVendor
            || detected == Category::RubyGems,
        _ => detected == query,
    }
}

/// No ancestor snapshot classifies as deletable.
pub open spec fn spec_ancestors_clear(ancestors: Seq<EntryInfo>) -> bool {
    forall|i: int|
        0 <= i < ancestors.len() ==> spec_classify(
            (#[trigger] ancestors[i]).name@,
            ancestors[i].path@,
            ancestors[i].is_dir,
            ancestors[i].markers,
        ) is None
}

/// What re-validating one raw index hit yields: the detected category of
/// a directory that sits under the root, agrees with the query, and is
/// not nested inside another deletable directory; `None` discards it.
pub open spec fn spec_validate_hit(
    root: Seq<char>,
    query: Category,
    name: Seq<char>,
    path: Seq<char>,
    is_dir: bool,
    m: Markers,
    ancestors: Seq<EntryInfo>,
) -> Option<Category> {
    if !(path == root || spec_strict_descendant(path, root)) {
        None
    } else if !is_dir {
        None
    } else {
        match spec_classify(name, path, is_dir, m) {
            None => None,
            Some(detected) => {
                if !spec_category_agrees(query, detected) {
                    None
                } else if !spec_ancestors_clear(ancestors) {
                    None
                } else {
                    Some(detected)
                }
            },
        }
    }
}

/// Whether `p` equals `root` or lies strictly below it.
fn path_is_under(p: &str, root: &str) -> (r: bool)
    ensures
        r == (p@ == root@ || spec_strict_descendant(p@, root@)),
{
    let np: usize = p.unicode_len();
    let nr: usize = root.unicode_len();
    if np == nr {
        return str_eq(p, root);
    }
    if np < nr {
        proof {
            assert(p@ != root@);
        }
        return false;
    }
    if p.get_char(nr) != '/' {
        return false;
    }
    let mut i: usize = 0;
    while i < nr
        invariant
            np == p@.len(),
            nr == root@.len(),
            nr < np,
            i <= nr,
            forall|j: int| 0 <= j < i ==> p@[j] == root@[j],
        decreases nr - i,
    {
        if p.get_char(i) != root.get_char(i) {
            proof {
                assert(p@.subrange(0, nr as int)[i as int] == p@[i as int]);
            }
            return false;
        }
        i += 1;
    }
    proof {
        assert(p@.subrange(0, nr as int) =~= root@);
    }
    true
}

/// Re-validate one raw hit of an index-backed scan.
///
/// An index answers a name query with paths it believes to match; each
/// hit is advisory only.  The hit is accepted when it still resolves
/// under the scanned root, still is a directory, the classifier detects a
/// category for it that agrees with the query's intent, and no ancestor
/// between the root and the hit is itself deletable (the walking scan's
/// pruning would never have entered one).  The detected category — not
/// the query's — is what the accepted hit carries.
///
/// `ancestors` holds snapshots of the hit's proper ancestors strictly
/// below the root, in any order.
pub fn validate_index_hit(
    root_path: &str,
    query_category: Category,
    hit: &EntryInfo,
    ancestors: &Vec<EntryInfo>,
) -> (r: Option<Category>)
    ensures
        r == spec_validate_hit(
            root_path@,
            query_category,
            hit.name@,
            hit.path@,
            hit.is_dir,
            hit.markers,
            ancestors@,
        ),
{
    if !path_is_under(hit.path.as_str(), root_path) {
        return None;
    }
    if !hit.is_dir {
        return None;
    }
    let detected = match is_deletable(hit) {
        None => {
            return None;
        },
        Some(d) => d,
    };
    let agrees = match query_category {
        Category::GoVendor => match detected {
            Category::GoVendor => true,
            Category::PHPVendor => true,
            Category::RubyGems => true,
            _ => false,
        },
        _ => detected == query_category,
    };
    if !agrees {
        return None;
    }
    let n = ancestors.len();
    let mut i: usize = 0;
    while i < n
        invariant
            n == ancestors@.len(),
            i <= n,
            forall|j: int|
                0 <= j < i ==> spec_classify(
                    (#[trigger] ancestors@[j]).name@,
                    ancestors@[j].path@,
                    ancestors@[j].is_dir,
                    ancestors@[j].markers,
                ) is None,
        decreases n - i,
    {
        match is_deletable(&ancestors[i]) {
            Some(_) => {
                return None;
            },
            None => {},
        }
        i += 1;
    }
    Some(detected)
}

/// The items of at least `min` bytes, in order.
pub open spec fn spec_filter_min_size(items: Seq<ItemModel>, min: u64) -> Seq<ItemModel>
    decreases items.len(),
{
    if items.len() == 0 {
        Seq::empty()
    } else {
        let rest = spec_filter_min_size(items.drop_first(), min);
        if items.first().size >= min {
            seq![items.first()] + rest
        } else {
            rest
        }
    }
}

/// Keep only the items whose size reaches the threshold, preserving order.
pub fn filter_by_min_size(items: Vec<DeletableItem>, min_size: u64) -> (r: Vec<DeletableItem>)
    ensures
        spec_items_view(r@) == spec_filter_min_size(spec_items_view(items@), min_size),
{
    let ghost all: Seq<ItemModel> = spec_items_view(items@);
    let mut rest: Vec<DeletableItem> = items;
    let mut out: Vec<DeletableItem> = Vec::new();
    proof {
        assert(spec_items_view(out@) =~= Seq::<ItemModel>::empty());
        assert(spec_filter_min_size(all, min_size) =~= spec_items_view(out@)
            + spec_filter_min_size(spec_items_view(rest@), min_size));
    }
    while rest.len() > 0
        invariant
            spec_filter_min_size(all, min_size) == spec_items_view(out@) + spec_filter_min_size(
                spec_items_view(rest@),
                min_size,
            ),
        decreases rest@.len(),
    {
        let ghost pre_rest = rest@;
        let ghost pre_out = out@;
        let it = rest.remove(0);
        proof {
            assert(spec_items_view(pre_rest).first() == it@);
            assert(spec_items_view(pre_rest).drop_first() =~= spec_items_view(rest@));
        }
        if it.size >= min_size {
            out.push(it);
            proof {
                assert(spec_items_view(out@) =~= spec_items_view(pre_out) + seq![
                    spec_items_view(pre_rest).first(),
                ]);
                assert(spec_items_view(pre_out) + spec_filter_min_size(
                    spec_items_view(pre_rest),
                    min_size,
                ) =~= spec_items_view(out@) + spec_filter_min_size(
                    spec_items_view(rest@),
                    min_size,
                ));
            }
        }
    }
    proof {
        assert(spec_items_view(rest@) =~= Seq::<ItemModel>::empty());
        assert(spec_filter_min_size(all, min_size) =~= spec_items_view(out@));
    }
    out
}

/// The items whose category is among `selected`, in order.
pub open spec fn spec_filter_categories(
    items: Seq<ItemModel>,
    selected: Seq<Category>,
) -> Seq<ItemModel>
    decreases items.len(),
{
    if items.len() == 0 {
        Seq::empty()
    } else {
        let rest = spec_filter_categories(items.drop_first(), selected);
        if selected.contains(items.first().category) {
            seq![items.first()] + rest
        } else {
            rest
        }
    }
}

fn category_selected(selected: &Vec<Category>, c: Category) -> (r: bool)
    ensures
        r == selected@.contains(c),
{
    let n = selected.len();
    let mut i: usize = 0;
    while i < n
        invariant
            n == selected@.len(),
            i <= n,
            forall|j: int| 0 <= j < i ==> selected@[j] != c,
        decreases n - i,
    {
        if selected[i] == c {
            return true;
        }
        i += 1;
    }
    false
}

/// Keep only the items of the selected categories, preserving order.
pub fn filter_by_categories(items: Vec<DeletableItem>, selected: &Vec<Category>) -> (r: Vec<
    DeletableItem,
>)
    ensures
        spec_items_view(r@) == spec_filter_categories(spec_items_view(items@), selected@),
{
    let ghost all: Seq<ItemModel> = spec_items_view(items@);
    let mut rest: Vec<DeletableItem> = items;
    let mut out: Vec<DeletableItem> = Vec::new();
    proof {
        assert(spec_items_view(out@) =~= Seq::<ItemModel>::empty());
        assert(spec_filter_categories(all, selected@) =~= spec_items_view(out@)
            + spec_filter_categories(spec_items_view(rest@), selected@));
    }
    while rest.len() > 0
        invariant
            spec_filter_categories(all, selected@) == spec_items_view(out@)
                + spec_filter_categories(spec_items_view(rest@), selected@),
        decreases rest@.len(),
    {
        let ghost pre_rest = rest@;
        let ghost pre_out = out@;
        let it = rest.remove(0);
        proof {
            assert(spec_items_view(pre_rest).first() == it@);
            assert(spec_items_view(pre_rest).drop_first() =~= spec_items_view(rest@));
        }
        if category_selected(selected, it.category) {
            out.push(it);
            proof {
                assert(spec_items_view(out@) =~= spec_items_view(pre_out) + seq![
                    spec_items_view(pre_rest).first(),
                ]);
                assert(spec_items_view(pre_out) + spec_filter_categories(
                    spec_items_view(pre_rest),
                    selected@,
                ) =~= spec_items_view(out@) + spec_filter_categories(
                    spec_items_view(rest@),
                    selected@,
                ));
            }
        }
    }
    proof {
        assert(spec_items_view(rest@) =~= Seq::<ItemModel>::empty());
        assert(spec_filter_categories(all, selected@) =~= spec_items_view(out@));
    }
    out
}

} // verus!

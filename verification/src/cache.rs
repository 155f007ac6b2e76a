//! Scan-result cache validity and reuse rules.
//!
//! A single record holds the last scan's parameters, moment and items.
//! The record may answer a new request only when the requested path and
//! depth match exactly and the record is younger than the validity window;
//! items whose paths have meanwhile vanished from disk are dropped.
//! Reading and writing the record's on-disk form, and probing which paths
//! still exist, happen outside the library and hand plain values in.

use vstd::prelude::*;
use crate::types::{DeletableItem, ItemModel, ScanCache, spec_items_view};
use crate::utils::str_eq;

verus! {

/// How long a scan record stays reusable, in seconds (5 minutes).
pub const CACHE_VALIDITY_SECONDS: u64 = 300;

/// When a record answers a request: the stored path and depth equal the
/// requested ones, and the record is no older than the validity window.
/// A record from the future (clock moved back) counts as fresh.
pub open spec fn spec_cache_valid(
    scan_path: Seq<char>,
    scan_time: u64,
    max_depth: int,
    req_path: Seq<char>,
    req_depth: int,
    now: u64,
) -> bool {
    &&& scan_path == req_path
    &&& max_depth == req_depth
    &&& (now < scan_time || now - scan_time <= CACHE_VALIDITY_SECONDS)
}

/// The stored items restricted to those still present on disk, in order.
pub open spec fn spec_filter_items(items: Seq<ItemModel>, present: Seq<bool>) -> Seq<ItemModel>
    decreases items.len(),
{
    if items.len() == 0 {
        Seq::empty()
    } else {
        let rest = spec_filter_items(items.drop_first(), present.drop_first());
        if present.first() {
            seq![items.first()] + rest
        } else {
            rest
        }
    }
}

/// What loading yields: the present items of a valid record, nothing of an
/// invalid one.
pub open spec fn spec_load(
    scan_path: Seq<char>,
    scan_time: u64,
    max_depth: int,
    items: Seq<ItemModel>,
    req_path: Seq<char>,
    req_depth: int,
    now: u64,
    present: Seq<bool>,
) -> Option<Seq<ItemModel>> {
    if spec_cache_valid(scan_path, scan_time, max_depth, req_path, req_depth, now) {
        Some(spec_filter_items(items, present))
    } else {
        None
    }
}

/// Build the record of a completed scan: the parameters, the moment, and
/// the items, verbatim.  Persisting the record is the caller's concern and
/// best-effort; a failure to persist only costs the next reuse.
pub fn save_cache(scan_path: &str, max_depth: usize, items: Vec<DeletableItem>, now: u64) -> (r:
    ScanCache)
    ensures
        r.scan_path@ == scan_path@,
        r.scan_time == now,
        r.max_depth == max_depth,
        r.items@ == items@,
{
    ScanCache { scan_path: scan_path.to_owned(), scan_time: now, items, max_depth }
}

/// Decide whether a stored record answers a request for `(scan_path,
/// max_depth)` at time `now`, and hand back its still-present items if so.
///
/// `present_on_disk` reports, for each stored item in order, whether its
/// path still exists.  A mismatched path or depth, or a record older than
/// the validity window, yields `None`; the caller then scans afresh.
pub fn load_cache(
    record: ScanCache,
    scan_path: &str,
    max_depth: usize,
    now: u64,
    present_on_disk: &Vec<bool>,
) -> (r: Option<Vec<DeletableItem>>)
    requires
        present_on_disk@.len() == record.items@.len(),
    ensures
        match r {
            Some(v) => spec_load(
                record.scan_path@,
                record.scan_time,
                record.max_depth as int,
                spec_items_view(record.items@),
                scan_path@,
                max_depth as int,
                now,
                present_on_disk@,
            ) == Some(spec_items_view(v@)),
            None => spec_load(
                record.scan_path@,
                record.scan_time,
                record.max_depth as int,
                spec_items_view(record.items@),
                scan_path@,
                max_depth as int,
                now,
                present_on_disk@,
            ) is None,
        },
{
    if !str_eq(record.scan_path.as_str(), scan_path) {
        return None;
    }
    if record.max_depth != max_depth {
        return None;
    }
    if now >= record.scan_time && now - record.scan_time > CACHE_VALIDITY_SECONDS {
        return None;
    }
    let ghost all_items: Seq<ItemModel> = spec_items_view(record.items@);
    let ghost all_flags: Seq<bool> = present_on_disk@;
    let total: usize = present_on_disk.len();
    let mut items: Vec<DeletableItem> = record.items;
    let mut out: Vec<DeletableItem> = Vec::new();
    let mut k: usize = 0;
    proof {
        assert(all_flags.skip(0) =~= all_flags);
        assert(spec_items_view(out@) =~= Seq::<ItemModel>::empty());
        assert(spec_filter_items(all_items, all_flags) =~= spec_items_view(out@)
            + spec_filter_items(spec_items_view(items@), all_flags.skip(0)));
    }
    while items.len() > 0
        invariant
            all_flags == present_on_disk@,
            all_flags.len() == total,
            k + items@.len() == all_flags.len(),
            spec_filter_items(all_items, all_flags) == spec_items_view(out@) + spec_filter_items(
                spec_items_view(items@),
                all_flags.skip(k as int),
            ),
        decreases items@.len(),
    {
        let ghost pre_items = items@;
        let ghost pre_out = out@;
        let it = items.remove(0);
        let keep = present_on_disk[k];
        proof {
            assert(all_flags.skip(k as int).first() == keep);
            assert(spec_items_view(pre_items).first() == it@);
            assert(spec_items_view(pre_items).drop_first() =~= spec_items_view(items@));
            assert(all_flags.skip(k as int).drop_first() =~= all_flags.skip(k + 1));
        }
        if keep {
            out.push(it);
            proof {
                assert(spec_items_view(out@) =~= spec_items_view(pre_out) + seq![it@]);
                assert(spec_items_view(pre_out) + spec_filter_items(
                    spec_items_view(pre_items),
                    all_flags.skip(k as int),
                ) =~= spec_items_view(out@) + spec_filter_items(
                    spec_items_view(items@),
                    all_flags.skip(k + 1),
                ));
            }
        }
        k += 1;
    }
    proof {
        assert(spec_items_view(items@) =~= Seq::<ItemModel>::empty());
        assert(spec_filter_items(spec_items_view(items@), all_flags.skip(k as int))
            =~= Seq::<ItemModel>::empty());
        assert(spec_filter_items(all_items, all_flags) =~= spec_items_view(out@));
    }
    Some(out)
}

/// Filtering by an all-true presence map changes nothing: a record whose
/// items all still exist is handed back verbatim.
pub proof fn lemma_filter_all_present(items: Seq<ItemModel>, present: Seq<bool>)
    requires
        present.len() == items.len(),
        forall|i: int| 0 <= i < present.len() ==> present[i],
    ensures
        spec_filter_items(items, present) == items,
    decreases items.len(),
{
    if items.len() > 0 {
        lemma_filter_all_present(items.drop_first(), present.drop_first());
        assert(seq![items.first()] + items.drop_first() =~= items);
    }
}

/// Round trip: a record saved for `(path, depth)` and loaded for the same
/// parameters within the validity window yields its item set filtered by
/// presence on disk alone — no other transformation.
pub proof fn lemma_save_load_round_trip(
    path: Seq<char>,
    depth: int,
    items: Seq<ItemModel>,
    saved_at: u64,
    loaded_at: u64,
    present: Seq<bool>,
)
    requires
        saved_at <= loaded_at,
        loaded_at - saved_at <= CACHE_VALIDITY_SECONDS,
    ensures
        spec_load(path, saved_at, depth, items, path, depth, loaded_at, present) == Some(
            spec_filter_items(items, present),
        ),
{
}

} // verus!

use gigabroom::cache::{load_cache, save_cache, CACHE_VALIDITY_SECONDS};
use gigabroom::types::{Category, DeletableItem};

fn item(name: &str, size: u64) -> DeletableItem {
    DeletableItem::new(
        format!("/w/{}", name),
        size,
        Category::RustTarget,
        "w".to_string(),
        500,
    )
}

#[test]
fn test_save_cache_records_parameters() {
    let rec = save_cache("/w", 10, vec![item("a", 1), item("b", 2)], 12345);
    assert_eq!(rec.scan_path, "/w");
    assert_eq!(rec.max_depth, 10);
    assert_eq!(rec.scan_time, 12345);
    assert_eq!(rec.items.len(), 2);
    assert_eq!(rec.items[1].path, "/w/b");
}

#[test]
fn test_load_rejects_parameter_mismatch() {
    // A record for another path or depth is never served, even when its
    // items would otherwise be valid.
    let rec = save_cache("/w", 10, vec![item("a", 1)], 1000);
    assert!(load_cache(rec, "/other", 10, 1000, &vec![true]).is_none());

    let rec = save_cache("/w", 10, vec![item("a", 1)], 1000);
    assert!(load_cache(rec, "/w", 9, 1000, &vec![true]).is_none());

    let rec = save_cache("/w", 10, vec![item("a", 1)], 1000);
    assert!(load_cache(rec, "/w", 10, 1000, &vec![true]).is_some());
}

#[test]
fn test_load_validity_window_boundary() {
    // 299 seconds after the scan the record is still fresh, with its item
    // count unchanged; past the 300-second window it is stale.
    let rec = save_cache("/w", 10, vec![item("a", 1), item("b", 2)], 1000);
    let served = load_cache(rec, "/w", 10, 1000 + 299, &vec![true, true]).unwrap();
    assert_eq!(served.len(), 2);

    let rec = save_cache("/w", 10, vec![item("a", 1), item("b", 2)], 1000);
    assert_eq!(CACHE_VALIDITY_SECONDS, 300);
    let at_bound = load_cache(rec, "/w", 10, 1000 + 300, &vec![true, true]);
    assert!(at_bound.is_some());

    let rec = save_cache("/w", 10, vec![item("a", 1), item("b", 2)], 1000);
    assert!(load_cache(rec, "/w", 10, 1000 + 301, &vec![true, true]).is_none());
}

#[test]
fn test_load_with_clock_before_scan_time() {
    // A record seemingly from the future is not discarded.
    let rec = save_cache("/w", 10, vec![item("a", 1)], 5000);
    assert!(load_cache(rec, "/w", 10, 4000, &vec![true]).is_some());
}

#[test]
fn test_load_filters_vanished_items() {
    // Of three cached items, one path was deleted externally: exactly the
    // two surviving items come back, in order.
    let rec = save_cache("/w", 10, vec![item("a", 1), item("b", 2), item("c", 3)], 1000);
    let served = load_cache(rec, "/w", 10, 1100, &vec![true, false, true]).unwrap();
    assert_eq!(served.len(), 2);
    assert_eq!(served[0].path, "/w/a");
    assert_eq!(served[1].path, "/w/c");
    assert_eq!(served[1].size, 3);
}

#[test]
fn test_save_load_round_trip() {
    // Saving and immediately loading with the same parameters returns the
    // item set filtered by existence alone, with every field intact.
    let items = vec![item("a", 10), item("b", 20), item("c", 30)];
    let rec = save_cache("/w", 7, items, 2000);
    let served = load_cache(rec, "/w", 7, 2000, &vec![true, true, true]).unwrap();
    assert_eq!(served.len(), 3);
    assert_eq!(served[0].path, "/w/a");
    assert_eq!(served[0].size, 10);
    assert_eq!(served[0].category, Category::RustTarget);
    assert_eq!(served[0].project_name, "w");
    assert_eq!(served[0].last_modified, 500);
    assert_eq!(served[2].path, "/w/c");
}

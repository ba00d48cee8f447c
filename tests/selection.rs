use age_sweep::path::FsPath;
use age_sweep::timestamp::{cutoff_instant, entry_timestamp, is_old_enough};
use age_sweep::tree::{collect_entries, collect_nested, find_files_to_delete, CollectedFile, Entry, ScanError};

const DAY_NANOS: u128 = 86_400 * 1_000_000_000;
const SECOND: u128 = 1_000_000_000;
const NOW: u128 = 1_700_000_000 * SECOND;

fn p(text: &str) -> FsPath {
    let absolute = text.starts_with('/');
    let parts = text.split('/').filter(|s| !s.is_empty()).map(|s| s.to_string()).collect();
    FsPath::new(absolute, parts)
}

fn file(path: &str, size: u64, created: Option<u128>, modified: Option<u128>) -> Entry {
    Entry { path: p(path), is_dir: false, size, created, modified, children: Vec::new() }
}

fn dir(path: &str, children: Vec<Entry>) -> Entry {
    Entry { path: p(path), is_dir: true, size: 4096, created: Some(0), modified: Some(0), children }
}

fn names(files: &[CollectedFile]) -> Vec<String> {
    files.iter().map(|f| f.path.parts.last().unwrap().clone()).collect()
}

#[test]
fn cutoff_subtracts_whole_days() {
    assert_eq!(cutoff_instant(NOW, 30), Some(NOW - 30 * DAY_NANOS));
    assert_eq!(cutoff_instant(NOW, 0), Some(NOW));
    assert_eq!(cutoff_instant(DAY_NANOS, 1), Some(0));
}

#[test]
fn cutoff_before_epoch_is_refused() {
    assert_eq!(cutoff_instant(DAY_NANOS - 1, 1), None);
    assert_eq!(cutoff_instant(NOW, u64::MAX), None);
}

#[test]
fn creation_time_preferred_then_modification_time() {
    assert_eq!(entry_timestamp(Some(5), Some(9)), Some(5));
    assert_eq!(entry_timestamp(None, Some(9)), Some(9));
    assert_eq!(entry_timestamp(None, None), None);
}

#[test]
fn old_enough_is_inclusive() {
    assert!(is_old_enough(10, 10));
    assert!(is_old_enough(9, 10));
    assert!(!is_old_enough(11, 10));
}

#[test]
fn age_boundary_inclusive_and_one_second_younger_excluded() {
    let cutoff = NOW - 30 * DAY_NANOS;
    let listing = vec![
        file("/r/exact.txt", 1, Some(cutoff), None),
        file("/r/younger.txt", 2, Some(cutoff + SECOND), None),
    ];
    let found = find_files_to_delete(&listing, NOW, 30).unwrap();
    assert_eq!(names(&found), vec!["exact.txt".to_string()]);
    assert_eq!(found[0].size, 1);
}

#[test]
fn modification_time_used_without_creation_time() {
    let cutoff = NOW - 30 * DAY_NANOS;
    let listing = vec![file("/r/old.txt", 7, None, Some(cutoff - DAY_NANOS))];
    let found = find_files_to_delete(&listing, NOW, 30).unwrap();
    assert_eq!(names(&found), vec!["old.txt".to_string()]);
}

#[test]
fn recursive_aggregation_selects_only_old_files() {
    let old = Some(NOW - 40 * DAY_NANOS);
    let new = Some(NOW - DAY_NANOS);
    let listing = vec![
        dir("/root/sub", vec![
            file("/root/sub/b.txt", 20, old, old),
            file("/root/sub/c.txt", 30, new, new),
        ]),
        file("/root/a.txt", 10, old, old),
    ];
    let found = find_files_to_delete(&listing, NOW, 30).unwrap();
    assert_eq!(names(&found), vec!["a.txt".to_string(), "b.txt".to_string()]);
    assert!(found[1].path.same_as(&p("/root/sub/b.txt")));
    assert_eq!(found[1].size, 20);
}

#[test]
fn young_file_does_not_change_selection() {
    let old = Some(NOW - 40 * DAY_NANOS);
    let new = Some(NOW - DAY_NANOS);
    let without = vec![file("/r/a.txt", 1, old, old)];
    let with = vec![file("/r/a.txt", 1, old, old), file("/r/n.txt", 1, new, new)];
    let cutoff = NOW - 30 * DAY_NANOS;
    let a = collect_entries(&without, cutoff).unwrap();
    let b = collect_entries(&with, cutoff).unwrap();
    assert_eq!(names(&a), names(&b));
}

#[test]
fn files_first_then_subdirectories_in_listing_order() {
    let old = Some(0);
    let listing = vec![
        dir("/r/d1", vec![file("/r/d1/x", 1, old, None)]),
        file("/r/f1", 1, old, None),
        dir("/r/d2", vec![dir("/r/d2/e", vec![file("/r/d2/e/y", 1, old, None)])]),
        file("/r/f2", 1, old, None),
    ];
    let found = collect_entries(&listing, 10).unwrap();
    assert_eq!(names(&found), vec!["f1", "f2", "x", "y"]);
    let nested = collect_nested(&listing, 10).unwrap();
    assert_eq!(names(&nested), vec!["x", "y"]);
}

#[test]
fn empty_directory_selects_nothing() {
    let found = find_files_to_delete(&Vec::new(), NOW, 30).unwrap();
    assert!(found.is_empty());
}

#[test]
fn missing_timestamp_is_an_error_even_deep_in_the_tree() {
    let listing = vec![
        file("/r/a", 1, Some(0), None),
        dir("/r/d", vec![file("/r/d/bad", 1, None, None)]),
    ];
    assert_eq!(find_files_to_delete(&listing, NOW, 30).err(), Some(ScanError::MissingTimestamp));
    assert!(collect_entries(&listing, 10).is_none());
}

#[test]
fn directory_without_timestamps_is_not_judged() {
    let mut d = dir("/r/d", Vec::new());
    d.created = None;
    d.modified = None;
    let found = find_files_to_delete(&vec![d], NOW, 30).unwrap();
    assert!(found.is_empty());
}

#[test]
fn age_before_epoch_is_an_error() {
    let listing = vec![file("/r/a", 1, Some(0), None)];
    assert_eq!(find_files_to_delete(&listing, DAY_NANOS, 2).err(), Some(ScanError::CutoffBeforeEpoch));
}

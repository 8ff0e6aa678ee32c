use mjai_reviewer_service::eviction::budget_in_bytes;
use mjai_reviewer_service::eviction::delete_oldest_files;
use mjai_reviewer_service::eviction::eviction_apply;
use mjai_reviewer_service::eviction::eviction_should_stop;
use mjai_reviewer_service::eviction::sort_files_by_age;
use mjai_reviewer_service::eviction::FileEntry;
use mjai_reviewer_service::fsmodel::get_folder_size;
use mjai_reviewer_service::fsmodel::FsNode;

fn file(size: u64) -> FsNode {
    FsNode::File { size }
}

fn dir(entries: Vec<FsNode>) -> FsNode {
    FsNode::Dir { entries }
}

fn entry(id: u64, size: u64, created: u64) -> FileEntry {
    FileEntry { id, size, created }
}

#[test]
fn test_get_folder_size_empty() {
    let size = get_folder_size(&dir(vec![]));
    assert_eq!(size, 0);
}

#[test]
fn test_get_folder_size_with_files() {
    // one file holding "123456": 6 bytes
    let tree = dir(vec![file(6)]);
    assert_eq!(get_folder_size(&tree), 6);
}

#[test]
fn flat_directory_size_is_sum() {
    let tree = dir(vec![file(1), file(2), file(3), file(10)]);
    assert_eq!(get_folder_size(&tree), 16);
}

#[test]
fn nested_directory_counts_subdirectory_files() {
    let sub = dir(vec![file(5), file(7)]);
    let tree = dir(vec![file(3), sub, file(4)]);
    assert_eq!(get_folder_size(&tree), 19);
}

#[test]
fn huge_directory_size_saturates() {
    let tree = dir(vec![file(u64::MAX), file(u64::MAX)]);
    assert_eq!(get_folder_size(&tree), u64::MAX);
}

#[test]
fn sort_orders_by_creation_time() {
    let files = vec![entry(0, 10, 300), entry(1, 20, 100), entry(2, 30, 200)];
    let sorted = sort_files_by_age(&files);
    let ids: Vec<u64> = sorted.iter().map(|e| e.id).collect();
    assert_eq!(ids, vec![1, 2, 0]);
}

#[test]
fn sort_breaks_ties_by_listing_position() {
    let files = vec![entry(0, 1, 50), entry(1, 2, 50), entry(2, 3, 40)];
    let sorted = sort_files_by_age(&files);
    let ids: Vec<u64> = sorted.iter().map(|e| e.id).collect();
    assert_eq!(ids, vec![2, 0, 1]);
}

#[test]
fn missing_timestamp_sorts_oldest() {
    // created == 0 stands for an unreadable creation time
    let files = vec![entry(0, 1, 900), entry(1, 1, 0)];
    let sorted = sort_files_by_age(&files);
    assert_eq!(sorted[0].id, 1);
}

#[test]
fn test_delete_oldest_files() {
    // old.txt: 10 bytes ("1234567890"), created first; new.txt: 6 bytes
    // ("abcdef"), created later; a zero budget forces both out.
    let listing = vec![entry(0, 10, 1000), entry(1, 6, 1010)];
    let sorted = sort_files_by_age(&listing);
    let outcome = delete_oldest_files(&sorted, 16, 0, &vec![true, true]);
    assert_eq!(outcome.total, 0);
}

#[test]
fn zero_budget_deletes_oldest_before_newest() {
    // old.txt (10 bytes, created at T) before new.txt (6 bytes, T + 10)
    let listing = vec![entry(1, 6, 1010), entry(0, 10, 1000)];
    let sorted = sort_files_by_age(&listing);
    let outcome = delete_oldest_files(&sorted, 16, 0, &vec![true, true]);
    assert_eq!(outcome.deleted, vec![0, 1]);
    assert_eq!(outcome.total, 0);
}

#[test]
fn eviction_stops_once_under_budget() {
    // 4 MB in four files against a 3 MB budget: exactly the two oldest go,
    // because the pass only stops once usage is strictly below the target.
    let mb = 1048576;
    let listing = vec![
        entry(0, mb, 40),
        entry(1, mb, 10),
        entry(2, mb, 30),
        entry(3, mb, 20),
    ];
    let sorted = sort_files_by_age(&listing);
    let outcome = delete_oldest_files(&sorted, 4 * mb, 3, &vec![true, true, true, true]);
    assert_eq!(outcome.deleted, vec![1, 3]);
    assert_eq!(outcome.total, 2 * mb);
}

#[test]
fn eviction_under_budget_deletes_nothing() {
    let listing = vec![entry(0, 100, 10), entry(1, 200, 20)];
    let sorted = sort_files_by_age(&listing);
    let outcome = delete_oldest_files(&sorted, 300, 1, &vec![true, true]);
    assert_eq!(outcome.deleted, Vec::<u64>::new());
    assert_eq!(outcome.total, 300);
}

#[test]
fn eviction_skips_failed_deletions() {
    let listing = vec![entry(0, 10, 10), entry(1, 6, 20)];
    let outcome = delete_oldest_files(&listing, 16, 0, &vec![false, true]);
    assert_eq!(outcome.deleted, vec![1]);
    assert_eq!(outcome.total, 10);
}

#[test]
fn eviction_with_all_failures_changes_nothing() {
    let listing = vec![entry(0, 10, 10), entry(1, 6, 20)];
    let outcome = delete_oldest_files(&listing, 16, 0, &vec![false, false]);
    assert_eq!(outcome.deleted, Vec::<u64>::new());
    assert_eq!(outcome.total, 16);
}

#[test]
fn eviction_total_saturates_at_zero() {
    // recorded sizes can exceed the scanned total under concurrent writes
    let listing = vec![entry(0, 100, 10)];
    let outcome = delete_oldest_files(&listing, 40, 0, &vec![true]);
    assert_eq!(outcome.total, 0);
}

#[test]
fn second_pass_after_success_deletes_nothing() {
    let listing = vec![entry(0, 8, 1), entry(1, 8, 2), entry(2, 8, 3)];
    let first = delete_oldest_files(&listing, 24, 0, &vec![true, true, true]);
    assert_eq!(first.deleted.len(), 3);
    let again = delete_oldest_files(&Vec::new(), first.total, 0, &Vec::new());
    assert_eq!(again.deleted, Vec::<u64>::new());
    assert_eq!(again.total, first.total);
}

#[test]
fn budget_conversion_and_step_helpers() {
    assert_eq!(budget_in_bytes(100), 104857600);
    assert!(eviction_should_stop(99, 100));
    assert!(!eviction_should_stop(100, 100));
    assert_eq!(eviction_apply(100, 30, true), 70);
    assert_eq!(eviction_apply(100, 30, false), 100);
    assert_eq!(eviction_apply(10, 30, true), 0);
}

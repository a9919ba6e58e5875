use reclaim::model::CleanupItemReport;
use reclaim::model::Status;
use reclaim::summary::percent_of;
use reclaim::summary::summarize;

fn item(id: &str, category: &str, bytes: u64, files: u64, status: Status, drive: Option<&str>) -> CleanupItemReport {
    CleanupItemReport {
        id: String::from(id),
        title: String::from(id),
        category: String::from(category),
        risk: String::from("low"),
        total_bytes: bytes,
        file_count: files,
        status,
        message: None,
        drive: drive.map(String::from),
    }
}

#[test]
fn buckets_partition_the_totals() {
    let items = vec![
        item("a", "Apps", 100, 1, Status::Okay, Some("C:")),
        item("b", "System", 300, 2, Status::Okay, Some("D:")),
        item("c", "Apps", 50, 1, Status::Partial, Some("C:")),
        item("d", "System", 999, 9, Status::Blocked, Some("C:")),
    ];
    let s = summarize(&items);
    assert_eq!(s.total_bytes, 450);
    assert_eq!(s.total_files, 4);
    let cat_bytes: u64 = s.by_category.iter().map(|b| b.bytes).sum();
    let cat_files: u64 = s.by_category.iter().map(|b| b.files).sum();
    assert_eq!(cat_bytes, 450);
    assert_eq!(cat_files, 4);
    // Sorted descending by bytes.
    assert_eq!(s.by_category[0].key, "System");
    assert_eq!(s.by_category[0].bytes, 300);
    assert_eq!(s.by_category[1].key, "Apps");
    assert_eq!(s.by_category[1].bytes, 150);
    // Whole-percent shares of the total.
    assert_eq!(s.by_category[0].percent, 66);
    assert_eq!(s.by_category[1].percent, 33);
}

#[test]
fn drive_buckets_skip_items_without_a_volume() {
    let items = vec![
        item("a", "Apps", 100, 1, Status::Okay, Some("C:")),
        item("b", "Apps", 60, 1, Status::Okay, None),
    ];
    let s = summarize(&items);
    // The volume-less item still counts toward the totals.
    assert_eq!(s.total_bytes, 160);
    assert_eq!(s.by_drive.len(), 1);
    assert_eq!(s.by_drive[0].key, "C:");
    assert_eq!(s.by_drive[0].bytes, 100);
}

#[test]
fn only_ok_and_partial_items_contribute() {
    let items = vec![
        item("a", "Apps", 10, 1, Status::Missing, None),
        item("b", "Apps", 20, 1, Status::Error, None),
        item("c", "Apps", 40, 1, Status::Unknown, None),
        item("d", "Apps", 80, 1, Status::Unsupported, None),
    ];
    let s = summarize(&items);
    assert_eq!(s.total_bytes, 0);
    assert_eq!(s.total_files, 0);
    assert_eq!(s.by_category.len(), 0);
}

#[test]
fn a_zero_total_yields_zero_percent() {
    let items = vec![item("a", "Apps", 0, 0, Status::Okay, None)];
    let s = summarize(&items);
    assert_eq!(s.total_bytes, 0);
    assert_eq!(s.by_category.len(), 1);
    assert_eq!(s.by_category[0].percent, 0);
}

#[test]
fn ties_keep_discovery_order() {
    let items = vec![
        item("a", "First", 100, 1, Status::Okay, None),
        item("b", "Second", 100, 1, Status::Okay, None),
        item("c", "Third", 200, 1, Status::Okay, None),
    ];
    let s = summarize(&items);
    assert_eq!(s.by_category[0].key, "Third");
    assert_eq!(s.by_category[1].key, "First");
    assert_eq!(s.by_category[2].key, "Second");
}

#[test]
fn percent_is_rounded_down_and_never_undefined() {
    assert_eq!(percent_of(0, 0), 0);
    assert_eq!(percent_of(1, 1000), 0);
    assert_eq!(percent_of(50, 100), 50);
    assert_eq!(percent_of(999, 1000), 99);
    assert_eq!(percent_of(1000, 1000), 100);
}

#[test]
fn categories_merge_across_items() {
    let items = vec![
        item("a", "Apps", 1, 1, Status::Okay, None),
        item("b", "Apps", 2, 1, Status::Okay, None),
        item("c", "Apps", 4, 1, Status::Partial, None),
    ];
    let s = summarize(&items);
    assert_eq!(s.by_category.len(), 1);
    assert_eq!(s.by_category[0].bytes, 7);
    assert_eq!(s.by_category[0].files, 3);
    assert_eq!(s.by_category[0].percent, 100);
}

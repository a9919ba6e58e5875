use reclaim::thresholds::age_threshold_secs;
use reclaim::thresholds::should_count;
use reclaim::thresholds::size_threshold_bytes;

const NOW: u64 = 1_700_000_000;
const DAY: u64 = 86_400;

#[test]
fn absent_thresholds_never_exclude() {
    assert!(should_count(0, Some(NOW), NOW, None, None));
    assert!(should_count(u64::MAX, None, NOW, None, None));
}

#[test]
fn size_threshold_is_inclusive() {
    assert!(should_count(1024, Some(NOW), NOW, Some(1024), None));
    assert!(!should_count(1023, Some(NOW), NOW, Some(1024), None));
}

#[test]
fn age_threshold_is_inclusive() {
    let week = 7 * DAY;
    assert!(should_count(1, Some(NOW - week), NOW, None, Some(week)));
    assert!(!should_count(1, Some(NOW - week + 1), NOW, None, Some(week)));
}

#[test]
fn both_thresholds_apply_independently() {
    let week = 7 * DAY;
    assert!(should_count(2048, Some(NOW - 10 * DAY), NOW, Some(1), Some(week)));
    assert!(!should_count(0, Some(NOW - 10 * DAY), NOW, Some(1), Some(week)));
    assert!(!should_count(2048, Some(NOW - DAY), NOW, Some(1), Some(week)));
}

#[test]
fn unreadable_or_future_timestamps_pass_the_age_test() {
    // Fail-open by design: an age that cannot be computed never excludes.
    assert!(should_count(1, None, NOW, None, Some(DAY)));
    assert!(should_count(1, Some(NOW + 50), NOW, None, Some(DAY)));
}

#[test]
fn derives_byte_and_second_thresholds() {
    assert_eq!(size_threshold_bytes(Some(5)), Some(5 * 1024 * 1024));
    assert_eq!(size_threshold_bytes(Some(0)), Some(0));
    assert_eq!(size_threshold_bytes(Some(-1)), None);
    assert_eq!(size_threshold_bytes(None), None);
    assert_eq!(age_threshold_secs(Some(7)), Some(7 * DAY));
    assert_eq!(age_threshold_secs(Some(-3)), None);
    assert_eq!(age_threshold_secs(None), None);
}

#[test]
fn huge_configured_thresholds_saturate() {
    assert_eq!(size_threshold_bytes(Some(i64::MAX)), Some(u64::MAX));
    assert_eq!(age_threshold_secs(Some(i64::MAX)), Some(u64::MAX));
}

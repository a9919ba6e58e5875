use reclaim::text::drive_from_path;
use reclaim::text::is_blank;
use reclaim::text::normalize_path;
use reclaim::text::normalize_pattern;
use reclaim::text::u64_to_string;

#[test]
fn normalizes_backslashes() {
    assert_eq!(normalize_path("a\\b\\c.txt"), "a/b/c.txt");
    assert_eq!(normalize_path("a/b"), "a/b");
    assert_eq!(normalize_path(""), "");
}

#[test]
fn normalizes_patterns_the_same_way() {
    assert_eq!(normalize_pattern("cache\\*.tmp"), "cache/*.tmp");
}

#[test]
fn extracts_a_drive_letter() {
    assert_eq!(drive_from_path("C:\\Windows"), Some(String::from("C:")));
    assert_eq!(drive_from_path("d:/stuff"), Some(String::from("d:")));
    assert_eq!(drive_from_path("/tmp"), None);
    assert_eq!(drive_from_path(""), None);
    assert_eq!(drive_from_path("C"), None);
}

#[test]
fn blank_test_matches_trim_semantics() {
    assert!(is_blank(""));
    assert!(is_blank("   \t\r\n"));
    assert!(!is_blank(" a "));
}

#[test]
fn renders_decimals() {
    assert_eq!(u64_to_string(0), "0");
    assert_eq!(u64_to_string(7), "7");
    assert_eq!(u64_to_string(42), "42");
    assert_eq!(u64_to_string(1234567890), "1234567890");
    assert_eq!(u64_to_string(u64::MAX), "18446744073709551615");
}

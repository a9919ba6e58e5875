use reclaim::matcher::pattern_match;
use reclaim::walk::pattern_pass;
use reclaim::walk::rel_path;

#[test]
fn matches_a_simple_glob() {
    assert!(pattern_match("*.tmp", "a.tmp"));
    assert!(!pattern_match("*.tmp", "a.log"));
}

#[test]
fn separator_style_does_not_change_the_outcome() {
    assert!(pattern_match("cache/*.tmp", "cache/foo.tmp"));
    assert!(pattern_match("cache/*.tmp", "cache\\foo.tmp"));
    assert!(pattern_match("cache\\*.tmp", "cache/foo.tmp"));
    assert!(!pattern_match("cache/*.tmp", "other\\foo.tmp"));
}

#[test]
fn a_malformed_pattern_matches_everything() {
    // Fail-open by design: a pattern that does not compile must not block
    // the rest of the rule's walk.
    assert!(pattern_match("a**b", "zzz"));
    assert!(pattern_match("[", "anything"));
}

#[test]
fn wildcards_cross_separators_under_default_options() {
    assert!(pattern_match("*.tmp", "sub/a.tmp"));
    assert!(pattern_match("**/*.tmp", "sub/a.tmp"));
    assert!(!pattern_match("*.tmp", "sub/a.tmp.bak"));
}

#[test]
fn relative_paths_strip_the_base() {
    assert_eq!(rel_path("/b/x/y.txt", "/b"), Some(String::from("x/y.txt")));
    assert_eq!(rel_path("C:\\T\\f.log", "C:\\T"), Some(String::from("f.log")));
    assert_eq!(rel_path("/b/x", "/b/"), Some(String::from("x")));
    assert_eq!(rel_path("/elsewhere/x", "/b"), None);
}

#[test]
fn pattern_pass_tests_the_relative_path() {
    let pat = Some(String::from("*.log"));
    assert!(pattern_pass(&pat, "/base/x.log", "/base"));
    assert!(!pattern_pass(&pat, "/base/x.tmp", "/base"));
    // A path outside the base cannot be filtered.
    assert!(pattern_pass(&pat, "/other/x.tmp", "/base"));
    // No pattern admits everything.
    assert!(pattern_pass(&None, "/base/x.tmp", "/base"));
}

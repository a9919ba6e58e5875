use reclaim::model::Action;
use reclaim::model::Rule;
use reclaim::model::RuleType;
use reclaim::model::ScanOptions;
use reclaim::model::Status;
use reclaim::scan::scan_request;
use reclaim::scan::scan_rule;
use reclaim::scan::scan_rules;
use reclaim::scan::ScanObservation;
use reclaim::scan::ScanRequest;
use reclaim::walk::BaseStatus;
use reclaim::walk::FileMeta;
use reclaim::walk::WalkItem;

const NOW: u64 = 1_700_000_000;
const DAY: u64 = 86_400;

fn rule(rule_type: RuleType) -> Rule {
    Rule {
        id: String::from("r1"),
        title: String::from("Temp files"),
        description: String::from("old temp files"),
        category: String::from("System"),
        risk: String::from("low"),
        default_checked: true,
        requires_admin: false,
        rule_type,
        scope: String::from("user"),
        path: Some(String::from("%TEMP%")),
        pattern: Some(String::from("*.log")),
        size_threshold_mb: Some(0),
        age_threshold_days: Some(7),
        action: Action::Delete,
        tool_cmd: None,
        enabled: true,
        sort_order: 1,
        notes: None,
    }
}

fn env() -> Vec<(String, String)> {
    vec![(String::from("TEMP"), String::from("/tmp/t"))]
}

fn file(path: &str, size: u64, age_secs: u64) -> WalkItem {
    WalkItem::Entry {
        path: String::from(path),
        is_file: true,
        meta: Some(FileMeta { size, mtime_secs: Some(NOW - age_secs) }),
    }
}

#[test]
fn scans_a_pattern_rule_over_a_directory() {
    // One ten-day-old 2 KB log counts; one day-old 5 KB log does not.
    let entries = vec![
        file("/tmp/t/old.log", 2048, 10 * DAY),
        file("/tmp/t/new.log", 5120, 1 * DAY),
    ];
    let obs = ScanObservation::Walked(BaseStatus::IsDir(entries));
    let r = scan_rule(&rule(RuleType::Pattern), &env(), &obs, NOW, false);
    assert_eq!(r.total_bytes, 2048);
    assert_eq!(r.file_count, 1);
    assert_eq!(r.status, Status::Okay);
    assert!(!r.blocked);
}

#[test]
fn blocked_rules_scan_to_nothing() {
    let mut blocked = rule(RuleType::Pattern);
    blocked.requires_admin = true;
    let r = scan_rule(&blocked, &env(), &ScanObservation::NotGathered, NOW, false);
    assert_eq!(r.status, Status::Blocked);
    assert!(r.blocked);
    assert_eq!(r.total_bytes, 0);
    assert_eq!(r.file_count, 0);
    assert_eq!(
        r.blocked_reason,
        Some(String::from("Requires administrator privileges"))
    );
}

#[test]
fn an_admin_caller_is_not_blocked() {
    let mut gated = rule(RuleType::Pattern);
    gated.requires_admin = true;
    let obs = ScanObservation::Walked(BaseStatus::IsDir(Vec::new()));
    let r = scan_rule(&gated, &env(), &obs, NOW, true);
    assert_eq!(r.status, Status::Okay);
}

#[test]
fn a_rule_without_a_path_is_missing_path() {
    let mut pathless = rule(RuleType::Path);
    pathless.path = None;
    let r = scan_rule(&pathless, &env(), &ScanObservation::NotGathered, NOW, false);
    assert_eq!(r.status, Status::MissingPath);
    assert_eq!(r.total_bytes, 0);
}

#[test]
fn an_absent_base_is_missing() {
    let obs = ScanObservation::Walked(BaseStatus::Missing);
    let r = scan_rule(&rule(RuleType::Path), &env(), &obs, NOW, false);
    assert_eq!(r.status, Status::Missing);
}

#[test]
fn registry_and_tool_rules_are_not_scannable() {
    let r = scan_rule(
        &rule(RuleType::Registry),
        &env(),
        &ScanObservation::NotGathered,
        NOW,
        false,
    );
    assert_eq!(r.status, Status::Unsupported);
    let r2 = scan_rule(
        &rule(RuleType::Special),
        &env(),
        &ScanObservation::NotGathered,
        NOW,
        false,
    );
    assert_eq!(r2.status, Status::Unsupported);
}

#[test]
fn a_single_file_base_skips_the_pattern() {
    // The pattern would reject the base, but a literal file target is
    // evaluated directly against the thresholds alone.
    let obs = ScanObservation::Walked(BaseStatus::IsFile(Some(FileMeta {
        size: 4096,
        mtime_secs: Some(NOW - 30 * DAY),
    })));
    let r = scan_rule(&rule(RuleType::Path), &env(), &obs, NOW, false);
    assert_eq!(r.total_bytes, 4096);
    assert_eq!(r.file_count, 1);
    assert_eq!(r.status, Status::Okay);
}

#[test]
fn residue_scans_total_each_candidate_walk() {
    let mut residue = rule(RuleType::AppResidue);
    residue.pattern = None;
    residue.size_threshold_mb = None;
    residue.age_threshold_days = None;
    let subdir = WalkItem::Entry { path: String::from("/pf/Old2/sub"), is_file: false, meta: None };
    let dirs = vec![
        vec![file("/pf/Old/a.bin", 100, 200 * DAY)],
        vec![file("/pf/Old2/b.bin", 250, 300 * DAY), subdir],
    ];
    let obs = ScanObservation::ResidueDirs(dirs);
    let r = scan_rule(&residue, &env(), &obs, NOW, false);
    assert_eq!(r.total_bytes, 350);
    assert_eq!(r.file_count, 2);
    assert_eq!(r.status, Status::Okay);
}

#[test]
fn walk_errors_make_a_scan_partial() {
    // The unreadable entry does not abort the walk, but the result must not
    // pass as complete.
    let entries = vec![
        file("/tmp/t/old.log", 2048, 10 * DAY),
        WalkItem::Unreadable,
    ];
    let obs = ScanObservation::Walked(BaseStatus::IsDir(entries));
    let r = scan_rule(&rule(RuleType::Pattern), &env(), &obs, NOW, false);
    assert_eq!(r.total_bytes, 2048);
    assert_eq!(r.file_count, 1);
    assert_eq!(r.status, Status::Partial);
}

#[test]
fn a_failed_metadata_fetch_makes_a_scan_partial() {
    // A pattern-admitted file whose metadata failed contributes nothing and
    // marks the walk partial.
    let broken = WalkItem::Entry { path: String::from("/tmp/t/x.log"), is_file: true, meta: None };
    let obs = ScanObservation::Walked(BaseStatus::IsDir(vec![broken]));
    let r = scan_rule(&rule(RuleType::Pattern), &env(), &obs, NOW, false);
    assert_eq!(r.total_bytes, 0);
    assert_eq!(r.file_count, 0);
    assert_eq!(r.status, Status::Partial);
    // One the pattern rejects cannot have been filtered on metadata, so its
    // failed fetch is no error.
    let rejected = WalkItem::Entry { path: String::from("/tmp/t/x.tmp"), is_file: true, meta: None };
    let obs2 = ScanObservation::Walked(BaseStatus::IsDir(vec![rejected]));
    let r2 = scan_rule(&rule(RuleType::Pattern), &env(), &obs2, NOW, false);
    assert_eq!(r2.status, Status::Okay);
}

#[test]
fn an_unreadable_single_file_base_is_partial() {
    let obs = ScanObservation::Walked(BaseStatus::IsFile(None));
    let r = scan_rule(&rule(RuleType::Path), &env(), &obs, NOW, false);
    assert_eq!(r.total_bytes, 0);
    assert_eq!(r.file_count, 0);
    assert_eq!(r.status, Status::Partial);
}

#[test]
fn a_residue_walk_error_makes_the_scan_partial() {
    let mut residue = rule(RuleType::AppResidue);
    residue.pattern = None;
    residue.size_threshold_mb = None;
    residue.age_threshold_days = None;
    let dirs = vec![
        vec![file("/pf/Old/a.bin", 100, 200 * DAY)],
        vec![WalkItem::Unreadable],
    ];
    let obs = ScanObservation::ResidueDirs(dirs);
    let r = scan_rule(&residue, &env(), &obs, NOW, false);
    assert_eq!(r.total_bytes, 100);
    assert_eq!(r.file_count, 1);
    assert_eq!(r.status, Status::Partial);
}

#[test]
fn scan_requests_carry_the_expanded_base() {
    match scan_request(&rule(RuleType::Pattern), &env(), false) {
        ScanRequest::WalkBase(p) => assert_eq!(p, "/tmp/t"),
        _ => panic!("expected a walk request"),
    }
    match scan_request(&rule(RuleType::Registry), &env(), false) {
        ScanRequest::NothingNeeded => {}
        _ => panic!("expected no observation"),
    }
    match scan_request(&rule(RuleType::AppResidue), &env(), false) {
        ScanRequest::ResidueWalk => {}
        _ => panic!("expected a residue walk"),
    }
}

#[test]
fn scan_rules_reports_each_rule_in_order() {
    let mut blocked = rule(RuleType::Pattern);
    blocked.id = String::from("r2");
    blocked.requires_admin = true;
    let rules = vec![rule(RuleType::Pattern), blocked];
    let observations = vec![
        ScanObservation::Walked(BaseStatus::IsDir(vec![file("/tmp/t/a.log", 10, 30 * DAY)])),
        ScanObservation::NotGathered,
    ];
    let out = scan_rules(&rules, &env(), &observations, &ScanOptions { is_admin: false }, NOW);
    assert_eq!(out.len(), 2);
    assert_eq!(out[0].id, "r1");
    assert_eq!(out[0].total_bytes, 10);
    assert_eq!(out[0].status, Status::Okay);
    assert_eq!(out[1].id, "r2");
    assert_eq!(out[1].status, Status::Blocked);
}

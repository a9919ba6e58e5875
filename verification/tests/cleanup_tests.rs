use reclaim::cleanup::clean_request;
use reclaim::cleanup::cleanup_path_rule;
use reclaim::cleanup::cleanup_path_targets;
use reclaim::cleanup::cleanup_registry_rule;
use reclaim::cleanup::cleanup_residue_rule;
use reclaim::cleanup::cleanup_rule;
use reclaim::cleanup::cleanup_rules;
use reclaim::cleanup::cleanup_tool_rule;
use reclaim::cleanup::CleanObservation;
use reclaim::cleanup::CleanRequest;
use reclaim::cleanup::ResidueCleanup;
use reclaim::cleanup::ToolOutcome;
use reclaim::model::Action;
use reclaim::model::CleanupOptions;
use reclaim::model::Rule;
use reclaim::model::RuleType;
use reclaim::model::Status;
use reclaim::walk::BaseStatus;
use reclaim::walk::FileMeta;
use reclaim::walk::WalkItem;

const NOW: u64 = 1_700_000_000;
const DAY: u64 = 86_400;

fn rule(rule_type: RuleType, action: Action) -> Rule {
    Rule {
        id: String::from("r1"),
        title: String::from("Temp files"),
        description: String::from("old temp files"),
        category: String::from("System"),
        risk: String::from("low"),
        default_checked: true,
        requires_admin: false,
        rule_type,
        scope: String::from("user"),
        path: Some(String::from("%TEMP%")),
        pattern: Some(String::from("*.log")),
        size_threshold_mb: Some(0),
        age_threshold_days: Some(7),
        action,
        tool_cmd: None,
        enabled: true,
        sort_order: 1,
        notes: None,
    }
}

fn env() -> Vec<(String, String)> {
    vec![(String::from("TEMP"), String::from("C:\\T"))]
}

fn file(path: &str, size: u64, age_secs: u64) -> WalkItem {
    WalkItem::Entry {
        path: String::from(path),
        is_file: true,
        meta: Some(FileMeta { size, mtime_secs: Some(NOW - age_secs) }),
    }
}

#[test]
fn cleans_a_directory_and_reports_the_totals() {
    let entries = vec![
        file("C:\\T\\old.log", 2048, 10 * DAY),
        file("C:\\T\\new.log", 5120, 1 * DAY),
    ];
    let base = BaseStatus::IsDir(entries);
    let results = vec![true];
    let r = cleanup_path_rule(&rule(RuleType::Pattern, Action::Delete), &env(), &base, &results, NOW);
    assert_eq!(r.total_bytes, 2048);
    assert_eq!(r.file_count, 1);
    assert_eq!(r.status, Status::Okay);
    assert_eq!(r.drive, Some(String::from("C:")));
    assert_eq!(r.message, None);
    assert_eq!(r.id, "r1");
    assert_eq!(r.category, "System");
}

#[test]
fn a_failed_action_makes_the_pass_partial() {
    let entries = vec![file("C:\\T\\old.log", 2048, 10 * DAY)];
    let base = BaseStatus::IsDir(entries);
    let results = vec![false];
    let r = cleanup_path_rule(&rule(RuleType::Pattern, Action::Delete), &env(), &base, &results, NOW);
    // Bytes stay counted even when the deletion failed.
    assert_eq!(r.total_bytes, 2048);
    assert_eq!(r.status, Status::Partial);
}

#[test]
fn a_missing_action_outcome_counts_as_a_failure() {
    let entries = vec![file("C:\\T\\old.log", 2048, 10 * DAY)];
    let base = BaseStatus::IsDir(entries);
    let results: Vec<bool> = Vec::new();
    let r = cleanup_path_rule(&rule(RuleType::Pattern, Action::Delete), &env(), &base, &results, NOW);
    assert_eq!(r.status, Status::Partial);
}

#[test]
fn an_unreadable_entry_makes_the_pass_partial() {
    let entries = vec![WalkItem::Unreadable];
    let base = BaseStatus::IsDir(entries);
    let r = cleanup_path_rule(
        &rule(RuleType::Pattern, Action::Delete),
        &env(),
        &base,
        &Vec::new(),
        NOW,
    );
    assert_eq!(r.total_bytes, 0);
    assert_eq!(r.status, Status::Partial);
}

#[test]
fn a_second_pass_over_a_cleaned_tree_is_okay_and_empty() {
    // After a completed clean the matching files are gone: the second walk
    // shows only the too-young file, nothing is counted, and the already
    // cleaned state is not an error.
    let remaining = vec![file("C:\\T\\new.log", 5120, 1 * DAY)];
    let base = BaseStatus::IsDir(remaining);
    let r = cleanup_path_rule(
        &rule(RuleType::Pattern, Action::Delete),
        &env(),
        &base,
        &Vec::new(),
        NOW,
    );
    assert_eq!(r.total_bytes, 0);
    assert_eq!(r.file_count, 0);
    assert_eq!(r.status, Status::Okay);
}

#[test]
fn lists_the_files_a_clean_acts_on() {
    let entries = vec![
        file("C:\\T\\a.log", 1, 10 * DAY),
        file("C:\\T\\skip.tmp", 1, 10 * DAY),
        file("C:\\T\\b.log", 1, 20 * DAY),
    ];
    let base = BaseStatus::IsDir(entries);
    let t = cleanup_path_targets(&rule(RuleType::Pattern, Action::Delete), &env(), &base, NOW);
    assert_eq!(t, vec![String::from("C:\\T\\a.log"), String::from("C:\\T\\b.log")]);
}

#[test]
fn a_counted_single_file_base_is_its_own_target() {
    let base = BaseStatus::IsFile(Some(FileMeta { size: 9, mtime_secs: Some(NOW - 30 * DAY) }));
    let t = cleanup_path_targets(&rule(RuleType::Path, Action::Delete), &env(), &base, NOW);
    assert_eq!(t, vec![String::from("C:\\T")]);
    let r = cleanup_path_rule(
        &rule(RuleType::Path, Action::Delete),
        &env(),
        &base,
        &vec![true],
        NOW,
    );
    assert_eq!(r.total_bytes, 9);
    assert_eq!(r.file_count, 1);
    assert_eq!(r.status, Status::Okay);
}

#[test]
fn tool_rules_skip_other_actions() {
    let r = cleanup_tool_rule(&rule(RuleType::Special, Action::Delete), None);
    assert_eq!(r.status, Status::Skipped);
    assert_eq!(r.message, Some(String::from("Action not supported for special rule")));
}

#[test]
fn a_tool_rule_without_a_command_is_an_error() {
    let r = cleanup_tool_rule(&rule(RuleType::Special, Action::ToolCall), None);
    assert_eq!(r.status, Status::Error);
    assert_eq!(r.message, Some(String::from("Missing tool command")));
}

#[test]
fn a_zero_exit_is_okay() {
    let mut tool = rule(RuleType::Special, Action::ToolCall);
    tool.tool_cmd = Some(String::from("cleanmgr /sagerun:1"));
    let out = ToolOutcome::Exited { success: true, code: Some(0) };
    let r = cleanup_tool_rule(&tool, Some(&out));
    assert_eq!(r.status, Status::Okay);
    assert_eq!(r.message, None);
}

#[test]
fn a_nonzero_exit_carries_the_code() {
    let mut tool = rule(RuleType::Special, Action::ToolCall);
    tool.tool_cmd = Some(String::from("cleanmgr"));
    let out = ToolOutcome::Exited { success: false, code: Some(3) };
    let r = cleanup_tool_rule(&tool, Some(&out));
    assert_eq!(r.status, Status::Error);
    assert_eq!(r.message, Some(String::from("Tool exit code: 3")));
    let negative = ToolOutcome::Exited { success: false, code: Some(-17) };
    let r2 = cleanup_tool_rule(&tool, Some(&negative));
    assert_eq!(r2.message, Some(String::from("Tool exit code: -17")));
    let unknown = ToolOutcome::Exited { success: false, code: None };
    let r3 = cleanup_tool_rule(&tool, Some(&unknown));
    assert_eq!(r3.message, Some(String::from("Tool exit code: unknown")));
}

#[test]
fn a_spawn_failure_carries_its_text() {
    let mut tool = rule(RuleType::Special, Action::ToolCall);
    tool.tool_cmd = Some(String::from("nosuch"));
    let out = ToolOutcome::SpawnFailed(String::from("program not found"));
    let r = cleanup_tool_rule(&tool, Some(&out));
    assert_eq!(r.status, Status::Error);
    assert_eq!(r.message, Some(String::from("program not found")));
}

#[test]
fn registry_cleanup_without_a_store_is_unsupported() {
    let r = cleanup_registry_rule(&rule(RuleType::Registry, Action::Delete), &None);
    assert_eq!(r.status, Status::Unsupported);
    assert_eq!(
        r.message,
        Some(String::from("Registry cleanup only supported on Windows"))
    );
}

#[test]
fn registry_cleanup_counts_removed_keys() {
    let r = cleanup_registry_rule(
        &rule(RuleType::Registry, Action::Delete),
        &Some(vec![true, false, true]),
    );
    assert_eq!(r.file_count, 2);
    assert_eq!(r.status, Status::Partial);
    assert!(r.message.unwrap().contains("Portable apps may be misdetected"));
    let all_ok = cleanup_registry_rule(
        &rule(RuleType::Registry, Action::Delete),
        &Some(vec![true, true]),
    );
    assert_eq!(all_ok.file_count, 2);
    assert_eq!(all_ok.status, Status::Okay);
}

#[test]
fn residue_cleanup_totals_and_flags_failed_removals() {
    let dirs = vec![
        ResidueCleanup { entries: vec![file("/pf/Old/a.bin", 100, 200 * DAY)], removed: true },
        ResidueCleanup { entries: vec![file("/pf/Old2/b.bin", 250, 300 * DAY)], removed: false },
    ];
    let r = cleanup_residue_rule(&rule(RuleType::AppResidue, Action::Delete), &dirs, NOW);
    assert_eq!(r.total_bytes, 350);
    assert_eq!(r.file_count, 2);
    assert_eq!(r.status, Status::Partial);
    assert!(r.message.unwrap().contains("Portable apps may be misdetected"));
}

#[test]
fn an_unrecognized_rule_type_is_reported() {
    let r = cleanup_rule(
        &rule(RuleType::Other, Action::Delete),
        &env(),
        &CleanObservation::NotGathered,
        NOW,
        false,
    );
    assert_eq!(r.status, Status::Unknown);
    assert_eq!(r.message, Some(String::from("Unknown rule type")));
}

#[test]
fn clean_requests_say_what_to_do() {
    match clean_request(&rule(RuleType::Pattern, Action::Delete), &env(), false) {
        CleanRequest::WalkBase(p) => assert_eq!(p, "C:\\T"),
        _ => panic!("expected a walk request"),
    }
    let mut tool = rule(RuleType::Special, Action::ToolCall);
    tool.tool_cmd = Some(String::from("do-it"));
    match clean_request(&tool, &env(), false) {
        CleanRequest::RunTool(c) => assert_eq!(c, "do-it"),
        _ => panic!("expected a tool request"),
    }
    let mut gated = rule(RuleType::Pattern, Action::Delete);
    gated.requires_admin = true;
    match clean_request(&gated, &env(), false) {
        CleanRequest::NothingNeeded => {}
        _ => panic!("a blocked rule needs nothing"),
    }
}

#[test]
fn a_blocked_and_a_real_rule_summarize_to_the_real_one() {
    // Two rules selected for clean, one needing elevation the caller lacks:
    // exactly one blocked item, one real outcome, and totals that reflect
    // only the non-blocked item.
    let mut gated = rule(RuleType::Pattern, Action::Delete);
    gated.id = String::from("r-admin");
    gated.requires_admin = true;
    let worker = rule(RuleType::Pattern, Action::Delete);
    let rules = vec![gated, worker];
    let selected = vec![String::from("r-admin"), String::from("r1")];
    let observations = vec![
        CleanObservation::NotGathered,
        CleanObservation::Walked {
            base: BaseStatus::IsDir(vec![file("C:\\T\\old.log", 2048, 10 * DAY)]),
            action_results: vec![true],
        },
    ];
    let report = cleanup_rules(
        &rules,
        &selected,
        &env(),
        &observations,
        &CleanupOptions { is_admin: false },
        NOW,
    );
    assert_eq!(report.items.len(), 2);
    assert_eq!(report.items[0].id, "r-admin");
    assert_eq!(report.items[0].status, Status::Blocked);
    assert_eq!(report.items[0].total_bytes, 0);
    assert_eq!(
        report.items[0].message,
        Some(String::from("Requires administrator privileges"))
    );
    assert_eq!(report.items[1].status, Status::Okay);
    assert_eq!(report.summary.total_bytes, 2048);
    assert_eq!(report.summary.total_files, 1);
    assert_eq!(report.summary.by_category.len(), 1);
    assert_eq!(report.summary.by_category[0].key, "System");
    assert_eq!(report.summary.by_category[0].percent, 100);
    assert_eq!(report.summary.by_drive.len(), 1);
    assert_eq!(report.summary.by_drive[0].key, "C:");
}

#[test]
fn unselected_rules_are_not_evaluated() {
    let rules = vec![rule(RuleType::Pattern, Action::Delete)];
    let selected = vec![String::from("other-id")];
    let observations: Vec<CleanObservation> = Vec::new();
    let report = cleanup_rules(
        &rules,
        &selected,
        &env(),
        &observations,
        &CleanupOptions { is_admin: false },
        NOW,
    );
    assert_eq!(report.items.len(), 0);
    assert_eq!(report.summary.total_bytes, 0);
}

#[test]
fn status_labels_are_the_customary_names() {
    assert_eq!(Status::Okay.label(), "ok");
    assert_eq!(Status::Partial.label(), "partial");
    assert_eq!(Status::Blocked.label(), "blocked");
    assert_eq!(Status::MissingPath.label(), "missing_path");
    assert_eq!(Status::Unknown.label(), "unknown");
}

use reclaim::model::is_admin;
use reclaim::model::list_rules_with_privilege;
use reclaim::model::Action;
use reclaim::model::Rule;
use reclaim::model::RuleType;
use reclaim::registry::delete_registry_key;
use reclaim::registry::installed_paths;
use reclaim::registry::is_orphan;
use reclaim::registry::registry_orphans;
use reclaim::registry::RegRecord;
use reclaim::residue::is_under_installed;
use reclaim::residue::residue_candidates;
use reclaim::residue::DirProbe;

const NOW: u64 = 1_700_000_000;
const DAY: u64 = 86_400;

fn record(
    subkey: &str,
    install: Option<&str>,
    exists: bool,
    display: Option<&str>,
    uninstall: Option<&str>,
) -> RegRecord {
    RegRecord {
        subkey: String::from(subkey),
        install_location: install.map(String::from),
        install_location_exists: exists,
        display_name: display.map(String::from),
        uninstall_string: uninstall.map(String::from),
    }
}

#[test]
fn a_record_with_no_location_and_no_metadata_is_an_orphan() {
    assert!(is_orphan(&record("k1", None, false, None, None)));
    assert!(is_orphan(&record("k2", Some("  "), false, Some(""), Some("u"))));
    assert!(is_orphan(&record("k3", Some("C:/Gone"), false, Some("App"), None)));
}

#[test]
fn corroborated_records_are_left_alone() {
    // A stale location with both a display name and an uninstall command is
    // not destroyed.
    assert!(!is_orphan(&record("k", Some("C:/Gone"), false, Some("App"), Some("unins.exe"))));
    // A verifiable install location alone saves the record.
    assert!(!is_orphan(&record("k", Some("C:/Here"), true, None, None)));
}

#[test]
fn orphans_are_listed_in_enumeration_order() {
    let records = vec![
        record("a", None, false, None, None),
        record("b", Some("C:/Here"), true, Some("App"), Some("u")),
        record("c", Some(""), false, None, Some("u")),
    ];
    assert_eq!(registry_orphans(&records), vec![String::from("a"), String::from("c")]);
}

#[test]
fn installed_paths_keep_every_nonblank_location() {
    let records = vec![
        record("a", Some("C:/Apps/Foo"), true, None, None),
        record("b", Some("   "), false, None, None),
        record("c", None, false, None, None),
        record("d", Some("C:/Apps/Bar"), false, None, None),
    ];
    assert_eq!(
        installed_paths(&records),
        vec![String::from("C:/Apps/Foo"), String::from("C:/Apps/Bar")]
    );
}

#[test]
fn this_build_has_no_registration_store() {
    assert_eq!(delete_registry_key("SOFTWARE\\X"), Err(String::from("Not supported")));
    assert!(!is_admin());
}

#[test]
fn nested_paths_are_under_their_roots() {
    let installed = vec![String::from("C:\\Program Files\\Foo")];
    assert!(is_under_installed("C:\\Program Files\\Foo", &installed));
    assert!(is_under_installed("C:\\Program Files\\Foo\\cache", &installed));
    assert!(is_under_installed("C:/Program Files/Foo/cache", &installed));
    assert!(!is_under_installed("C:\\Program Files\\Foobar", &installed));
    assert!(!is_under_installed("C:\\Program Files", &installed));
    let with_slash = vec![String::from("C:/Apps/")];
    assert!(is_under_installed("C:/Apps/x", &with_slash));
    assert!(is_under_installed("C:/Apps", &with_slash));
}

#[test]
fn residue_never_flags_registered_directories() {
    let installed = vec![String::from("C:\\Program Files\\Foo")];
    let probes = vec![
        DirProbe {
            path: String::from("C:\\Program Files\\Foo\\cache"),
            is_dir: true,
            mtime_secs: Some(NOW - 400 * DAY),
        },
        DirProbe {
            path: String::from("C:\\Program Files\\Bar"),
            is_dir: true,
            mtime_secs: Some(NOW - 400 * DAY),
        },
    ];
    let picked = residue_candidates(&probes, &installed, None, NOW);
    assert_eq!(picked, vec![String::from("C:\\Program Files\\Bar")]);
}

#[test]
fn residue_respects_the_age_cutoff() {
    let installed: Vec<String> = Vec::new();
    let probes = vec![
        DirProbe { path: String::from("/pf/Old"), is_dir: true, mtime_secs: Some(NOW - 181 * DAY) },
        DirProbe { path: String::from("/pf/Young"), is_dir: true, mtime_secs: Some(NOW - 179 * DAY) },
        DirProbe { path: String::from("/pf/NoTime"), is_dir: true, mtime_secs: None },
        DirProbe { path: String::from("/pf/file.txt"), is_dir: false, mtime_secs: Some(NOW - 400 * DAY) },
    ];
    // The default cutoff is 180 days.
    assert_eq!(residue_candidates(&probes, &installed, None, NOW), vec![String::from("/pf/Old")]);
    // A per-rule override narrows or widens it.
    assert_eq!(
        residue_candidates(&probes, &installed, Some(100), NOW),
        vec![String::from("/pf/Old"), String::from("/pf/Young")]
    );
    // A negative override excludes everything.
    assert_eq!(residue_candidates(&probes, &installed, Some(-1), NOW).len(), 0);
}

#[test]
fn privilege_views_flag_gated_rules() {
    let gated = Rule {
        id: String::from("g"),
        title: String::from("Gated"),
        description: String::new(),
        category: String::from("System"),
        risk: String::from("high"),
        default_checked: false,
        requires_admin: true,
        rule_type: RuleType::Registry,
        scope: String::from("machine"),
        path: None,
        pattern: None,
        size_threshold_mb: None,
        age_threshold_days: None,
        action: Action::Delete,
        tool_cmd: None,
        enabled: true,
        sort_order: 2,
        notes: None,
    };
    let views = list_rules_with_privilege(&vec![gated], false);
    assert_eq!(views.len(), 1);
    assert!(views[0].blocked);
    assert_eq!(
        views[0].blocked_reason,
        Some(String::from("Requires administrator privileges"))
    );
    let mut ungated = Rule {
        id: String::from("g"),
        title: String::from("Gated"),
        description: String::new(),
        category: String::from("System"),
        risk: String::from("high"),
        default_checked: false,
        requires_admin: false,
        rule_type: RuleType::Registry,
        scope: String::from("machine"),
        path: None,
        pattern: None,
        size_threshold_mb: None,
        age_threshold_days: None,
        action: Action::Delete,
        tool_cmd: None,
        enabled: true,
        sort_order: 2,
        notes: None,
    };
    ungated.requires_admin = false;
    let views2 = list_rules_with_privilege(&vec![ungated], false);
    assert!(!views2[0].blocked);
    assert_eq!(views2[0].blocked_reason, None);
    // An elevated caller sees no gate at all.
    let gated_again = Rule {
        id: String::from("g"),
        title: String::from("Gated"),
        description: String::new(),
        category: String::from("System"),
        risk: String::from("high"),
        default_checked: false,
        requires_admin: true,
        rule_type: RuleType::Registry,
        scope: String::from("machine"),
        path: None,
        pattern: None,
        size_threshold_mb: None,
        age_threshold_days: None,
        action: Action::Delete,
        tool_cmd: None,
        enabled: true,
        sort_order: 2,
        notes: None,
    };
    let views3 = list_rules_with_privilege(&vec![gated_again], true);
    assert!(!views3[0].blocked);
}

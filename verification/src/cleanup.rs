//! The clean evaluator: applies each selected rule's action and reports what
//! was removed, rolled into category and volume summaries.
//!
//! Per rule the caller first asks what to do (`clean_request`), performs the
//! outside work — walk and delete files, run the tool, remove registrations
//! or residue directories — and hands the outcomes to `cleanup_rule`;
//! `cleanup_rules` folds a whole selection into one report. The privilege
//! gate is checked before everything else, and one rule's failure never
//! stops the rest.

use vstd::prelude::*;
use vstd::string::StringExecFns;
use crate::expand::expand_percent_env;
use crate::expand::spec_expand;
use crate::model::base_report;
use crate::model::blocked_reason_text;
use crate::model::spec_blocked_reason;
use crate::model::CleanupItemReport;
use crate::model::CleanupOptions;
use crate::model::CleanupReport;
use crate::model::Rule;
use crate::model::RuleType;
use crate::model::Status;
use crate::summary::spec_groups_by_category;
use crate::summary::spec_groups_by_drive;
use crate::summary::spec_buckets;
use crate::summary::spec_sort_desc;
use crate::summary::spec_sorted_desc;
use crate::summary::spec_total_bytes;
use crate::summary::spec_total_files;
use crate::summary::summarize;
use crate::text::drive_from_path;
use crate::text::spec_digits;
use crate::text::spec_drive;
use crate::text::u64_to_string;
use crate::thresholds::age_threshold_secs;
use crate::thresholds::cap64;
use crate::thresholds::size_threshold_bytes;
use crate::thresholds::spec_age_threshold;
use crate::thresholds::spec_size_threshold;
use crate::thresholds::should_count;
use crate::walk::lemma_walk_bytes_nonneg;
use crate::walk::lemma_walk_files_bounded;
use crate::walk::sat_add_u64;
use crate::walk::scan_directory;
use crate::walk::spec_file_bytes;
use crate::walk::spec_file_counted;
use crate::walk::spec_walk_bytes;
use crate::walk::spec_walk_error;
use crate::walk::spec_walk_files;
use crate::walk::walk_targets;
use crate::walk::BaseStatus;
use crate::walk::FileMeta;
use crate::walk::WalkItem;

verus! {

/// How an invoked external tool ended.
pub enum ToolOutcome {
    /// The process ran to completion; `code` is its exit code when the
    /// platform reported one.
    Exited { success: bool, code: Option<i32> },
    /// The process could not be started; the spawn error's text.
    SpawnFailed(String),
}

/// One residue candidate directory during a clean pass: its walked entries,
/// and whether removing the whole tree succeeded.
pub struct ResidueCleanup {
    pub entries: Vec<WalkItem>,
    pub removed: bool,
}

/// The outside outcomes one cleaned rule was given.
pub enum CleanObservation {
    /// No outside work was needed.
    NotGathered,
    /// The expanded base path's status, and per counted file whether the
    /// rule's action succeeded on it, in walk order.
    Walked { base: BaseStatus, action_results: Vec<bool> },
    /// The configured tool was run.
    ToolRan(ToolOutcome),
    /// Whether each detected orphan registration was deleted, in detection
    /// order; absent when the platform has no registration store.
    RegistryKeys(Option<Vec<bool>>),
    /// Each residue candidate directory's walk and removal outcome.
    ResidueDirs(Vec<ResidueCleanup>),
}

/// What a clean of one rule needs from outside.
#[derive(Clone, Copy, Debug, PartialEq, Eq, Structural)]
pub enum CleanNeedKind {
    NoObservation,
    BaseObservation,
    ToolObservation,
    RegistryObservation,
    ResidueObservation,
}

/// What the caller is asked to do for one rule.
pub enum CleanRequest {
    /// Nothing: `cleanup_rule` decides from the configuration alone.
    NothingNeeded,
    /// Stat and walk this expanded base path, then apply the rule's action
    /// to each target `cleanup_path_targets` lists.
    WalkBase(String),
    /// Run this tool command through the platform shell.
    RunTool(String),
    /// Enumerate the registration records, delete each orphan, and report
    /// the outcomes.
    RegistryPass,
    /// Select the residue candidates, walk and remove each.
    ResiduePass,
}

/// What a clean of `rule` needs observed.
pub open spec fn spec_clean_need(rule: Rule, is_admin: bool) -> CleanNeedKind {
    if rule.requires_admin && !is_admin {
        CleanNeedKind::NoObservation
    } else {
        match rule.rule_type {
            RuleType::Path | RuleType::Pattern => if rule.path is Some {
                CleanNeedKind::BaseObservation
            } else {
                CleanNeedKind::NoObservation
            },
            RuleType::Special => if rule.action is ToolCall && rule.tool_cmd is Some {
                CleanNeedKind::ToolObservation
            } else {
                CleanNeedKind::NoObservation
            },
            RuleType::Registry => CleanNeedKind::RegistryObservation,
            RuleType::AppResidue => CleanNeedKind::ResidueObservation,
            RuleType::Other => CleanNeedKind::NoObservation,
        }
    }
}

/// Whether `obs` is the kind of observation the clean of `rule` needs.
pub open spec fn spec_clean_obs_ok(rule: Rule, obs: CleanObservation, is_admin: bool) -> bool {
    match spec_clean_need(rule, is_admin) {
        CleanNeedKind::NoObservation => true,
        CleanNeedKind::BaseObservation => obs is Walked,
        CleanNeedKind::ToolObservation => obs is ToolRan,
        CleanNeedKind::RegistryObservation => obs is RegistryKeys,
        CleanNeedKind::ResidueObservation => obs is ResidueDirs,
    }
}

/// The note on an unrecognized rule type.
pub open spec fn spec_msg_unknown() -> Seq<char> {
    "Unknown rule type"@
}

/// The note on a special rule whose action is not a tool call.
pub open spec fn spec_msg_skipped() -> Seq<char> {
    "Action not supported for special rule"@
}

/// The note on a special rule without a configured command.
pub open spec fn spec_msg_missing_tool() -> Seq<char> {
    "Missing tool command"@
}

/// The note on a registry rule where no registration store exists.
pub open spec fn spec_msg_registry_unsupported() -> Seq<char> {
    "Registry cleanup only supported on Windows"@
}

/// The standing caution on every registry cleanup outcome.
pub open spec fn spec_msg_registry_advisory() -> Seq<char> {
    "Only orphan uninstall keys with missing InstallLocation were removed. Portable apps may be misdetected; review carefully."@
}

/// The standing caution on every residue cleanup outcome.
pub open spec fn spec_msg_residue_advisory() -> Seq<char> {
    "Removed old folders not linked to uninstall records. Portable apps may be misdetected; review carefully."@
}

/// The prefix of a tool's nonzero-exit note.
pub open spec fn spec_msg_tool_prefix() -> Seq<char> {
    "Tool exit code: "@
}

/// The rendering of a tool's exit code, `unknown` when none was reported.
pub open spec fn spec_code_text(code: Option<i32>) -> Seq<char> {
    match code {
        Some(c) => if c >= 0 {
            spec_digits(c as nat)
        } else {
            seq!['-'] + spec_digits((-(c as int)) as nat)
        },
        None => "unknown"@,
    }
}

/// How many of the attempted deletions succeeded.
pub open spec fn spec_count_true(results: Seq<bool>) -> int
    decreases results.len(),
{
    if results.len() == 0 {
        0
    } else {
        spec_count_true(results.drop_last()) + if results.last() {
            1int
        } else {
            0int
        }
    }
}

/// Whether any of the first `n` expected action outcomes is missing or a
/// failure.
pub open spec fn spec_action_error(n: int, results: Seq<bool>) -> bool
    decreases n,
{
    if n <= 0 {
        false
    } else {
        spec_action_error(n - 1, results) || !(n - 1 < results.len() && results[n - 1])
    }
}

/// The bytes the residue directory walks total, unclamped; residue walks
/// apply no pattern and no thresholds.
pub open spec fn spec_residue_clean_bytes(dirs: Seq<ResidueCleanup>, now: u64) -> int
    decreases dirs.len(),
{
    if dirs.len() == 0 {
        0
    } else {
        spec_residue_clean_bytes(dirs.drop_last(), now) + spec_walk_bytes(
            dirs.last().entries@,
            Seq::empty(),
            None,
            now,
            None,
            None,
        )
    }
}

/// The files the residue directory walks total, unclamped.
pub open spec fn spec_residue_clean_files(dirs: Seq<ResidueCleanup>, now: u64) -> int
    decreases dirs.len(),
{
    if dirs.len() == 0 {
        0
    } else {
        spec_residue_clean_files(dirs.drop_last(), now) + spec_walk_files(
            dirs.last().entries@,
            Seq::empty(),
            None,
            now,
            None,
            None,
        )
    }
}

/// Residue clean totals are sums of per-directory totals, never negative.
proof fn lemma_residue_clean_nonneg(dirs: Seq<ResidueCleanup>, now: u64)
    ensures
        spec_residue_clean_bytes(dirs, now) >= 0,
        spec_residue_clean_files(dirs, now) >= 0,
    decreases dirs.len(),
{
    if dirs.len() > 0 {
        lemma_residue_clean_nonneg(dirs.drop_last(), now);
        lemma_walk_bytes_nonneg(dirs.last().entries@, Seq::empty(), None, now, None, None);
        lemma_walk_files_bounded(dirs.last().entries@, Seq::empty(), None, now, None, None);
    }
}

/// The report an echo of the rule must carry.
pub open spec fn spec_echoes_rule(rule: Rule, out: CleanupItemReport) -> bool {
    &&& out.id == rule.id
    &&& out.title == rule.title
    &&& out.category == rule.category
    &&& out.risk == rule.risk
}

/// How a path or pattern rule's report must reflect the walk and action
/// outcomes. Pattern matching is skipped for a single-file base. A counted
/// file's bytes stay counted whether or not the action on it succeeded; a
/// failed action, an unreadable entry or a failed metadata fetch makes the
/// outcome `Partial` instead of `Okay`.
pub open spec fn spec_path_item_ok(
    rule: Rule,
    env: Seq<(String, String)>,
    base: BaseStatus,
    results: Seq<bool>,
    now: u64,
    out: CleanupItemReport,
) -> bool {
    let min_size = spec_size_threshold(rule.size_threshold_mb);
    let min_age = spec_age_threshold(rule.age_threshold_days);
    match rule.path {
        None => {
            &&& out.status is MissingPath
            &&& out.total_bytes == 0
            &&& out.file_count == 0
            &&& out.message is None
            &&& out.drive is None
        },
        Some(p) => {
            let exp = spec_expand(p@, env);
            match base {
                BaseStatus::Missing => {
                    &&& out.status is Missing
                    &&& out.total_bytes == 0
                    &&& out.file_count == 0
                    &&& out.message is None
                    &&& out.drive is None
                },
                BaseStatus::IsFile(meta) => {
                    let counted = spec_file_counted(meta, now, min_size, min_age);
                    let err = meta is None || (counted && !(results.len() > 0 && results[0]));
                    &&& out.total_bytes == spec_file_bytes(meta, now, min_size, min_age)
                    &&& out.file_count == (if counted {
                        1int
                    } else {
                        0int
                    })
                    &&& out.status == (if err {
                        Status::Partial
                    } else {
                        Status::Okay
                    })
                    &&& out.message is None
                    &&& (out.drive is Some <==> spec_drive(exp) is Some)
                    &&& (out.drive matches Some(d) ==> d@ == spec_drive(exp)->Some_0)
                },
                BaseStatus::IsDir(entries) => {
                    let err = spec_walk_error(entries@, exp, rule.pattern) || spec_action_error(
                        spec_walk_files(entries@, exp, rule.pattern, now, min_size, min_age),
                        results,
                    );
                    &&& out.total_bytes == cap64(
                        spec_walk_bytes(entries@, exp, rule.pattern, now, min_size, min_age),
                    )
                    &&& out.file_count == spec_walk_files(
                        entries@,
                        exp,
                        rule.pattern,
                        now,
                        min_size,
                        min_age,
                    )
                    &&& out.status == (if err {
                        Status::Partial
                    } else {
                        Status::Okay
                    })
                    &&& out.message is None
                    &&& (out.drive is Some <==> spec_drive(exp) is Some)
                    &&& (out.drive matches Some(d) ==> d@ == spec_drive(exp)->Some_0)
                },
            }
        },
    }
}

/// How a special rule's report must reflect the tool outcome: skipped unless
/// the action is a tool call, an error without a configured command, `Okay`
/// exactly on a zero exit, and an error carrying the exit code or the spawn
/// failure text otherwise.
pub open spec fn spec_tool_item_ok(
    rule: Rule,
    outcome: Option<ToolOutcome>,
    out: CleanupItemReport,
) -> bool {
    &&& out.total_bytes == 0
    &&& out.file_count == 0
    &&& out.drive is None
    &&& if !(rule.action is ToolCall) {
        &&& out.status is Skipped
        &&& (out.message matches Some(m) && m@ == spec_msg_skipped())
    } else if rule.tool_cmd is None {
        &&& out.status is Error
        &&& (out.message matches Some(m) && m@ == spec_msg_missing_tool())
    } else {
        match outcome {
            Some(ToolOutcome::Exited { success, code }) => if success {
                &&& out.status is Okay
                &&& out.message is None
            } else {
                &&& out.status is Error
                &&& (out.message matches Some(m) && m@ == spec_msg_tool_prefix() + spec_code_text(
                    code,
                ))
            },
            Some(ToolOutcome::SpawnFailed(e)) => {
                &&& out.status is Error
                &&& (out.message matches Some(m) && m@ == e@)
            },
            None => false,
        }
    }
}

/// How a registry rule's report must reflect the deletion outcomes: the
/// count of removed registrations, `Partial` when any failed, and the
/// standing caution; `Unsupported` where no registration store exists.
pub open spec fn spec_registry_item_ok(results: Option<Vec<bool>>, out: CleanupItemReport) -> bool {
    &&& out.total_bytes == 0
    &&& out.drive is None
    &&& match results {
        None => {
            &&& out.status is Unsupported
            &&& out.file_count == 0
            &&& (out.message matches Some(m) && m@ == spec_msg_registry_unsupported())
        },
        Some(rs) => {
            &&& out.file_count == spec_count_true(rs@)
            &&& out.status == (if exists|j: int| 0 <= j < rs@.len() && !rs@[j] {
                Status::Partial
            } else {
                Status::Okay
            })
            &&& (out.message matches Some(m) && m@ == spec_msg_registry_advisory())
        },
    }
}

/// How a residue rule's report must reflect the per-directory outcomes: the
/// measured totals, `Partial` when any removal failed, and the standing
/// caution.
pub open spec fn spec_residue_item_ok(
    dirs: Seq<ResidueCleanup>,
    now: u64,
    out: CleanupItemReport,
) -> bool {
    &&& out.total_bytes == cap64(spec_residue_clean_bytes(dirs, now))
    &&& out.file_count == cap64(spec_residue_clean_files(dirs, now))
    &&& out.status == (if exists|j: int| 0 <= j < dirs.len() && !dirs[j].removed {
        Status::Partial
    } else {
        Status::Okay
    })
    &&& (out.message matches Some(m) && m@ == spec_msg_residue_advisory())
    &&& out.drive is None
}

/// How one clean report must reflect its rule and observation. The privilege
/// gate comes first: a rule needing elevation the caller lacks is blocked
/// with nothing counted, whatever its type.
pub open spec fn spec_clean_item_ok(
    rule: Rule,
    env: Seq<(String, String)>,
    obs: CleanObservation,
    now: u64,
    is_admin: bool,
    out: CleanupItemReport,
) -> bool {
    &&& spec_echoes_rule(rule, out)
    &&& if rule.requires_admin && !is_admin {
        &&& out.status is Blocked
        &&& out.total_bytes == 0
        &&& out.file_count == 0
        &&& (out.message matches Some(m) && m@ == spec_blocked_reason())
        &&& out.drive is None
    } else {
        match rule.rule_type {
            RuleType::Path | RuleType::Pattern => match obs {
                CleanObservation::Walked { base, action_results } => spec_path_item_ok(
                    rule,
                    env,
                    base,
                    action_results@,
                    now,
                    out,
                ),
                _ => rule.path is None && spec_path_item_ok(
                    rule,
                    env,
                    BaseStatus::Missing,
                    Seq::empty(),
                    now,
                    out,
                ),
            },
            RuleType::Special => spec_tool_item_ok(
                rule,
                match obs {
                    CleanObservation::ToolRan(oc) => Some(oc),
                    _ => None,
                },
                out,
            ),
            RuleType::Registry => match obs {
                CleanObservation::RegistryKeys(results) => spec_registry_item_ok(results, out),
                _ => false,
            },
            RuleType::AppResidue => match obs {
                CleanObservation::ResidueDirs(dirs) => spec_residue_item_ok(dirs@, now, out),
                _ => false,
            },
            RuleType::Other => {
                &&& out.status is Unknown
                &&& out.total_bytes == 0
                &&& out.file_count == 0
                &&& (out.message matches Some(m) && m@ == spec_msg_unknown())
                &&& out.drive is None
            },
        }
    }
}

/// Renders one exit code for the tool-failure note.
fn i32_code_string(c: i32) -> (r: String)
    ensures
        r@ == spec_code_text(Some(c)),
{
    if c >= 0 {
        u64_to_string(c as u64)
    } else {
        let wide: i64 = c as i64;
        let mag: u64 = (-wide) as u64;
        let mut s = "-".to_owned();
        let num = u64_to_string(mag);
        s.append(num.as_str());
        proof {
            reveal_strlit("-");
            assert("-"@ =~= seq!['-']);
        }
        s
    }
}

/// Builds the note an unsuccessful tool run carries.
fn tool_code_message(code: &Option<i32>) -> (r: String)
    ensures
        r@ == spec_msg_tool_prefix() + spec_code_text(*code),
{
    let mut msg = "Tool exit code: ".to_owned();
    match code {
        Some(c) => {
            let num = i32_code_string(*c);
            msg.append(num.as_str());
        },
        None => {
            msg.append("unknown");
        },
    }
    msg
}

/// Cleans one special rule against its tool outcome: skipped unless the
/// action is a tool call, an error without a command, `Okay` exactly on a
/// zero exit, and otherwise an error carrying the exit code or spawn
/// failure text.
pub fn cleanup_tool_rule(rule: &Rule, outcome: Option<&ToolOutcome>) -> (r: CleanupItemReport)
    requires
        (rule.action is ToolCall && rule.tool_cmd is Some) ==> outcome is Some,
    ensures
        spec_echoes_rule(*rule, r),
        spec_tool_item_ok(
            *rule,
            match outcome {
                Some(oc) => Some(*oc),
                None => None,
            },
            r,
        ),
{
    let mut report = base_report(rule);
    let is_tool_call = match rule.action {
        crate::model::Action::ToolCall => true,
        _ => false,
    };
    if !is_tool_call {
        report.status = Status::Skipped;
        report.message = Some("Action not supported for special rule".to_owned());
        return report;
    }
    match &rule.tool_cmd {
        None => {
            report.status = Status::Error;
            report.message = Some("Missing tool command".to_owned());
            report
        },
        Some(_) => {
            match outcome {
                Some(ToolOutcome::Exited { success, code }) => {
                    if *success {
                        report.status = Status::Okay;
                    } else {
                        report.status = Status::Error;
                        report.message = Some(tool_code_message(code));
                    }
                    report
                },
                Some(ToolOutcome::SpawnFailed(e)) => {
                    report.status = Status::Error;
                    report.message = Some(e.clone());
                    report
                },
                None => {
                    proof {
                        assert(false);
                    }
                    report
                },
            }
        },
    }
}

/// Cleans one registry rule against the per-orphan deletion outcomes: counts
/// the removed registrations, turns any failure into `Partial`, and always
/// carries the standing caution; `Unsupported` where no registration store
/// exists. All orphans are attempted — there is no fail-fast.
pub fn cleanup_registry_rule(rule: &Rule, results: &Option<Vec<bool>>) -> (r: CleanupItemReport)
    ensures
        spec_echoes_rule(*rule, r),
        spec_registry_item_ok(*results, r),
{
    let mut report = base_report(rule);
    match results {
        None => {
            report.status = Status::Unsupported;
            report.message = Some("Registry cleanup only supported on Windows".to_owned());
            report
        },
        Some(rs) => {
            let mut cleaned: u64 = 0;
            let mut had_error = false;
            let mut i: usize = 0;
            proof {
                assert(rs@.subrange(0, 0) =~= Seq::<bool>::empty());
            }
            while i < rs.len()
                invariant
                    i <= rs@.len(),
                    cleaned == spec_count_true(rs@.subrange(0, i as int)),
                    cleaned <= i,
                    had_error == exists|j: int| 0 <= j < i && !rs@[j],
                decreases rs@.len() - i,
            {
                let ghost prefix = rs@.subrange(0, i as int);
                let ghost next = rs@.subrange(0, i + 1 as int);
                proof {
                    assert(next.drop_last() =~= prefix);
                    assert(next.last() == rs@[i as int]);
                }
                if rs[i] {
                    cleaned = cleaned + 1;
                } else {
                    had_error = true;
                }
                proof {
                    if had_error {
                        assert(exists|j: int| 0 <= j < i + 1 && !rs@[j]);
                    }
                }
                i = i + 1;
            }
            proof {
                assert(rs@.subrange(0, rs@.len() as int) =~= rs@);
            }
            report.file_count = cleaned;
            report.status = if had_error {
                Status::Partial
            } else {
                Status::Okay
            };
            report.message = Some(
                "Only orphan uninstall keys with missing InstallLocation were removed. Portable apps may be misdetected; review carefully.".to_owned(),
            );
            report
        },
    }
}

/// Cleans one residue rule against the per-directory outcomes: totals what
/// the walks measured, turns any failed removal into `Partial`, and always
/// carries the standing caution.
pub fn cleanup_residue_rule(rule: &Rule, dirs: &Vec<ResidueCleanup>, now: u64) -> (r:
    CleanupItemReport)
    ensures
        spec_echoes_rule(*rule, r),
        spec_residue_item_ok(dirs@, now, r),
{
    let mut report = base_report(rule);
    let mut total_bytes: u64 = 0;
    let mut file_count: u64 = 0;
    let mut had_error = false;
    let mut i: usize = 0;
    proof {
        assert(dirs@.subrange(0, 0) =~= Seq::<ResidueCleanup>::empty());
    }
    while i < dirs.len()
        invariant
            i <= dirs@.len(),
            total_bytes == cap64(spec_residue_clean_bytes(dirs@.subrange(0, i as int), now)),
            file_count == cap64(spec_residue_clean_files(dirs@.subrange(0, i as int), now)),
            had_error == exists|j: int| 0 <= j < i && !dirs@[j].removed,
        decreases dirs@.len() - i,
    {
        let ghost prefix = dirs@.subrange(0, i as int);
        let ghost next = dirs@.subrange(0, i + 1 as int);
        proof {
            assert(next.drop_last() =~= prefix);
            assert(next.last() == dirs@[i as int]);
            lemma_residue_clean_nonneg(prefix, now);
            lemma_walk_bytes_nonneg(dirs@[i as int].entries@, Seq::empty(), None, now, None, None);
            lemma_walk_files_bounded(
                dirs@[i as int].entries@,
                Seq::empty(),
                None,
                now,
                None,
                None,
            );
            reveal_strlit("");
            assert(""@ =~= Seq::<char>::empty());
        }
        let none_pattern: Option<String> = None;
        let (b, f, _e) = scan_directory(&dirs[i].entries, "", &none_pattern, now, None, None);
        total_bytes = sat_add_u64(total_bytes, b);
        file_count = sat_add_u64(file_count, f);
        if !dirs[i].removed {
            had_error = true;
        }
        proof {
            if had_error {
                assert(exists|j: int| 0 <= j < i + 1 && !dirs@[j].removed);
            }
        }
        i = i + 1;
    }
    proof {
        assert(dirs@.subrange(0, dirs@.len() as int) =~= dirs@);
    }
    report.total_bytes = total_bytes;
    report.file_count = file_count;
    report.status = if had_error {
        Status::Partial
    } else {
        Status::Okay
    };
    report.message = Some(
        "Removed old folders not linked to uninstall records. Portable apps may be misdetected; review carefully.".to_owned(),
    );
    report
}

/// Cleans one path or pattern rule against the walk and action outcomes.
pub fn cleanup_path_rule(
    rule: &Rule,
    env: &Vec<(String, String)>,
    base: &BaseStatus,
    action_results: &Vec<bool>,
    now: u64,
) -> (r: CleanupItemReport)
    ensures
        spec_echoes_rule(*rule, r),
        spec_path_item_ok(*rule, env@, *base, action_results@, now, r),
{
    let mut report = base_report(rule);
    let min_size = size_threshold_bytes(rule.size_threshold_mb);
    let min_age = age_threshold_secs(rule.age_threshold_days);
    match &rule.path {
        None => {
            report.status = Status::MissingPath;
            report
        },
        Some(p) => {
            let exp = expand_percent_env(p.as_str(), env);
            match base {
                BaseStatus::Missing => {
                    report.status = Status::Missing;
                    report
                },
                BaseStatus::IsFile(meta) => {
                    report.drive = drive_from_path(exp.as_str());
                    let mut err = false;
                    match meta {
                        Some(fm) => {
                            if should_count(fm.size, fm.mtime_secs, now, min_size, min_age) {
                                report.total_bytes = fm.size;
                                report.file_count = 1;
                                let acted = action_results.len() > 0 && action_results[0];
                                if !acted {
                                    err = true;
                                }
                            }
                        },
                        None => {
                            err = true;
                        },
                    }
                    report.status = if err {
                        Status::Partial
                    } else {
                        Status::Okay
                    };
                    report
                },
                BaseStatus::IsDir(entries) => {
                    report.drive = drive_from_path(exp.as_str());
                    let (b, f, walk_err) = scan_directory(
                        entries,
                        exp.as_str(),
                        &rule.pattern,
                        now,
                        min_size,
                        min_age,
                    );
                    proof {
                        lemma_walk_files_bounded(
                            entries@,
                            exp@,
                            rule.pattern,
                            now,
                            min_size,
                            min_age,
                        );
                    }
                    report.total_bytes = b;
                    report.file_count = f;
                    // Any expected action outcome that is missing or a
                    // failure makes the pass partial.
                    let entry_count = entries.len();
                    proof {
                        assert(f as int <= entry_count as int);
                    }
                    let targets = f as usize;
                    let mut act_err = false;
                    let mut j: usize = 0;
                    while j < targets
                        invariant
                            j <= targets,
                            act_err == spec_action_error(j as int, action_results@),
                        decreases targets - j,
                    {
                        if !(j < action_results.len() && action_results[j]) {
                            act_err = true;
                        }
                        j = j + 1;
                    }
                    report.status = if walk_err || act_err {
                        Status::Partial
                    } else {
                        Status::Okay
                    };
                    report
                },
            }
        },
    }
}

/// Lists the files a clean pass over `base` acts on, in walk order: the
/// expanded base itself when it is a counted single file, else every counted
/// entry of the walk.
pub fn cleanup_path_targets(
    rule: &Rule,
    env: &Vec<(String, String)>,
    base: &BaseStatus,
    now: u64,
) -> (r: Vec<String>)
    ensures
        rule.path is None ==> r@.len() == 0,
        rule.path is Some ==> match *base {
            BaseStatus::Missing => r@.len() == 0,
            BaseStatus::IsFile(meta) => {
                let counted = spec_file_counted(
                    meta,
                    now,
                    spec_size_threshold(rule.size_threshold_mb),
                    spec_age_threshold(rule.age_threshold_days),
                );
                &&& (counted ==> r@.len() == 1 && r@[0]@ == spec_expand(rule.path->Some_0@, env@))
                &&& (!counted ==> r@.len() == 0)
            },
            BaseStatus::IsDir(entries) => r@ == crate::walk::spec_targets(
                entries@,
                spec_expand(rule.path->Some_0@, env@),
                rule.pattern,
                now,
                spec_size_threshold(rule.size_threshold_mb),
                spec_age_threshold(rule.age_threshold_days),
            ),
        },
{
    let min_size = size_threshold_bytes(rule.size_threshold_mb);
    let min_age = age_threshold_secs(rule.age_threshold_days);
    match &rule.path {
        None => Vec::new(),
        Some(p) => {
            let exp = expand_percent_env(p.as_str(), env);
            match base {
                BaseStatus::Missing => Vec::new(),
                BaseStatus::IsFile(meta) => {
                    let mut out: Vec<String> = Vec::new();
                    match meta {
                        Some(fm) => {
                            if should_count(fm.size, fm.mtime_secs, now, min_size, min_age) {
                                out.push(exp);
                            }
                        },
                        None => {},
                    }
                    out
                },
                BaseStatus::IsDir(entries) => {
                    walk_targets(entries, exp.as_str(), &rule.pattern, now, min_size, min_age)
                },
            }
        },
    }
}

/// Says what the clean of `rule` needs done outside; a walk request carries
/// the expanded base path, a tool request the configured command.
pub fn clean_request(rule: &Rule, env: &Vec<(String, String)>, is_admin: bool) -> (r: CleanRequest)
    ensures
        r is NothingNeeded <==> spec_clean_need(*rule, is_admin) is NoObservation,
        r is WalkBase <==> spec_clean_need(*rule, is_admin) is BaseObservation,
        r is RunTool <==> spec_clean_need(*rule, is_admin) is ToolObservation,
        r is RegistryPass <==> spec_clean_need(*rule, is_admin) is RegistryObservation,
        r is ResiduePass <==> spec_clean_need(*rule, is_admin) is ResidueObservation,
        (r matches CleanRequest::WalkBase(p) ==> p@ == spec_expand(rule.path->Some_0@, env@)),
        (r matches CleanRequest::RunTool(c) ==> c@ == rule.tool_cmd->Some_0@),
{
    if rule.requires_admin && !is_admin {
        return CleanRequest::NothingNeeded;
    }
    match rule.rule_type {
        RuleType::Path | RuleType::Pattern => {
            match &rule.path {
                Some(p) => CleanRequest::WalkBase(expand_percent_env(p.as_str(), env)),
                None => CleanRequest::NothingNeeded,
            }
        },
        RuleType::Special => {
            let is_tool_call = match rule.action {
                crate::model::Action::ToolCall => true,
                _ => false,
            };
            if is_tool_call {
                match &rule.tool_cmd {
                    Some(c) => CleanRequest::RunTool(c.clone()),
                    None => CleanRequest::NothingNeeded,
                }
            } else {
                CleanRequest::NothingNeeded
            }
        },
        RuleType::Registry => CleanRequest::RegistryPass,
        RuleType::AppResidue => CleanRequest::ResiduePass,
        RuleType::Other => CleanRequest::NothingNeeded,
    }
}

/// Cleans one rule against what was observed and done for it. The privilege
/// gate short-circuits everything else; an unrecognized type is reported,
/// never silently dropped.
pub fn cleanup_rule(
    rule: &Rule,
    env: &Vec<(String, String)>,
    obs: &CleanObservation,
    now: u64,
    is_admin: bool,
) -> (r: CleanupItemReport)
    requires
        spec_clean_obs_ok(*rule, *obs, is_admin),
    ensures
        spec_clean_item_ok(*rule, env@, *obs, now, is_admin, r),
{
    if rule.requires_admin && !is_admin {
        let mut report = base_report(rule);
        report.status = Status::Blocked;
        report.message = Some(blocked_reason_text());
        return report;
    }
    match rule.rule_type {
        RuleType::Path | RuleType::Pattern => {
            match obs {
                CleanObservation::Walked { base, action_results } => {
                    cleanup_path_rule(rule, env, base, action_results, now)
                },
                _ => {
                    let empty_results: Vec<bool> = Vec::new();
                    cleanup_path_rule(rule, env, &BaseStatus::Missing, &empty_results, now)
                },
            }
        },
        RuleType::Special => {
            match obs {
                CleanObservation::ToolRan(oc) => cleanup_tool_rule(rule, Some(oc)),
                _ => cleanup_tool_rule(rule, None),
            }
        },
        RuleType::Registry => {
            match obs {
                CleanObservation::RegistryKeys(results) => cleanup_registry_rule(rule, results),
                _ => {
                    // Ruled out: the required observation kind was checked.
                    proof {
                        assert(false);
                    }
                    base_report(rule)
                },
            }
        },
        RuleType::AppResidue => {
            match obs {
                CleanObservation::ResidueDirs(dirs) => cleanup_residue_rule(rule, dirs, now),
                _ => {
                    // Ruled out: the required observation kind was checked.
                    proof {
                        assert(false);
                    }
                    base_report(rule)
                },
            }
        },
        RuleType::Other => {
            let mut report = base_report(rule);
            report.status = Status::Unknown;
            report.message = Some("Unknown rule type".to_owned());
            report
        },
    }
}

/// Whether some listed id names this rule.
pub open spec fn spec_id_selected(ids: Seq<String>, id: Seq<char>) -> bool {
    exists|j: int| 0 <= j < ids.len() && (#[trigger] ids[j])@ == id
}

/// The rules whose id is listed, in catalog order.
pub open spec fn spec_selected(rules: Seq<Rule>, ids: Seq<String>) -> Seq<Rule>
    decreases rules.len(),
{
    if rules.len() == 0 {
        Seq::empty()
    } else {
        let prev = spec_selected(rules.drop_last(), ids);
        if spec_id_selected(ids, rules.last().id@) {
            prev.push(rules.last())
        } else {
            prev
        }
    }
}

/// Tests whether `id` is among the listed ids.
pub fn rule_selected(ids: &Vec<String>, id: &String) -> (r: bool)
    ensures
        r == spec_id_selected(ids@, id@),
{
    let mut j: usize = 0;
    while j < ids.len()
        invariant
            j <= ids@.len(),
            forall|m: int| 0 <= m < j ==> (#[trigger] ids@[m])@ != id@,
        decreases ids@.len() - j,
    {
        if ids[j].eq(id) {
            return true;
        }
        j = j + 1;
    }
    false
}

/// A selection over a catalog prefix is a prefix of the whole selection.
proof fn lemma_selected_prefix(rules: Seq<Rule>, ids: Seq<String>, i: int)
    requires
        0 <= i <= rules.len(),
    ensures
        spec_selected(rules.subrange(0, i), ids).is_prefix_of(spec_selected(rules, ids)),
    decreases rules.len() - i,
{
    if i == rules.len() {
        assert(rules.subrange(0, i) =~= rules);
        assert(spec_selected(rules, ids).is_prefix_of(spec_selected(rules, ids))) by {
            assert(spec_selected(rules, ids) =~= spec_selected(rules, ids).subrange(
                0,
                spec_selected(rules, ids).len() as int,
            ));
        }
    } else {
        let a = rules.subrange(0, i);
        let b = rules.subrange(0, i + 1);
        assert(b.drop_last() =~= a);
        assert(b.last() == rules[i]);
        lemma_selected_prefix(rules, ids, i + 1);
        let sa = spec_selected(a, ids);
        let sb = spec_selected(b, ids);
        let sf = spec_selected(rules, ids);
        assert(sa.is_prefix_of(sb)) by {
            if spec_id_selected(ids, rules[i].id@) {
                assert(sa =~= sb.subrange(0, sa.len() as int));
            } else {
                assert(sa =~= sb.subrange(0, sa.len() as int));
            }
        }
        assert(sa.is_prefix_of(sf)) by {
            assert(sa =~= sf.subrange(0, sa.len() as int));
        }
    }
}

/// Cleans every selected rule against its pre-gathered outcomes and folds
/// the per-rule reports into one summarized report. Items appear in catalog
/// order; one rule's failure never prevents evaluation of the rest, and only
/// `Okay` and `Partial` items enter the summary.
pub fn cleanup_rules(
    rules: &Vec<Rule>,
    selected_ids: &Vec<String>,
    env: &Vec<(String, String)>,
    observations: &Vec<CleanObservation>,
    options: &CleanupOptions,
    now: u64,
) -> (r: CleanupReport)
    requires
        observations@.len() == spec_selected(rules@, selected_ids@).len(),
        forall|i: int|
            0 <= i < observations@.len() ==> spec_clean_obs_ok(
                spec_selected(rules@, selected_ids@)[i],
                #[trigger] observations@[i],
                options.is_admin,
            ),
    ensures
        r.items@.len() == spec_selected(rules@, selected_ids@).len(),
        forall|i: int|
            0 <= i < r.items@.len() ==> spec_clean_item_ok(
                spec_selected(rules@, selected_ids@)[i],
                env@,
                observations@[i],
                now,
                options.is_admin,
                #[trigger] r.items@[i],
            ),
        r.summary.total_bytes == cap64(spec_total_bytes(r.items@)),
        r.summary.total_files == cap64(spec_total_files(r.items@)),
        r.summary.by_category@ == spec_sort_desc(
            spec_buckets(spec_groups_by_category(r.items@), r.summary.total_bytes),
        ),
        r.summary.by_drive@ == spec_sort_desc(
            spec_buckets(spec_groups_by_drive(r.items@), r.summary.total_bytes),
        ),
        spec_sorted_desc(r.summary.by_category@),
        spec_sorted_desc(r.summary.by_drive@),
{
    let ghost full_sel = spec_selected(rules@, selected_ids@);
    let obs_len = observations.len();
    let mut items: Vec<CleanupItemReport> = Vec::new();
    let mut i: usize = 0;
    let mut j: usize = 0;
    proof {
        assert(rules@.subrange(0, 0) =~= Seq::<Rule>::empty());
    }
    while i < rules.len()
        invariant
            i <= rules@.len(),
            obs_len == observations@.len(),
            j == items@.len(),
            full_sel == spec_selected(rules@, selected_ids@),
            observations@.len() == full_sel.len(),
            forall|k: int|
                0 <= k < observations@.len() ==> spec_clean_obs_ok(
                    full_sel[k],
                    #[trigger] observations@[k],
                    options.is_admin,
                ),
            j <= full_sel.len(),
            j == spec_selected(rules@.subrange(0, i as int), selected_ids@).len(),
            spec_selected(rules@.subrange(0, i as int), selected_ids@) == full_sel.subrange(
                0,
                j as int,
            ),
            forall|k: int|
                0 <= k < j ==> spec_clean_item_ok(
                    full_sel[k],
                    env@,
                    observations@[k],
                    now,
                    options.is_admin,
                    #[trigger] items@[k],
                ),
        decreases rules@.len() - i,
    {
        let ghost prefix = rules@.subrange(0, i as int);
        let ghost next = rules@.subrange(0, i + 1 as int);
        proof {
            assert(next.drop_last() =~= prefix);
            assert(next.last() == rules@[i as int]);
            lemma_selected_prefix(rules@, selected_ids@, i + 1 as int);
        }
        if rule_selected(selected_ids, &rules[i].id) {
            proof {
                let sel_next = spec_selected(next, selected_ids@);
                assert(sel_next == spec_selected(prefix, selected_ids@).push(rules@[i as int]));
                assert(sel_next.len() == j + 1);
                assert(sel_next.is_prefix_of(full_sel));
                assert(j < full_sel.len());
                assert(sel_next =~= full_sel.subrange(0, j + 1));
                assert(full_sel.subrange(0, j + 1)[j as int] == full_sel[j as int]);
                assert(full_sel[j as int] == rules@[i as int]);
            }
            let item = cleanup_rule(&rules[i], env, &observations[j], now, options.is_admin);
            items.push(item);
            j = j + 1;
        } else {
            proof {
                assert(spec_selected(next, selected_ids@) == spec_selected(prefix, selected_ids@));
            }
        }
        i = i + 1;
    }
    proof {
        assert(rules@.subrange(0, rules@.len() as int) =~= rules@);
        assert(full_sel.subrange(0, full_sel.len() as int) =~= full_sel);
    }
    let summary = summarize(&items);
    CleanupReport { items, summary }
}

/// Cleaning where nothing remains to clean succeeds with nothing counted: a
/// pass over a base directory whose error-free walk shows no counted file —
/// as after a completed earlier clean of the same rule — reports zero bytes,
/// zero files and an `Okay` status. Already-gone work is not an error.
pub proof fn lemma_clean_already_clean(
    rule: Rule,
    env: Seq<(String, String)>,
    base: BaseStatus,
    results: Seq<bool>,
    now: u64,
    out: CleanupItemReport,
)
    requires
        rule.path is Some,
        base is IsDir,
        forall|i: int|
            0 <= i < base->IsDir_0@.len() ==> !crate::walk::spec_entry_counted(
                #[trigger] base->IsDir_0@[i],
                spec_expand(rule.path->Some_0@, env),
                rule.pattern,
                now,
                spec_size_threshold(rule.size_threshold_mb),
                spec_age_threshold(rule.age_threshold_days),
            ),
        !spec_walk_error(base->IsDir_0@, spec_expand(rule.path->Some_0@, env), rule.pattern),
        spec_path_item_ok(rule, env, base, results, now, out),
    ensures
        out.total_bytes == 0,
        out.file_count == 0,
        out.status is Okay,
{
    crate::walk::lemma_walk_nothing_counted(
        base->IsDir_0@,
        spec_expand(rule.path->Some_0@, env),
        rule.pattern,
        now,
        spec_size_threshold(rule.size_threshold_mb),
        spec_age_threshold(rule.age_threshold_days),
    );
}

/// A rule needing elevation the caller lacks is always blocked with nothing
/// counted and nothing acted on, whatever its type and whatever was
/// observed.
pub proof fn lemma_blocked_rule_cleans_empty(
    rule: Rule,
    env: Seq<(String, String)>,
    obs: CleanObservation,
    now: u64,
    out: CleanupItemReport,
)
    requires
        rule.requires_admin,
        spec_clean_item_ok(rule, env, obs, now, false, out),
    ensures
        out.status is Blocked,
        out.total_bytes == 0,
        out.file_count == 0,
{
}

} // verus!

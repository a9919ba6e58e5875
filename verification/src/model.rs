//! The data model: rules, per-rule reports, summaries, and the closed status
//! set a rule evaluation can end in.

use vstd::prelude::*;

verus! {

/// What a rule targets; `Other` stands for an unrecognized configuration.
#[derive(Clone, Copy, Debug, PartialEq, Eq, Structural)]
pub enum RuleType {
    Path,
    Pattern,
    Special,
    Registry,
    AppResidue,
    Other,
}

/// What a rule does to what it finds; `Other` stands for an unrecognized
/// configuration.
#[derive(Clone, Copy, Debug, PartialEq, Eq, Structural)]
pub enum Action {
    Delete,
    Recycle,
    ToolCall,
    Other,
}

/// The terminal status of one evaluated rule.
#[derive(Clone, Copy, Debug, PartialEq, Eq, Structural)]
pub enum Status {
    Pending,
    Okay,
    Partial,
    Blocked,
    Missing,
    MissingPath,
    Unsupported,
    Skipped,
    Error,
    Unknown,
}

impl Status {
    /// The customary lower-case name of this status.
    pub open spec fn spec_label(self) -> Seq<char> {
        match self {
            Status::Pending => "pending"@,
            Status::Okay => "ok"@,
            Status::Partial => "partial"@,
            Status::Blocked => "blocked"@,
            Status::Missing => "missing"@,
            Status::MissingPath => "missing_path"@,
            Status::Unsupported => "unsupported"@,
            Status::Skipped => "skipped"@,
            Status::Error => "error"@,
            Status::Unknown => "unknown"@,
        }
    }

    /// The customary lower-case name of this status, for display.
    pub fn label(&self) -> (r: String)
        ensures
            r@ == self.spec_label(),
    {
        match self {
            Status::Pending => "pending".to_owned(),
            Status::Okay => "ok".to_owned(),
            Status::Partial => "partial".to_owned(),
            Status::Blocked => "blocked".to_owned(),
            Status::Missing => "missing".to_owned(),
            Status::MissingPath => "missing_path".to_owned(),
            Status::Unsupported => "unsupported".to_owned(),
            Status::Skipped => "skipped".to_owned(),
            Status::Error => "error".to_owned(),
            Status::Unknown => "unknown".to_owned(),
        }
    }
}

/// One cleanup rule, as the catalog supplies it. Immutable during a pass.
pub struct Rule {
    pub id: String,
    pub title: String,
    pub description: String,
    pub category: String,
    pub risk: String,
    pub default_checked: bool,
    pub requires_admin: bool,
    pub rule_type: RuleType,
    pub scope: String,
    pub path: Option<String>,
    pub pattern: Option<String>,
    pub size_threshold_mb: Option<i64>,
    pub age_threshold_days: Option<i64>,
    pub action: Action,
    pub tool_cmd: Option<String>,
    pub enabled: bool,
    pub sort_order: i64,
    pub notes: Option<String>,
}

/// A rule as presented to a caller, with its privilege gate evaluated.
pub struct RuleView {
    pub id: String,
    pub title: String,
    pub description: String,
    pub category: String,
    pub risk: String,
    pub default_checked: bool,
    pub requires_admin: bool,
    pub rule_type: RuleType,
    pub scope: String,
    pub path: Option<String>,
    pub pattern: Option<String>,
    pub size_threshold_mb: Option<i64>,
    pub age_threshold_days: Option<i64>,
    pub action: Action,
    pub tool_cmd: Option<String>,
    pub enabled: bool,
    pub sort_order: i64,
    pub notes: Option<String>,
    pub blocked: bool,
    pub blocked_reason: Option<String>,
}

/// What a scan pass reports for one rule.
pub struct RuleScan {
    pub id: String,
    pub total_bytes: u64,
    pub file_count: u64,
    pub status: Status,
    pub blocked: bool,
    pub blocked_reason: Option<String>,
}

/// What a clean pass reports for one rule.
pub struct CleanupItemReport {
    pub id: String,
    pub title: String,
    pub category: String,
    pub risk: String,
    pub total_bytes: u64,
    pub file_count: u64,
    pub status: Status,
    pub message: Option<String>,
    pub drive: Option<String>,
}

/// One aggregated share of the clean totals, keyed by category or volume.
/// `percent` is this bucket's share of the total bytes in whole percent,
/// rounded down; 0 when the total is 0.
pub struct SummaryBucket {
    pub key: String,
    pub bytes: u64,
    pub files: u64,
    pub percent: u64,
}

impl Clone for SummaryBucket {
    /// An exact copy of the bucket.
    fn clone(&self) -> (r: Self)
        ensures
            r == *self,
    {
        SummaryBucket {
            key: self.key.clone(),
            bytes: self.bytes,
            files: self.files,
            percent: self.percent,
        }
    }
}

/// The clean totals with their category and volume breakdowns.
pub struct CleanupSummary {
    pub total_bytes: u64,
    pub total_files: u64,
    pub by_category: Vec<SummaryBucket>,
    pub by_drive: Vec<SummaryBucket>,
}

/// Everything a clean pass returns: per-rule reports in selection order, and
/// their summary.
pub struct CleanupReport {
    pub items: Vec<CleanupItemReport>,
    pub summary: CleanupSummary,
}

/// Options for a scan pass.
pub struct ScanOptions {
    pub is_admin: bool,
}

/// Options for a clean pass.
pub struct CleanupOptions {
    pub is_admin: bool,
}

/// The standing explanation of a privilege block.
pub open spec fn spec_blocked_reason() -> Seq<char> {
    "Requires administrator privileges"@
}

/// The standing explanation of a privilege block, for reports.
pub fn blocked_reason_text() -> (r: String)
    ensures
        r@ == spec_blocked_reason(),
{
    "Requires administrator privileges".to_owned()
}

/// Whether this process runs elevated. This library supports no platform
/// elevation probe of its own, so the answer is the unprivileged default;
/// a caller with a real probe passes its answer into the evaluation options.
pub fn is_admin() -> (r: bool)
    ensures
        r == false,
{
    false
}

/// An exact copy of an optional string.
pub fn clone_opt_string(o: &Option<String>) -> (r: Option<String>)
    ensures
        r == *o,
{
    match o {
        Some(s) => Some(s.clone()),
        None => None,
    }
}

/// A fresh report for `rule` with nothing counted and a `Pending` status.
pub fn base_report(rule: &Rule) -> (r: CleanupItemReport)
    ensures
        r.id == rule.id,
        r.title == rule.title,
        r.category == rule.category,
        r.risk == rule.risk,
        r.total_bytes == 0,
        r.file_count == 0,
        r.status == Status::Pending,
        r.message is None,
        r.drive is None,
{
    CleanupItemReport {
        id: rule.id.clone(),
        title: rule.title.clone(),
        category: rule.category.clone(),
        risk: rule.risk.clone(),
        total_bytes: 0,
        file_count: 0,
        status: Status::Pending,
        message: None,
        drive: None,
    }
}

/// How one `RuleView` must reflect its rule under a given privilege answer.
pub open spec fn spec_rule_view_ok(rule: Rule, is_admin: bool, v: RuleView) -> bool {
    &&& v.id == rule.id
    &&& v.title == rule.title
    &&& v.description == rule.description
    &&& v.category == rule.category
    &&& v.risk == rule.risk
    &&& v.default_checked == rule.default_checked
    &&& v.requires_admin == rule.requires_admin
    &&& v.rule_type == rule.rule_type
    &&& v.scope == rule.scope
    &&& v.path == rule.path
    &&& v.pattern == rule.pattern
    &&& v.size_threshold_mb == rule.size_threshold_mb
    &&& v.age_threshold_days == rule.age_threshold_days
    &&& v.action == rule.action
    &&& v.tool_cmd == rule.tool_cmd
    &&& v.enabled == rule.enabled
    &&& v.sort_order == rule.sort_order
    &&& v.notes == rule.notes
    &&& v.blocked == (rule.requires_admin && !is_admin)
    &&& (v.blocked ==> (v.blocked_reason matches Some(m) && m@ == spec_blocked_reason()))
    &&& (!v.blocked ==> v.blocked_reason is None)
}

/// Presents each rule with its privilege gate evaluated: a rule is blocked
/// exactly when it requires elevation the caller lacks.
pub fn list_rules_with_privilege(rules: &Vec<Rule>, is_admin: bool) -> (r: Vec<RuleView>)
    ensures
        r@.len() == rules@.len(),
        forall|i: int| 0 <= i < rules@.len() ==> spec_rule_view_ok(rules@[i], is_admin, r@[i]),
{
    let mut out: Vec<RuleView> = Vec::new();
    let mut i: usize = 0;
    while i < rules.len()
        invariant
            i <= rules@.len(),
            out@.len() == i,
            forall|j: int| 0 <= j < i ==> spec_rule_view_ok(rules@[j], is_admin, out@[j]),
        decreases rules@.len() - i,
    {
        let rule = &rules[i];
        let blocked = rule.requires_admin && !is_admin;
        let blocked_reason = if blocked {
            Some(blocked_reason_text())
        } else {
            None
        };
        out.push(RuleView {
            id: rule.id.clone(),
            title: rule.title.clone(),
            description: rule.description.clone(),
            category: rule.category.clone(),
            risk: rule.risk.clone(),
            default_checked: rule.default_checked,
            requires_admin: rule.requires_admin,
            rule_type: rule.rule_type,
            scope: rule.scope.clone(),
            path: clone_opt_string(&rule.path),
            pattern: clone_opt_string(&rule.pattern),
            size_threshold_mb: rule.size_threshold_mb,
            age_threshold_days: rule.age_threshold_days,
            action: rule.action,
            tool_cmd: clone_opt_string(&rule.tool_cmd),
            enabled: rule.enabled,
            sort_order: rule.sort_order,
            notes: clone_opt_string(&rule.notes),
            blocked,
            blocked_reason,
        });
        i = i + 1;
    }
    out
}

} // verus!

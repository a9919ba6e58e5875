//! The scan evaluator: turns one rule plus the caller's filesystem
//! observations into a dry-run measurement, without modifying anything.
//!
//! Per rule the caller first asks what to observe (`scan_request`), gathers
//! it — stat and walk the expanded base, or probe the residue roots — and
//! hands the observation to `scan_rule`; `scan_rules` does this for a whole
//! catalog of pre-gathered observations.
//!
//! Because the caller drives the pass rule by rule, cancellation is its own:
//! it may stop between rules and keep the results of the rules already
//! evaluated — each `scan_rule` outcome stands on its own.

use vstd::prelude::*;
use crate::expand::expand_percent_env;
use crate::expand::spec_expand;
use crate::model::blocked_reason_text;
use crate::model::spec_blocked_reason;
use crate::model::Rule;
use crate::model::RuleScan;
use crate::model::RuleType;
use crate::model::ScanOptions;
use crate::model::Status;
use crate::thresholds::age_threshold_secs;
use crate::thresholds::cap64;
use crate::thresholds::size_threshold_bytes;
use crate::thresholds::spec_age_threshold;
use crate::thresholds::spec_should_count;
use crate::thresholds::spec_size_threshold;
use crate::thresholds::should_count;
use crate::walk::lemma_walk_bytes_nonneg;
use crate::walk::lemma_walk_files_bounded;
use crate::walk::sat_add_u64;
use crate::walk::scan_directory;
use crate::walk::spec_file_bytes;
use crate::walk::spec_file_counted;
use crate::walk::spec_walk_bytes;
use crate::walk::spec_walk_error;
use crate::walk::spec_walk_files;
use crate::walk::BaseStatus;
use crate::walk::WalkItem;

verus! {

/// What a scan of one rule needs observed before it can be decided.
#[derive(Clone, Copy, Debug, PartialEq, Eq, Structural)]
pub enum ScanNeedKind {
    /// Nothing: the rule is decided from its configuration alone.
    NoObservation,
    /// The expanded base path's status, with its entries when a directory.
    BaseObservation,
    /// The walks of the residue candidate directories.
    ResidueObservation,
}

/// The filesystem observation one scanned rule was given.
pub enum ScanObservation {
    /// No observation was gathered.
    NotGathered,
    /// What the expanded base path turned out to be.
    Walked(BaseStatus),
    /// The entries of each residue candidate directory, in candidate order.
    ResidueDirs(Vec<Vec<WalkItem>>),
}

/// What the caller is asked to gather for one rule.
pub enum ScanRequest {
    /// Nothing: `scan_rule` decides from the configuration alone.
    NothingNeeded,
    /// Stat and walk this expanded base path.
    WalkBase(String),
    /// Select the residue candidates and walk each.
    ResidueWalk,
}

/// What a scan of `rule` needs observed.
pub open spec fn spec_scan_need(rule: Rule, is_admin: bool) -> ScanNeedKind {
    if rule.requires_admin && !is_admin {
        ScanNeedKind::NoObservation
    } else if rule.rule_type is AppResidue {
        ScanNeedKind::ResidueObservation
    } else if !(rule.rule_type is Path) && !(rule.rule_type is Pattern) {
        ScanNeedKind::NoObservation
    } else if rule.path is None {
        ScanNeedKind::NoObservation
    } else {
        ScanNeedKind::BaseObservation
    }
}

/// Whether `obs` is the kind of observation the scan of `rule` needs.
pub open spec fn spec_scan_obs_ok(rule: Rule, obs: ScanObservation, is_admin: bool) -> bool {
    match spec_scan_need(rule, is_admin) {
        ScanNeedKind::NoObservation => true,
        ScanNeedKind::BaseObservation => obs is Walked,
        ScanNeedKind::ResidueObservation => obs is ResidueDirs,
    }
}

/// The status a scan of `rule` ends in before any measuring: the privilege
/// gate is checked before everything else; an unrecognized or unscannable
/// rule type is unsupported; a rule needing a path without one configured is
/// `MissingPath`; an absent base is `Missing`. `None` means the rule
/// measures, and the walk's outcome decides between `Okay` and `Partial`.
pub open spec fn spec_scan_gate_status(rule: Rule, obs: ScanObservation, is_admin: bool) -> Option<
    Status,
> {
    if rule.requires_admin && !is_admin {
        Some(Status::Blocked)
    } else if rule.rule_type is AppResidue {
        None
    } else if !(rule.rule_type is Path) && !(rule.rule_type is Pattern) {
        Some(Status::Unsupported)
    } else if rule.path is None {
        Some(Status::MissingPath)
    } else {
        match obs {
            ScanObservation::Walked(BaseStatus::Missing) => Some(Status::Missing),
            _ => None,
        }
    }
}

/// Whether the observation behind a measuring scan met any error: an
/// unreadable walk entry, a pattern-admitted file whose metadata failed, a
/// single-file base whose metadata failed, or any residue candidate whose
/// walk erred.
pub open spec fn spec_scan_error(
    rule: Rule,
    env: Seq<(String, String)>,
    obs: ScanObservation,
) -> bool {
    match obs {
        ScanObservation::NotGathered => false,
        ScanObservation::Walked(BaseStatus::Missing) => false,
        ScanObservation::Walked(BaseStatus::IsFile(meta)) => meta is None,
        ScanObservation::Walked(BaseStatus::IsDir(entries)) => spec_walk_error(
            entries@,
            spec_expand(rule.path->Some_0@, env),
            rule.pattern,
        ),
        ScanObservation::ResidueDirs(dirs) => exists|i: int|
            0 <= i < dirs@.len() && spec_walk_error(#[trigger] dirs@[i]@, Seq::empty(), None),
    }
}

/// The status a scan of `rule` under `obs` ends in: the early status where
/// there is one, else `Okay` for an error-free measurement and `Partial`
/// where the walk met errors. A transient error never aborts the walk, and
/// never goes unreported either.
pub open spec fn spec_scan_status(
    rule: Rule,
    env: Seq<(String, String)>,
    obs: ScanObservation,
    is_admin: bool,
) -> Status {
    match spec_scan_gate_status(rule, obs, is_admin) {
        Some(s) => s,
        None => if spec_scan_error(rule, env, obs) {
            Status::Partial
        } else {
            Status::Okay
        },
    }
}

/// The bytes the walks of the residue candidate directories total, with the
/// rule's thresholds applied and no pattern.
pub open spec fn spec_residue_walk_bytes(
    dirs: Seq<Vec<WalkItem>>,
    now: u64,
    min_size: Option<u64>,
    min_age: Option<u64>,
) -> int
    decreases dirs.len(),
{
    if dirs.len() == 0 {
        0
    } else {
        spec_residue_walk_bytes(dirs.drop_last(), now, min_size, min_age) + spec_walk_bytes(
            dirs.last()@,
            Seq::empty(),
            None,
            now,
            min_size,
            min_age,
        )
    }
}

/// The files the walks of the residue candidate directories total.
pub open spec fn spec_residue_walk_files(
    dirs: Seq<Vec<WalkItem>>,
    now: u64,
    min_size: Option<u64>,
    min_age: Option<u64>,
) -> int
    decreases dirs.len(),
{
    if dirs.len() == 0 {
        0
    } else {
        spec_residue_walk_files(dirs.drop_last(), now, min_size, min_age) + spec_walk_files(
            dirs.last()@,
            Seq::empty(),
            None,
            now,
            min_size,
            min_age,
        )
    }
}

/// Residue walk totals are sums of per-directory totals, never negative.
pub proof fn lemma_residue_walk_nonneg(
    dirs: Seq<Vec<WalkItem>>,
    now: u64,
    min_size: Option<u64>,
    min_age: Option<u64>,
)
    ensures
        spec_residue_walk_bytes(dirs, now, min_size, min_age) >= 0,
        spec_residue_walk_files(dirs, now, min_size, min_age) >= 0,
    decreases dirs.len(),
{
    if dirs.len() > 0 {
        lemma_residue_walk_nonneg(dirs.drop_last(), now, min_size, min_age);
        lemma_walk_bytes_nonneg(dirs.last()@, Seq::empty(), None, now, min_size, min_age);
        lemma_walk_files_bounded(dirs.last()@, Seq::empty(), None, now, min_size, min_age);
    }
}

/// The bytes a scan of `rule` under `obs` reports, unclamped. A rule that
/// ends anywhere but a measurement reports zero.
pub open spec fn spec_scan_bytes(
    rule: Rule,
    env: Seq<(String, String)>,
    obs: ScanObservation,
    now: u64,
    is_admin: bool,
) -> int {
    let min_size = spec_size_threshold(rule.size_threshold_mb);
    let min_age = spec_age_threshold(rule.age_threshold_days);
    if spec_scan_gate_status(rule, obs, is_admin) is Some {
        0
    } else {
        match obs {
            ScanObservation::ResidueDirs(dirs) => spec_residue_walk_bytes(
                dirs@,
                now,
                min_size,
                min_age,
            ),
            ScanObservation::Walked(BaseStatus::IsFile(meta)) => spec_file_bytes(
                meta,
                now,
                min_size,
                min_age,
            ),
            ScanObservation::Walked(BaseStatus::IsDir(entries)) => spec_walk_bytes(
                entries@,
                spec_expand(rule.path->Some_0@, env),
                rule.pattern,
                now,
                min_size,
                min_age,
            ),
            _ => 0,
        }
    }
}

/// The file count a scan of `rule` under `obs` reports, unclamped.
pub open spec fn spec_scan_files(
    rule: Rule,
    env: Seq<(String, String)>,
    obs: ScanObservation,
    now: u64,
    is_admin: bool,
) -> int {
    let min_size = spec_size_threshold(rule.size_threshold_mb);
    let min_age = spec_age_threshold(rule.age_threshold_days);
    if spec_scan_gate_status(rule, obs, is_admin) is Some {
        0
    } else {
        match obs {
            ScanObservation::ResidueDirs(dirs) => spec_residue_walk_files(
                dirs@,
                now,
                min_size,
                min_age,
            ),
            ScanObservation::Walked(BaseStatus::IsFile(meta)) => if spec_file_counted(
                meta,
                now,
                min_size,
                min_age,
            ) {
                1int
            } else {
                0int
            },
            ScanObservation::Walked(BaseStatus::IsDir(entries)) => spec_walk_files(
                entries@,
                spec_expand(rule.path->Some_0@, env),
                rule.pattern,
                now,
                min_size,
                min_age,
            ),
            _ => 0,
        }
    }
}

/// How one `RuleScan` must reflect its rule and observation.
pub open spec fn spec_scan_result_ok(
    rule: Rule,
    env: Seq<(String, String)>,
    obs: ScanObservation,
    now: u64,
    is_admin: bool,
    out: RuleScan,
) -> bool {
    let status = spec_scan_status(rule, env, obs, is_admin);
    &&& out.id == rule.id
    &&& out.status == status
    &&& out.blocked == (status is Blocked)
    &&& (status is Blocked ==> (out.blocked_reason matches Some(m) && m@ == spec_blocked_reason()))
    &&& (!(status is Blocked) ==> out.blocked_reason is None)
    &&& out.total_bytes == cap64(spec_scan_bytes(rule, env, obs, now, is_admin))
    &&& out.file_count == cap64(spec_scan_files(rule, env, obs, now, is_admin))
}

/// A rule needing elevation the caller lacks is always blocked with nothing
/// counted, whatever its type and whatever was observed.
pub proof fn lemma_blocked_rule_scans_empty(
    rule: Rule,
    env: Seq<(String, String)>,
    obs: ScanObservation,
    now: u64,
    out: RuleScan,
)
    requires
        rule.requires_admin,
        spec_scan_result_ok(rule, env, obs, now, false, out),
    ensures
        out.status is Blocked,
        out.blocked,
        out.total_bytes == 0,
        out.file_count == 0,
{
}

/// Says what the scan of `rule` needs observed; for a rule whose base must
/// be walked, the request carries the expanded base path.
pub fn scan_request(rule: &Rule, env: &Vec<(String, String)>, is_admin: bool) -> (r: ScanRequest)
    ensures
        r is NothingNeeded <==> spec_scan_need(*rule, is_admin) is NoObservation,
        r is WalkBase <==> spec_scan_need(*rule, is_admin) is BaseObservation,
        r is ResidueWalk <==> spec_scan_need(*rule, is_admin) is ResidueObservation,
        r matches ScanRequest::WalkBase(p) ==> p@ == spec_expand(rule.path->Some_0@, env@),
{
    if rule.requires_admin && !is_admin {
        return ScanRequest::NothingNeeded;
    }
    match rule.rule_type {
        RuleType::AppResidue => ScanRequest::ResidueWalk,
        RuleType::Path | RuleType::Pattern => {
            match &rule.path {
                Some(p) => ScanRequest::WalkBase(expand_percent_env(p.as_str(), env)),
                None => ScanRequest::NothingNeeded,
            }
        },
        _ => ScanRequest::NothingNeeded,
    }
}

/// Scans one rule against what was observed for it.
pub fn scan_rule(
    rule: &Rule,
    env: &Vec<(String, String)>,
    obs: &ScanObservation,
    now: u64,
    is_admin: bool,
) -> (r: RuleScan)
    requires
        spec_scan_obs_ok(*rule, *obs, is_admin),
    ensures
        spec_scan_result_ok(*rule, env@, *obs, now, is_admin, r),
{
    if rule.requires_admin && !is_admin {
        return RuleScan {
            id: rule.id.clone(),
            total_bytes: 0,
            file_count: 0,
            status: Status::Blocked,
            blocked: true,
            blocked_reason: Some(blocked_reason_text()),
        };
    }
    let min_size = size_threshold_bytes(rule.size_threshold_mb);
    let min_age = age_threshold_secs(rule.age_threshold_days);
    let mut total_bytes: u64 = 0;
    let mut file_count: u64 = 0;
    let status: Status;
    match rule.rule_type {
        RuleType::AppResidue => {
            match obs {
                ScanObservation::ResidueDirs(dirs) => {
                    let mut had_error = false;
                    let mut i: usize = 0;
                    proof {
                        assert(dirs@.subrange(0, 0) =~= Seq::<Vec<WalkItem>>::empty());
                    }
                    while i < dirs.len()
                        invariant
                            i <= dirs@.len(),
                            min_size == spec_size_threshold(rule.size_threshold_mb),
                            min_age == spec_age_threshold(rule.age_threshold_days),
                            total_bytes == cap64(
                                spec_residue_walk_bytes(
                                    dirs@.subrange(0, i as int),
                                    now,
                                    min_size,
                                    min_age,
                                ),
                            ),
                            file_count == cap64(
                                spec_residue_walk_files(
                                    dirs@.subrange(0, i as int),
                                    now,
                                    min_size,
                                    min_age,
                                ),
                            ),
                            had_error == exists|j: int|
                                0 <= j < i && spec_walk_error(
                                    #[trigger] dirs@[j]@,
                                    Seq::empty(),
                                    None,
                                ),
                        decreases dirs@.len() - i,
                    {
                        let ghost prefix = dirs@.subrange(0, i as int);
                        let ghost next = dirs@.subrange(0, i + 1 as int);
                        proof {
                            assert(next.drop_last() =~= prefix);
                            assert(next.last() == dirs@[i as int]);
                            lemma_residue_walk_nonneg(prefix, now, min_size, min_age);
                            lemma_walk_bytes_nonneg(
                                dirs@[i as int]@,
                                Seq::empty(),
                                None,
                                now,
                                min_size,
                                min_age,
                            );
                            lemma_walk_files_bounded(
                                dirs@[i as int]@,
                                Seq::empty(),
                                None,
                                now,
                                min_size,
                                min_age,
                            );
                        }
                        let none_pattern: Option<String> = None;
                        let (b, f, e) = scan_directory(
                            &dirs[i],
                            "",
                            &none_pattern,
                            now,
                            min_size,
                            min_age,
                        );
                        proof {
                            reveal_strlit("");
                            assert(""@ =~= Seq::<char>::empty());
                        }
                        total_bytes = sat_add_u64(total_bytes, b);
                        file_count = sat_add_u64(file_count, f);
                        if e {
                            had_error = true;
                        }
                        proof {
                            if had_error {
                                assert(exists|j: int|
                                    0 <= j < i + 1 && spec_walk_error(
                                        #[trigger] dirs@[j]@,
                                        Seq::empty(),
                                        None,
                                    ));
                            }
                        }
                        i = i + 1;
                    }
                    proof {
                        assert(dirs@.subrange(0, dirs@.len() as int) =~= dirs@);
                    }
                    status = if had_error {
                        Status::Partial
                    } else {
                        Status::Okay
                    };
                },
                _ => {
                    // Ruled out: the required observation kind was checked.
                    proof {
                        assert(false);
                    }
                    status = Status::Unknown;
                },
            }
        },
        RuleType::Path | RuleType::Pattern => {
            match &rule.path {
                None => {
                    status = Status::MissingPath;
                },
                Some(p) => {
                    let base = expand_percent_env(p.as_str(), env);
                    match obs {
                        ScanObservation::Walked(BaseStatus::Missing) => {
                            status = Status::Missing;
                        },
                        ScanObservation::Walked(BaseStatus::IsFile(meta)) => {
                            match meta {
                                Some(fm) => {
                                    if should_count(fm.size, fm.mtime_secs, now, min_size, min_age) {
                                        total_bytes = fm.size;
                                        file_count = 1;
                                    }
                                    status = Status::Okay;
                                },
                                None => {
                                    // The base exists but its metadata could
                                    // not be read: a partial measurement.
                                    status = Status::Partial;
                                },
                            }
                        },
                        ScanObservation::Walked(BaseStatus::IsDir(entries)) => {
                            let (b, f, e) = scan_directory(
                                entries,
                                base.as_str(),
                                &rule.pattern,
                                now,
                                min_size,
                                min_age,
                            );
                            proof {
                                lemma_walk_files_bounded(
                                    entries@,
                                    base@,
                                    rule.pattern,
                                    now,
                                    min_size,
                                    min_age,
                                );
                            }
                            total_bytes = b;
                            file_count = f;
                            status = if e {
                                Status::Partial
                            } else {
                                Status::Okay
                            };
                        },
                        _ => {
                            // Ruled out: the required observation kind was
                            // checked.
                            proof {
                                assert(false);
                            }
                            status = Status::Unknown;
                        },
                    }
                },
            }
        },
        _ => {
            status = Status::Unsupported;
        },
    }
    RuleScan {
        id: rule.id.clone(),
        total_bytes,
        file_count,
        status,
        blocked: false,
        blocked_reason: None,
    }
}

/// Scans every rule of the catalog against its pre-gathered observation.
/// Evaluation is rule by rule, in catalog order; one rule's outcome never
/// affects another's.
pub fn scan_rules(
    rules: &Vec<Rule>,
    env: &Vec<(String, String)>,
    observations: &Vec<ScanObservation>,
    options: &ScanOptions,
    now: u64,
) -> (r: Vec<RuleScan>)
    requires
        observations@.len() == rules@.len(),
        forall|i: int|
            0 <= i < rules@.len() ==> spec_scan_obs_ok(
                rules@[i],
                #[trigger] observations@[i],
                options.is_admin,
            ),
    ensures
        r@.len() == rules@.len(),
        forall|i: int|
            0 <= i < rules@.len() ==> spec_scan_result_ok(
                rules@[i],
                env@,
                observations@[i],
                now,
                options.is_admin,
                #[trigger] r@[i],
            ),
{
    let mut out: Vec<RuleScan> = Vec::new();
    let mut i: usize = 0;
    while i < rules.len()
        invariant
            i <= rules@.len(),
            out@.len() == i,
            observations@.len() == rules@.len(),
            forall|j: int|
                0 <= j < rules@.len() ==> spec_scan_obs_ok(
                    rules@[j],
                    #[trigger] observations@[j],
                    options.is_admin,
                ),
            forall|j: int|
                0 <= j < i ==> spec_scan_result_ok(
                    rules@[j],
                    env@,
                    observations@[j],
                    now,
                    options.is_admin,
                    #[trigger] out@[j],
                ),
        decreases rules@.len() - i,
    {
        let scanned = scan_rule(&rules[i], env, &observations[i], now, options.is_admin);
        out.push(scanned);
        i = i + 1;
    }
    out
}

} // verus!

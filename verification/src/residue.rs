//! The residue detector: finds leftover top-level directories inside
//! well-known install roots that no current registration covers and that are
//! older than a cutoff.
//!
//! The caller enumerates each root's entries and supplies the registered
//! install locations; the selection over them is verified. A directory that
//! lies beneath any registered location is never flagged.

use vstd::prelude::*;
use crate::text::chars_of;
use crate::text::normalize_chars;
use crate::text::spec_normalize;
use crate::thresholds::cap64;

verus! {

/// One top-level entry of a candidate install root, as observed.
pub struct DirProbe {
    /// The entry's full path.
    pub path: String,
    /// Whether the entry is a directory.
    pub is_dir: bool,
    /// Its last-modified time in seconds since the epoch, absent when the
    /// timestamp could not be read.
    pub mtime_secs: Option<u64>,
}

/// `s` with its trailing forward slashes removed.
pub open spec fn spec_strip_trailing_slashes(s: Seq<char>) -> Seq<char>
    decreases s.len(),
{
    if s.len() > 0 && s.last() == '/' {
        spec_strip_trailing_slashes(s.drop_last())
    } else {
        s
    }
}

/// Whether `path` lies at or beneath `root`, segment-aware: after separator
/// normalization and ignoring the root's trailing slashes, the path equals
/// the root or extends it at a separator.
pub open spec fn spec_is_under(path: Seq<char>, root: Seq<char>) -> bool {
    let p = spec_normalize(path);
    let r = spec_strip_trailing_slashes(spec_normalize(root));
    p == r || (p.len() > r.len() && p.subrange(0, r.len() as int) == r && p[r.len() as int] == '/')
}

/// Whether `path` lies beneath any of the given roots.
pub open spec fn spec_under_any(path: Seq<char>, installed: Seq<String>) -> bool {
    exists|i: int| 0 <= i < installed.len() && spec_is_under(path, #[trigger] installed[i]@)
}

/// Tests one path against one root.
fn is_under(path: &str, root: &str) -> (r: bool)
    ensures
        r == spec_is_under(path@, root@),
{
    let pc = chars_of(path);
    let p = normalize_chars(&pc);
    let rc = chars_of(root);
    let rv = normalize_chars(&rc);
    // Ignore the root's trailing slashes.
    let mut e: usize = rv.len();
    proof {
        assert(rv@.subrange(0, e as int) =~= rv@);
    }
    while e > 0 && rv[e - 1] == '/'
        invariant
            e <= rv@.len(),
            rv@ == spec_normalize(root@),
            spec_strip_trailing_slashes(rv@) == spec_strip_trailing_slashes(
                rv@.subrange(0, e as int),
            ),
        decreases e,
    {
        proof {
            let sub = rv@.subrange(0, e as int);
            assert(sub.last() == rv@[e - 1]);
            assert(sub.drop_last() =~= rv@.subrange(0, e - 1));
        }
        e = e - 1;
    }
    proof {
        assert(spec_strip_trailing_slashes(rv@.subrange(0, e as int)) == rv@.subrange(
            0,
            e as int,
        ));
    }
    let ghost r_stripped = spec_strip_trailing_slashes(spec_normalize(root@));
    proof {
        assert(r_stripped == rv@.subrange(0, e as int));
    }
    if p.len() < e {
        return false;
    }
    // Compare the first `e` characters.
    let mut j: usize = 0;
    while j < e
        invariant
            j <= e,
            e <= rv@.len(),
            e <= p@.len(),
            p@ == spec_normalize(path@),
            rv@ == spec_normalize(root@),
            r_stripped == rv@.subrange(0, e as int),
            r_stripped == spec_strip_trailing_slashes(spec_normalize(root@)),
            forall|m: int| 0 <= m < j ==> p@[m] == rv@[m],
        decreases e - j,
    {
        if p[j] != rv[j] {
            proof {
                assert(p@.subrange(0, e as int)[j as int] != r_stripped[j as int]);
                assert(p@ != r_stripped) by {
                    if p@ == r_stripped {
                        assert(p@[j as int] == r_stripped[j as int]);
                    }
                }
            }
            return false;
        }
        j = j + 1;
    }
    proof {
        assert(p@.subrange(0, e as int) =~= r_stripped);
    }
    if p.len() == e {
        proof {
            assert(p@ =~= r_stripped);
        }
        true
    } else {
        let c = p[e];
        proof {
            if p@ == r_stripped {
                assert(p@.len() == r_stripped.len());
            }
        }
        c == '/'
    }
}

/// Tests whether `path` lies beneath any known install location.
pub fn is_under_installed(path: &str, installed: &Vec<String>) -> (r: bool)
    ensures
        r == spec_under_any(path@, installed@),
{
    let mut i: usize = 0;
    while i < installed.len()
        invariant
            i <= installed@.len(),
            forall|j: int| 0 <= j < i ==> !spec_is_under(path@, #[trigger] installed@[j]@),
        decreases installed@.len() - i,
    {
        if is_under(path, installed[i].as_str()) {
            return true;
        }
        i = i + 1;
    }
    false
}

/// The residue age cutoff in seconds: the configured days (180 when absent)
/// times a day's seconds, capped at what a `u64` holds; a negative
/// configuration yields a cutoff nothing reaches.
pub open spec fn spec_residue_cutoff(age_threshold_days: Option<i64>) -> u64 {
    let days = match age_threshold_days {
        Some(d) => d,
        None => 180,
    };
    if days < 0 {
        u64::MAX
    } else {
        cap64(days * 86400)
    }
}

/// Derives the residue age cutoff from a rule's configured days.
pub fn residue_cutoff_secs(age_threshold_days: Option<i64>) -> (r: u64)
    ensures
        r == spec_residue_cutoff(age_threshold_days),
{
    let days: i64 = match age_threshold_days {
        Some(d) => d,
        None => 180,
    };
    if days < 0 {
        u64::MAX
    } else {
        let v = days as u64;
        if v > u64::MAX / 86400 {
            proof {
                assert(v * 86400 > u64::MAX) by (nonlinear_arith)
                    requires
                        v > u64::MAX as int / 86400,
                ;
            }
            u64::MAX
        } else {
            proof {
                assert(v * 86400 <= u64::MAX) by (nonlinear_arith)
                    requires
                        v <= u64::MAX as int / 86400,
                ;
            }
            v * 86400
        }
    }
}

/// Whether one observed entry is residue: a directory not beneath any known
/// install location, whose age is known and at least the cutoff. An entry
/// whose timestamp could not be read, or lies in the future, is never
/// flagged — deletion is the one action here, so the age test fails closed.
pub open spec fn spec_residue_candidate(
    d: DirProbe,
    installed: Seq<String>,
    cutoff_secs: u64,
    now: u64,
) -> bool {
    &&& d.is_dir
    &&& !spec_under_any(d.path@, installed)
    &&& match d.mtime_secs {
        Some(mt) => mt <= now && now - mt >= cutoff_secs,
        None => false,
    }
}

/// The residue candidates among the observed entries, in order.
pub open spec fn spec_residue_candidates(
    entries: Seq<DirProbe>,
    installed: Seq<String>,
    cutoff_secs: u64,
    now: u64,
) -> Seq<String>
    decreases entries.len(),
{
    if entries.len() == 0 {
        Seq::empty()
    } else {
        let prev = spec_residue_candidates(entries.drop_last(), installed, cutoff_secs, now);
        if spec_residue_candidate(entries.last(), installed, cutoff_secs, now) {
            prev.push(entries.last().path)
        } else {
            prev
        }
    }
}

/// Every candidate lies beneath no known install location.
pub proof fn lemma_candidates_never_installed(
    entries: Seq<DirProbe>,
    installed: Seq<String>,
    cutoff_secs: u64,
    now: u64,
)
    ensures
        forall|k: int|
            0 <= k < spec_residue_candidates(entries, installed, cutoff_secs, now).len()
                ==> !spec_under_any(
                #[trigger] spec_residue_candidates(entries, installed, cutoff_secs, now)[k]@,
                installed,
            ),
    decreases entries.len(),
{
    if entries.len() > 0 {
        lemma_candidates_never_installed(entries.drop_last(), installed, cutoff_secs, now);
        let prev = spec_residue_candidates(entries.drop_last(), installed, cutoff_secs, now);
        let cur = spec_residue_candidates(entries, installed, cutoff_secs, now);
        assert forall|k: int| 0 <= k < cur.len() implies !spec_under_any(cur[k]@, installed) by {
            if spec_residue_candidate(entries.last(), installed, cutoff_secs, now) {
                assert(cur == prev.push(entries.last().path));
                if k < prev.len() {
                    assert(cur[k] == prev[k]);
                } else {
                    assert(cur[k] == entries.last().path);
                }
            } else {
                assert(cur == prev);
            }
        }
    }
}

/// Selects the residue candidates: directories under the observed roots that
/// no known install location covers and that are older than the cutoff
/// derived from `age_threshold_days`. No selected path lies beneath any
/// known install location.
pub fn residue_candidates(
    entries: &Vec<DirProbe>,
    installed: &Vec<String>,
    age_threshold_days: Option<i64>,
    now: u64,
) -> (r: Vec<String>)
    ensures
        r@ == spec_residue_candidates(
            entries@,
            installed@,
            spec_residue_cutoff(age_threshold_days),
            now,
        ),
        forall|k: int| 0 <= k < r@.len() ==> !spec_under_any(#[trigger] r@[k]@, installed@),
{
    let cutoff = residue_cutoff_secs(age_threshold_days);
    let mut out: Vec<String> = Vec::new();
    let mut i: usize = 0;
    proof {
        assert(entries@.subrange(0, 0) =~= Seq::<DirProbe>::empty());
    }
    while i < entries.len()
        invariant
            i <= entries@.len(),
            cutoff == spec_residue_cutoff(age_threshold_days),
            out@ == spec_residue_candidates(
                entries@.subrange(0, i as int),
                installed@,
                cutoff,
                now,
            ),
        decreases entries@.len() - i,
    {
        let ghost prefix = entries@.subrange(0, i as int);
        let ghost next = entries@.subrange(0, i + 1 as int);
        proof {
            assert(next.drop_last() =~= prefix);
            assert(next.last() == entries@[i as int]);
        }
        let d = &entries[i];
        if d.is_dir {
            if !is_under_installed(d.path.as_str(), installed) {
                let aged = match d.mtime_secs {
                    Some(mt) => mt <= now && now - mt >= cutoff,
                    None => false,
                };
                if aged {
                    out.push(d.path.clone());
                }
            }
        }
        i = i + 1;
    }
    proof {
        assert(entries@.subrange(0, entries@.len() as int) =~= entries@);
        lemma_candidates_never_installed(
            entries@,
            installed@,
            spec_residue_cutoff(age_threshold_days),
            now,
        );
    }
    out
}

} // verus!

//! The threshold filter: decides whether a file's size and age admit it,
//! and derives byte and second thresholds from a rule's configured values.

use vstd::prelude::*;

verus! {

/// `x` clamped to what a `u64` can hold.
pub open spec fn cap64(x: int) -> u64 {
    if x > u64::MAX {
        u64::MAX
    } else if x < 0 {
        0
    } else {
        x as u64
    }
}

/// Whether a file of size `size`, last modified at `mtime_secs` (absent when
/// the timestamp could not be read), passes the optional minimum-size and
/// minimum-age thresholds at time `now`. An absent threshold never excludes;
/// an unreadable or future timestamp never excludes (the age test fails open).
pub open spec fn spec_should_count(
    size: u64,
    mtime_secs: Option<u64>,
    now: u64,
    min_size: Option<u64>,
    min_age_secs: Option<u64>,
) -> bool {
    &&& (min_size is Some ==> size >= min_size->Some_0)
    &&& (min_age_secs is Some && mtime_secs is Some && mtime_secs->Some_0 <= now ==> now
        - mtime_secs->Some_0 >= min_age_secs->Some_0)
}

/// A file is included exactly when it is at least as large as the minimum
/// size (when one is set) and at least as old as the minimum age (when one is
/// set and its age is computable); absent thresholds never exclude.
pub fn should_count(
    size: u64,
    mtime_secs: Option<u64>,
    now: u64,
    min_size: Option<u64>,
    min_age_secs: Option<u64>,
) -> (r: bool)
    ensures
        r == spec_should_count(size, mtime_secs, now, min_size, min_age_secs),
{
    match min_size {
        Some(ms) => {
            if size < ms {
                return false;
            }
        },
        None => {},
    }
    match min_age_secs {
        Some(ma) => {
            match mtime_secs {
                Some(mt) => {
                    if mt <= now && now - mt < ma {
                        return false;
                    }
                },
                None => {},
            }
        },
        None => {},
    }
    true
}

/// The configured minimum size in bytes: megabytes times 1024 * 1024, capped
/// at what a `u64` holds; a negative or absent configuration means none.
pub open spec fn spec_size_threshold(mb: Option<i64>) -> Option<u64> {
    match mb {
        Some(m) => if m >= 0 {
            Some(cap64(m * 0x100000))
        } else {
            None
        },
        None => None,
    }
}

/// The configured minimum age in seconds: days times 24 * 60 * 60, capped at
/// what a `u64` holds; a negative or absent configuration means none.
pub open spec fn spec_age_threshold(days: Option<i64>) -> Option<u64> {
    match days {
        Some(d) => if d >= 0 {
            Some(cap64(d * 86400))
        } else {
            None
        },
        None => None,
    }
}

/// Derives the byte threshold from a rule's configured megabytes.
pub fn size_threshold_bytes(mb: Option<i64>) -> (r: Option<u64>)
    ensures
        r == spec_size_threshold(mb),
{
    match mb {
        Some(m) => {
            if m >= 0 {
                let v = m as u64;
                if v > u64::MAX / 0x100000 {
                    proof {
                        assert(v * 0x100000 > u64::MAX) by (nonlinear_arith)
                            requires
                                v > u64::MAX as int / 0x100000,
                        ;
                    }
                    Some(u64::MAX)
                } else {
                    proof {
                        assert(v * 0x100000 <= u64::MAX) by (nonlinear_arith)
                            requires
                                v <= u64::MAX as int / 0x100000,
                        ;
                    }
                    Some(v * 0x100000)
                }
            } else {
                None
            }
        },
        None => None,
    }
}

/// Derives the age threshold in seconds from a rule's configured days.
pub fn age_threshold_secs(days: Option<i64>) -> (r: Option<u64>)
    ensures
        r == spec_age_threshold(days),
{
    match days {
        Some(d) => {
            if d >= 0 {
                let v = d as u64;
                if v > u64::MAX / 86400 {
                    proof {
                        assert(v * 86400 > u64::MAX) by (nonlinear_arith)
                            requires
                                v > u64::MAX as int / 86400,
                        ;
                    }
                    Some(u64::MAX)
                } else {
                    proof {
                        assert(v * 86400 <= u64::MAX) by (nonlinear_arith)
                            requires
                                v <= u64::MAX as int / 86400,
                        ;
                    }
                    Some(v * 86400)
                }
            } else {
                None
            }
        },
        None => None,
    }
}

} // verus!

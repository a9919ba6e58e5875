//! The matcher: glob-pattern tests over separator-normalized relative paths.
//!
//! A pattern that does not compile degrades to "no filter" — every path
//! matches — so one malformed pattern cannot block a rule's whole walk.

use vstd::prelude::*;
use crate::text::lemma_normalize_idempotent;
use crate::text::lemma_normalize_no_backslash;
use crate::text::normalize_path;
use crate::text::normalize_pattern;
use crate::text::spec_normalize;

verus! {

/// Whether `glob::Pattern::new` accepts `pattern`. The value is pinned only
/// for backslash-free patterns.
pub uninterp spec fn glob_compiles(pattern: Seq<char>) -> bool;

/// Whether the compiled `pattern` matches `path`, as `glob::Pattern::matches`
/// decides it. The value is pinned only for backslash-free inputs.
pub uninterp spec fn glob_matches(pattern: Seq<char>, path: Seq<char>) -> bool;

/// Relies on glob 0.3: `Pattern::new` accepts or rejects a pattern by its
/// characters alone, and `Pattern::matches` decides by the two strings alone.
/// Backslash-free inputs rule out the one platform-dependent point, the
/// path-separator set, so both outcomes are functions of the strings. The
/// two calls share one wrapper because a match result can only be stated
/// over the pattern's text by compiling and matching in the same step — a
/// compiled `Pattern` value itself is opaque here.
#[verifier::external_body]
fn glob_match_str(pattern: &str, path: &str) -> (r: Option<bool>)
    requires
        !pattern@.contains('\\'),
        !path@.contains('\\'),
    ensures
        r is Some <==> glob_compiles(pattern@),
        r is Some ==> r->Some_0 == glob_matches(pattern@, path@),
{
    match glob::Pattern::new(pattern) {
        Ok(p) => Some(p.matches(path)),
        Err(_) => None,
    }
}

/// Whether a rule's raw `pattern` admits the raw relative path `rel`: both
/// are separator-normalized first, and a pattern that does not compile
/// admits everything.
pub open spec fn spec_pattern_match(pattern: Seq<char>, rel: Seq<char>) -> bool {
    let p = spec_normalize(pattern);
    if glob_compiles(p) {
        glob_matches(p, spec_normalize(rel))
    } else {
        true
    }
}

/// Tests the relative path `rel` against the glob `pattern`, normalizing the
/// path separators of both; a pattern that fails to compile matches all.
pub fn pattern_match(pattern: &str, rel: &str) -> (r: bool)
    ensures
        r == spec_pattern_match(pattern@, rel@),
{
    let p = normalize_pattern(pattern);
    let s = normalize_path(rel);
    proof {
        lemma_normalize_no_backslash(pattern@);
        lemma_normalize_no_backslash(rel@);
    }
    match glob_match_str(p.as_str(), s.as_str()) {
        Some(b) => b,
        None => true,
    }
}

/// Matching is invariant to path-separator style: two spellings of the same
/// relative path — or of the same pattern — that agree once separators are
/// normalized are matched identically.
pub proof fn lemma_match_separator_invariant(
    pattern_a: Seq<char>,
    pattern_b: Seq<char>,
    rel_a: Seq<char>,
    rel_b: Seq<char>,
)
    requires
        spec_normalize(pattern_a) == spec_normalize(pattern_b),
        spec_normalize(rel_a) == spec_normalize(rel_b),
    ensures
        spec_pattern_match(pattern_a, rel_a) == spec_pattern_match(pattern_b, rel_b),
{
}

/// In particular, a backslashed spelling of a relative path is matched
/// exactly as its forward-slashed normal form is.
pub proof fn lemma_match_backslash_style(pattern: Seq<char>, rel: Seq<char>)
    ensures
        spec_pattern_match(pattern, rel) == spec_pattern_match(pattern, spec_normalize(rel)),
{
    lemma_normalize_idempotent(rel);
    lemma_match_separator_invariant(pattern, pattern, rel, spec_normalize(rel));
}

} // verus!

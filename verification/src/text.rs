//! Character-level text helpers: separator normalization, blank tests,
//! drive-letter extraction and decimal formatting.

use vstd::prelude::*;
use vstd::string::StrSliceExecFns;

verus! {

/// A path separator as this library canonicalizes it.
pub open spec fn norm_char(c: char) -> char {
    if c == '\\' {
        '/'
    } else {
        c
    }
}

/// The characters of `s` with every backslash replaced by a forward slash.
pub open spec fn spec_normalize(s: Seq<char>) -> Seq<char> {
    s.map_values(|c: char| norm_char(c))
}

/// Normalizing never leaves a backslash behind.
pub proof fn lemma_normalize_no_backslash(s: Seq<char>)
    ensures
        !spec_normalize(s).contains('\\'),
{
    assert forall|i: int| 0 <= i < spec_normalize(s).len() implies spec_normalize(s)[i] != '\\' by {
        assert(spec_normalize(s)[i] == norm_char(s[i]));
    }
}

/// Normalizing a second time changes nothing.
pub proof fn lemma_normalize_idempotent(s: Seq<char>)
    ensures
        spec_normalize(spec_normalize(s)) == spec_normalize(s),
{
    assert(spec_normalize(spec_normalize(s)) =~= spec_normalize(s));
}

/// The characters of `s`, in order, as a vector.
pub fn chars_of(s: &str) -> (r: Vec<char>)
    ensures
        r@ == s@,
{
    let n = s.unicode_len();
    let mut out: Vec<char> = Vec::new();
    let mut i: usize = 0;
    while i < n
        invariant
            i <= n,
            n == s@.len(),
            out@ == s@.subrange(0, i as int),
        decreases n - i,
    {
        let c = s.get_char(i);
        out.push(c);
        assert(out@ =~= s@.subrange(0, i + 1 as int));
        i = i + 1;
    }
    proof {
        assert(out@ =~= s@);
    }
    out
}

/// Relies on std's `String: FromIterator<char>`: collecting characters yields
/// the string holding exactly those characters, in order.
#[verifier::external_body]
pub(crate) fn string_from_chars(v: &Vec<char>) -> (r: String)
    ensures
        r@ == v@,
{
    v.iter().collect()
}

/// `v` with every backslash replaced by a forward slash.
pub fn normalize_chars(v: &Vec<char>) -> (r: Vec<char>)
    ensures
        r@ == spec_normalize(v@),
{
    let mut out: Vec<char> = Vec::new();
    let mut i: usize = 0;
    while i < v.len()
        invariant
            i <= v@.len(),
            out@ == spec_normalize(v@.subrange(0, i as int)),
        decreases v@.len() - i,
    {
        let c = v[i];
        if c == '\\' {
            out.push('/');
        } else {
            out.push(c);
        }
        assert(out@ =~= spec_normalize(v@.subrange(0, i + 1 as int)));
        i = i + 1;
    }
    proof {
        assert(v@.subrange(0, v@.len() as int) =~= v@);
    }
    out
}

/// `path` with path separators normalized to forward slashes.
pub fn normalize_path(path: &str) -> (r: String)
    ensures
        r@ == spec_normalize(path@),
{
    let cs = chars_of(path);
    let normed = normalize_chars(&cs);
    string_from_chars(&normed)
}

/// `pattern` with path separators normalized to forward slashes.
pub fn normalize_pattern(pattern: &str) -> (r: String)
    ensures
        r@ == spec_normalize(pattern@),
{
    normalize_path(pattern)
}

/// The volume identifier of a path: its first character followed by a colon,
/// present exactly when the path's second character is a colon.
pub open spec fn spec_drive(path: Seq<char>) -> Option<Seq<char>> {
    if path.len() >= 2 && path[1] == ':' {
        Some(seq![path[0], ':'])
    } else {
        None
    }
}

/// Extracts the volume identifier (drive letter and colon) from `path`.
pub fn drive_from_path(path: &str) -> (r: Option<String>)
    ensures
        r is Some <==> spec_drive(path@) is Some,
        r is Some ==> r->Some_0@ == spec_drive(path@)->Some_0,
{
    let cs = chars_of(path);
    if cs.len() >= 2 && cs[1] == ':' {
        let mut d: Vec<char> = Vec::new();
        d.push(cs[0]);
        d.push(':');
        let out = string_from_chars(&d);
        proof {
            assert(d@ =~= spec_drive(path@)->Some_0);
        }
        Some(out)
    } else {
        None
    }
}

/// The character of one decimal digit.
pub open spec fn spec_digit_char(d: nat) -> char {
    if d == 0 {
        '0'
    } else if d == 1 {
        '1'
    } else if d == 2 {
        '2'
    } else if d == 3 {
        '3'
    } else if d == 4 {
        '4'
    } else if d == 5 {
        '5'
    } else if d == 6 {
        '6'
    } else if d == 7 {
        '7'
    } else if d == 8 {
        '8'
    } else {
        '9'
    }
}

/// The decimal rendering of `n`, most significant digit first, without
/// leading zeros (a lone zero for 0).
pub open spec fn spec_digits(n: nat) -> Seq<char>
    decreases n,
{
    if n < 10 {
        seq![spec_digit_char(n)]
    } else {
        spec_digits(n / 10) + seq![spec_digit_char(n % 10)]
    }
}

fn digit_char(d: u64) -> (c: char)
    requires
        d < 10,
    ensures
        c == spec_digit_char(d as nat),
{
    if d == 0 {
        '0'
    } else if d == 1 {
        '1'
    } else if d == 2 {
        '2'
    } else if d == 3 {
        '3'
    } else if d == 4 {
        '4'
    } else if d == 5 {
        '5'
    } else if d == 6 {
        '6'
    } else if d == 7 {
        '7'
    } else if d == 8 {
        '8'
    } else {
        '9'
    }
}

/// Renders `n` in decimal.
pub fn u64_to_string(n: u64) -> (r: String)
    ensures
        r@ == spec_digits(n as nat),
{
    let mut low: Vec<char> = Vec::new();
    let mut m: u64 = n;
    proof {
        assert(low@.reverse() =~= Seq::<char>::empty());
        assert(spec_digits(n as nat) + Seq::<char>::empty() =~= spec_digits(n as nat));
    }
    while m >= 10
        invariant
            spec_digits(n as nat) == spec_digits(m as nat) + low@.reverse(),
        decreases m,
    {
        let d = m % 10;
        let ghost prev = low@;
        low.push(digit_char(d));
        m = m / 10;
        proof {
            assert(low@ == prev.push(spec_digit_char(d as nat)));
            assert(low@.reverse() =~= seq![spec_digit_char(d as nat)] + prev.reverse());
            assert(spec_digits((m * 10 + d) as nat) == spec_digits(m as nat) + seq![
                spec_digit_char(d as nat),
            ]);
            assert(spec_digits(m as nat) + (seq![spec_digit_char(d as nat)] + prev.reverse())
                =~= (spec_digits(m as nat) + seq![spec_digit_char(d as nat)]) + prev.reverse());
        }
    }
    let ghost prev = low@;
    low.push(digit_char(m));
    proof {
        assert(low@.reverse() =~= seq![spec_digit_char(m as nat)] + prev.reverse());
        assert(spec_digits(m as nat) =~= seq![spec_digit_char(m as nat)]);
        assert(seq![spec_digit_char(m as nat)] + prev.reverse() =~= spec_digits(m as nat)
            + prev.reverse());
    }
    // Reverse the collected digits.
    let mut out: Vec<char> = Vec::new();
    let mut k: usize = low.len();
    proof {
        assert(out@ =~= low@.reverse().subrange(0, 0));
    }
    while k > 0
        invariant
            k <= low@.len(),
            out@ == low@.reverse().subrange(0, low@.len() - k),
        decreases k,
    {
        let c = low[k - 1];
        proof {
            assert(low@.reverse()[low@.len() - k] == low@[k - 1]);
        }
        out.push(c);
        proof {
            assert(out@ =~= low@.reverse().subrange(0, low@.len() - (k - 1)));
        }
        k = k - 1;
    }
    proof {
        assert(out@ =~= low@.reverse());
    }
    string_from_chars(&out)
}

/// A whitespace character, as std's `char::is_whitespace` defines the set.
pub open spec fn spec_is_space(c: char) -> bool {
    c == ' ' || c == '\t' || c == '\n' || c == '\u{b}' || c == '\u{c}' || c == '\r' || c == '\u{85}'
        || c == '\u{a0}' || c == '\u{1680}' || c == '\u{2000}' || c == '\u{2001}' || c == '\u{2002}'
        || c == '\u{2003}' || c == '\u{2004}' || c == '\u{2005}' || c == '\u{2006}' || c == '\u{2007}'
        || c == '\u{2008}' || c == '\u{2009}' || c == '\u{200a}' || c == '\u{2028}' || c == '\u{2029}'
        || c == '\u{202f}' || c == '\u{205f}' || c == '\u{3000}'
}

/// Whether every character of `s` is whitespace; true of the empty string.
pub open spec fn spec_is_blank(s: Seq<char>) -> bool {
    forall|i: int| 0 <= i < s.len() ==> spec_is_space(s[i])
}

fn char_is_space(c: char) -> (r: bool)
    ensures
        r == spec_is_space(c),
{
    c == ' ' || c == '\t' || c == '\n' || c == '\u{b}' || c == '\u{c}' || c == '\r' || c == '\u{85}'
        || c == '\u{a0}' || c == '\u{1680}' || c == '\u{2000}' || c == '\u{2001}' || c == '\u{2002}'
        || c == '\u{2003}' || c == '\u{2004}' || c == '\u{2005}' || c == '\u{2006}' || c == '\u{2007}'
        || c == '\u{2008}' || c == '\u{2009}' || c == '\u{200a}' || c == '\u{2028}' || c == '\u{2029}'
        || c == '\u{202f}' || c == '\u{205f}' || c == '\u{3000}'
}

/// Whether `s` trims to the empty string.
pub fn is_blank(s: &str) -> (r: bool)
    ensures
        r == spec_is_blank(s@),
{
    let cs = chars_of(s);
    let mut i: usize = 0;
    while i < cs.len()
        invariant
            i <= cs@.len(),
            cs@ == s@,
            forall|j: int| 0 <= j < i ==> spec_is_space(s@[j]),
        decreases cs@.len() - i,
    {
        if !char_is_space(cs[i]) {
            return false;
        }
        i = i + 1;
    }
    true
}

} // verus!

//! The tree scanner's decision logic: which observed entries count, what
//! they total, and which files a clean pass acts on.
//!
//! The caller enumerates a directory (without following links) and hands the
//! entries over as plain values; everything decided over them is verified.

use vstd::prelude::*;
use crate::matcher::pattern_match;
use crate::matcher::spec_pattern_match;
use crate::text::chars_of;
use crate::text::normalize_chars;
use crate::text::spec_normalize;
use crate::text::string_from_chars;
use crate::thresholds::cap64;
use crate::thresholds::should_count;
use crate::thresholds::spec_should_count;

verus! {

/// What a metadata fetch reported for one file.
#[derive(Clone, Copy, Debug, PartialEq, Eq, Structural)]
pub struct FileMeta {
    /// The file's size in bytes.
    pub size: u64,
    /// Its last-modified time in seconds since the epoch, absent when the
    /// timestamp could not be read.
    pub mtime_secs: Option<u64>,
}

/// One entry yielded while enumerating a directory tree.
pub enum WalkItem {
    /// The entry could not be read at all.
    Unreadable,
    /// An entry with its path, whether it is a regular file, and its
    /// metadata (`None` when the metadata fetch failed).
    Entry { path: String, is_file: bool, meta: Option<FileMeta> },
}

/// What the world said about a rule's expanded base path.
pub enum BaseStatus {
    /// The path does not exist.
    Missing,
    /// The path is a single regular file, with its metadata if readable.
    IsFile(Option<FileMeta>),
    /// The path is a directory; these entries were enumerated beneath it.
    IsDir(Vec<WalkItem>),
}

/// `s` with its leading forward slashes removed.
pub open spec fn spec_strip_leading_slashes(s: Seq<char>) -> Seq<char>
    decreases s.len(),
{
    if s.len() > 0 && s[0] == '/' {
        spec_strip_leading_slashes(s.skip(1))
    } else {
        s
    }
}

/// The path `path` relative to `base`, both separator-normalized: the
/// remainder after the base prefix, shorn of leading slashes; absent when
/// `path` does not extend `base`.
pub open spec fn spec_rel(path: Seq<char>, base: Seq<char>) -> Option<Seq<char>> {
    let p = spec_normalize(path);
    let b = spec_normalize(base);
    if p.len() >= b.len() && p.subrange(0, b.len() as int) == b {
        Some(spec_strip_leading_slashes(p.skip(b.len() as int)))
    } else {
        None
    }
}

/// Computes the path relative to `base` that pattern matching tests.
pub fn rel_path(path: &str, base: &str) -> (r: Option<String>)
    ensures
        r is Some <==> spec_rel(path@, base@) is Some,
        r is Some ==> r->Some_0@ == spec_rel(path@, base@)->Some_0,
{
    let pc = chars_of(path);
    let p = normalize_chars(&pc);
    let bc = chars_of(base);
    let b = normalize_chars(&bc);
    if p.len() < b.len() {
        return None;
    }
    let blen = b.len();
    let mut j: usize = 0;
    while j < blen
        invariant
            j <= blen,
            blen == b@.len(),
            b@.len() <= p@.len(),
            p@ == spec_normalize(path@),
            b@ == spec_normalize(base@),
            forall|m: int| 0 <= m < j ==> p@[m] == b@[m],
        decreases blen - j,
    {
        if p[j] != b[j] {
            proof {
                assert(p@.subrange(0, b@.len() as int)[j as int] != b@[j as int]);
            }
            return None;
        }
        j = j + 1;
    }
    proof {
        assert(p@.subrange(0, b@.len() as int) =~= b@);
    }
    // Drop the leading separators of the remainder.
    let plen = p.len();
    let mut s: usize = blen;
    proof {
        assert(p@.skip(blen as int) =~= p@.skip(blen as int));
    }
    while s < plen && p[s] == '/'
        invariant
            blen <= s <= plen,
            plen == p@.len(),
            blen == b@.len(),
            p@ == spec_normalize(path@),
            b@ == spec_normalize(base@),
            p@.subrange(0, b@.len() as int) == b@,
            spec_strip_leading_slashes(p@.skip(blen as int)) == spec_strip_leading_slashes(
                p@.skip(s as int),
            ),
        decreases plen - s,
    {
        proof {
            assert(p@.skip(s as int)[0] == p@[s as int]);
            assert(p@.skip(s as int).skip(1) =~= p@.skip(s + 1 as int));
        }
        s = s + 1;
    }
    proof {
        assert(spec_strip_leading_slashes(p@.skip(s as int)) == p@.skip(s as int));
    }
    let ghost stripped = spec_strip_leading_slashes(p@.skip(blen as int));
    let mut rest: Vec<char> = Vec::new();
    let mut m: usize = s;
    proof {
        assert(rest@ =~= p@.subrange(s as int, s as int));
    }
    while m < plen
        invariant
            s <= m <= plen,
            plen == p@.len(),
            blen == b@.len(),
            p@ == spec_normalize(path@),
            b@ == spec_normalize(base@),
            p@.subrange(0, b@.len() as int) == b@,
            stripped == p@.skip(s as int),
            stripped == spec_strip_leading_slashes(p@.skip(blen as int)),
            rest@ == p@.subrange(s as int, m as int),
        decreases plen - m,
    {
        rest.push(p[m]);
        assert(rest@ =~= p@.subrange(s as int, m + 1 as int));
        m = m + 1;
    }
    proof {
        assert(p@.subrange(s as int, plen as int) =~= p@.skip(s as int));
    }
    Some(string_from_chars(&rest))
}

/// Whether the configured `pattern` admits the file at `path` under `base`:
/// no pattern admits everything, and a path that does not extend the base
/// cannot be filtered, so it is admitted as well.
pub open spec fn spec_pattern_pass(pattern: Option<String>, path: Seq<char>, base: Seq<char>) -> bool {
    match pattern {
        None => true,
        Some(p) => match spec_rel(path, base) {
            None => true,
            Some(rel) => spec_pattern_match(p@, rel),
        },
    }
}

/// Tests the configured pattern against a file's path relative to the base.
pub fn pattern_pass(pattern: &Option<String>, path: &str, base: &str) -> (r: bool)
    ensures
        r == spec_pattern_pass(*pattern, path@, base@),
{
    match pattern {
        None => true,
        Some(p) => {
            match rel_path(path, base) {
                None => true,
                Some(rel) => pattern_match(p.as_str(), rel.as_str()),
            }
        },
    }
}

/// The bytes a single-file base contributes under the thresholds.
pub open spec fn spec_file_bytes(
    meta: Option<FileMeta>,
    now: u64,
    min_size: Option<u64>,
    min_age: Option<u64>,
) -> int {
    match meta {
        Some(fm) => if spec_should_count(fm.size, fm.mtime_secs, now, min_size, min_age) {
            fm.size as int
        } else {
            0
        },
        None => 0,
    }
}

/// Whether a single-file base is counted under the thresholds.
pub open spec fn spec_file_counted(
    meta: Option<FileMeta>,
    now: u64,
    min_size: Option<u64>,
    min_age: Option<u64>,
) -> bool {
    match meta {
        Some(fm) => spec_should_count(fm.size, fm.mtime_secs, now, min_size, min_age),
        None => false,
    }
}

/// Whether one walk entry is counted: a readable regular file that the
/// pattern admits and the thresholds accept.
pub open spec fn spec_entry_counted(
    it: WalkItem,
    base: Seq<char>,
    pattern: Option<String>,
    now: u64,
    min_size: Option<u64>,
    min_age: Option<u64>,
) -> bool {
    match it {
        WalkItem::Unreadable => false,
        WalkItem::Entry { path, is_file, meta } => is_file && spec_pattern_pass(
            pattern,
            path@,
            base,
        ) && match meta {
            Some(fm) => spec_should_count(fm.size, fm.mtime_secs, now, min_size, min_age),
            None => false,
        },
    }
}

/// Whether one walk entry is a pattern-admitted file whose metadata failed:
/// it contributes nothing but marks the walk as partially failed.
pub open spec fn spec_entry_meta_error(
    it: WalkItem,
    base: Seq<char>,
    pattern: Option<String>,
) -> bool {
    match it {
        WalkItem::Unreadable => false,
        WalkItem::Entry { path, is_file, meta } => is_file && spec_pattern_pass(
            pattern,
            path@,
            base,
        ) && meta is None,
    }
}

/// The size a counted entry contributes.
pub open spec fn spec_entry_size(it: WalkItem) -> int {
    match it {
        WalkItem::Unreadable => 0,
        WalkItem::Entry { path, is_file, meta } => match meta {
            Some(fm) => fm.size as int,
            None => 0,
        },
    }
}

/// The bytes all counted entries total, unclamped.
pub open spec fn spec_walk_bytes(
    items: Seq<WalkItem>,
    base: Seq<char>,
    pattern: Option<String>,
    now: u64,
    min_size: Option<u64>,
    min_age: Option<u64>,
) -> int
    decreases items.len(),
{
    if items.len() == 0 {
        0
    } else {
        spec_walk_bytes(items.drop_last(), base, pattern, now, min_size, min_age) + if spec_entry_counted(
            items.last(),
            base,
            pattern,
            now,
            min_size,
            min_age,
        ) {
            spec_entry_size(items.last())
        } else {
            0
        }
    }
}

/// How many entries are counted.
pub open spec fn spec_walk_files(
    items: Seq<WalkItem>,
    base: Seq<char>,
    pattern: Option<String>,
    now: u64,
    min_size: Option<u64>,
    min_age: Option<u64>,
) -> int
    decreases items.len(),
{
    if items.len() == 0 {
        0
    } else {
        spec_walk_files(items.drop_last(), base, pattern, now, min_size, min_age) + if spec_entry_counted(
            items.last(),
            base,
            pattern,
            now,
            min_size,
            min_age,
        ) {
            1int
        } else {
            0int
        }
    }
}

/// Whether the walk met any error: an unreadable entry, or a pattern-admitted
/// file whose metadata could not be fetched.
pub open spec fn spec_walk_error(items: Seq<WalkItem>, base: Seq<char>, pattern: Option<String>) -> bool {
    exists|i: int|
        0 <= i < items.len() && (items[i] is Unreadable || spec_entry_meta_error(
            items[i],
            base,
            pattern,
        ))
}

/// A walk's byte total is a sum of sizes, so it is never negative.
pub proof fn lemma_walk_bytes_nonneg(
    items: Seq<WalkItem>,
    base: Seq<char>,
    pattern: Option<String>,
    now: u64,
    min_size: Option<u64>,
    min_age: Option<u64>,
)
    ensures
        spec_walk_bytes(items, base, pattern, now, min_size, min_age) >= 0,
    decreases items.len(),
{
    if items.len() > 0 {
        lemma_walk_bytes_nonneg(items.drop_last(), base, pattern, now, min_size, min_age);
    }
}

/// A walk where no entry is counted totals nothing.
pub proof fn lemma_walk_nothing_counted(
    items: Seq<WalkItem>,
    base: Seq<char>,
    pattern: Option<String>,
    now: u64,
    min_size: Option<u64>,
    min_age: Option<u64>,
)
    requires
        forall|i: int|
            0 <= i < items.len() ==> !spec_entry_counted(
                #[trigger] items[i],
                base,
                pattern,
                now,
                min_size,
                min_age,
            ),
    ensures
        spec_walk_bytes(items, base, pattern, now, min_size, min_age) == 0,
        spec_walk_files(items, base, pattern, now, min_size, min_age) == 0,
    decreases items.len(),
{
    if items.len() > 0 {
        assert(forall|i: int|
            0 <= i < items.drop_last().len() ==> items.drop_last()[i] == items[i]);
        lemma_walk_nothing_counted(items.drop_last(), base, pattern, now, min_size, min_age);
        assert(items.last() == items[items.len() - 1]);
    }
}

/// The sum of counted entries never exceeds their number.
pub proof fn lemma_walk_files_bounded(
    items: Seq<WalkItem>,
    base: Seq<char>,
    pattern: Option<String>,
    now: u64,
    min_size: Option<u64>,
    min_age: Option<u64>,
)
    ensures
        0 <= spec_walk_files(items, base, pattern, now, min_size, min_age) <= items.len(),
    decreases items.len(),
{
    if items.len() > 0 {
        lemma_walk_files_bounded(items.drop_last(), base, pattern, now, min_size, min_age);
    }
}

/// Decides whether `it` is counted under the given filters.
pub fn entry_counted(
    it: &WalkItem,
    base: &str,
    pattern: &Option<String>,
    now: u64,
    min_size: Option<u64>,
    min_age: Option<u64>,
) -> (r: bool)
    ensures
        r == spec_entry_counted(*it, base@, *pattern, now, min_size, min_age),
{
    match it {
        WalkItem::Unreadable => false,
        WalkItem::Entry { path, is_file, meta } => {
            if !*is_file {
                return false;
            }
            if !pattern_pass(pattern, path.as_str(), base) {
                return false;
            }
            match meta {
                Some(fm) => should_count(fm.size, fm.mtime_secs, now, min_size, min_age),
                None => false,
            }
        },
    }
}

/// Decides whether `it` marks the walk as partially failed.
pub fn entry_error(it: &WalkItem, base: &str, pattern: &Option<String>) -> (r: bool)
    ensures
        r == (it is Unreadable || spec_entry_meta_error(*it, base@, *pattern)),
{
    match it {
        WalkItem::Unreadable => true,
        WalkItem::Entry { path, is_file, meta } => {
            *is_file && meta.is_none() && pattern_pass(pattern, path.as_str(), base)
        },
    }
}

/// Adds `b` to `a`, clamping at what a `u64` holds.
pub fn sat_add_u64(a: u64, b: u64) -> (r: u64)
    ensures
        r == cap64(a + b),
{
    if u64::MAX - a < b {
        u64::MAX
    } else {
        a + b
    }
}

/// Totals the counted entries of one enumerated directory: the bytes (capped
/// at what a `u64` holds), the file count, and whether any entry failed.
pub fn scan_directory(
    entries: &Vec<WalkItem>,
    base: &str,
    pattern: &Option<String>,
    now: u64,
    min_size: Option<u64>,
    min_age: Option<u64>,
) -> (r: (u64, u64, bool))
    ensures
        r.0 == cap64(spec_walk_bytes(entries@, base@, *pattern, now, min_size, min_age)),
        r.1 == spec_walk_files(entries@, base@, *pattern, now, min_size, min_age),
        r.2 == spec_walk_error(entries@, base@, *pattern),
{
    let mut bytes: u64 = 0;
    let mut files: u64 = 0;
    let mut had_error = false;
    let mut i: usize = 0;
    proof {
        assert(entries@.subrange(0, 0) =~= Seq::<WalkItem>::empty());
    }
    while i < entries.len()
        invariant
            i <= entries@.len(),
            bytes == cap64(
                spec_walk_bytes(
                    entries@.subrange(0, i as int),
                    base@,
                    *pattern,
                    now,
                    min_size,
                    min_age,
                ),
            ),
            files == spec_walk_files(
                entries@.subrange(0, i as int),
                base@,
                *pattern,
                now,
                min_size,
                min_age,
            ),
            had_error == spec_walk_error(entries@.subrange(0, i as int), base@, *pattern),
        decreases entries@.len() - i,
    {
        let ghost prefix = entries@.subrange(0, i as int);
        let ghost next = entries@.subrange(0, i + 1 as int);
        proof {
            assert(next.drop_last() =~= prefix);
            assert(next.last() == entries@[i as int]);
            lemma_walk_files_bounded(prefix, base@, *pattern, now, min_size, min_age);
            lemma_walk_bytes_nonneg(prefix, base@, *pattern, now, min_size, min_age);
        }
        let it = &entries[i];
        if entry_counted(it, base, pattern, now, min_size, min_age) {
            let sz = match it {
                WalkItem::Entry { path, is_file, meta } => match meta {
                    Some(fm) => fm.size,
                    None => 0,
                },
                WalkItem::Unreadable => 0,
            };
            proof {
                assert(sz == spec_entry_size(entries@[i as int]));
                assert(spec_walk_bytes(next, base@, *pattern, now, min_size, min_age)
                    == spec_walk_bytes(prefix, base@, *pattern, now, min_size, min_age) + sz);
            }
            bytes = sat_add_u64(bytes, sz);
            files = files + 1;
        } else {
            proof {
                assert(spec_walk_bytes(next, base@, *pattern, now, min_size, min_age)
                    == spec_walk_bytes(prefix, base@, *pattern, now, min_size, min_age));
            }
        }
        if entry_error(it, base, pattern) {
            had_error = true;
        }
        proof {
            assert(had_error == spec_walk_error(next, base@, *pattern)) by {
                if had_error {
                    if spec_walk_error(prefix, base@, *pattern) || entries@[i as int] is Unreadable
                        || spec_entry_meta_error(entries@[i as int], base@, *pattern) {
                        assert(forall|j: int|
                            0 <= j < prefix.len() ==> next[j] == prefix[j]);
                    }
                } else {
                    assert(forall|j: int| 0 <= j < next.len() ==> next[j] == entries@[j]);
                }
            }
        }
        i = i + 1;
    }
    proof {
        assert(entries@.subrange(0, entries@.len() as int) =~= entries@);
    }
    (bytes, files, had_error)
}

/// The paths a clean pass acts on: every counted entry's path, in walk order.
pub open spec fn spec_targets(
    items: Seq<WalkItem>,
    base: Seq<char>,
    pattern: Option<String>,
    now: u64,
    min_size: Option<u64>,
    min_age: Option<u64>,
) -> Seq<String>
    decreases items.len(),
{
    if items.len() == 0 {
        Seq::empty()
    } else {
        let prev = spec_targets(items.drop_last(), base, pattern, now, min_size, min_age);
        match items.last() {
            WalkItem::Entry { path, is_file, meta } => if spec_entry_counted(
                items.last(),
                base,
                pattern,
                now,
                min_size,
                min_age,
            ) {
                prev.push(path)
            } else {
                prev
            },
            WalkItem::Unreadable => prev,
        }
    }
}

/// As many targets exist as entries are counted.
pub proof fn lemma_targets_len(
    items: Seq<WalkItem>,
    base: Seq<char>,
    pattern: Option<String>,
    now: u64,
    min_size: Option<u64>,
    min_age: Option<u64>,
)
    ensures
        spec_targets(items, base, pattern, now, min_size, min_age).len() == spec_walk_files(
            items,
            base,
            pattern,
            now,
            min_size,
            min_age,
        ),
    decreases items.len(),
{
    if items.len() > 0 {
        lemma_targets_len(items.drop_last(), base, pattern, now, min_size, min_age);
    }
}

/// Lists the files a clean pass over these entries acts on, in walk order.
pub fn walk_targets(
    entries: &Vec<WalkItem>,
    base: &str,
    pattern: &Option<String>,
    now: u64,
    min_size: Option<u64>,
    min_age: Option<u64>,
) -> (r: Vec<String>)
    ensures
        r@ == spec_targets(entries@, base@, *pattern, now, min_size, min_age),
{
    let mut out: Vec<String> = Vec::new();
    let mut i: usize = 0;
    proof {
        assert(entries@.subrange(0, 0) =~= Seq::<WalkItem>::empty());
        assert(out@ =~= spec_targets(
            entries@.subrange(0, 0),
            base@,
            *pattern,
            now,
            min_size,
            min_age,
        ));
    }
    while i < entries.len()
        invariant
            i <= entries@.len(),
            out@ == spec_targets(
                entries@.subrange(0, i as int),
                base@,
                *pattern,
                now,
                min_size,
                min_age,
            ),
        decreases entries@.len() - i,
    {
        let ghost prefix = entries@.subrange(0, i as int);
        let ghost next = entries@.subrange(0, i + 1 as int);
        proof {
            assert(next.drop_last() =~= prefix);
            assert(next.last() == entries@[i as int]);
        }
        let it = &entries[i];
        if entry_counted(it, base, pattern, now, min_size, min_age) {
            match it {
                WalkItem::Entry { path, is_file, meta } => {
                    out.push(path.clone());
                },
                WalkItem::Unreadable => {},
            }
        }
        i = i + 1;
    }
    proof {
        assert(entries@.subrange(0, entries@.len() as int) =~= entries@);
    }
    out
}

} // verus!

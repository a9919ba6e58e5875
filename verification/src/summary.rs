//! The summarizer: folds per-rule clean reports into totals and into
//! category and volume buckets, each bucket list sorted by descending bytes
//! with ties keeping discovery order.
//!
//! Only items that ended `Okay` or `Partial` contribute; blocked, missing and
//! failed items contribute nothing. Percentages are whole percent, rounded
//! down, and 0 when the grand total is 0 — never undefined.

use vstd::prelude::*;
use vstd::arithmetic::div_mod::lemma_basic_div;
use vstd::arithmetic::div_mod::lemma_div_is_ordered;
use vstd::arithmetic::div_mod::lemma_div_multiples_vanish;
use vstd::arithmetic::div_mod::lemma_div_non_zero;
use crate::model::CleanupItemReport;
use crate::model::CleanupSummary;
use crate::model::SummaryBucket;
use crate::thresholds::cap64;
use crate::walk::sat_add_u64;

verus! {

/// Whether one item's results enter the summary.
pub open spec fn spec_contributes(it: CleanupItemReport) -> bool {
    it.status is Okay || it.status is Partial
}

/// The bytes all contributing items total, unclamped.
pub open spec fn spec_total_bytes(items: Seq<CleanupItemReport>) -> int
    decreases items.len(),
{
    if items.len() == 0 {
        0
    } else {
        spec_total_bytes(items.drop_last()) + if spec_contributes(items.last()) {
            items.last().total_bytes as int
        } else {
            0
        }
    }
}

/// The files all contributing items total, unclamped.
pub open spec fn spec_total_files(items: Seq<CleanupItemReport>) -> int
    decreases items.len(),
{
    if items.len() == 0 {
        0
    } else {
        spec_total_files(items.drop_last()) + if spec_contributes(items.last()) {
            items.last().file_count as int
        } else {
            0
        }
    }
}

/// Totals are sums of machine words: never negative.
pub proof fn lemma_totals_nonneg(items: Seq<CleanupItemReport>)
    ensures
        spec_total_bytes(items) >= 0,
        spec_total_files(items) >= 0,
    decreases items.len(),
{
    if items.len() > 0 {
        lemma_totals_nonneg(items.drop_last());
    }
}

/// One aggregation slot: a key with its accumulated bytes and files, both
/// clamped at what a `u64` holds.
pub open spec fn spec_upsert(
    g: Seq<(String, u64, u64)>,
    key: String,
    b: u64,
    f: u64,
) -> Seq<(String, u64, u64)>
    decreases g.len(),
{
    if g.len() == 0 {
        seq![(key, b, f)]
    } else if g[0].0@ == key@ {
        seq![(g[0].0, cap64(g[0].1 + b), cap64(g[0].2 + f))] + g.skip(1)
    } else {
        seq![g[0]] + spec_upsert(g.skip(1), key, b, f)
    }
}

/// The contributing items grouped by category, in first-discovery order.
pub open spec fn spec_groups_by_category(items: Seq<CleanupItemReport>) -> Seq<(String, u64, u64)>
    decreases items.len(),
{
    if items.len() == 0 {
        Seq::empty()
    } else {
        let prev = spec_groups_by_category(items.drop_last());
        let it = items.last();
        if spec_contributes(it) {
            spec_upsert(prev, it.category, it.total_bytes, it.file_count)
        } else {
            prev
        }
    }
}

/// The contributing items grouped by volume, in first-discovery order; items
/// without a volume are left out of this grouping only.
pub open spec fn spec_groups_by_drive(items: Seq<CleanupItemReport>) -> Seq<(String, u64, u64)>
    decreases items.len(),
{
    if items.len() == 0 {
        Seq::empty()
    } else {
        let prev = spec_groups_by_drive(items.drop_last());
        let it = items.last();
        if spec_contributes(it) {
            match it.drive {
                Some(d) => spec_upsert(prev, d, it.total_bytes, it.file_count),
                None => prev,
            }
        } else {
            prev
        }
    }
}

/// The bytes a group list accumulates, unclamped.
pub open spec fn spec_group_sum_bytes(g: Seq<(String, u64, u64)>) -> int
    decreases g.len(),
{
    if g.len() == 0 {
        0
    } else {
        g[0].1 + spec_group_sum_bytes(g.skip(1))
    }
}

/// The files a group list accumulates, unclamped.
pub open spec fn spec_group_sum_files(g: Seq<(String, u64, u64)>) -> int
    decreases g.len(),
{
    if g.len() == 0 {
        0
    } else {
        g[0].2 + spec_group_sum_files(g.skip(1))
    }
}

/// Group sums are sums of machine words: never negative.
proof fn lemma_group_sums_nonneg(g: Seq<(String, u64, u64)>)
    ensures
        spec_group_sum_bytes(g) >= 0,
        spec_group_sum_files(g) >= 0,
    decreases g.len(),
{
    if g.len() > 0 {
        lemma_group_sums_nonneg(g.skip(1));
    }
}

/// While no slot saturates, an upsert adds exactly its contribution to the
/// group sums.
proof fn lemma_upsert_sum(g: Seq<(String, u64, u64)>, key: String, b: u64, f: u64)
    requires
        spec_group_sum_bytes(g) + b <= u64::MAX,
        spec_group_sum_files(g) + f <= u64::MAX,
    ensures
        spec_group_sum_bytes(spec_upsert(g, key, b, f)) == spec_group_sum_bytes(g) + b,
        spec_group_sum_files(spec_upsert(g, key, b, f)) == spec_group_sum_files(g) + f,
    decreases g.len(),
{
    let r = spec_upsert(g, key, b, f);
    if g.len() == 0 {
        assert(r == seq![(key, b, f)]);
        assert(r.skip(1) =~= g);
    } else if g[0].0@ == key@ {
        lemma_group_sums_nonneg(g.skip(1));
        assert(r.skip(1) =~= g.skip(1));
        assert(r[0].1 == cap64(g[0].1 + b) && r[0].2 == cap64(g[0].2 + f));
    } else {
        lemma_group_sums_nonneg(g.skip(1));
        lemma_upsert_sum(g.skip(1), key, b, f);
        assert(r.skip(1) =~= spec_upsert(g.skip(1), key, b, f));
        assert(r[0] == g[0]);
    }
}

/// While the totals fit a `u64`, the category groups partition them: their
/// sums equal the totals of all contributing items.
pub proof fn lemma_category_groups_partition(items: Seq<CleanupItemReport>)
    requires
        spec_total_bytes(items) <= u64::MAX,
        spec_total_files(items) <= u64::MAX,
    ensures
        spec_group_sum_bytes(spec_groups_by_category(items)) == spec_total_bytes(items),
        spec_group_sum_files(spec_groups_by_category(items)) == spec_total_files(items),
    decreases items.len(),
{
    if items.len() > 0 {
        let prev = items.drop_last();
        let it = items.last();
        lemma_totals_nonneg(prev);
        lemma_category_groups_partition(prev);
        if spec_contributes(it) {
            lemma_upsert_sum(
                spec_groups_by_category(prev),
                it.category,
                it.total_bytes,
                it.file_count,
            );
        }
    }
}

/// Every slot an upsert leaves behind stays within the grown bound.
proof fn lemma_upsert_bounded(g: Seq<(String, u64, u64)>, key: String, b: u64, f: u64, bound: int)
    requires
        bound >= 0,
        forall|k: int| 0 <= k < g.len() ==> (#[trigger] g[k]).1 <= cap64(bound),
    ensures
        forall|k: int|
            0 <= k < spec_upsert(g, key, b, f).len() ==> (#[trigger] spec_upsert(g, key, b, f)[k]).1
                <= cap64(bound + b),
    decreases g.len(),
{
    let r = spec_upsert(g, key, b, f);
    if g.len() == 0 {
        assert(r == seq![(key, b, f)]);
    } else if g[0].0@ == key@ {
        assert forall|k: int| 0 <= k < r.len() implies (#[trigger] r[k]).1 <= cap64(bound + b) by {
            if k == 0 {
                assert(g[0].1 <= cap64(bound));
            } else {
                assert(r[k] == g.skip(1)[k - 1]);
                assert(g.skip(1)[k - 1] == g[k]);
            }
        }
    } else {
        lemma_upsert_bounded(g.skip(1), key, b, f, bound);
        assert forall|k: int| 0 <= k < r.len() implies (#[trigger] r[k]).1 <= cap64(bound + b) by {
            if k == 0 {
                assert(g[0].1 <= cap64(bound));
            } else {
                assert(r[k] == spec_upsert(g.skip(1), key, b, f)[k - 1]);
            }
        }
    }
}

/// No slot of either grouping ever exceeds the clamped grand total.
pub proof fn lemma_groups_bounded(items: Seq<CleanupItemReport>)
    ensures
        forall|k: int|
            0 <= k < spec_groups_by_category(items).len() ==> (#[trigger] spec_groups_by_category(
                items,
            )[k]).1 <= cap64(spec_total_bytes(items)),
        forall|k: int|
            0 <= k < spec_groups_by_drive(items).len() ==> (#[trigger] spec_groups_by_drive(
                items,
            )[k]).1 <= cap64(spec_total_bytes(items)),
    decreases items.len(),
{
    if items.len() > 0 {
        let prev = items.drop_last();
        let it = items.last();
        lemma_groups_bounded(prev);
        lemma_totals_nonneg(prev);
        if spec_contributes(it) {
            lemma_upsert_bounded(
                spec_groups_by_category(prev),
                it.category,
                it.total_bytes,
                it.file_count,
                spec_total_bytes(prev),
            );
            match it.drive {
                Some(d) => {
                    lemma_upsert_bounded(
                        spec_groups_by_drive(prev),
                        d,
                        it.total_bytes,
                        it.file_count,
                        spec_total_bytes(prev),
                    );
                },
                None => {},
            }
        }
    }
}

/// A bucket's share of the total bytes, in whole percent rounded down: 0
/// when the total is 0, clamped at what a `u64` holds.
pub open spec fn spec_percent(bytes: u64, total: u64) -> u64 {
    if total == 0 {
        0
    } else {
        cap64((bytes * 100) / (total as int))
    }
}

/// A percentage is never undefined: 0 when the total is 0, within [0, 100]
/// whenever the bucket does not exceed the total, and 0 for a nonzero total
/// exactly when the bucket is under a hundredth of it.
pub proof fn lemma_percent_bounds(bytes: u64, total: u64)
    requires
        bytes <= total,
    ensures
        spec_percent(bytes, total) <= 100,
        total == 0 ==> spec_percent(bytes, total) == 0,
        spec_percent(bytes, total) == 0 <==> (total == 0 || bytes * 100 < total),
{
    if total != 0 {
        lemma_div_is_ordered(bytes * 100, total * 100, total as int);
        lemma_div_multiples_vanish(100, total as int);
        if bytes * 100 < total {
            lemma_basic_div(bytes * 100, total as int);
        } else {
            lemma_div_non_zero(bytes * 100, total as int);
        }
    }
}

/// Computes a bucket's whole-percent share of the total.
pub fn percent_of(bytes: u64, total: u64) -> (r: u64)
    ensures
        r == spec_percent(bytes, total),
{
    if total == 0 {
        0
    } else {
        let q = ((bytes as u128) * 100) / (total as u128);
        if q > u64::MAX as u128 {
            u64::MAX
        } else {
            q as u64
        }
    }
}

/// The buckets a group list yields under a grand total.
pub open spec fn spec_buckets(g: Seq<(String, u64, u64)>, total: u64) -> Seq<SummaryBucket>
    decreases g.len(),
{
    if g.len() == 0 {
        Seq::empty()
    } else {
        spec_buckets(g.drop_last(), total).push(
            SummaryBucket {
                key: g.last().0,
                bytes: g.last().1,
                files: g.last().2,
                percent: spec_percent(g.last().1, total),
            },
        )
    }
}

/// Turns the aggregation slots into buckets with their percentage shares,
/// keeping discovery order.
pub fn buckets_from_map(groups: &Vec<(String, u64, u64)>, total: u64) -> (r: Vec<SummaryBucket>)
    ensures
        r@ == spec_buckets(groups@, total),
{
    let mut out: Vec<SummaryBucket> = Vec::new();
    let mut i: usize = 0;
    proof {
        assert(groups@.subrange(0, 0) =~= Seq::<(String, u64, u64)>::empty());
    }
    while i < groups.len()
        invariant
            i <= groups@.len(),
            out@ == spec_buckets(groups@.subrange(0, i as int), total),
        decreases groups@.len() - i,
    {
        let ghost prefix = groups@.subrange(0, i as int);
        let ghost next = groups@.subrange(0, i + 1 as int);
        proof {
            assert(next.drop_last() =~= prefix);
            assert(next.last() == groups@[i as int]);
        }
        let slot = &groups[i];
        out.push(
            SummaryBucket {
                key: slot.0.clone(),
                bytes: slot.1,
                files: slot.2,
                percent: percent_of(slot.1, total),
            },
        );
        i = i + 1;
    }
    proof {
        assert(groups@.subrange(0, groups@.len() as int) =~= groups@);
    }
    out
}

/// The bytes a bucket list totals.
pub open spec fn spec_bucket_sum_bytes(s: Seq<SummaryBucket>) -> int
    decreases s.len(),
{
    if s.len() == 0 {
        0
    } else {
        s[0].bytes + spec_bucket_sum_bytes(s.skip(1))
    }
}

/// The files a bucket list totals.
pub open spec fn spec_bucket_sum_files(s: Seq<SummaryBucket>) -> int
    decreases s.len(),
{
    if s.len() == 0 {
        0
    } else {
        s[0].files + spec_bucket_sum_files(s.skip(1))
    }
}

/// Appending one bucket adds its bytes and files to the sums.
proof fn lemma_bucket_sum_push(s: Seq<SummaryBucket>, x: SummaryBucket)
    ensures
        spec_bucket_sum_bytes(s.push(x)) == spec_bucket_sum_bytes(s) + x.bytes,
        spec_bucket_sum_files(s.push(x)) == spec_bucket_sum_files(s) + x.files,
    decreases s.len(),
{
    if s.len() == 0 {
        assert(s.push(x)[0] == x);
        assert(s.push(x).skip(1) =~= s);
    } else {
        lemma_bucket_sum_push(s.skip(1), x);
        assert(s.push(x).skip(1) =~= s.skip(1).push(x));
        assert(s.push(x)[0] == s[0]);
    }
}

/// Bucket conversion preserves the group sums.
proof fn lemma_buckets_sum(g: Seq<(String, u64, u64)>, total: u64)
    ensures
        spec_bucket_sum_bytes(spec_buckets(g, total)) == spec_group_sum_bytes(g),
        spec_bucket_sum_files(spec_buckets(g, total)) == spec_group_sum_files(g),
    decreases g.len(),
{
    if g.len() > 0 {
        lemma_buckets_sum(g.drop_last(), total);
        lemma_bucket_sum_push(
            spec_buckets(g.drop_last(), total),
            SummaryBucket {
                key: g.last().0,
                bytes: g.last().1,
                files: g.last().2,
                percent: spec_percent(g.last().1, total),
            },
        );
        lemma_group_sum_drop_last(g);
    }
}

/// A group sum can be peeled from either end.
proof fn lemma_group_sum_drop_last(g: Seq<(String, u64, u64)>)
    requires
        g.len() > 0,
    ensures
        spec_group_sum_bytes(g) == spec_group_sum_bytes(g.drop_last()) + g.last().1,
        spec_group_sum_files(g) == spec_group_sum_files(g.drop_last()) + g.last().2,
    decreases g.len(),
{
    if g.len() == 1 {
        assert(g.skip(1) =~= Seq::<(String, u64, u64)>::empty());
        assert(g.drop_last() =~= Seq::<(String, u64, u64)>::empty());
    } else {
        lemma_group_sum_drop_last(g.skip(1));
        assert(g.skip(1).drop_last() =~= g.drop_last().skip(1));
        assert(g.skip(1).last() == g.last());
        assert(g.drop_last()[0] == g[0]);
    }
}

/// Whether a bucket list is ordered by non-increasing bytes.
pub open spec fn spec_sorted_desc(s: Seq<SummaryBucket>) -> bool {
    forall|i: int, j: int| 0 <= i < j < s.len() ==> s[i].bytes >= s[j].bytes
}

/// `x` inserted into `s` after every bucket with at least as many bytes: the
/// stable descending insertion.
pub open spec fn spec_insert_desc(s: Seq<SummaryBucket>, x: SummaryBucket) -> Seq<SummaryBucket>
    decreases s.len(),
{
    if s.len() == 0 {
        seq![x]
    } else if s[0].bytes >= x.bytes {
        seq![s[0]] + spec_insert_desc(s.skip(1), x)
    } else {
        seq![x] + s
    }
}

/// `s` sorted by descending bytes, stably: later buckets are inserted after
/// every earlier bucket of at least as many bytes.
pub open spec fn spec_sort_desc(s: Seq<SummaryBucket>) -> Seq<SummaryBucket>
    decreases s.len(),
{
    if s.len() == 0 {
        Seq::empty()
    } else {
        spec_insert_desc(spec_sort_desc(s.drop_last()), s.last())
    }
}

/// The largest byte count in sight after an insertion.
pub open spec fn spec_head_max(s: Seq<SummaryBucket>, x: SummaryBucket) -> u64 {
    if s.len() > 0 && s[0].bytes >= x.bytes {
        s[0].bytes
    } else {
        x.bytes
    }
}

/// Inserting into a sorted list keeps it sorted, and tops it with the larger
/// of the old head and the new bucket.
proof fn lemma_insert_desc_sorted(s: Seq<SummaryBucket>, x: SummaryBucket)
    requires
        spec_sorted_desc(s),
    ensures
        spec_sorted_desc(spec_insert_desc(s, x)),
        spec_insert_desc(s, x).len() == s.len() + 1,
        forall|k: int|
            0 <= k < spec_insert_desc(s, x).len() ==> (#[trigger] spec_insert_desc(s, x)[k]).bytes
                <= spec_head_max(s, x),
    decreases s.len(),
{
    let r = spec_insert_desc(s, x);
    if s.len() == 0 {
        assert(r == seq![x]);
    } else if s[0].bytes >= x.bytes {
        assert(spec_sorted_desc(s.skip(1))) by {
            assert(forall|i: int, j: int|
                0 <= i < j < s.skip(1).len() ==> s.skip(1)[i] == s[i + 1] && s.skip(1)[j] == s[j
                    + 1]);
        }
        lemma_insert_desc_sorted(s.skip(1), x);
        let t = spec_insert_desc(s.skip(1), x);
        assert(spec_head_max(s.skip(1), x) <= s[0].bytes) by {
            if s.skip(1).len() > 0 {
                assert(s.skip(1)[0] == s[1]);
            }
        }
        assert forall|k: int| 0 <= k < r.len() implies (#[trigger] r[k]).bytes <= spec_head_max(
            s,
            x,
        ) by {
            if k > 0 {
                assert(r[k] == t[k - 1]);
            }
        }
        assert forall|i: int, j: int| 0 <= i < j < r.len() implies r[i].bytes >= r[j].bytes by {
            if i > 0 {
                assert(r[i] == t[i - 1] && r[j] == t[j - 1]);
            } else {
                assert(r[j] == t[j - 1]);
            }
        }
    } else {
        assert(r == seq![x] + s);
        assert forall|i: int, j: int| 0 <= i < j < r.len() implies r[i].bytes >= r[j].bytes by {
            if i > 0 {
                assert(r[i] == s[i - 1] && r[j] == s[j - 1]);
            } else {
                assert(r[j] == s[j - 1]);
                if j > 1 {
                    assert(s[0].bytes >= s[j - 1].bytes);
                }
            }
        }
        assert forall|k: int| 0 <= k < r.len() implies (#[trigger] r[k]).bytes <= spec_head_max(
            s,
            x,
        ) by {
            if k > 0 {
                assert(r[k] == s[k - 1]);
                if k > 1 {
                    assert(s[0].bytes >= s[k - 1].bytes);
                }
            }
        }
    }
}

/// The stable descending sort leaves a sorted list.
pub proof fn lemma_sort_desc_sorted(s: Seq<SummaryBucket>)
    ensures
        spec_sorted_desc(spec_sort_desc(s)),
        spec_sort_desc(s).len() == s.len(),
    decreases s.len(),
{
    if s.len() > 0 {
        lemma_sort_desc_sorted(s.drop_last());
        lemma_insert_desc_sorted(spec_sort_desc(s.drop_last()), s.last());
    }
}

/// Insertion adds exactly the new bucket to the sums.
proof fn lemma_insert_desc_sum(s: Seq<SummaryBucket>, x: SummaryBucket)
    ensures
        spec_bucket_sum_bytes(spec_insert_desc(s, x)) == spec_bucket_sum_bytes(s) + x.bytes,
        spec_bucket_sum_files(spec_insert_desc(s, x)) == spec_bucket_sum_files(s) + x.files,
    decreases s.len(),
{
    let r = spec_insert_desc(s, x);
    if s.len() == 0 {
        assert(r == seq![x]);
        assert(r.skip(1) =~= s);
    } else if s[0].bytes >= x.bytes {
        lemma_insert_desc_sum(s.skip(1), x);
        assert(r.skip(1) =~= spec_insert_desc(s.skip(1), x));
        assert(r[0] == s[0]);
    } else {
        assert(r.skip(1) =~= s);
        assert(r[0] == x);
    }
}

/// Sorting preserves the sums.
pub proof fn lemma_sort_desc_sum(s: Seq<SummaryBucket>)
    ensures
        spec_bucket_sum_bytes(spec_sort_desc(s)) == spec_bucket_sum_bytes(s),
        spec_bucket_sum_files(spec_sort_desc(s)) == spec_bucket_sum_files(s),
    decreases s.len(),
{
    if s.len() > 0 {
        lemma_sort_desc_sum(s.drop_last());
        lemma_insert_desc_sum(spec_sort_desc(s.drop_last()), s.last());
        lemma_bucket_sum_drop_last(s);
    }
}

/// A bucket sum can be peeled from either end.
proof fn lemma_bucket_sum_drop_last(s: Seq<SummaryBucket>)
    requires
        s.len() > 0,
    ensures
        spec_bucket_sum_bytes(s) == spec_bucket_sum_bytes(s.drop_last()) + s.last().bytes,
        spec_bucket_sum_files(s) == spec_bucket_sum_files(s.drop_last()) + s.last().files,
    decreases s.len(),
{
    if s.len() == 1 {
        assert(s.skip(1) =~= Seq::<SummaryBucket>::empty());
        assert(s.drop_last() =~= Seq::<SummaryBucket>::empty());
    } else {
        lemma_bucket_sum_drop_last(s.skip(1));
        assert(s.skip(1).drop_last() =~= s.drop_last().skip(1));
        assert(s.skip(1).last() == s.last());
        assert(s.drop_last()[0] == s[0]);
    }
}

/// Inserting at the first position whose bucket has fewer bytes is what the
/// stable descending insertion does.
proof fn lemma_insert_desc_at(s: Seq<SummaryBucket>, x: SummaryBucket, k: int)
    requires
        0 <= k <= s.len(),
        forall|m: int| 0 <= m < k ==> (#[trigger] s[m]).bytes >= x.bytes,
        k < s.len() ==> s[k].bytes < x.bytes,
    ensures
        spec_insert_desc(s, x) == s.subrange(0, k) + seq![x] + s.skip(k),
    decreases k,
{
    if k == 0 {
        if s.len() == 0 {
            assert(spec_insert_desc(s, x) =~= s.subrange(0, 0) + seq![x] + s.skip(0));
        } else {
            assert(spec_insert_desc(s, x) == seq![x] + s);
            assert(seq![x] + s =~= s.subrange(0, 0) + seq![x] + s.skip(0));
        }
    } else {
        assert(s[0].bytes >= x.bytes);
        lemma_insert_desc_at(s.skip(1), x, k - 1);
        assert(s.skip(1).subrange(0, k - 1) =~= s.subrange(1, k));
        assert(s.skip(1).skip(k - 1) =~= s.skip(k));
        assert(seq![s[0]] + (s.subrange(1, k) + seq![x] + s.skip(k)) =~= s.subrange(0, k) + seq![x]
            + s.skip(k));
        assert(spec_insert_desc(s, x) == seq![s[0]] + spec_insert_desc(s.skip(1), x));
        assert(spec_insert_desc(s.skip(1), x) == s.skip(1).subrange(0, k - 1) + seq![x] + s.skip(
            1,
        ).skip(k - 1));
    }
}

/// The bucket one aggregation slot yields under a grand total.
pub open spec fn spec_mk_bucket(slot: (String, u64, u64), total: u64) -> SummaryBucket {
    SummaryBucket { key: slot.0, bytes: slot.1, files: slot.2, percent: spec_percent(slot.1, total) }
}

/// Bucket conversion is pointwise.
pub proof fn lemma_buckets_index(g: Seq<(String, u64, u64)>, total: u64)
    ensures
        spec_buckets(g, total).len() == g.len(),
        forall|m: int|
            0 <= m < g.len() ==> spec_buckets(g, total)[m] == spec_mk_bucket(#[trigger] g[m], total),
    decreases g.len(),
{
    if g.len() > 0 {
        lemma_buckets_index(g.drop_last(), total);
        assert forall|m: int| 0 <= m < g.len() implies spec_buckets(g, total)[m] == spec_mk_bucket(
            #[trigger] g[m],
            total,
        ) by {
            if m < g.len() - 1 {
                assert(g.drop_last()[m] == g[m]);
            }
        }
    }
}

/// Whatever an insertion yields was the inserted bucket or already present.
proof fn lemma_insert_desc_membership(s: Seq<SummaryBucket>, x: SummaryBucket)
    ensures
        forall|k: int|
            0 <= k < spec_insert_desc(s, x).len() ==> (#[trigger] spec_insert_desc(s, x)[k] == x
                || s.contains(spec_insert_desc(s, x)[k])),
    decreases s.len(),
{
    let r = spec_insert_desc(s, x);
    if s.len() == 0 {
    } else if s[0].bytes >= x.bytes {
        lemma_insert_desc_membership(s.skip(1), x);
        assert forall|k: int| 0 <= k < r.len() implies (#[trigger] r[k] == x || s.contains(
            r[k],
        )) by {
            if k == 0 {
                assert(s.contains(s[0])) by {
                    assert(s[0] == s[0]);
                }
            } else {
                let t = spec_insert_desc(s.skip(1), x);
                assert(r[k] == t[k - 1]);
                if t[k - 1] != x {
                    let m = choose|m: int| 0 <= m < s.skip(1).len() && s.skip(1)[m] == t[k - 1];
                    assert(s[m + 1] == t[k - 1]);
                }
            }
        }
    } else {
        assert forall|k: int| 0 <= k < r.len() implies (#[trigger] r[k] == x || s.contains(
            r[k],
        )) by {
            if k > 0 {
                assert(r[k] == s[k - 1]);
            }
        }
    }
}

/// Whatever the sort yields was already among the buckets.
pub proof fn lemma_sort_desc_membership(s: Seq<SummaryBucket>)
    ensures
        forall|k: int|
            0 <= k < spec_sort_desc(s).len() ==> s.contains(#[trigger] spec_sort_desc(s)[k]),
    decreases s.len(),
{
    if s.len() > 0 {
        let prev = spec_sort_desc(s.drop_last());
        lemma_sort_desc_membership(s.drop_last());
        lemma_insert_desc_membership(prev, s.last());
        assert forall|k: int| 0 <= k < spec_sort_desc(s).len() implies s.contains(
            #[trigger] spec_sort_desc(s)[k],
        ) by {
            let e = spec_sort_desc(s)[k];
            if e == s.last() {
                assert(s[s.len() - 1] == e);
            } else {
                assert(prev.contains(e));
                let m = choose|m: int| 0 <= m < prev.len() && prev[m] == e;
                assert(s.drop_last().contains(e));
                let m2 = choose|m2: int| 0 <= m2 < s.drop_last().len() && s.drop_last()[m2] == e;
                assert(s[m2] == e);
            }
        }
    }
}

/// Sorts the buckets by descending bytes, stably.
pub fn sort_buckets(buckets: Vec<SummaryBucket>) -> (r: Vec<SummaryBucket>)
    ensures
        r@ == spec_sort_desc(buckets@),
{
    let mut out: Vec<SummaryBucket> = Vec::new();
    let mut i: usize = 0;
    proof {
        assert(buckets@.subrange(0, 0) =~= Seq::<SummaryBucket>::empty());
    }
    while i < buckets.len()
        invariant
            i <= buckets@.len(),
            out@ == spec_sort_desc(buckets@.subrange(0, i as int)),
        decreases buckets@.len() - i,
    {
        let ghost prefix = buckets@.subrange(0, i as int);
        let ghost next = buckets@.subrange(0, i + 1 as int);
        proof {
            assert(next.drop_last() =~= prefix);
            assert(next.last() == buckets@[i as int]);
        }
        let x = buckets[i].clone();
        proof {
            assert(x == buckets@[i as int]);
        }
        // Find the first position whose bucket has fewer bytes.
        let mut pos: usize = 0;
        while pos < out.len() && out[pos].bytes >= x.bytes
            invariant
                pos <= out@.len(),
                x == buckets@[i as int],
                forall|m: int| 0 <= m < pos ==> (#[trigger] out@[m]).bytes >= x.bytes,
            decreases out@.len() - pos,
        {
            pos = pos + 1;
        }
        let ghost before = out@;
        proof {
            lemma_insert_desc_at(before, x, pos as int);
        }
        out.insert(pos, x);
        proof {
            assert(out@ =~= before.subrange(0, pos as int) + seq![x] + before.skip(pos as int));
        }
        i = i + 1;
    }
    proof {
        assert(buckets@.subrange(0, buckets@.len() as int) =~= buckets@);
    }
    out
}

/// Updating the first slot whose key matches — or appending when none does —
/// is what the aggregation upsert does.
proof fn lemma_upsert_at(g: Seq<(String, u64, u64)>, key: String, b: u64, f: u64, j: int)
    requires
        0 <= j <= g.len(),
        forall|m: int| 0 <= m < j ==> (#[trigger] g[m]).0@ != key@,
        j < g.len() ==> g[j].0@ == key@,
    ensures
        j < g.len() ==> spec_upsert(g, key, b, f) == g.update(
            j,
            (g[j].0, cap64(g[j].1 + b), cap64(g[j].2 + f)),
        ),
        j == g.len() ==> spec_upsert(g, key, b, f) == g.push((key, b, f)),
    decreases j,
{
    if j == 0 {
        if 0 < g.len() {
            assert(spec_upsert(g, key, b, f) =~= g.update(
                0,
                (g[0].0, cap64(g[0].1 + b), cap64(g[0].2 + f)),
            ));
        } else {
            assert(spec_upsert(g, key, b, f) =~= g.push((key, b, f)));
        }
    } else {
        assert(g[0].0@ != key@);
        lemma_upsert_at(g.skip(1), key, b, f, j - 1);
        assert(forall|m: int| 0 <= m < j - 1 ==> (#[trigger] g.skip(1)[m]) == g[m + 1]);
        if j < g.len() {
            assert(g.skip(1)[j - 1] == g[j]);
            assert(seq![g[0]] + g.skip(1).update(
                j - 1,
                (g[j].0, cap64(g[j].1 + b), cap64(g[j].2 + f)),
            ) =~= g.update(j, (g[j].0, cap64(g[j].1 + b), cap64(g[j].2 + f))));
        } else {
            assert(seq![g[0]] + g.skip(1).push((key, b, f)) =~= g.push((key, b, f)));
        }
    }
}

/// Folds one contribution into the slot holding its key, appending a new
/// slot when the key is new; accumulation clamps at what a `u64` holds.
fn upsert_group(groups: &mut Vec<(String, u64, u64)>, key: &String, b: u64, f: u64)
    ensures
        final(groups)@ == spec_upsert(old(groups)@, *key, b, f),
{
    let mut j: usize = 0;
    while j < groups.len()
        invariant
            j <= groups@.len(),
            groups@ == old(groups)@,
            forall|m: int| 0 <= m < j ==> (#[trigger] groups@[m]).0@ != key@,
        decreases groups@.len() - j,
    {
        if groups[j].0.eq(key) {
            proof {
                lemma_upsert_at(groups@, *key, b, f, j as int);
            }
            let nb = sat_add_u64(groups[j].1, b);
            let nf = sat_add_u64(groups[j].2, f);
            let slot = groups.remove(j);
            groups.insert(j, (slot.0, nb, nf));
            proof {
                assert(groups@ =~= old(groups)@.update(
                    j as int,
                    (old(groups)@[j as int].0, nb, nf),
                ));
            }
            return ;
        }
        j = j + 1;
    }
    proof {
        lemma_upsert_at(groups@, *key, b, f, groups@.len() as int);
    }
    groups.push((key.clone(), b, f));
}

/// Folds the contributing items into totals and into category and volume
/// buckets, each bucket list sorted by descending bytes, ties keeping
/// discovery order. Every percentage lies in [0, 100]; it is 0 whenever the
/// grand total is 0, and for a nonzero total it is 0 exactly when the bucket
/// holds under a hundredth of it.
pub fn summarize(items: &Vec<CleanupItemReport>) -> (r: CleanupSummary)
    ensures
        r.total_bytes == cap64(spec_total_bytes(items@)),
        r.total_files == cap64(spec_total_files(items@)),
        r.by_category@ == spec_sort_desc(
            spec_buckets(spec_groups_by_category(items@), r.total_bytes),
        ),
        r.by_drive@ == spec_sort_desc(spec_buckets(spec_groups_by_drive(items@), r.total_bytes)),
        spec_sorted_desc(r.by_category@),
        spec_sorted_desc(r.by_drive@),
        forall|k: int|
            0 <= k < r.by_category@.len() ==> {
                let b = #[trigger] r.by_category@[k];
                b.percent <= 100 && (b.percent == 0 <==> (r.total_bytes == 0 || b.bytes * 100
                    < r.total_bytes))
            },
        forall|k: int|
            0 <= k < r.by_drive@.len() ==> {
                let b = #[trigger] r.by_drive@[k];
                b.percent <= 100 && (b.percent == 0 <==> (r.total_bytes == 0 || b.bytes * 100
                    < r.total_bytes))
            },
{
    let mut total_bytes: u64 = 0;
    let mut total_files: u64 = 0;
    let mut by_category: Vec<(String, u64, u64)> = Vec::new();
    let mut by_drive: Vec<(String, u64, u64)> = Vec::new();
    let mut i: usize = 0;
    proof {
        assert(items@.subrange(0, 0) =~= Seq::<CleanupItemReport>::empty());
    }
    while i < items.len()
        invariant
            i <= items@.len(),
            total_bytes == cap64(spec_total_bytes(items@.subrange(0, i as int))),
            total_files == cap64(spec_total_files(items@.subrange(0, i as int))),
            by_category@ == spec_groups_by_category(items@.subrange(0, i as int)),
            by_drive@ == spec_groups_by_drive(items@.subrange(0, i as int)),
        decreases items@.len() - i,
    {
        let ghost prefix = items@.subrange(0, i as int);
        let ghost next = items@.subrange(0, i + 1 as int);
        proof {
            assert(next.drop_last() =~= prefix);
            assert(next.last() == items@[i as int]);
            lemma_totals_nonneg(prefix);
        }
        let it = &items[i];
        let contributes = match it.status {
            crate::model::Status::Okay => true,
            crate::model::Status::Partial => true,
            _ => false,
        };
        if contributes {
            total_bytes = sat_add_u64(total_bytes, it.total_bytes);
            total_files = sat_add_u64(total_files, it.file_count);
            upsert_group(&mut by_category, &it.category, it.total_bytes, it.file_count);
            match &it.drive {
                Some(d) => {
                    upsert_group(&mut by_drive, d, it.total_bytes, it.file_count);
                },
                None => {},
            }
        }
        i = i + 1;
    }
    proof {
        assert(items@.subrange(0, items@.len() as int) =~= items@);
    }
    let cat_buckets = buckets_from_map(&by_category, total_bytes);
    let drv_buckets = buckets_from_map(&by_drive, total_bytes);
    let cat_sorted = sort_buckets(cat_buckets);
    let drv_sorted = sort_buckets(drv_buckets);
    proof {
        lemma_sort_desc_sorted(spec_buckets(spec_groups_by_category(items@), total_bytes));
        lemma_sort_desc_sorted(spec_buckets(spec_groups_by_drive(items@), total_bytes));
        lemma_groups_bounded(items@);
        lemma_totals_nonneg(items@);
        lemma_percent_fields_hold(spec_groups_by_category(items@), total_bytes);
        lemma_percent_fields_hold(spec_groups_by_drive(items@), total_bytes);
    }
    CleanupSummary { total_bytes, total_files, by_category: cat_sorted, by_drive: drv_sorted }
}

/// Every bucket of a sorted bucket list built from bounded groups carries a
/// well-formed percentage.
proof fn lemma_percent_fields_hold(g: Seq<(String, u64, u64)>, total: u64)
    requires
        forall|k: int| 0 <= k < g.len() ==> (#[trigger] g[k]).1 <= total,
    ensures
        forall|k: int|
            0 <= k < spec_sort_desc(spec_buckets(g, total)).len() ==> {
                let b = #[trigger] spec_sort_desc(spec_buckets(g, total))[k];
                b.percent <= 100 && (b.percent == 0 <==> (total == 0 || b.bytes * 100 < total))
            },
{
    let buckets = spec_buckets(g, total);
    lemma_buckets_index(g, total);
    lemma_sort_desc_membership(buckets);
    assert forall|k: int| 0 <= k < spec_sort_desc(buckets).len() implies {
        let b = #[trigger] spec_sort_desc(buckets)[k];
        b.percent <= 100 && (b.percent == 0 <==> (total == 0 || b.bytes * 100 < total))
    } by {
        let b = spec_sort_desc(buckets)[k];
        assert(buckets.contains(b));
        let m = choose|m: int| 0 <= m < buckets.len() && buckets[m] == b;
        assert(b == spec_mk_bucket(g[m], total));
        lemma_percent_bounds(g[m].1, total);
    }
}

/// The category buckets partition the totals: while the grand totals fit a
/// machine word, the sorted category buckets' bytes and files sum to exactly
/// the totals over all contributing items.
pub proof fn lemma_summary_partition(items: Seq<CleanupItemReport>)
    requires
        spec_total_bytes(items) <= u64::MAX,
        spec_total_files(items) <= u64::MAX,
    ensures
        spec_bucket_sum_bytes(
            spec_sort_desc(
                spec_buckets(spec_groups_by_category(items), cap64(spec_total_bytes(items))),
            ),
        ) == spec_total_bytes(items),
        spec_bucket_sum_files(
            spec_sort_desc(
                spec_buckets(spec_groups_by_category(items), cap64(spec_total_bytes(items))),
            ),
        ) == spec_total_files(items),
{
    let total = cap64(spec_total_bytes(items));
    lemma_category_groups_partition(items);
    lemma_buckets_sum(spec_groups_by_category(items), total);
    lemma_sort_desc_sum(spec_buckets(spec_groups_by_category(items), total));
}

} // verus!

//! Percentiles read off a histogram of uniform buckets over [0, 1], plain or
//! weighted by bucket midpoints.
use vstd::prelude::*;

use crate::histogram::{histogram_of, prefix_total, FlipHistogram, MAX_BUCKETS};
use crate::sample::SAMPLE_ONE;

verus! {

/// The sum of the first `k` counts of `h`, the count of bucket `i` weighted by
/// `2 * i + 1`, which is proportional to that bucket's midpoint.
pub open spec fn prefix_weight(h: Seq<int>, k: int) -> int
    decreases k,
{
    if k <= 0 {
        0
    } else {
        prefix_weight(h, k - 1) + h[k - 1] * (2 * k - 1)
    }
}

/// The midpoint of bucket `b` of `n` uniform buckets over [0, 1], in sample
/// units, rounded down.
pub open spec fn bucket_midpoint(b: int, n: int) -> int {
    ((2 * b + 1) * SAMPLE_ONE) / (2 * n)
}

/// The rank, counted from 0, of the value a percentile `p` picks out of
/// `count` values: `ceil(p * count)` for `p` clamped to `[0, 1 - 1 / count]`.
pub open spec fn percentile_rank(p: int, count: int) -> int {
    let c = (p * count + SAMPLE_ONE - 1) / (SAMPLE_ONE as int);
    if c < 0 {
        0
    } else if c > count - 1 {
        count - 1
    } else {
        c
    }
}

/// Bucket `b` of the counts `h` holds the value of rank `r`.
pub open spec fn holds_rank(h: Seq<int>, r: int, b: int) -> bool {
    0 <= b < h.len() && prefix_total(h, b) <= r < prefix_total(h, b + 1)
}

/// The bucket of the counts `h` that holds the value of rank `r`.
pub open spec fn rank_bucket(h: Seq<int>, r: int) -> int {
    choose|b: int| holds_rank(h, r, b)
}

/// The percentile `p` clamped to `[0, 1 - 1 / count]`, in sample units.
pub open spec fn clamped_percentile(p: int, count: int) -> int {
    let hi = SAMPLE_ONE - (SAMPLE_ONE as int) / count;
    if p < 0 {
        0
    } else if p > hi {
        hi
    } else {
        p
    }
}

/// Bucket `b` is the first bucket of `h` at which the weighted prefix sum,
/// scaled by `SAMPLE_ONE`, reaches `t`.
pub open spec fn reaches_weight(h: Seq<int>, t: int, b: int) -> bool {
    &&& 0 <= b < h.len()
    &&& t <= SAMPLE_ONE * prefix_weight(h, b + 1)
    &&& (b == 0 || SAMPLE_ONE * prefix_weight(h, b) < t)
}

/// The first bucket of `h` at which the weighted prefix sum, scaled by
/// `SAMPLE_ONE`, reaches `t`.
pub open spec fn weight_bucket(h: Seq<int>, t: int) -> int {
    choose|b: int| reaches_weight(h, t, b)
}

/// Bucket `b` is the first non-empty bucket of `h` at which the weighted
/// prefix sum, scaled by `SAMPLE_ONE`, reaches `t`.
pub open spec fn reaches_weight_in_use(h: Seq<int>, t: int, b: int) -> bool {
    &&& 0 <= b < h.len()
    &&& h[b] > 0
    &&& t <= SAMPLE_ONE * prefix_weight(h, b + 1)
    &&& (prefix_weight(h, b) == 0 || SAMPLE_ONE * prefix_weight(h, b) < t)
}

/// The first non-empty bucket of `h` at which the weighted prefix sum, scaled
/// by `SAMPLE_ONE`, reaches `t`.
pub open spec fn weight_bucket_in_use(h: Seq<int>, t: int) -> int {
    choose|b: int| reaches_weight_in_use(h, t, b)
}

/// The percentile `p` of the values `vals` folded into `n` buckets: the
/// midpoint of the bucket that holds the value of rank `ceil(p * count)`, or,
/// when `weighted`, of the bucket at which the prefix sum of counts weighted by
/// bucket midpoints reaches `p` of the total; `p` is first clamped to
/// `[0, 1 - 1 / count]`. 0 when there are no values.
pub open spec fn percentile_of(vals: Seq<i32>, n: nat, p: int, weighted: bool) -> int {
    let count = vals.len() as int;
    let h = histogram_of(vals, n);
    if count == 0 {
        0
    } else if weighted {
        let t = clamped_percentile(p, count) * prefix_weight(h, n as int);
        bucket_midpoint(weight_bucket(h, t), n as int)
    } else {
        bucket_midpoint(rank_bucket(h, percentile_rank(p, count)), n as int)
    }
}

/// The weighted percentile `p` of the values `vals` folded into `n` buckets,
/// read off linearly inside its bucket: the lower edge of the first non-empty
/// bucket at which the weighted prefix sum reaches `p` of the total (so that
/// its weight can be divided by), plus the share of that
/// bucket's weight still needed to reach it, in bucket widths; `p` is clamped
/// to [0, 1]. 0 when there are no values.
pub open spec fn weighted_percentile_of(vals: Seq<i32>, n: nat, p: int) -> int {
    let h = histogram_of(vals, n);
    let pc = if p < 0 {
        0
    } else if p > SAMPLE_ONE {
        SAMPLE_ONE as int
    } else {
        p
    };
    let t = pc * prefix_weight(h, n as int);
    let b = weight_bucket_in_use(h, t);
    if vals.len() == 0 {
        0
    } else {
        (SAMPLE_ONE * b + (t - SAMPLE_ONE * prefix_weight(h, b)) / (h[b] * (2 * b + 1))) / (n as int)
    }
}

/// Prefix totals of non-negative counts grow with the prefix.
pub proof fn lemma_prefix_total_monotone(h: Seq<int>, i: int, j: int)
    requires
        0 <= i <= j <= h.len(),
        forall|b: int| 0 <= b < h.len() ==> h[b] >= 0,
    ensures
        0 <= prefix_total(h, i) <= prefix_total(h, j),
    decreases j,
{
    if j > 0 {
        if i < j {
            lemma_prefix_total_monotone(h, i, j - 1);
        } else {
            lemma_prefix_total_monotone(h, i - 1, j - 1);
        }
    }
}

/// Weighted prefix sums of non-negative counts grow with the prefix, and are
/// at least the plain prefix totals and at most `2 * k` times them.
pub proof fn lemma_prefix_weight_monotone(h: Seq<int>, i: int, j: int)
    requires
        0 <= i <= j <= h.len(),
        forall|b: int| 0 <= b < h.len() ==> h[b] >= 0,
    ensures
        prefix_weight(h, i) <= prefix_weight(h, j),
        prefix_total(h, j) <= prefix_weight(h, j) <= 2 * j * prefix_total(h, j),
    decreases j,
{
    if j > 0 {
        if i < j {
            lemma_prefix_weight_monotone(h, i, j - 1);
        } else {
            lemma_prefix_weight_monotone(h, i - 1, j - 1);
        }
        lemma_prefix_total_monotone(h, 0, j - 1);
        let c = h[j - 1];
        let pt = prefix_total(h, j - 1);
        assert(c <= c * (2 * j - 1) <= 2 * j * c) by (nonlinear_arith)
            requires
                c >= 0,
                j >= 1,
        ;
        assert(2 * (j - 1) * pt <= 2 * j * pt) by (nonlinear_arith)
            requires
                pt >= 0,
        ;
        assert(2 * j * (pt + c) == 2 * j * pt + 2 * j * c) by (nonlinear_arith);
    }
}

/// Only one bucket holds the value of a given rank.
pub proof fn lemma_rank_bucket_unique(h: Seq<int>, r: int, b: int)
    requires
        holds_rank(h, r, b),
        forall|i: int| 0 <= i < h.len() ==> h[i] >= 0,
    ensures
        rank_bucket(h, r) == b,
{
    let c = rank_bucket(h, r);
    assert(holds_rank(h, r, c));
    if c < b {
        lemma_prefix_total_monotone(h, c + 1, b);
    } else if c > b {
        lemma_prefix_total_monotone(h, b + 1, c);
    }
}

/// Only one bucket is the first to reach a given weight.
pub proof fn lemma_weight_bucket_unique(h: Seq<int>, t: int, b: int)
    requires
        reaches_weight(h, t, b),
        forall|i: int| 0 <= i < h.len() ==> h[i] >= 0,
    ensures
        weight_bucket(h, t) == b,
{
    let c = weight_bucket(h, t);
    assert(reaches_weight(h, t, c));
    if c < b {
        lemma_prefix_weight_monotone(h, c + 1, b);
    } else if c > b {
        lemma_prefix_weight_monotone(h, b + 1, c);
    }
}

/// Only one non-empty bucket is the first to reach a given weight.
pub proof fn lemma_weight_bucket_in_use_unique(h: Seq<int>, t: int, b: int)
    requires
        reaches_weight_in_use(h, t, b),
        forall|i: int| 0 <= i < h.len() ==> h[i] >= 0,
    ensures
        weight_bucket_in_use(h, t) == b,
{
    let c = weight_bucket_in_use(h, t);
    assert(reaches_weight_in_use(h, t, c));
    if c != b {
        let (lo, hi) = if c < b {
            (c, b)
        } else {
            (b, c)
        };
        lemma_prefix_weight_monotone(h, lo + 1, hi);
        lemma_prefix_weight_monotone(h, 0, lo);
        assert(h[lo] * (2 * lo + 1) > 0) by (nonlinear_arith)
            requires
                h[lo] > 0,
                lo >= 0,
        ;
    }
}

/// The bucket of `histogram` that holds the value of rank `rank`.
pub(crate) fn find_rank_bucket(histogram: &FlipHistogram, rank: u128) -> (b: usize)
    requires
        rank < prefix_total(histogram@, histogram@.len() as int),
        prefix_total(histogram@, histogram@.len() as int) <= usize::MAX,
        forall|i: int| 0 <= i < histogram@.len() ==> histogram@[i] >= 0,
    ensures
        holds_rank(histogram@, rank as int, b as int),
{
    let n: usize = histogram.bucket_count();
    let ghost h = histogram@;
    let mut acc: u128 = 0;
    let mut b: usize = 0;
    while b < n
        invariant
            b <= n,
            n == h.len(),
            h == histogram@,
            acc == prefix_total(h, b as int),
            acc <= rank,
            rank < prefix_total(h, n as int),
            prefix_total(h, n as int) <= usize::MAX,
            forall|i: int| 0 <= i < h.len() ==> h[i] >= 0,
        decreases n - b,
    {
        let c: usize = histogram.bucket_value_count(b);
        proof {
            lemma_prefix_total_monotone(h, b as int + 1, n as int);
        }
        if acc + c as u128 > rank {
            return b;
        }
        acc = acc + c as u128;
        b = b + 1;
    }
    0
}

/// The total weight of `histogram`: its counts weighted by `2 * i + 1`.
pub(crate) fn total_weight(histogram: &FlipHistogram) -> (r: u128)
    requires
        SAMPLE_ONE * prefix_weight(histogram@, histogram@.len() as int) <= u128::MAX,
        forall|i: int| 0 <= i < histogram@.len() ==> histogram@[i] >= 0,
    ensures
        r == prefix_weight(histogram@, histogram@.len() as int),
{
    let n: usize = histogram.bucket_count();
    let ghost h = histogram@;
    let mut acc: u128 = 0;
    let mut b: usize = 0;
    while b < n
        invariant
            b <= n <= MAX_BUCKETS,
            n == h.len(),
            h == histogram@,
            acc == prefix_weight(h, b as int),
            SAMPLE_ONE * prefix_weight(h, n as int) <= u128::MAX,
            forall|i: int| 0 <= i < h.len() ==> h[i] >= 0,
        decreases n - b,
    {
        let c: usize = histogram.bucket_value_count(b);
        proof {
            lemma_prefix_weight_monotone(h, b as int + 1, n as int);
            lemma_prefix_weight_monotone(h, 0, b as int);
            assert(c * (2 * b + 1) <= u128::MAX) by (nonlinear_arith)
                requires
                    c <= usize::MAX,
                    b < 0x1_0000_0000,
            ;
        }
        acc = acc + c as u128 * (2 * b as u128 + 1);
        b = b + 1;
    }
    acc
}

/// The first bucket of `histogram` (the first non-empty one when `in_use`) at
/// which the weighted prefix sum, scaled by `SAMPLE_ONE`, reaches `t`, with the
/// weighted prefix sum of the buckets below it.
pub(crate) fn find_weight_bucket(
    histogram: &FlipHistogram,
    t: u128,
    in_use: bool,
) -> (r: (usize, u128))
    requires
        t <= SAMPLE_ONE * prefix_weight(histogram@, histogram@.len() as int),
        SAMPLE_ONE * prefix_weight(histogram@, histogram@.len() as int) <= u128::MAX,
        prefix_total(histogram@, histogram@.len() as int) > 0,
        forall|i: int| 0 <= i < histogram@.len() ==> histogram@[i] >= 0,
    ensures
        in_use ==> reaches_weight_in_use(histogram@, t as int, r.0 as int),
        !in_use ==> reaches_weight(histogram@, t as int, r.0 as int),
        r.1 == prefix_weight(histogram@, r.0 as int),
{
    let n: usize = histogram.bucket_count();
    let ghost h = histogram@;
    let one: u128 = SAMPLE_ONE as u128;
    let mut acc: u128 = 0;
    let mut b: usize = 0;
    while b < n
        invariant
            b <= n <= MAX_BUCKETS,
            n == h.len(),
            h == histogram@,
            one == SAMPLE_ONE,
            acc == prefix_weight(h, b as int),
            in_use ==> (acc == 0 || one * acc < t),
            !in_use ==> (b == 0 || one * acc < t),
            t <= SAMPLE_ONE * prefix_weight(h, n as int),
            SAMPLE_ONE * prefix_weight(h, n as int) <= u128::MAX,
            forall|i: int| 0 <= i < h.len() ==> h[i] >= 0,
        decreases n - b,
    {
        let c: usize = histogram.bucket_value_count(b);
        proof {
            lemma_prefix_weight_monotone(h, b as int + 1, n as int);
            lemma_prefix_weight_monotone(h, 0, b as int);
            assert(c * (2 * b + 1) <= u128::MAX) by (nonlinear_arith)
                requires
                    c <= usize::MAX,
                    b < 0x1_0000_0000,
            ;
        }
        let w: u128 = c as u128 * (2 * b as u128 + 1);
        proof {
            assert(c == 0 ==> w == 0) by (nonlinear_arith)
                requires
                    w == c * (2 * b + 1),
            ;
        }
        if (c > 0 || !in_use) && one * (acc + w) >= t {
            return (b, acc);
        }
        acc = acc + w;
        b = b + 1;
    }
    proof {
        lemma_prefix_weight_monotone(h, n as int, n as int);
    }
    (0, 0)
}

/// Computes `bucket_midpoint(b, n)`.
pub(crate) fn midpoint_of(b: usize, n: usize) -> (r: i32)
    requires
        b < n <= MAX_BUCKETS,
    ensures
        r == bucket_midpoint(b as int, n as int),
        0 <= r < SAMPLE_ONE,
{
    let one: u64 = SAMPLE_ONE as u64;
    let num: u64 = (2 * b as u64 + 1) * one;
    let den: u64 = 2 * n as u64;
    let q: u64 = num / den;
    assert(q < SAMPLE_ONE) by (nonlinear_arith)
        requires
            q == num / den,
            num == (2 * b + 1) * SAMPLE_ONE,
            den == 2 * n,
            b < n,
    {
        assert(num < den * SAMPLE_ONE);
        vstd::arithmetic::div_mod::lemma_fundamental_div_mod(num as int, den as int);
    }
    q as i32
}

} // verus!

//! A pool of error values: a histogram plus running aggregates, with the
//! statistics derived from them.
use vstd::prelude::*;

use crate::aggregate::{
    lemma_extremes, lemma_floor_div_negative, lemma_mean_between, lemma_sum_range, max_of,
    mean_of, min_of, sum_of,
};
use crate::histogram::{
    bucket_of, bucket_tally, histogram_of, lemma_bucket_in_range, lemma_histogram_total,
    lemma_tally_at_most_len, prefix_total, FlipHistogram, MAX_BUCKETS,
};
use crate::image::FlipImageFloat;
use crate::percentile::{
    clamped_percentile, find_rank_bucket, find_weight_bucket, lemma_prefix_weight_monotone,
    lemma_rank_bucket_unique, lemma_weight_bucket_in_use_unique, lemma_weight_bucket_unique,
    midpoint_of, percentile_of, percentile_rank, prefix_weight, reaches_weight_in_use,
    total_weight, weighted_percentile_of,
};
use crate::sample::SAMPLE_ONE;

verus! {

/// The number of buckets of a pool made by `FlipPool::new`.
pub const DEFAULT_BUCKET_COUNT: usize = 100;

/// After folding the values `vals` into a pool of `n` buckets, the bucket
/// counts add up to the number of values, and the pool's least and greatest
/// value bound every value and occur among them.
pub proof fn lemma_fold_consistent(vals: Seq<i32>, n: nat)
    requires
        n >= 1,
    ensures
        prefix_total(histogram_of(vals, n), n as int) == vals.len(),
        vals.len() > 0 ==> forall|i: int|
            0 <= i < vals.len() ==> min_of(vals) <= #[trigger] vals[i] <= max_of(vals),
        vals.len() > 0 ==> exists|i: int| 0 <= i < vals.len() && vals[i] == min_of(vals),
        vals.len() > 0 ==> exists|i: int| 0 <= i < vals.len() && vals[i] == max_of(vals),
{
    lemma_histogram_total(vals, n);
    if vals.len() > 0 {
        lemma_extremes(vals);
    }
}

/// A weighted histogram of error values together with their count, sum,
/// least and greatest value.
pub struct FlipPool {
    histogram: FlipHistogram,
    values_added: usize,
    sum: i128,
    min: i32,
    max: i32,
    folded: Ghost<Seq<i32>>,
}

impl FlipPool {
    #[verifier::type_invariant]
    spec fn inv(&self) -> bool {
        let vals = self.folded@;
        &&& self.values_added == vals.len()
        &&& self.sum == sum_of(vals)
        &&& self.min == min_of(vals)
        &&& self.max == max_of(vals)
        &&& self.histogram@ == histogram_of(vals, self.histogram@.len())
    }

    /// Every value folded in since the pool was made or last cleared, in order.
    pub closed spec fn values(&self) -> Seq<i32> {
        self.folded@
    }

    /// The number of buckets of the pool's histogram.
    pub closed spec fn buckets(&self) -> nat {
        self.histogram@.len()
    }

    /// Creates an empty pool of `DEFAULT_BUCKET_COUNT` buckets.
    pub fn new() -> (r: Self)
        ensures
            r.values() == Seq::<i32>::empty(),
            r.buckets() == DEFAULT_BUCKET_COUNT,
    {
        Self::with_buckets(DEFAULT_BUCKET_COUNT)
    }

    /// Creates an empty pool of `bucket_count` buckets.
    pub fn with_buckets(bucket_count: usize) -> (r: Self)
        requires
            1 <= bucket_count <= MAX_BUCKETS,
        ensures
            r.values() == Seq::<i32>::empty(),
            r.buckets() == bucket_count,
    {
        let histogram = FlipHistogram::new(bucket_count);
        let ghost vals = Seq::<i32>::empty();
        assert(histogram@ =~= histogram_of(vals, bucket_count as nat));
        FlipPool { histogram, values_added: 0, sum: 0, min: 0, max: 0, folded: Ghost(vals) }
    }

    /// Creates a pool of `DEFAULT_BUCKET_COUNT` buckets holding the samples of
    /// `image`.
    pub fn from_image(image: &FlipImageFloat) -> (r: Self)
        ensures
            r.values() == image@,
            r.buckets() == DEFAULT_BUCKET_COUNT,
    {
        let mut pool = Self::new();
        let pixels: usize = image.samples().len();
        assert(pool.values().len() + image@.len() == pixels);
        pool.update_with_image(image);
        assert(Seq::<i32>::empty() + image@ =~= image@);
        pool
    }

    /// The histogram of the values folded in.
    pub fn histogram(&self) -> (r: &FlipHistogram)
        ensures
            r@ == histogram_of(self.values(), self.buckets()),
    {
        proof {
            use_type_invariant(self);
        }
        &self.histogram
    }

    /// The least value folded in; 0 when there is none.
    pub fn min_value(&self) -> (r: i32)
        ensures
            r == min_of(self.values()),
    {
        proof {
            use_type_invariant(self);
        }
        self.min
    }

    /// The greatest value folded in; 0 when there is none.
    pub fn max_value(&self) -> (r: i32)
        ensures
            r == max_of(self.values()),
    {
        proof {
            use_type_invariant(self);
        }
        self.max
    }

    /// The mean of the values folded in, rounded down; 0 when there is none.
    pub fn mean(&self) -> (r: i32)
        ensures
            r == mean_of(self.values()),
    {
        proof {
            use_type_invariant(self);
        }
        if self.values_added == 0 {
            return 0;
        }
        let n: i128 = self.values_added as i128;
        proof {
            lemma_mean_between(self.folded@);
            lemma_sum_range(self.folded@);
        }
        let q: i128 = if self.sum >= 0 {
            self.sum / n
        } else {
            proof {
                lemma_floor_div_negative(-self.sum, n as int);
            }
            -((-self.sum + n - 1) / n)
        };
        q as i32
    }

    /// Folds every sample of `image` into the pool.
    pub fn update_with_image(&mut self, image: &FlipImageFloat)
        requires
            old(self).values().len() + image@.len() <= usize::MAX,
        ensures
            final(self).values() == old(self).values() + image@,
            final(self).buckets() == old(self).buckets(),
    {
        proof {
            use_type_invariant(&*self);
        }
        let _bucket_count: usize = self.histogram.bucket_count();
        let samples: &Vec<i32> = image.samples();
        let len: usize = samples.len();
        let mut histogram = self.histogram.clone();
        let mut values_added: usize = self.values_added;
        let mut sum: i128 = self.sum;
        let mut min: i32 = self.min;
        let mut max: i32 = self.max;
        let ghost start = self.folded@;
        let ghost k = histogram@.len();
        let ghost mut vals = start;
        let mut i: usize = 0;
        while i < len
            invariant
                i <= len,
                len == image@.len(),
                samples@ == image@,
                start.len() + len <= usize::MAX,
                k >= 1,
                vals == start + image@.subrange(0, i as int),
                values_added == vals.len(),
                sum == sum_of(vals),
                min == min_of(vals),
                max == max_of(vals),
                histogram@.len() == k,
                histogram@ == histogram_of(vals, k),
            decreases len - i,
        {
            let v: i32 = samples[i];
            let ghost next = vals.push(v);
            assert(next.drop_last() =~= vals);
            proof {
                let bv = bucket_of(v as int, k as int);
                lemma_bucket_in_range(v as int, k as int);
                lemma_tally_at_most_len(vals, k as int, bv);
                assert(histogram@[bv] == bucket_tally(vals, k as int, bv));
                lemma_sum_range(next);
            }
            histogram.include_value(v, 1);
            if values_added == 0 || v < min {
                min = v;
            }
            if values_added == 0 || v > max {
                max = v;
            }
            values_added = values_added + 1;
            sum = sum + v as i128;
            proof {
                assert(histogram@ =~= histogram_of(next, k));
                vals = next;
            }
            i = i + 1;
            assert(vals =~= start + image@.subrange(0, i as int));
        }
        assert(image@.subrange(0, len as int) =~= image@);
        *self = FlipPool { histogram, values_added, sum, min, max, folded: Ghost(vals) };
    }

    /// What the pool's invariant gives the statistics: the histogram's counts
    /// are non-negative, add up to the number of values, and weigh at most what
    /// fits in `u128` once scaled by `SAMPLE_ONE`.
    proof fn lemma_histogram_bounds(&self)
        requires
            self.inv(),
            1 <= self.histogram@.len() <= MAX_BUCKETS,
        ensures
            forall|i: int| 0 <= i < self.histogram@.len() ==> self.histogram@[i] >= 0,
            prefix_total(self.histogram@, self.histogram@.len() as int) == self.folded@.len(),
            SAMPLE_ONE * prefix_weight(self.histogram@, self.histogram@.len() as int) <= u128::MAX,
    {
        let h = self.histogram@;
        let n = h.len() as int;
        let count = self.folded@.len() as int;
        lemma_histogram_total(self.folded@, h.len());
        lemma_prefix_weight_monotone(h, n, n);
        let w = prefix_weight(h, n);
        assert(2 * n * count <= 2 * 0xffff_ffff * 0xffff_ffff_ffff_ffffint) by (nonlinear_arith)
            requires
                0 <= n <= 0xffff_ffff,
                0 <= count <= 0xffff_ffff_ffff_ffff,
        ;
        assert(SAMPLE_ONE * w <= u128::MAX);
    }

    /// The percentile `percentile` (in sample units) of the values folded in,
    /// as `percentile_of` states it; 0 when there is none.
    pub fn get_percentile(&self, percentile: i32, weighted: bool) -> (r: i32)
        ensures
            r == percentile_of(self.values(), self.buckets(), percentile as int, weighted),
    {
        proof {
            use_type_invariant(self);
        }
        if self.values_added == 0 {
            return 0;
        }
        let n: usize = self.histogram.bucket_count();
        proof {
            self.lemma_histogram_bounds();
        }
        let ghost h = self.histogram@;
        let count: u128 = self.values_added as u128;
        let one: u128 = SAMPLE_ONE as u128;
        let p: i32 = percentile;
        if !weighted {
            let rank: u128 = if p <= 0 {
                assert((p * count + SAMPLE_ONE - 1) / (SAMPLE_ONE as int) <= 0) by (nonlinear_arith)
                    requires
                        p <= 0,
                        count >= 1,
                ;
                0
            } else {
                assert(p * count <= 0x7fff_ffff * 0xffff_ffff_ffff_ffffint) by (nonlinear_arith)
                    requires
                        0 < p <= 0x7fff_ffff,
                        0 < count <= 0xffff_ffff_ffff_ffff,
                ;
                let c: u128 = (p as u128 * count + (one - 1)) / one;
                if c > count - 1 {
                    count - 1
                } else {
                    c
                }
            };
            assert(rank == percentile_rank(p as int, count as int));
            let b: usize = find_rank_bucket(&self.histogram, rank);
            proof {
                lemma_rank_bucket_unique(h, rank as int, b as int);
            }
            midpoint_of(b, n)
        } else {
            let total: u128 = total_weight(&self.histogram);
            let hi: u128 = one - one / count;
            let pc: u128 = if p < 0 {
                0
            } else if p as u128 > hi {
                hi
            } else {
                p as u128
            };
            assert(pc == clamped_percentile(p as int, count as int));
            assert(pc * total <= SAMPLE_ONE * total) by (nonlinear_arith)
                requires
                    pc <= SAMPLE_ONE,
            ;
            let t: u128 = pc * total;
            let (b, _before) = find_weight_bucket(&self.histogram, t, false);
            proof {
                lemma_weight_bucket_unique(h, t as int, b as int);
            }
            midpoint_of(b, n)
        }
    }

    /// The weighted percentile `percentile` (in sample units) of the values
    /// folded in, read off linearly inside its bucket, as
    /// `weighted_percentile_of` states it; 0 when there is none.
    pub fn get_weighted_percentile(&self, percentile: i32) -> (r: i32)
        ensures
            r == weighted_percentile_of(self.values(), self.buckets(), percentile as int),
            0 <= r <= SAMPLE_ONE,
    {
        proof {
            use_type_invariant(self);
        }
        if self.values_added == 0 {
            return 0;
        }
        let n: usize = self.histogram.bucket_count();
        proof {
            self.lemma_histogram_bounds();
        }
        let ghost h = self.histogram@;
        let one: u128 = SAMPLE_ONE as u128;
        let p: i32 = percentile;
        let total: u128 = total_weight(&self.histogram);
        let pc: u128 = if p < 0 {
            0
        } else if p > SAMPLE_ONE {
            one
        } else {
            p as u128
        };
        assert(pc * total <= SAMPLE_ONE * total) by (nonlinear_arith)
            requires
                pc <= SAMPLE_ONE,
        ;
        let t: u128 = pc * total;
        let (b, before) = find_weight_bucket(&self.histogram, t, true);
        proof {
            lemma_weight_bucket_in_use_unique(h, t as int, b as int);
        }
        let c: usize = self.histogram.bucket_value_count(b);
        let ghost bi = b as int;
        assert(c * (2 * b + 1) <= u128::MAX && c * (2 * b + 1) > 0) by (nonlinear_arith)
            requires
                0 < c <= usize::MAX,
                b < 0x1_0000_0000,
        ;
        let w: u128 = c as u128 * (2 * b as u128 + 1);
        assert(prefix_weight(h, bi + 1) == before + w);
        assert(reaches_weight_in_use(h, t as int, bi));
        assert(one * before <= t <= one * before + one * w) by (nonlinear_arith)
            requires
                before == 0 || one * before < t,
                t <= one * (before + w),
                one == SAMPLE_ONE,
        ;
        let x: u128 = t - one * before;
        let frac: u128 = x / w;
        assert(frac <= SAMPLE_ONE) by (nonlinear_arith)
            requires
                x <= SAMPLE_ONE * w,
                w > 0,
                frac == x / w,
        {
            vstd::arithmetic::div_mod::lemma_fundamental_div_mod(x as int, w as int);
        }
        let num: u128 = one * b as u128 + frac;
        let q: u128 = num / n as u128;
        assert(q <= SAMPLE_ONE) by (nonlinear_arith)
            requires
                num <= SAMPLE_ONE * (b + 1),
                b < n,
                q == (num as int) / (n as int),
        {
            assert(num <= SAMPLE_ONE * n);
            vstd::arithmetic::div_mod::lemma_fundamental_div_mod(num as int, n as int);
        }
        q as i32
    }

    /// Empties the pool, keeping its number of buckets.
    pub fn clear(&mut self)
        ensures
            final(self).values() == Seq::<i32>::empty(),
            final(self).buckets() == old(self).buckets(),
    {
        let n: usize = self.histogram.bucket_count();
        *self = Self::with_buckets(n);
    }
}

impl Default for FlipPool {
    fn default() -> (r: Self)
        ensures
            r.values() == Seq::<i32>::empty(),
            r.buckets() == DEFAULT_BUCKET_COUNT,
    {
        Self::new()
    }
}

} // verus!

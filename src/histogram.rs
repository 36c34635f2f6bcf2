//! A histogram of uniformly spaced buckets over the sample range [0, 1].
use vstd::prelude::*;

use crate::image::FlipImageFloat;
use crate::sample::SAMPLE_ONE;

verus! {

/// The largest number of buckets a histogram may have, which keeps the
/// weighted statistics of a pool within 128-bit arithmetic.
pub const MAX_BUCKETS: usize = 4294967295;

/// The bucket, out of `n` uniform buckets over [0, 1], that holds the sample
/// `v`: `clamp(floor(v * n), 0, n - 1)`.
pub open spec fn bucket_of(v: int, n: int) -> int {
    let raw = (v * n) / (SAMPLE_ONE as int);
    if raw < 0 {
        0
    } else if raw >= n {
        n - 1
    } else {
        raw
    }
}

/// How many of `vals` fall into bucket `b` of `n`.
pub open spec fn bucket_tally(vals: Seq<i32>, n: int, b: int) -> nat
    decreases vals.len(),
{
    if vals.len() == 0 {
        0
    } else {
        bucket_tally(vals.drop_last(), n, b) + if bucket_of(vals.last() as int, n) == b {
            1nat
        } else {
            0nat
        }
    }
}

/// The bucket counts of `n` buckets after folding in every value of `vals`.
pub open spec fn histogram_of(vals: Seq<i32>, n: nat) -> Seq<int> {
    Seq::new(n, |b: int| bucket_tally(vals, n as int, b) as int)
}

/// The sum of the first `k` entries of `h`.
pub open spec fn prefix_total(h: Seq<int>, k: int) -> int
    decreases k,
{
    if k <= 0 {
        0
    } else {
        prefix_total(h, k - 1) + h[k - 1]
    }
}

/// Every value lands in exactly one of the `n` buckets.
pub proof fn lemma_bucket_in_range(v: int, n: int)
    requires
        n >= 1,
    ensures
        0 <= bucket_of(v, n) < n,
{
}

/// No bucket holds more values than were folded in.
pub proof fn lemma_tally_at_most_len(vals: Seq<i32>, n: int, b: int)
    ensures
        bucket_tally(vals, n, b) <= vals.len(),
    decreases vals.len(),
{
    if vals.len() > 0 {
        lemma_tally_at_most_len(vals.drop_last(), n, b);
    }
}

/// Adding one value to bucket `bv` adds one to every prefix total that
/// covers `bv`.
proof fn lemma_prefix_total_bump(h: Seq<int>, h2: Seq<int>, bv: int, k: int)
    requires
        0 <= k <= h.len(),
        h2.len() == h.len(),
        forall|b: int| 0 <= b < k ==> h2[b] == h[b] + if b == bv { 1int } else { 0int },
    ensures
        prefix_total(h2, k) == prefix_total(h, k) + if 0 <= bv < k { 1int } else { 0int },
    decreases k,
{
    if k > 0 {
        lemma_prefix_total_bump(h, h2, bv, k - 1);
    }
}

/// The bucket counts of a histogram add up to the number of values folded
/// into it.
pub proof fn lemma_histogram_total(vals: Seq<i32>, n: nat)
    requires
        n >= 1,
    ensures
        prefix_total(histogram_of(vals, n), n as int) == vals.len(),
    decreases vals.len(),
{
    if vals.len() == 0 {
        lemma_prefix_total_zero(histogram_of(vals, n), n as int);
    } else {
        let rest = vals.drop_last();
        lemma_histogram_total(rest, n);
        let bv = bucket_of(vals.last() as int, n as int);
        lemma_bucket_in_range(vals.last() as int, n as int);
        lemma_prefix_total_bump(histogram_of(rest, n), histogram_of(vals, n), bv, n as int);
    }
}

/// A sequence of zeros totals zero.
proof fn lemma_prefix_total_zero(h: Seq<int>, k: int)
    requires
        0 <= k <= h.len(),
        forall|b: int| 0 <= b < k ==> h[b] == 0,
    ensures
        prefix_total(h, k) == 0,
    decreases k,
{
    if k > 0 {
        lemma_prefix_total_zero(h, k - 1);
    }
}

/// Counts of values in uniformly spaced buckets over [0, 1]; values outside
/// the range go to the nearest end bucket.
pub struct FlipHistogram {
    pub(crate) counts: Vec<usize>,
}

impl View for FlipHistogram {
    type V = Seq<int>;

    /// The count of every bucket, lowest bucket first.
    closed spec fn view(&self) -> Seq<int> {
        self.counts@.map_values(|c: usize| c as int)
    }
}

impl FlipHistogram {
    #[verifier::type_invariant]
    spec fn inv(&self) -> bool {
        1 <= self.counts@.len() <= MAX_BUCKETS
    }

    /// Creates a histogram of `bucket_count` empty buckets.
    pub fn new(bucket_count: usize) -> (r: Self)
        requires
            1 <= bucket_count <= MAX_BUCKETS,
        ensures
            r@ == Seq::new(bucket_count as nat, |i: int| 0int),
    {
        let r = FlipHistogram { counts: vec![0usize; bucket_count] };
        assert(r@ =~= Seq::new(bucket_count as nat, |i: int| 0int));
        r
    }

    /// The width of one bucket, in sample units, rounded down.
    pub fn bucket_size(&self) -> (r: usize)
        ensures
            r == SAMPLE_ONE as int / self@.len() as int,
    {
        proof {
            use_type_invariant(self);
        }
        (SAMPLE_ONE as usize) / self.counts.len()
    }

    /// The lowest bucket that holds a value, if any does.
    pub fn bucket_id_min(&self) -> (r: Option<usize>)
        ensures
            match r {
                None => forall|i: int| 0 <= i < self@.len() ==> self@[i] == 0,
                Some(b) => {
                    &&& b < self@.len()
                    &&& self@[b as int] > 0
                    &&& forall|i: int| 0 <= i < b ==> self@[i] == 0
                },
            },
    {
        let n: usize = self.counts.len();
        let mut i: usize = 0;
        while i < n
            invariant
                i <= n,
                n == self@.len(),
                forall|j: int| 0 <= j < i ==> self@[j] == 0,
            decreases n - i,
        {
            if self.counts[i] > 0 {
                return Some(i);
            }
            i = i + 1;
        }
        None
    }

    /// The highest bucket that holds a value, or 0 when none does.
    pub fn bucket_id_max(&self) -> (r: usize)
        ensures
            r < self@.len(),
            forall|i: int| r < i < self@.len() ==> self@[i] == 0,
            self@[r as int] > 0 || (r == 0 && forall|i: int| 0 <= i < self@.len() ==> self@[i] == 0),
    {
        proof {
            use_type_invariant(self);
        }
        let n: usize = self.counts.len();
        let mut i: usize = n;
        while i > 0
            invariant
                i <= n,
                n == self@.len(),
                forall|j: int| i <= j < n ==> self@[j] == 0,
            decreases i,
        {
            if self.counts[i - 1] > 0 {
                return i - 1;
            }
            i = i - 1;
        }
        0
    }

    /// The number of values in bucket `bucket_id`.
    pub fn bucket_value_count(&self, bucket_id: usize) -> (r: usize)
        requires
            bucket_id < self@.len(),
        ensures
            r == self@[bucket_id as int],
    {
        self.counts[bucket_id]
    }

    /// The number of buckets.
    pub fn bucket_count(&self) -> (r: usize)
        ensures
            r == self@.len(),
            1 <= r <= MAX_BUCKETS,
    {
        proof {
            use_type_invariant(self);
        }
        self.counts.len()
    }

    /// The lower end of the range the buckets cover: 0.
    pub fn minimum_allowed_value(&self) -> (r: i32)
        ensures
            r == 0,
    {
        0
    }

    /// The upper end of the range the buckets cover: `SAMPLE_ONE`.
    pub fn maximum_allowed_value(&self) -> (r: i32)
        ensures
            r == SAMPLE_ONE,
    {
        SAMPLE_ONE
    }

    /// Empties every bucket.
    pub fn clear(&mut self)
        ensures
            final(self)@ == Seq::new(old(self)@.len(), |i: int| 0int),
    {
        proof {
            use_type_invariant(&*self);
        }
        let n: usize = self.counts.len();
        self.resize(n);
    }

    /// Replaces the buckets by `bucket_count` empty ones.
    pub fn resize(&mut self, bucket_count: usize)
        requires
            1 <= bucket_count <= MAX_BUCKETS,
        ensures
            final(self)@ == Seq::new(bucket_count as nat, |i: int| 0int),
    {
        self.counts = vec![0usize; bucket_count];
        assert(self@ =~= Seq::new(bucket_count as nat, |i: int| 0int));
    }

    /// The bucket that `value` falls into.
    pub fn bucket_id(&self, value: i32) -> (r: usize)
        ensures
            r == bucket_of(value as int, self@.len() as int),
            r < self@.len(),
        no_unwind
    {
        proof {
            use_type_invariant(self);
        }
        let n: usize = self.counts.len();
        let one: u128 = SAMPLE_ONE as u128;
        if value <= 0 {
            assert((value * n) / (SAMPLE_ONE as int) <= 0) by (nonlinear_arith)
                requires
                    value <= 0,
                    n >= 1,
            ;
            return 0;
        }
        assert(value * n <= 0x7fff_ffff * 0xffff_ffff) by (nonlinear_arith)
            requires
                0 < value <= 0x7fff_ffff,
                n <= 0xffff_ffff,
        ;
        let raw: u128 = (value as u128 * n as u128) / one;
        if raw >= n as u128 {
            n - 1
        } else {
            raw as usize
        }
    }

    /// Adds `count` values of `value` to its bucket.
    pub fn include_value(&mut self, value: i32, count: usize)
        requires
            old(self)@[bucket_of(value as int, old(self)@.len() as int)] + count <= usize::MAX,
        ensures
            final(self)@ == old(self)@.update(
                bucket_of(value as int, old(self)@.len() as int),
                old(self)@[bucket_of(value as int, old(self)@.len() as int)] + count,
            ),
        no_unwind
    {
        proof {
            use_type_invariant(&*self);
        }
        let b: usize = self.bucket_id(value);
        let c: usize = self.counts[b];
        self.counts[b] = c + count;
        assert(self@ =~= old(self)@.update(b as int, old(self)@[b as int] + count));
    }

    /// Adds every sample of `image` to its bucket.
    pub fn include_image(&mut self, image: &FlipImageFloat)
        requires
            forall|b: int| 0 <= b < old(self)@.len() ==> old(self)@[b] + image@.len() <= usize::MAX,
        ensures
            final(self)@.len() == old(self)@.len(),
            forall|b: int|
                0 <= b < old(self)@.len() ==> #[trigger] final(self)@[b] == old(self)@[b]
                    + bucket_tally(image@, old(self)@.len() as int, b),
    {
        proof {
            use_type_invariant(&*self);
        }
        let samples: &Vec<i32> = image.samples();
        let n: usize = samples.len();
        let ghost k = old(self)@.len() as int;
        let mut i: usize = 0;
        while i < n
            invariant
                i <= n,
                n == image@.len(),
                samples@ == image@,
                self@.len() == k,
                k >= 1,
                forall|b: int| 0 <= b < k ==> old(self)@[b] + image@.len() <= usize::MAX,
                forall|b: int|
                    0 <= b < k ==> #[trigger] self@[b] == old(self)@[b] + bucket_tally(
                        image@.subrange(0, i as int),
                        k,
                        b,
                    ),
            decreases n - i,
        {
            let v: i32 = samples[i];
            let ghost before = self@;
            let ghost prefix = image@.subrange(0, i as int);
            let ghost next = image@.subrange(0, i as int + 1);
            assert(next.drop_last() =~= prefix);
            proof {
                let bv = bucket_of(v as int, k);
                lemma_bucket_in_range(v as int, k);
                lemma_tally_at_most_len(prefix, k, bv);
                assert(self@[bv] == old(self)@[bv] + bucket_tally(prefix, k, bv));
                assert(old(self)@[bv] + image@.len() <= usize::MAX);
            }
            self.include_value(v, 1);
            assert forall|b: int| 0 <= b < k implies #[trigger] self@[b] == old(self)@[b]
                + bucket_tally(next, k, b) by {
                assert(before[b] == old(self)@[b] + bucket_tally(prefix, k, b));
            }
            i = i + 1;
        }
        assert(image@.subrange(0, n as int) =~= image@);
    }
}

impl Clone for FlipHistogram {
    fn clone(&self) -> (r: Self)
        ensures
            r@ == self@,
    {
        proof {
            use_type_invariant(self);
        }
        let r = FlipHistogram { counts: self.counts.clone() };
        assert(r@ =~= self@);
        r
    }
}

} // verus!

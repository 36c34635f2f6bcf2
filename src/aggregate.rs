//! Aggregates of a sequence of samples: sum, least, greatest and mean.
use vstd::prelude::*;

verus! {

/// The sum of `vals`.
pub open spec fn sum_of(vals: Seq<i32>) -> int
    decreases vals.len(),
{
    if vals.len() == 0 {
        0
    } else {
        sum_of(vals.drop_last()) + vals.last()
    }
}

/// The least of `vals` (0 for no values).
pub open spec fn min_of(vals: Seq<i32>) -> int
    decreases vals.len(),
{
    if vals.len() == 0 {
        0
    } else if vals.len() == 1 {
        vals[0] as int
    } else if vals.last() < min_of(vals.drop_last()) {
        vals.last() as int
    } else {
        min_of(vals.drop_last())
    }
}

/// The greatest of `vals` (0 for no values).
pub open spec fn max_of(vals: Seq<i32>) -> int
    decreases vals.len(),
{
    if vals.len() == 0 {
        0
    } else if vals.len() == 1 {
        vals[0] as int
    } else if vals.last() > max_of(vals.drop_last()) {
        vals.last() as int
    } else {
        max_of(vals.drop_last())
    }
}

/// The mean of `vals` rounded down (0 for no values).
pub open spec fn mean_of(vals: Seq<i32>) -> int {
    if vals.len() == 0 {
        0
    } else {
        sum_of(vals) / (vals.len() as int)
    }
}

/// `min_of` and `max_of` are the least and the greatest of the values: both
/// bound every value, and both occur among them.
pub proof fn lemma_extremes(vals: Seq<i32>)
    requires
        vals.len() > 0,
    ensures
        forall|i: int| 0 <= i < vals.len() ==> min_of(vals) <= #[trigger] vals[i] <= max_of(vals),
        exists|i: int| 0 <= i < vals.len() && vals[i] == min_of(vals),
        exists|i: int| 0 <= i < vals.len() && vals[i] == max_of(vals),
    decreases vals.len(),
{
    if vals.len() > 1 {
        let rest = vals.drop_last();
        lemma_extremes(rest);
        assert forall|i: int| 0 <= i < vals.len() implies min_of(vals) <= #[trigger] vals[i]
            <= max_of(vals) by {
            if i < vals.len() - 1 {
                assert(vals[i] == rest[i]);
            }
        }
        let j = choose|j: int| 0 <= j < rest.len() && rest[j] == min_of(rest);
        let k = choose|k: int| 0 <= k < rest.len() && rest[k] == max_of(rest);
        assert(vals[j] == rest[j]);
        assert(vals[k] == rest[k]);
        assert(vals[vals.len() - 1] == vals.last());
    } else {
        assert(vals[0] == min_of(vals));
    }
}

/// The sum of the values lies between their count times the least and their
/// count times the greatest.
proof fn lemma_sum_between(vals: Seq<i32>)
    requires
        vals.len() > 0,
    ensures
        vals.len() * min_of(vals) <= sum_of(vals) <= vals.len() * max_of(vals),
    decreases vals.len(),
{
    let n = vals.len() as int;
    if n > 1 {
        let rest = vals.drop_last();
        lemma_sum_between(rest);
        let (m0, m1) = (min_of(rest), min_of(vals));
        let (x0, x1) = (max_of(rest), max_of(vals));
        assert((n - 1) * m1 <= (n - 1) * m0) by (nonlinear_arith)
            requires
                m1 <= m0,
                n > 1,
        ;
        assert((n - 1) * x0 <= (n - 1) * x1) by (nonlinear_arith)
            requires
                x0 <= x1,
                n > 1,
        ;
        assert(n * m1 == (n - 1) * m1 + m1) by (nonlinear_arith);
        assert(n * x1 == (n - 1) * x1 + x1) by (nonlinear_arith);
        assert(rest.len() == n - 1);
        assert(m1 <= vals.last() <= x1);
        assert(sum_of(vals) == sum_of(rest) + vals.last());
    } else {
        assert(vals.last() == vals[0]);
        assert(sum_of(vals.drop_last()) == 0);
    }
}

/// Whenever values were folded in, the mean lies between the least and the
/// greatest of them.
pub proof fn lemma_mean_between(vals: Seq<i32>)
    requires
        vals.len() > 0,
    ensures
        min_of(vals) <= mean_of(vals) <= max_of(vals),
{
    lemma_sum_between(vals);
    let n = vals.len() as int;
    let s = sum_of(vals);
    let (lo, hi) = (min_of(vals), max_of(vals));
    assert(lo <= s / n <= hi) by (nonlinear_arith)
        requires
            n > 0,
            n * lo <= s <= n * hi,
    {
        vstd::arithmetic::div_mod::lemma_fundamental_div_mod(s, n);
    }
}

/// The sum of `vals` is within the range `vals.len()` values of `i32` can reach.
pub proof fn lemma_sum_range(vals: Seq<i32>)
    ensures
        -2147483648 * vals.len() <= sum_of(vals) <= 2147483647 * vals.len(),
    decreases vals.len(),
{
    if vals.len() > 0 {
        lemma_sum_range(vals.drop_last());
    }
}

/// Division of a non-positive number rounds down: `(-m) / n == -((m + n - 1) / n)`.
pub proof fn lemma_floor_div_negative(m: int, n: int)
    requires
        m >= 0,
        n > 0,
    ensures
        (-m) / n == -((m + n - 1) / n),
{
    let q = (m + n - 1) / n;
    let r = (m + n - 1) % n;
    vstd::arithmetic::div_mod::lemma_fundamental_div_mod(m + n - 1, n);
    assert((-q) * n == -(n * q)) by (nonlinear_arith);
    vstd::arithmetic::div_mod::lemma_fundamental_div_mod_converse(-m, n, -q, n - 1 - r);
}

} // verus!

//! Fixed-point samples: the library stores every scalar pixel value as an
//! `i32` in units of `1 / SAMPLE_ONE`, so `SAMPLE_ONE` stands for 1.0.
use vstd::prelude::*;

verus! {

/// The sample value that stands for 1.0 (2 to the power 24).
pub const SAMPLE_ONE: i32 = 16777216;

/// Rounds `s * 255 / SAMPLE_ONE` to the nearest integer, halves away from zero.
pub open spec fn round_times_255(s: int) -> int {
    if s >= 0 {
        (s * 255 + SAMPLE_ONE / 2) / (SAMPLE_ONE as int)
    } else {
        -((-s * 255 + SAMPLE_ONE / 2) / (SAMPLE_ONE as int))
    }
}

/// Index into a look-up table of `n` entries for the sample `s`:
/// `min(round(s * 255) mod n, n - 1)`, with a non-negative remainder.
pub open spec fn lut_index(s: int, n: int) -> int
    recommends
        n > 0,
{
    let m = round_times_255(s) % n;
    if m > n - 1 {
        n - 1
    } else {
        m
    }
}

/// Computes `lut_index(s, n)`.
pub fn lut_index_of(s: i32, n: usize) -> (r: usize)
    requires
        n > 0,
    ensures
        r == lut_index(s as int, n as int),
        r < n,
{
    let half: u64 = (SAMPLE_ONE / 2) as u64;
    let one: u64 = SAMPLE_ONE as u64;
    let magnitude: u64 = if s >= 0 {
        s as u64
    } else {
        (-(s as i64)) as u64
    };
    let rounded: u64 = (magnitude * 255 + half) / one;
    let nn: u64 = n as u64;
    let rem: u64 = rounded % nn;
    let m: u64 = if s >= 0 || rem == 0 {
        rem
    } else {
        nn - rem
    };
    proof {
        if s < 0 {
            lemma_neg_mod(rounded as int, nn as int);
        }
    }
    m as usize
}

/// The remainder of a negated number, in terms of the remainder of the number.
proof fn lemma_neg_mod(a: int, n: int)
    requires
        a >= 0,
        n > 0,
    ensures
        (-a) % n == if a % n == 0 {
            0
        } else {
            n - a % n
        },
{
    vstd::arithmetic::div_mod::lemma_fundamental_div_mod(a, n);
    let q = a / n;
    let r = a % n;
    assert((-q) * n == -(n * q)) by (nonlinear_arith);
    assert((-q - 1) * n == -(n * q) - n) by (nonlinear_arith);
    if r == 0 {
        vstd::arithmetic::div_mod::lemma_fundamental_div_mod_converse(-a, n, -q, 0);
    } else {
        vstd::arithmetic::div_mod::lemma_fundamental_div_mod_converse(-a, n, -q - 1, n - r);
    }
}

} // verus!

//! Fixed-point arithmetic for money and rates.
//!
//! Money is an `i128` count of micro-units: one millionth of a currency unit,
//! so `1_500_000` is 1.50. Interest rates use a finer scale so that monthly
//! compounding over hundreds of periods loses almost no precision.

use vstd::prelude::*;

verus! {

/// Micro-units per currency unit.
pub const SCALE: i128 = 1_000_000;

/// Units per 1.0 for interest rates and compounding factors.
pub const RATE_SCALE: i128 = 1_000_000_000_000;

/// Largest money amount the engine accepts: one hundred million currency
/// units, in micro-units. Keeps all products inside `i128`.
pub const AMOUNT_LIMIT: i128 = 100_000_000_000_000;

/// Division truncating toward zero, as the `/` operator does on `i128`.
pub open spec fn tdiv(a: int, b: int) -> int
    recommends
        b > 0,
{
    if a >= 0 {
        a / b
    } else {
        -((-a) / b)
    }
}

/// `a * b / d`, truncating toward zero.
pub open spec fn mul_div_spec(a: int, b: int, d: int) -> int
    recommends
        d > 0,
{
    tdiv(a * b, d)
}

/// Truncating toward zero never grows the magnitude of a quotient.
pub proof fn lemma_tdiv_bounds(a: int, b: int)
    requires
        b > 0,
    ensures
        a >= 0 ==> 0 <= tdiv(a, b) <= a,
        a < 0 ==> a <= tdiv(a, b) <= 0,
{
    if a >= 0 {
        assert(0 <= a / b <= a) by (nonlinear_arith)
            requires
                b >= 1,
                a >= 0,
        ;
    } else {
        assert(0 <= (-a) / b <= -a) by (nonlinear_arith)
            requires
                b >= 1,
                a < 0,
        ;
    }
}

/// A quotient by `b` of something at most `bound * b` in magnitude is at most
/// `bound` in magnitude.
pub proof fn lemma_tdiv_scaled_bound(a: int, b: int, bound: int)
    requires
        b > 0,
        bound >= 0,
        -(bound * b) <= a <= bound * b,
    ensures
        -bound <= tdiv(a, b) <= bound,
{
    if a >= 0 {
        assert(a / b <= bound && a / b >= 0) by (nonlinear_arith)
            requires
                b > 0,
                bound >= 0,
                0 <= a <= bound * b,
        ;
    } else {
        assert((-a) / b <= bound && (-a) / b >= 0) by (nonlinear_arith)
            requires
                b > 0,
                bound >= 0,
                0 <= -a,
                -a <= bound * b,
        ;
    }
}

/// Sum of the first `k` entries of a sequence.
pub open spec fn sum_prefix(s: Seq<int>, k: int) -> int
    decreases k,
{
    if k <= 0 {
        0
    } else {
        sum_prefix(s, k - 1) + s[k - 1]
    }
}

/// A sum of entries bounded by `[lo, hi]` lies within `k` times those bounds.
pub proof fn lemma_sum_prefix_bounds(s: Seq<int>, k: int, lo: int, hi: int)
    requires
        0 <= k <= s.len(),
        forall|i: int| 0 <= i < s.len() ==> lo <= #[trigger] s[i] <= hi,
    ensures
        k * lo <= sum_prefix(s, k) <= k * hi,
    decreases k,
{
    if k > 0 {
        lemma_sum_prefix_bounds(s, k - 1, lo, hi);
        assert(lo <= s[k - 1] <= hi);
        assert((k - 1) * lo + lo == k * lo) by (nonlinear_arith);
        assert((k - 1) * hi + hi == k * hi) by (nonlinear_arith);
    } else {
        assert(k * lo == 0 && k * hi == 0) by (nonlinear_arith)
            requires
                k == 0,
        ;
    }
}

/// Multiplies two amounts and rescales, truncating toward zero.
pub fn mul_div(a: i128, b: i128, d: i128) -> (r: i128)
    requires
        d > 0,
        -0x7fff_ffff_ffff_ffff_ffff_ffff_ffff_ffff <= a as int * b as int
            <= 0x7fff_ffff_ffff_ffff_ffff_ffff_ffff_ffff,
    ensures
        r == mul_div_spec(a as int, b as int, d as int),
{
    proof {
        lemma_tdiv_bounds(a as int * b as int, d as int);
    }
    a * b / d
}

} // verus!

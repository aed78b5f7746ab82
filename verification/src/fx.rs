//! Signed 16.16 fixed-point arithmetic.
//!
//! A fixed-point value is an `i64` holding `round(x * FX_ONE)` for a real
//! number `x`. All executable operations carry exact contracts phrased over
//! `tdiv`, truncated (round-toward-zero) integer division, which is how the
//! operations round.

use vstd::arithmetic::div_mod::{
    lemma_div_is_ordered, lemma_div_multiples_vanish, lemma_div_pos_is_pos,
};
use vstd::prelude::*;

verus! {

/// The fixed-point representation of 1.0.
pub const FX_ONE: i64 = 65536;

/// The fixed-point representation of 0.5.
pub const FX_HALF: i64 = 32768;

/// Largest magnitude allowed for a screen-space coordinate or interpolated
/// attribute handed to the rasterizer (2^40, about one million pixels).
pub const COORD_LIMIT: i64 = 0x100_0000_0000;

/// Truncated (round-toward-zero) integer division, the rounding used by all
/// executable fixed-point operations. Unspecified when `b == 0`.
pub open spec fn tdiv(a: int, b: int) -> int {
    if a >= 0 && b >= 0 {
        a / b
    } else if a <= 0 && b <= 0 {
        (-a) / (-b)
    } else if a < 0 {
        -((-a) / b)
    } else {
        -(a / (-b))
    }
}

/// For a positive divisor `d`, if `|s| <= d * b` then `|tdiv(s, d)| <= b`:
/// a truncated quotient is bounded by the scaled bound on its numerator.
pub proof fn lemma_tdiv_in_range(s: int, d: int, b: int)
    requires
        d > 0,
        b >= 0,
        -(d * b) <= s <= d * b,
    ensures
        -b <= tdiv(s, d) <= b,
{
    if s >= 0 {
        lemma_div_pos_is_pos(s, d);
        lemma_div_is_ordered(s, d * b, d);
        lemma_div_multiples_vanish(b, d);
        assert(tdiv(s, d) == s / d);
    } else {
        lemma_div_pos_is_pos(-s, d);
        lemma_div_is_ordered(-s, d * b, d);
        lemma_div_multiples_vanish(b, d);
        assert(tdiv(s, d) == -((-s) / d));
    }
}

/// Whether a mathematical integer fits in `i64`.
pub open spec fn fits_i64(x: int) -> bool {
    i64::MIN <= x <= i64::MAX
}

/// A product of factors bounded by `ba` and `bb` in magnitude is bounded
/// by `ba * bb`.
pub proof fn lemma_prod_bound2(a: int, b: int, ba: int, bb: int)
    requires
        0 <= ba,
        0 <= bb,
        -ba <= a <= ba,
        -bb <= b <= bb,
    ensures
        -(ba * bb) <= a * b <= ba * bb,
{
    assert(-(ba * bb) <= a * b <= ba * bb) by (nonlinear_arith)
        requires
            0 <= ba,
            0 <= bb,
            -ba <= a <= ba,
            -bb <= b <= bb,
    ;
}

/// A product of values bounded by `c` in magnitude is bounded by `c * c`.
pub proof fn lemma_prod_bound(a: int, b: int, c: int)
    requires
        0 <= c,
        -c <= a <= c,
        -c <= b <= c,
    ensures
        -(c * c) <= a * b <= c * c,
{
    assert(-(c * c) <= a * b <= c * c) by (nonlinear_arith)
        requires
            0 <= c,
            -c <= a <= c,
            -c <= b <= c,
    ;
}

/// Truncated division on `i128`, computed through unsigned division so that
/// the result is pinned to `tdiv` exactly.
pub fn tdiv_i128(a: i128, b: i128) -> (r: i128)
    requires
        b != 0,
        a != i128::MIN,
        b != i128::MIN,
    ensures
        r == tdiv(a as int, b as int),
{
    if a >= 0 {
        if b > 0 {
            let q: u128 = (a as u128) / (b as u128);
            proof {
                lemma_div_is_ordered(a as int, i128::MAX as int, b as int);
                lemma_div_pos_is_pos(a as int, b as int);
            }
            q as i128
        } else {
            let q: u128 = (a as u128) / ((-b) as u128);
            proof {
                lemma_div_is_ordered(a as int, i128::MAX as int, (-b) as int);
                lemma_div_pos_is_pos(a as int, (-b) as int);
            }
            -(q as i128)
        }
    } else {
        if b > 0 {
            let q: u128 = ((-a) as u128) / (b as u128);
            proof {
                lemma_div_is_ordered((-a) as int, i128::MAX as int, b as int);
                lemma_div_pos_is_pos((-a) as int, b as int);
            }
            -(q as i128)
        } else {
            let q: u128 = ((-a) as u128) / ((-b) as u128);
            proof {
                lemma_div_is_ordered((-a) as int, i128::MAX as int, (-b) as int);
                lemma_div_pos_is_pos((-a) as int, (-b) as int);
            }
            q as i128
        }
    }
}

/// The mathematical result of a fixed-point multiplication.
pub open spec fn fx_mul_spec(a: int, b: int) -> int {
    tdiv(a * b, FX_ONE as int)
}

/// Fixed-point multiplication: `(a * b) / FX_ONE`, truncated toward zero.
pub fn fx_mul(a: i64, b: i64) -> (r: i64)
    requires
        i64::MIN <= fx_mul_spec(a as int, b as int) <= i64::MAX,
    ensures
        r == fx_mul_spec(a as int, b as int),
{
    proof {
        assert(-0x4000_0000_0000_0000_0000_0000_0000_0000int <= (a as int) * (b as int)
            <= 0x4000_0000_0000_0000_0000_0000_0000_0000int) by (nonlinear_arith)
            requires
                -0x8000_0000_0000_0000int <= a as int <= 0x7fff_ffff_ffff_ffffint,
                -0x8000_0000_0000_0000int <= b as int <= 0x7fff_ffff_ffff_ffffint,
        ;
    }
    let p: i128 = (a as i128) * (b as i128);
    let q: i128 = tdiv_i128(p, FX_ONE as i128);
    q as i64
}

/// The mathematical result of a fixed-point division.
pub open spec fn fx_div_spec(a: int, b: int) -> int {
    tdiv(a * FX_ONE as int, b)
}

/// Fixed-point division: `(a * FX_ONE) / b`, truncated toward zero.
pub fn fx_div(a: i64, b: i64) -> (r: i64)
    requires
        b != 0,
        i64::MIN <= fx_div_spec(a as int, b as int) <= i64::MAX,
    ensures
        r == fx_div_spec(a as int, b as int),
{
    let p: i128 = (a as i128) * (FX_ONE as i128);
    let q: i128 = tdiv_i128(p, b as i128);
    q as i64
}

/// The integer square-root floor, defined by counting up.
pub open spec fn sqrt_floor(n: nat) -> nat
    decreases n,
{
    if n == 0 {
        0
    } else {
        let p = sqrt_floor((n - 1) as nat);
        if (p + 1) * (p + 1) <= n {
            p + 1
        } else {
            p
        }
    }
}

/// `sqrt_floor(n)` is the floor of the square root of `n`.
pub proof fn lemma_sqrt_floor_bounds(n: nat)
    ensures
        sqrt_floor(n) * sqrt_floor(n) <= n,
        n < (sqrt_floor(n) + 1) * (sqrt_floor(n) + 1),
    decreases n,
{
    if n > 0 {
        lemma_sqrt_floor_bounds((n - 1) as nat);
        let p = sqrt_floor((n - 1) as nat);
        assert(p * p <= n - 1);
        assert(n - 1 < (p + 1) * (p + 1));
        if (p + 1) * (p + 1) <= n {
            assert(sqrt_floor(n) == p + 1);
            assert((p + 1) * (p + 1) < (p + 2) * (p + 2)) by (nonlinear_arith)
                requires
                    p >= 0,
            ;
        } else {
            assert(sqrt_floor(n) == p);
        }
    } else {
        assert(sqrt_floor(n) == 0);
        assert(n < (sqrt_floor(n) + 1) * (sqrt_floor(n) + 1)) by (nonlinear_arith)
            requires
                n == 0,
                sqrt_floor(n) == 0,
        ;
    }
}

/// Any `r` with `r^2 <= n < (r+1)^2` is `sqrt_floor(n)`: the floor square
/// root is unique.
pub proof fn lemma_sqrt_floor_unique(n: nat, r: nat)
    requires
        r * r <= n,
        n < (r + 1) * (r + 1),
    ensures
        r == sqrt_floor(n),
{
    lemma_sqrt_floor_bounds(n);
    let s = sqrt_floor(n);
    if r < s {
        assert((r + 1) * (r + 1) <= s * s) by (nonlinear_arith)
            requires
                0 <= r,
                r + 1 <= s,
        ;
    }
    if s < r {
        assert((s + 1) * (s + 1) <= r * r) by (nonlinear_arith)
            requires
                0 <= s,
                s + 1 <= r,
        ;
    }
}

/// Integer square root by bisection; the result is the floor square root.
pub fn isqrt_u128(n: u128) -> (r: u128)
    requires
        n < 0x4000_0000_0000_0000_0000_0000_0000_0000,
    ensures
        r == sqrt_floor(n as nat),
        r * r <= n,
        n < (r + 1) * (r + 1),
{
    let mut lo: u128 = 0;
    let mut hi: u128 = 0x8000_0000_0000_0000;
    while lo + 1 < hi
        invariant
            lo < hi,
            hi <= 0x8000_0000_0000_0000,
            (lo as int) * (lo as int) <= n as int,
            (n as int) < (hi as int) * (hi as int),
        decreases hi - lo,
    {
        let mid: u128 = lo + (hi - lo) / 2;
        proof {
            assert((mid as int) * (mid as int) < 0x8000_0000_0000_0000_0000_0000_0000_0000int)
                by (nonlinear_arith)
                requires
                    0 <= mid as int,
                    (mid as int) < 0x8000_0000_0000_0000int,
            ;
        }
        if mid * mid <= n {
            lo = mid;
        } else {
            hi = mid;
        }
    }
    proof {
        lemma_sqrt_floor_unique(n as nat, lo as nat);
    }
    lo
}

} // verus!

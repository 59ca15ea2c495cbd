//! Saturating fixed-point arithmetic on milli-units.
//!
//! A world unit is carried as `SCALE` milli-units in an `i64`. Every
//! compound operation multiplies in 128-bit arithmetic, divides truncating
//! toward zero (as Rust's `/` does), and saturates the result at `MAG_MAX`,
//! so the engine's functions are total and never overflow.

use vstd::prelude::*;
use vstd::arithmetic::div_mod::{
    lemma_div_is_ordered, lemma_div_is_ordered_by_denominator, lemma_div_nonincreasing,
    lemma_div_pos_is_pos,
};

verus! {

/// Milli-units per world unit.
pub const SCALE: i64 = 1000;

/// Magnitude bound for every quantity the engine stores: results of the
/// saturating operations below always lie in `[-MAG_MAX, MAG_MAX]`.
pub const MAG_MAX: i64 = 4_000_000_000_000_000;

/// Division truncating toward zero, the semantics of Rust's `/` on signed
/// integers (ghost `/` alone is Euclidean).
pub open spec fn tdiv(a: int, b: int) -> int
    recommends
        b > 0,
{
    if a >= 0 {
        a / b
    } else {
        -((-a) / b)
    }
}

/// Saturation of a mathematical integer into `[-MAG_MAX, MAG_MAX]`.
pub open spec fn sat(x: int) -> int {
    if x > MAG_MAX as int {
        MAG_MAX as int
    } else if x < -(MAG_MAX as int) {
        -(MAG_MAX as int)
    } else {
        x
    }
}

/// `r` is the floor of the square root of `n`.
pub open spec fn is_sqrt(n: int, r: int) -> bool {
    0 <= r && r * r <= n && n < (r + 1) * (r + 1)
}

/// Floor of the square root of a non-negative integer.
pub open spec fn sqrt_floor(n: int) -> int {
    choose|r: int| #[trigger] is_sqrt(n, r)
}

proof fn lemma_sqrt_exists(n: int)
    requires
        n >= 0,
    ensures
        exists|r: int| #[trigger] is_sqrt(n, r),
    decreases n,
{
    if n == 0 {
        assert(is_sqrt(0, 0));
    } else {
        lemma_sqrt_exists(n - 1);
        let r = choose|r: int| #[trigger] is_sqrt(n - 1, r);
        if (r + 1) * (r + 1) <= n {
            assert(n <= (r + 1) * (r + 1));
            assert((r + 1) * (r + 1) < (r + 2) * (r + 2)) by (nonlinear_arith)
                requires r >= 0;
            assert(is_sqrt(n, r + 1));
        } else {
            assert(is_sqrt(n, r));
        }
    }
}

/// `sqrt_floor` meets its characterization on non-negative inputs.
pub proof fn lemma_sqrt_floor_is_sqrt(n: int)
    requires
        n >= 0,
    ensures
        is_sqrt(n, sqrt_floor(n)),
{
    lemma_sqrt_exists(n);
}

/// The floor square root is unique.
pub proof fn lemma_sqrt_unique(n: int, r: int)
    requires
        is_sqrt(n, r),
    ensures
        r == sqrt_floor(n),
{
    let s = sqrt_floor(n);
    lemma_sqrt_floor_is_sqrt(n);
    if r < s {
        assert((r + 1) * (r + 1) <= s * s) by (nonlinear_arith)
            requires 0 <= r + 1 <= s;
        assert(false);
    }
    if s < r {
        assert((s + 1) * (s + 1) <= r * r) by (nonlinear_arith)
            requires 0 <= s + 1 <= r;
        assert(false);
    }
}

/// The floor square root is monotone.
pub proof fn lemma_sqrt_mono(a: int, b: int)
    requires
        0 <= a <= b,
    ensures
        sqrt_floor(a) <= sqrt_floor(b),
{
    lemma_sqrt_floor_is_sqrt(a);
    lemma_sqrt_floor_is_sqrt(b);
    let ra = sqrt_floor(a);
    let rb = sqrt_floor(b);
    if rb < ra {
        assert((rb + 1) * (rb + 1) <= ra * ra) by (nonlinear_arith)
            requires 0 <= rb + 1 <= ra;
        assert(false);
    }
}

/// Negating the dividend negates the truncating quotient.
pub proof fn lemma_tdiv_neg(a: int, b: int)
    requires
        b > 0,
    ensures
        tdiv(-a, b) == -tdiv(a, b),
{
}

/// A truncating quotient never exceeds the dividend in magnitude.
pub proof fn lemma_tdiv_mag(a: int, b: int)
    requires
        b >= 1,
    ensures
        -a <= tdiv(a, b) <= a || a <= tdiv(a, b) <= -a,
        a >= 0 ==> 0 <= tdiv(a, b) <= a,
        a <= 0 ==> a <= tdiv(a, b) <= 0,
{
    if a >= 0 {
        lemma_div_pos_is_pos(a, b);
        lemma_div_nonincreasing(a, b);
    } else {
        lemma_div_pos_is_pos(-a, b);
        lemma_div_nonincreasing(-a, b);
    }
}

/// Truncating division is monotone in the dividend.
pub proof fn lemma_tdiv_mono(a: int, b: int, d: int)
    requires
        d >= 1,
        a <= b,
    ensures
        tdiv(a, d) <= tdiv(b, d),
{
    if a >= 0 {
        lemma_div_is_ordered(a, b, d);
    } else if b < 0 {
        lemma_div_is_ordered(-b, -a, d);
    } else {
        lemma_div_pos_is_pos(-a, d);
        lemma_div_pos_is_pos(b, d);
    }
}

/// For a non-negative dividend, a larger divisor gives a smaller quotient.
pub proof fn lemma_tdiv_denom(n: int, d1: int, d2: int)
    requires
        n >= 0,
        1 <= d1 <= d2,
    ensures
        tdiv(n, d2) <= tdiv(n, d1),
{
    lemma_div_is_ordered_by_denominator(n, d1, d2);
}

/// Saturate a 128-bit value into the engine's magnitude range.
pub fn sat128(x: i128) -> (r: i64)
    ensures
        r as int == sat(x as int),
{
    if x > MAG_MAX as i128 {
        MAG_MAX
    } else if x < -MAG_MAX as i128 {
        -MAG_MAX
    } else {
        x as i64
    }
}

/// `a * b / d` with the product taken in 128 bits, the division truncating
/// toward zero, and the result saturated.
pub fn muldiv(a: i64, b: i64, d: i64) -> (r: i64)
    requires
        d >= 1,
    ensures
        r as int == sat(tdiv(a as int * b as int, d as int)),
{
    proof {
        assert(-0x4000_0000_0000_0000_0000_0000_0000_0000int <= a as int * b as int
            <= 0x4000_0000_0000_0000_0000_0000_0000_0000int) by (nonlinear_arith)
            requires
                -0x8000_0000_0000_0000int <= a as int <= 0x7fff_ffff_ffff_ffffint,
                -0x8000_0000_0000_0000int <= b as int <= 0x7fff_ffff_ffff_ffffint,
        ;
    }
    let p: i128 = (a as i128) * (b as i128);
    let q: i128 = match p.checked_div(d as i128) {
        Some(q) => q,
        None => 0,
    };
    proof {
        lemma_tdiv_mag(p as int, d as int);
        assert(q as int == tdiv(p as int, d as int));
    }
    sat128(q)
}

/// Floor square root of a 64-bit value, by bisection.
pub fn isqrt(x: u64) -> (r: u64)
    ensures
        r as int == sqrt_floor(x as int),
        is_sqrt(x as int, r as int),
{
    let mut lo: u64 = 0;
    let mut hi: u64 = 4_294_967_296;
    proof {
        assert((hi as int) * (hi as int) > x as int) by (nonlinear_arith)
            requires
                hi as int == 0x1_0000_0000,
                (x as int) < 0x1_0000_0000_0000_0000,
        ;
    }
    while hi - lo > 1
        invariant
            0 <= lo < hi <= 4_294_967_296,
            (lo as int) * (lo as int) <= x as int,
            (x as int) < (hi as int) * (hi as int),
        decreases hi - lo,
    {
        let mid: u64 = lo + (hi - lo) / 2;
        proof {
            assert((mid as int) * (mid as int) <= 0x1_0000_0000_0000_0000_0000_0000int)
                by (nonlinear_arith)
                requires 0 <= mid as int <= 0x1_0000_0000;
        }
        if (mid as u128) * (mid as u128) <= x as u128 {
            lo = mid;
        } else {
            hi = mid;
        }
    }
    proof {
        assert(is_sqrt(x as int, lo as int));
        lemma_sqrt_unique(x as int, lo as int);
    }
    lo
}

} // verus!

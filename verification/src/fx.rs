//! Fixed-point arithmetic: an `i64` carries a real value scaled by `2^32`.
//!
//! Every executable operation saturates at the `i64` range instead of
//! overflowing, and has an exact specification mirror (`*_s`), so callers can
//! reason about results bit for bit.

use vstd::prelude::*;
use vstd::arithmetic::div_mod::{lemma_div_basics_4, lemma_div_basics_5};

verus! {

/// The fixed-point scale: `FX_ONE` represents the real number 1 (32 fractional bits).
pub const FX_ONE: i64 = 4294967296;

/// pi/4 in fixed point.
pub const FX_QUARTER_PI: i64 = 3373259426;

/// pi/2 in fixed point, exactly 2 * FX_QUARTER_PI.
pub const FX_HALF_PI: i64 = 6746518852;

/// pi in fixed point, exactly 2 * FX_HALF_PI.
pub const FX_PI: i64 = 13493037704;

/// 2*pi in fixed point, exactly 4 * FX_HALF_PI.
pub const FX_TWO_PI: i64 = 26986075408;

/// Saturate an unbounded integer into the `i64` range.
pub open spec fn sat_i64(x: int) -> i64 {
    if x > i64::MAX {
        i64::MAX
    } else if x < i64::MIN {
        i64::MIN
    } else {
        x as i64
    }
}

/// Truncating (round-toward-zero) integer division, the semantics of Rust's `/`.
pub open spec fn tdiv(x: int, d: int) -> int
    recommends
        d != 0,
{
    if x == 0 {
        0
    } else if x > 0 && d > 0 {
        x / d
    } else if x < 0 && d < 0 {
        (x * -1) / (d * -1)
    } else if x < 0 {
        ((x * -1) / d) * -1
    } else {
        (x / (d * -1)) * -1
    }
}

/// Truncating remainder, the semantics of Rust's `%`.
pub open spec fn trem(x: int, d: int) -> int
    recommends
        d != 0,
{
    if x == 0 {
        0
    } else if x > 0 && d > 0 {
        x % d
    } else if x < 0 && d < 0 {
        ((x * -1) % (d * -1)) * -1
    } else if x < 0 {
        ((x * -1) % d) * -1
    } else {
        x % (d * -1)
    }
}

/// The magnitude of a truncating quotient never exceeds the magnitude of the
/// dividend.
pub proof fn lemma_tdiv_bounds(x: int, d: int)
    requires
        d != 0,
    ensures
        tdiv(x, d) <= (if x >= 0 { x } else { x * -1 }),
        (if x >= 0 { x * -1 } else { x }) <= tdiv(x, d),
{
    let m = if x >= 0 { x } else { x * -1 };
    let e = if d > 0 { d } else { d * -1 };
    lemma_div_basics_4(m, e);
    lemma_div_basics_5(m, e);
}

/// Saturating fixed-point addition.
pub open spec fn fx_add_s(a: i64, b: i64) -> i64 {
    sat_i64(a + b)
}

/// Saturating fixed-point subtraction.
pub open spec fn fx_sub_s(a: i64, b: i64) -> i64 {
    sat_i64(a - b)
}

/// Saturating fixed-point negation.
pub open spec fn fx_neg_s(a: i64) -> i64 {
    sat_i64((a as int) * -1)
}

/// Saturating fixed-point multiplication: the exact product rescaled by `2^32`,
/// truncated toward zero.
pub open spec fn fx_mul_s(a: i64, b: i64) -> i64 {
    sat_i64(tdiv((a as int) * (b as int), FX_ONE as int))
}

/// Saturating fixed-point division; division by zero yields 0.
pub open spec fn fx_div_s(a: i64, b: i64) -> i64 {
    if b == 0 {
        0
    } else {
        sat_i64(tdiv((a as int) * (FX_ONE as int), b as int))
    }
}

/// Divide a fixed-point value by a small positive integer (not fixed-point).
pub open spec fn fx_divn_s(a: i64, n: i64) -> i64
    recommends
        n >= 1,
{
    sat_i64(tdiv(a as int, n as int))
}

/// Clip `x` into `[lo, hi]`.
pub open spec fn fx_clamp_s(x: i64, lo: i64, hi: i64) -> i64 {
    if x < lo {
        lo
    } else if x > hi {
        hi
    } else {
        x
    }
}

/// Largest `r >= 0` with `r * r <= x` (0 for negative input).
#[verifier::opaque]
pub open spec fn sqrt_floor(x: int) -> int
    decreases x,
{
    if x <= 0 {
        0
    } else {
        let p = sqrt_floor(x - 1);
        if (p + 1) * (p + 1) <= x {
            p + 1
        } else {
            p
        }
    }
}

/// `sqrt_floor` is the floor of the square root.
pub proof fn lemma_sqrt_floor_props(x: int)
    requires
        x >= 0,
    ensures
        sqrt_floor(x) >= 0,
        sqrt_floor(x) * sqrt_floor(x) <= x,
        x < (sqrt_floor(x) + 1) * (sqrt_floor(x) + 1),
    decreases x,
{
    reveal(sqrt_floor);
    if x > 0 {
        lemma_sqrt_floor_props(x - 1);
        let p = sqrt_floor(x - 1);
        if (p + 1) * (p + 1) <= x {
            assert(x == (p + 1) * (p + 1));
            assert((p + 1) * (p + 1) < (p + 2) * (p + 2)) by (nonlinear_arith)
                requires p >= 0;
        }
    }
}

/// Any `r` satisfying the floor-square-root characterization equals `sqrt_floor`.
pub proof fn lemma_sqrt_floor_unique(x: int, r: int)
    requires
        x >= 0,
        r >= 0,
        r * r <= x,
        x < (r + 1) * (r + 1),
    ensures
        r == sqrt_floor(x),
{
    reveal(sqrt_floor);
    lemma_sqrt_floor_props(x);
    let s = sqrt_floor(x);
    if r < s {
        assert((r + 1) * (r + 1) <= s * s) by (nonlinear_arith)
            requires 0 <= r, r < s;
    }
    if s < r {
        assert((s + 1) * (s + 1) <= r * r) by (nonlinear_arith)
            requires 0 <= s, s < r;
    }
}

/// Fixed-point square root: floor of the square root of the represented value
/// (0 for negative input).
#[verifier::opaque]
pub open spec fn fx_sqrt_s(v: i64) -> i64 {
    if v <= 0 {
        0
    } else {
        sqrt_floor((v as int) * (FX_ONE as int)) as i64
    }
}

/// Saturate an `i128` into the `i64` range.
fn sat_exec(x: i128) -> (r: i64)
    ensures
        r == sat_i64(x as int),
{
    if x > i64::MAX as i128 {
        i64::MAX
    } else if x < i64::MIN as i128 {
        i64::MIN
    } else {
        x as i64
    }
}

pub fn fx_add(a: i64, b: i64) -> (r: i64)
    ensures
        r == fx_add_s(a, b),
{
    let s: i128 = a as i128 + b as i128;
    sat_exec(s)
}

pub fn fx_sub(a: i64, b: i64) -> (r: i64)
    ensures
        r == fx_sub_s(a, b),
{
    let s: i128 = a as i128 - b as i128;
    sat_exec(s)
}

pub fn fx_neg(a: i64) -> (r: i64)
    ensures
        r == fx_neg_s(a),
{
    if a == i64::MIN {
        i64::MAX
    } else {
        -a
    }
}

pub fn fx_mul(a: i64, b: i64) -> (r: i64)
    ensures
        r == fx_mul_s(a, b),
{
    proof {
        assert((a as int) * (b as int) <= 0x40000000000000000000000000000000
            && (a as int) * (b as int) >= -0x40000000000000000000000000000000) by (nonlinear_arith)
            requires
                -0x8000000000000000 <= a as int <= 0x7fffffffffffffff,
                -0x8000000000000000 <= b as int <= 0x7fffffffffffffff;
    }
    let p: i128 = (a as i128) * (b as i128);
    proof {
        lemma_tdiv_bounds(p as int, FX_ONE as int);
    }
    let q: i128 = match p.checked_div(4294967296i128) {
        Some(v) => v,
        None => 0,
    };
    sat_exec(q)
}

pub fn fx_div(a: i64, b: i64) -> (r: i64)
    ensures
        r == fx_div_s(a, b),
{
    if b == 0 {
        return 0;
    }
    let p: i128 = (a as i128) * (4294967296i128);
    proof {
        lemma_tdiv_bounds(p as int, b as int);
    }
    let q: i128 = match p.checked_div(b as i128) {
        Some(v) => v,
        None => 0,
    };
    sat_exec(q)
}

pub fn fx_divn(a: i64, n: i64) -> (r: i64)
    requires
        n >= 1,
    ensures
        r == fx_divn_s(a, n),
{
    proof {
        lemma_tdiv_bounds(a as int, n as int);
    }
    match a.checked_div(n) {
        Some(v) => v,
        None => 0,
    }
}

pub fn fx_clamp(x: i64, lo: i64, hi: i64) -> (r: i64)
    ensures
        r == fx_clamp_s(x, lo, hi),
{
    if x < lo {
        lo
    } else if x > hi {
        hi
    } else {
        x
    }
}

pub fn fx_sqrt(v: i64) -> (r: i64)
    ensures
        r == fx_sqrt_s(v),
{
    proof {
        reveal(fx_sqrt_s);
    }
    if v <= 0 {
        return 0;
    }
    let x: u128 = (v as u128) * (4294967296u128);
    let mut lo: u128 = 0;
    let mut hi: u128 = 281474976710657;
    proof {
        assert((hi as int) * (hi as int) > x as int) by (nonlinear_arith)
            requires
                hi as int == 281474976710657,
                x as int <= 0x7fffffffffffffff * 4294967296;
    }
    while hi - lo > 1
        invariant
            lo < hi,
            hi <= 281474976710657,
            (lo as int) * (lo as int) <= x as int,
            (x as int) < (hi as int) * (hi as int),
            x == (v as int) * (FX_ONE as int),
        decreases hi - lo,
    {
        let mid: u128 = lo + (hi - lo) / 2;
        proof {
            assert((mid as int) * (mid as int) < 0x100000000000000000000000000000000) by (nonlinear_arith)
                requires 0 <= mid as int <= 281474976710657;
        }
        if mid * mid <= x {
            lo = mid;
        } else {
            hi = mid;
        }
    }
    proof {
        lemma_sqrt_floor_unique(x as int, lo as int);
    }
    lo as i64
}

} // verus!

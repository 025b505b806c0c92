//! Fixed-point sine and cosine: range reduction to a quarter period followed
//! by truncated Taylor polynomials on `[0, pi/4]`. Each executable function is
//! pinned to its specification mirror bit for bit.

use vstd::prelude::*;
use crate::fx::{
    FX_HALF_PI, FX_ONE, FX_PI, FX_QUARTER_PI, FX_TWO_PI, fx_add, fx_add_s, fx_divn, fx_divn_s,
    fx_mul, fx_mul_s, fx_neg, fx_neg_s, fx_sub, fx_sub_s, trem,
};
use crate::geom::{
    M3, V3, m3_add, m3_add_s, m3_identity, m3_identity_s, m3_mul, m3_mul_s, m3_scale, m3_scale_s,
    m3_skew, m3_skew_s,
};

verus! {

/// Reduce an angle into `[0, 2*pi)` (fixed point).
pub open spec fn wrap_angle_s(a: i64) -> i64 {
    let r = trem(a as int, FX_TWO_PI as int);
    if r < 0 {
        (r + FX_TWO_PI) as i64
    } else {
        r as i64
    }
}

/// Taylor polynomial for sine, adequate on `[0, pi/4]`:
/// `x - x^3/6 + x^5/120 - x^7/5040`.
pub open spec fn sin_poly_s(x: i64) -> i64 {
    let x2 = fx_mul_s(x, x);
    let x3 = fx_mul_s(x2, x);
    let x5 = fx_mul_s(x3, x2);
    let x7 = fx_mul_s(x5, x2);
    fx_sub_s(fx_add_s(fx_sub_s(x, fx_divn_s(x3, 6)), fx_divn_s(x5, 120)), fx_divn_s(x7, 5040))
}

/// Taylor polynomial for cosine, adequate on `[0, pi/4]`:
/// `1 - x^2/2 + x^4/24 - x^6/720 + x^8/40320`.
pub open spec fn cos_poly_s(x: i64) -> i64 {
    let x2 = fx_mul_s(x, x);
    let x4 = fx_mul_s(x2, x2);
    let x6 = fx_mul_s(x4, x2);
    let x8 = fx_mul_s(x6, x2);
    fx_add_s(
        fx_sub_s(fx_add_s(fx_sub_s(FX_ONE, fx_divn_s(x2, 2)), fx_divn_s(x4, 24)), fx_divn_s(x6, 720)),
        fx_divn_s(x8, 40320),
    )
}

/// Sine on a quarter period `[0, pi/2)`, folded onto `[0, pi/4]`.
pub open spec fn sin_core_s(t: i64) -> i64 {
    if t <= FX_QUARTER_PI {
        sin_poly_s(t)
    } else {
        cos_poly_s((FX_HALF_PI - t) as i64)
    }
}

/// Cosine on a quarter period `[0, pi/2)`, folded onto `[0, pi/4]`.
pub open spec fn cos_core_s(t: i64) -> i64 {
    if t <= FX_QUARTER_PI {
        cos_poly_s(t)
    } else {
        sin_poly_s((FX_HALF_PI - t) as i64)
    }
}

/// Fixed-point sine of an arbitrary angle.
pub open spec fn fx_sin_s(a: i64) -> i64 {
    let r = wrap_angle_s(a);
    if r < FX_HALF_PI {
        sin_core_s(r)
    } else if r < FX_PI {
        cos_core_s((r - FX_HALF_PI) as i64)
    } else if r < FX_PI + FX_HALF_PI {
        fx_neg_s(sin_core_s((r - FX_PI) as i64))
    } else {
        fx_neg_s(cos_core_s((r - FX_PI - FX_HALF_PI) as i64))
    }
}

/// Fixed-point cosine of an arbitrary angle.
pub open spec fn fx_cos_s(a: i64) -> i64 {
    let r = wrap_angle_s(a);
    if r < FX_HALF_PI {
        cos_core_s(r)
    } else if r < FX_PI {
        fx_neg_s(sin_core_s((r - FX_HALF_PI) as i64))
    } else if r < FX_PI + FX_HALF_PI {
        fx_neg_s(cos_core_s((r - FX_PI) as i64))
    } else {
        sin_core_s((r - FX_PI - FX_HALF_PI) as i64)
    }
}

fn wrap_angle(a: i64) -> (r: i64)
    ensures
        r == wrap_angle_s(a),
        0 <= r < FX_TWO_PI,
{
    let t: i64 = match a.checked_rem(FX_TWO_PI) {
        Some(v) => v,
        None => 0,
    };
    if t < 0 {
        t + FX_TWO_PI
    } else {
        t
    }
}

fn sin_poly(x: i64) -> (r: i64)
    ensures
        r == sin_poly_s(x),
{
    let x2 = fx_mul(x, x);
    let x3 = fx_mul(x2, x);
    let x5 = fx_mul(x3, x2);
    let x7 = fx_mul(x5, x2);
    fx_sub(fx_add(fx_sub(x, fx_divn(x3, 6)), fx_divn(x5, 120)), fx_divn(x7, 5040))
}

fn cos_poly(x: i64) -> (r: i64)
    ensures
        r == cos_poly_s(x),
{
    let x2 = fx_mul(x, x);
    let x4 = fx_mul(x2, x2);
    let x6 = fx_mul(x4, x2);
    let x8 = fx_mul(x6, x2);
    fx_add(
        fx_sub(fx_add(fx_sub(FX_ONE, fx_divn(x2, 2)), fx_divn(x4, 24)), fx_divn(x6, 720)),
        fx_divn(x8, 40320),
    )
}

fn sin_core(t: i64) -> (r: i64)
    requires
        0 <= t < FX_HALF_PI,
    ensures
        r == sin_core_s(t),
{
    if t <= FX_QUARTER_PI {
        sin_poly(t)
    } else {
        cos_poly(FX_HALF_PI - t)
    }
}

fn cos_core(t: i64) -> (r: i64)
    requires
        0 <= t < FX_HALF_PI,
    ensures
        r == cos_core_s(t),
{
    if t <= FX_QUARTER_PI {
        cos_poly(t)
    } else {
        sin_poly(FX_HALF_PI - t)
    }
}

pub fn fx_sin(a: i64) -> (r: i64)
    ensures
        r == fx_sin_s(a),
{
    let w = wrap_angle(a);
    if w < FX_HALF_PI {
        sin_core(w)
    } else if w < FX_PI {
        cos_core(w - FX_HALF_PI)
    } else if w < FX_PI + FX_HALF_PI {
        fx_neg(sin_core(w - FX_PI))
    } else {
        fx_neg(cos_core(w - FX_PI - FX_HALF_PI))
    }
}

pub fn fx_cos(a: i64) -> (r: i64)
    ensures
        r == fx_cos_s(a),
{
    let w = wrap_angle(a);
    if w < FX_HALF_PI {
        cos_core(w)
    } else if w < FX_PI {
        fx_neg(sin_core(w - FX_HALF_PI))
    } else if w < FX_PI + FX_HALF_PI {
        fx_neg(cos_core(w - FX_PI))
    } else {
        sin_core(w - FX_PI - FX_HALF_PI)
    }
}

/// Rotation about `axis` by `angle` (Rodrigues' formula):
/// `I + sin(t) K + (1 - cos(t)) K^2`, with `K` the skew matrix of the axis.
pub open spec fn rot_axis_angle_s(axis: V3, angle: i64) -> M3 {
    let s = fx_sin_s(angle);
    let c = fx_cos_s(angle);
    let k = m3_skew_s(axis);
    m3_add_s(
        m3_add_s(m3_identity_s(), m3_scale_s(k, s)),
        m3_scale_s(m3_mul_s(k, k), fx_sub_s(FX_ONE, c)),
    )
}

pub fn rot_axis_angle(axis: V3, angle: i64) -> (r: M3)
    ensures
        r == rot_axis_angle_s(axis, angle),
{
    let s = fx_sin(angle);
    let c = fx_cos(angle);
    let k = m3_skew(axis);
    let k2 = m3_mul(&k, &k);
    m3_add(
        &m3_add(&m3_identity(), &m3_scale(&k, s)),
        &m3_scale(&k2, fx_sub(FX_ONE, c)),
    )
}

} // verus!

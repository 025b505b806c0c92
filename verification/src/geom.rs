//! Rigid-body geometry in fixed point: 3-vectors, 3x3 rotation matrices and
//! poses (rotation + translation), with exact specification mirrors for every
//! executable operation.

use vstd::prelude::*;
use crate::fx::{
    FX_ONE, fx_add, fx_add_s, fx_mul, fx_mul_s, fx_neg, fx_neg_s, fx_sub, fx_sub_s,
};

verus! {

/// A 3-vector of fixed-point coordinates.
#[derive(Clone, Copy, PartialEq, Eq, Structural, Debug)]
pub struct V3 {
    pub x: i64,
    pub y: i64,
    pub z: i64,
}

/// A 3x3 matrix of fixed-point entries (row-major field names: `m_rc`).
#[derive(Clone, Copy, PartialEq, Eq, Structural, Debug)]
pub struct M3 {
    pub m00: i64,
    pub m01: i64,
    pub m02: i64,
    pub m10: i64,
    pub m11: i64,
    pub m12: i64,
    pub m20: i64,
    pub m21: i64,
    pub m22: i64,
}

/// A rigid transform: rotation followed by translation.
#[derive(Clone, Copy, PartialEq, Eq, Structural, Debug)]
pub struct Pose {
    pub rot: M3,
    pub pos: V3,
}

pub open spec fn v3_zero_s() -> V3 {
    V3 { x: 0, y: 0, z: 0 }
}

pub open spec fn m3_identity_s() -> M3 {
    M3 {
        m00: FX_ONE, m01: 0, m02: 0,
        m10: 0, m11: FX_ONE, m12: 0,
        m20: 0, m21: 0, m22: FX_ONE,
    }
}

pub open spec fn pose_identity_s() -> Pose {
    Pose { rot: m3_identity_s(), pos: v3_zero_s() }
}

pub open spec fn v3_add_s(a: V3, b: V3) -> V3 {
    V3 { x: fx_add_s(a.x, b.x), y: fx_add_s(a.y, b.y), z: fx_add_s(a.z, b.z) }
}

pub open spec fn v3_sub_s(a: V3, b: V3) -> V3 {
    V3 { x: fx_sub_s(a.x, b.x), y: fx_sub_s(a.y, b.y), z: fx_sub_s(a.z, b.z) }
}

pub open spec fn v3_scale_s(a: V3, k: i64) -> V3 {
    V3 { x: fx_mul_s(a.x, k), y: fx_mul_s(a.y, k), z: fx_mul_s(a.z, k) }
}

pub open spec fn v3_dot_s(a: V3, b: V3) -> i64 {
    fx_add_s(fx_add_s(fx_mul_s(a.x, b.x), fx_mul_s(a.y, b.y)), fx_mul_s(a.z, b.z))
}

pub open spec fn v3_cross_s(a: V3, b: V3) -> V3 {
    V3 {
        x: fx_sub_s(fx_mul_s(a.y, b.z), fx_mul_s(a.z, b.y)),
        y: fx_sub_s(fx_mul_s(a.z, b.x), fx_mul_s(a.x, b.z)),
        z: fx_sub_s(fx_mul_s(a.x, b.y), fx_mul_s(a.y, b.x)),
    }
}

/// Matrix applied to a vector.
pub open spec fn m3_apply_s(m: M3, v: V3) -> V3 {
    V3 {
        x: fx_add_s(fx_add_s(fx_mul_s(m.m00, v.x), fx_mul_s(m.m01, v.y)), fx_mul_s(m.m02, v.z)),
        y: fx_add_s(fx_add_s(fx_mul_s(m.m10, v.x), fx_mul_s(m.m11, v.y)), fx_mul_s(m.m12, v.z)),
        z: fx_add_s(fx_add_s(fx_mul_s(m.m20, v.x), fx_mul_s(m.m21, v.y)), fx_mul_s(m.m22, v.z)),
    }
}

/// Matrix product `a * b`.
pub open spec fn m3_mul_s(a: M3, b: M3) -> M3 {
    M3 {
        m00: fx_add_s(fx_add_s(fx_mul_s(a.m00, b.m00), fx_mul_s(a.m01, b.m10)), fx_mul_s(a.m02, b.m20)),
        m01: fx_add_s(fx_add_s(fx_mul_s(a.m00, b.m01), fx_mul_s(a.m01, b.m11)), fx_mul_s(a.m02, b.m21)),
        m02: fx_add_s(fx_add_s(fx_mul_s(a.m00, b.m02), fx_mul_s(a.m01, b.m12)), fx_mul_s(a.m02, b.m22)),
        m10: fx_add_s(fx_add_s(fx_mul_s(a.m10, b.m00), fx_mul_s(a.m11, b.m10)), fx_mul_s(a.m12, b.m20)),
        m11: fx_add_s(fx_add_s(fx_mul_s(a.m10, b.m01), fx_mul_s(a.m11, b.m11)), fx_mul_s(a.m12, b.m21)),
        m12: fx_add_s(fx_add_s(fx_mul_s(a.m10, b.m02), fx_mul_s(a.m11, b.m12)), fx_mul_s(a.m12, b.m22)),
        m20: fx_add_s(fx_add_s(fx_mul_s(a.m20, b.m00), fx_mul_s(a.m21, b.m10)), fx_mul_s(a.m22, b.m20)),
        m21: fx_add_s(fx_add_s(fx_mul_s(a.m20, b.m01), fx_mul_s(a.m21, b.m11)), fx_mul_s(a.m22, b.m21)),
        m22: fx_add_s(fx_add_s(fx_mul_s(a.m20, b.m02), fx_mul_s(a.m21, b.m12)), fx_mul_s(a.m22, b.m22)),
    }
}

pub open spec fn m3_transpose_s(m: M3) -> M3 {
    M3 {
        m00: m.m00, m01: m.m10, m02: m.m20,
        m10: m.m01, m11: m.m11, m12: m.m21,
        m20: m.m02, m21: m.m12, m22: m.m22,
    }
}

pub open spec fn m3_add_s(a: M3, b: M3) -> M3 {
    M3 {
        m00: fx_add_s(a.m00, b.m00), m01: fx_add_s(a.m01, b.m01), m02: fx_add_s(a.m02, b.m02),
        m10: fx_add_s(a.m10, b.m10), m11: fx_add_s(a.m11, b.m11), m12: fx_add_s(a.m12, b.m12),
        m20: fx_add_s(a.m20, b.m20), m21: fx_add_s(a.m21, b.m21), m22: fx_add_s(a.m22, b.m22),
    }
}

pub open spec fn m3_scale_s(m: M3, k: i64) -> M3 {
    M3 {
        m00: fx_mul_s(m.m00, k), m01: fx_mul_s(m.m01, k), m02: fx_mul_s(m.m02, k),
        m10: fx_mul_s(m.m10, k), m11: fx_mul_s(m.m11, k), m12: fx_mul_s(m.m12, k),
        m20: fx_mul_s(m.m20, k), m21: fx_mul_s(m.m21, k), m22: fx_mul_s(m.m22, k),
    }
}

/// Skew-symmetric cross-product matrix of `v`.
pub open spec fn m3_skew_s(v: V3) -> M3 {
    M3 {
        m00: 0, m01: fx_neg_s(v.z), m02: v.y,
        m10: v.z, m11: 0, m12: fx_neg_s(v.x),
        m20: fx_neg_s(v.y), m21: v.x, m22: 0,
    }
}

/// Composition of rigid transforms: `(a * b) p == a (b p)` in exact arithmetic.
pub open spec fn pose_compose_s(a: Pose, b: Pose) -> Pose {
    Pose { rot: m3_mul_s(a.rot, b.rot), pos: v3_add_s(m3_apply_s(a.rot, b.pos), a.pos) }
}

pub fn v3_zero() -> (r: V3)
    ensures
        r == v3_zero_s(),
{
    V3 { x: 0, y: 0, z: 0 }
}

pub fn m3_identity() -> (r: M3)
    ensures
        r == m3_identity_s(),
{
    M3 {
        m00: FX_ONE, m01: 0, m02: 0,
        m10: 0, m11: FX_ONE, m12: 0,
        m20: 0, m21: 0, m22: FX_ONE,
    }
}

pub fn pose_identity() -> (r: Pose)
    ensures
        r == pose_identity_s(),
{
    Pose { rot: m3_identity(), pos: v3_zero() }
}

pub fn v3_add(a: V3, b: V3) -> (r: V3)
    ensures
        r == v3_add_s(a, b),
{
    V3 { x: fx_add(a.x, b.x), y: fx_add(a.y, b.y), z: fx_add(a.z, b.z) }
}

pub fn v3_sub(a: V3, b: V3) -> (r: V3)
    ensures
        r == v3_sub_s(a, b),
{
    V3 { x: fx_sub(a.x, b.x), y: fx_sub(a.y, b.y), z: fx_sub(a.z, b.z) }
}

pub fn v3_scale(a: V3, k: i64) -> (r: V3)
    ensures
        r == v3_scale_s(a, k),
{
    V3 { x: fx_mul(a.x, k), y: fx_mul(a.y, k), z: fx_mul(a.z, k) }
}

pub fn v3_dot(a: V3, b: V3) -> (r: i64)
    ensures
        r == v3_dot_s(a, b),
{
    fx_add(fx_add(fx_mul(a.x, b.x), fx_mul(a.y, b.y)), fx_mul(a.z, b.z))
}

pub fn v3_cross(a: V3, b: V3) -> (r: V3)
    ensures
        r == v3_cross_s(a, b),
{
    V3 {
        x: fx_sub(fx_mul(a.y, b.z), fx_mul(a.z, b.y)),
        y: fx_sub(fx_mul(a.z, b.x), fx_mul(a.x, b.z)),
        z: fx_sub(fx_mul(a.x, b.y), fx_mul(a.y, b.x)),
    }
}

pub fn m3_apply(m: &M3, v: V3) -> (r: V3)
    ensures
        r == m3_apply_s(*m, v),
{
    V3 {
        x: fx_add(fx_add(fx_mul(m.m00, v.x), fx_mul(m.m01, v.y)), fx_mul(m.m02, v.z)),
        y: fx_add(fx_add(fx_mul(m.m10, v.x), fx_mul(m.m11, v.y)), fx_mul(m.m12, v.z)),
        z: fx_add(fx_add(fx_mul(m.m20, v.x), fx_mul(m.m21, v.y)), fx_mul(m.m22, v.z)),
    }
}

pub fn m3_mul(a: &M3, b: &M3) -> (r: M3)
    ensures
        r == m3_mul_s(*a, *b),
{
    M3 {
        m00: fx_add(fx_add(fx_mul(a.m00, b.m00), fx_mul(a.m01, b.m10)), fx_mul(a.m02, b.m20)),
        m01: fx_add(fx_add(fx_mul(a.m00, b.m01), fx_mul(a.m01, b.m11)), fx_mul(a.m02, b.m21)),
        m02: fx_add(fx_add(fx_mul(a.m00, b.m02), fx_mul(a.m01, b.m12)), fx_mul(a.m02, b.m22)),
        m10: fx_add(fx_add(fx_mul(a.m10, b.m00), fx_mul(a.m11, b.m10)), fx_mul(a.m12, b.m20)),
        m11: fx_add(fx_add(fx_mul(a.m10, b.m01), fx_mul(a.m11, b.m11)), fx_mul(a.m12, b.m21)),
        m12: fx_add(fx_add(fx_mul(a.m10, b.m02), fx_mul(a.m11, b.m12)), fx_mul(a.m12, b.m22)),
        m20: fx_add(fx_add(fx_mul(a.m20, b.m00), fx_mul(a.m21, b.m10)), fx_mul(a.m22, b.m20)),
        m21: fx_add(fx_add(fx_mul(a.m20, b.m01), fx_mul(a.m21, b.m11)), fx_mul(a.m22, b.m21)),
        m22: fx_add(fx_add(fx_mul(a.m20, b.m02), fx_mul(a.m21, b.m12)), fx_mul(a.m22, b.m22)),
    }
}

pub fn m3_transpose(m: &M3) -> (r: M3)
    ensures
        r == m3_transpose_s(*m),
{
    M3 {
        m00: m.m00, m01: m.m10, m02: m.m20,
        m10: m.m01, m11: m.m11, m12: m.m21,
        m20: m.m02, m21: m.m12, m22: m.m22,
    }
}

pub fn m3_add(a: &M3, b: &M3) -> (r: M3)
    ensures
        r == m3_add_s(*a, *b),
{
    M3 {
        m00: fx_add(a.m00, b.m00), m01: fx_add(a.m01, b.m01), m02: fx_add(a.m02, b.m02),
        m10: fx_add(a.m10, b.m10), m11: fx_add(a.m11, b.m11), m12: fx_add(a.m12, b.m12),
        m20: fx_add(a.m20, b.m20), m21: fx_add(a.m21, b.m21), m22: fx_add(a.m22, b.m22),
    }
}

pub fn m3_scale(m: &M3, k: i64) -> (r: M3)
    ensures
        r == m3_scale_s(*m, k),
{
    M3 {
        m00: fx_mul(m.m00, k), m01: fx_mul(m.m01, k), m02: fx_mul(m.m02, k),
        m10: fx_mul(m.m10, k), m11: fx_mul(m.m11, k), m12: fx_mul(m.m12, k),
        m20: fx_mul(m.m20, k), m21: fx_mul(m.m21, k), m22: fx_mul(m.m22, k),
    }
}

pub fn m3_skew(v: V3) -> (r: M3)
    ensures
        r == m3_skew_s(v),
{
    M3 {
        m00: 0, m01: fx_neg(v.z), m02: v.y,
        m10: v.z, m11: 0, m12: fx_neg(v.x),
        m20: fx_neg(v.y), m21: v.x, m22: 0,
    }
}

pub fn pose_compose(a: &Pose, b: &Pose) -> (r: Pose)
    ensures
        r == pose_compose_s(*a, *b),
{
    Pose { rot: m3_mul(&a.rot, &b.rot), pos: v3_add(m3_apply(&a.rot, b.pos), a.pos) }
}

} // verus!

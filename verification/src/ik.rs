//! Inverse kinematics: damped iterative Jacobian (Gauss-Newton-style) pose
//! servoing along the serial path from the root to the end-effector.
//!
//! Each iteration computes the 6-dimensional pose error (translation
//! difference and the vee of the skew part of the relative rotation), the
//! geometric Jacobian over the degrees of freedom on the root-to-end-effector
//! path, and the damped least-squares step
//! `dq = J^T (J J^T + lambda^2 I)^{-1} e`, then clamps the updated
//! configuration into the joint limits. Non-convergence is not an error: the
//! solver always returns a best-effort configuration together with the final
//! residual norm.
//!
//! Every executable step is pinned to a specification mirror, so `ik`'s
//! result equals `ik_iterate_s`, a pure function of chain, initial
//! configuration, target pose, tolerance and iteration budget.

use vstd::prelude::*;
use crate::fx::{
    fx_add, fx_add_s, fx_div, fx_div_s, fx_mul, fx_mul_s, fx_sqrt, fx_sqrt_s, fx_sub, fx_sub_s,
};
use crate::geom::{
    M3, Pose, V3, m3_apply, m3_apply_s, m3_mul, m3_mul_s, m3_transpose, m3_transpose_s,
    pose_compose, pose_compose_s, v3_cross, v3_cross_s, v3_sub, v3_sub_s, v3_zero, v3_zero_s,
};
use crate::fx::{fx_divn, fx_divn_s};
use crate::kin::{Kin, KinError};
use crate::model::JointType;

verus! {

/// Squared damping factor `lambda^2` of the least-squares step, fixed point
/// (0.01, i.e. `lambda` = 0.1). The damping is chosen large enough that the
/// fixed-point rounding noise of the Jacobian and error vector, amplified by
/// `1/lambda^2` in near-singular directions, stays well below the usual
/// convergence tolerances.
pub const IK_DAMPING_SQ: i64 = 42949673;

/// A spatial (6-dimensional) vector: linear and angular part.
#[derive(Clone, Copy, PartialEq, Eq, Structural, Debug)]
pub struct Spatial {
    pub lin: V3,
    pub ang: V3,
}

/// A plain 6-vector.
#[derive(Clone, Copy, PartialEq, Eq, Structural, Debug)]
pub struct R6 {
    pub c0: i64,
    pub c1: i64,
    pub c2: i64,
    pub c3: i64,
    pub c4: i64,
    pub c5: i64,
}

/// A 6x6 matrix, stored as six rows.
#[derive(Clone, Copy, PartialEq, Eq, Structural, Debug)]
pub struct M66 {
    pub r0: R6,
    pub r1: R6,
    pub r2: R6,
    pub r3: R6,
    pub r4: R6,
    pub r5: R6,
}

pub open spec fn spatial_to_r6_s(s: Spatial) -> R6 {
    R6 { c0: s.lin.x, c1: s.lin.y, c2: s.lin.z, c3: s.ang.x, c4: s.ang.y, c5: s.ang.z }
}

pub open spec fn r6_at_s(u: R6, k: int) -> i64 {
    if k == 0 {
        u.c0
    } else if k == 1 {
        u.c1
    } else if k == 2 {
        u.c2
    } else if k == 3 {
        u.c3
    } else if k == 4 {
        u.c4
    } else {
        u.c5
    }
}

pub open spec fn m66_row_s(m: M66, k: int) -> R6 {
    if k == 0 {
        m.r0
    } else if k == 1 {
        m.r1
    } else if k == 2 {
        m.r2
    } else if k == 3 {
        m.r3
    } else if k == 4 {
        m.r4
    } else {
        m.r5
    }
}

/// `t - f * p`, component by component.
pub open spec fn r6_axpy_s(t: R6, p: R6, f: i64) -> R6 {
    R6 {
        c0: fx_sub_s(t.c0, fx_mul_s(f, p.c0)),
        c1: fx_sub_s(t.c1, fx_mul_s(f, p.c1)),
        c2: fx_sub_s(t.c2, fx_mul_s(f, p.c2)),
        c3: fx_sub_s(t.c3, fx_mul_s(f, p.c3)),
        c4: fx_sub_s(t.c4, fx_mul_s(f, p.c4)),
        c5: fx_sub_s(t.c5, fx_mul_s(f, p.c5)),
    }
}

pub open spec fn r6_scale_s(u: R6, k: i64) -> R6 {
    R6 {
        c0: fx_mul_s(u.c0, k),
        c1: fx_mul_s(u.c1, k),
        c2: fx_mul_s(u.c2, k),
        c3: fx_mul_s(u.c3, k),
        c4: fx_mul_s(u.c4, k),
        c5: fx_mul_s(u.c5, k),
    }
}

pub open spec fn r6_add_s(a: R6, b: R6) -> R6 {
    R6 {
        c0: fx_add_s(a.c0, b.c0),
        c1: fx_add_s(a.c1, b.c1),
        c2: fx_add_s(a.c2, b.c2),
        c3: fx_add_s(a.c3, b.c3),
        c4: fx_add_s(a.c4, b.c4),
        c5: fx_add_s(a.c5, b.c5),
    }
}

pub open spec fn r6_dot_s(a: R6, b: R6) -> i64 {
    fx_add_s(
        fx_add_s(
            fx_add_s(
                fx_add_s(fx_add_s(fx_mul_s(a.c0, b.c0), fx_mul_s(a.c1, b.c1)), fx_mul_s(a.c2, b.c2)),
                fx_mul_s(a.c3, b.c3),
            ),
            fx_mul_s(a.c4, b.c4),
        ),
        fx_mul_s(a.c5, b.c5),
    )
}

/// Outer product `u u^T`.
pub open spec fn outer6_s(u: R6) -> M66 {
    M66 {
        r0: r6_scale_s(u, u.c0),
        r1: r6_scale_s(u, u.c1),
        r2: r6_scale_s(u, u.c2),
        r3: r6_scale_s(u, u.c3),
        r4: r6_scale_s(u, u.c4),
        r5: r6_scale_s(u, u.c5),
    }
}

pub open spec fn m66_add_s(a: M66, b: M66) -> M66 {
    M66 {
        r0: r6_add_s(a.r0, b.r0),
        r1: r6_add_s(a.r1, b.r1),
        r2: r6_add_s(a.r2, b.r2),
        r3: r6_add_s(a.r3, b.r3),
        r4: r6_add_s(a.r4, b.r4),
        r5: r6_add_s(a.r5, b.r5),
    }
}

/// `lambda^2 I`: the damping summand of the normal matrix.
pub open spec fn damp_identity_s() -> M66 {
    M66 {
        r0: R6 { c0: IK_DAMPING_SQ, c1: 0, c2: 0, c3: 0, c4: 0, c5: 0 },
        r1: R6 { c0: 0, c1: IK_DAMPING_SQ, c2: 0, c3: 0, c4: 0, c5: 0 },
        r2: R6 { c0: 0, c1: 0, c2: IK_DAMPING_SQ, c3: 0, c4: 0, c5: 0 },
        r3: R6 { c0: 0, c1: 0, c2: 0, c3: IK_DAMPING_SQ, c4: 0, c5: 0 },
        r4: R6 { c0: 0, c1: 0, c2: 0, c3: 0, c4: IK_DAMPING_SQ, c5: 0 },
        r5: R6 { c0: 0, c1: 0, c2: 0, c3: 0, c4: 0, c5: IK_DAMPING_SQ },
    }
}

/// `J J^T + lambda^2 I` accumulated over the first `k` Jacobian columns.
pub open spec fn jjt_upto_s(cols: Seq<Spatial>, k: int) -> M66
    decreases k,
{
    if k <= 0 {
        damp_identity_s()
    } else {
        m66_add_s(jjt_upto_s(cols, k - 1), outer6_s(spatial_to_r6_s(cols[k - 1])))
    }
}

/// Eliminate column `k` from every row but the pivot row `k` (one
/// Gauss-Jordan step in fixed-point arithmetic).
#[verifier::opaque]
pub open spec fn elim_col_s(m: M66, b: R6, k: int) -> (M66, R6) {
    let pr = m66_row_s(m, k);
    let pv = r6_at_s(pr, k);
    let pb = r6_at_s(b, k);
    (
        M66 {
            r0: if k == 0 { m.r0 } else { r6_axpy_s(m.r0, pr, fx_div_s(r6_at_s(m.r0, k), pv)) },
            r1: if k == 1 { m.r1 } else { r6_axpy_s(m.r1, pr, fx_div_s(r6_at_s(m.r1, k), pv)) },
            r2: if k == 2 { m.r2 } else { r6_axpy_s(m.r2, pr, fx_div_s(r6_at_s(m.r2, k), pv)) },
            r3: if k == 3 { m.r3 } else { r6_axpy_s(m.r3, pr, fx_div_s(r6_at_s(m.r3, k), pv)) },
            r4: if k == 4 { m.r4 } else { r6_axpy_s(m.r4, pr, fx_div_s(r6_at_s(m.r4, k), pv)) },
            r5: if k == 5 { m.r5 } else { r6_axpy_s(m.r5, pr, fx_div_s(r6_at_s(m.r5, k), pv)) },
        },
        R6 {
            c0: if k == 0 { b.c0 } else {
                fx_sub_s(b.c0, fx_mul_s(fx_div_s(r6_at_s(m.r0, k), pv), pb))
            },
            c1: if k == 1 { b.c1 } else {
                fx_sub_s(b.c1, fx_mul_s(fx_div_s(r6_at_s(m.r1, k), pv), pb))
            },
            c2: if k == 2 { b.c2 } else {
                fx_sub_s(b.c2, fx_mul_s(fx_div_s(r6_at_s(m.r2, k), pv), pb))
            },
            c3: if k == 3 { b.c3 } else {
                fx_sub_s(b.c3, fx_mul_s(fx_div_s(r6_at_s(m.r3, k), pv), pb))
            },
            c4: if k == 4 { b.c4 } else {
                fx_sub_s(b.c4, fx_mul_s(fx_div_s(r6_at_s(m.r4, k), pv), pb))
            },
            c5: if k == 5 { b.c5 } else {
                fx_sub_s(b.c5, fx_mul_s(fx_div_s(r6_at_s(m.r5, k), pv), pb))
            },
        },
    )
}

/// Solve `m x = b` by Gauss-Jordan elimination without pivoting; `None` when
/// a pivot vanishes (the damped normal matrix makes that unlikely, and the
/// caller then takes no step).
#[verifier::opaque]
pub open spec fn solve6_s(m: M66, b: R6) -> Option<R6> {
    if r6_at_s(m66_row_s(m, 0), 0) == 0 {
        None
    } else {
        let s0 = elim_col_s(m, b, 0);
        if r6_at_s(m66_row_s(s0.0, 1), 1) == 0 {
            None
        } else {
            let s1 = elim_col_s(s0.0, s0.1, 1);
            if r6_at_s(m66_row_s(s1.0, 2), 2) == 0 {
                None
            } else {
                let s2 = elim_col_s(s1.0, s1.1, 2);
                if r6_at_s(m66_row_s(s2.0, 3), 3) == 0 {
                    None
                } else {
                    let s3 = elim_col_s(s2.0, s2.1, 3);
                    if r6_at_s(m66_row_s(s3.0, 4), 4) == 0 {
                        None
                    } else {
                        let s4 = elim_col_s(s3.0, s3.1, 4);
                        if r6_at_s(m66_row_s(s4.0, 5), 5) == 0 {
                            None
                        } else {
                            let s5 = elim_col_s(s4.0, s4.1, 5);
                            Some(
                                R6 {
                                    c0: fx_div_s(s5.1.c0, s5.0.r0.c0),
                                    c1: fx_div_s(s5.1.c1, s5.0.r1.c1),
                                    c2: fx_div_s(s5.1.c2, s5.0.r2.c2),
                                    c3: fx_div_s(s5.1.c3, s5.0.r3.c3),
                                    c4: fx_div_s(s5.1.c4, s5.0.r4.c4),
                                    c5: fx_div_s(s5.1.c5, s5.0.r5.c5),
                                },
                            )
                        }
                    }
                }
            }
        }
    }
}

/// The 6-dimensional pose error between target and current pose: translation
/// difference, and the vee of the skew part of `target.rot * cur.rot^T`
/// (halved), a minimal rotation-error vector.
pub open spec fn pose_error_s(target: Pose, cur: Pose) -> Spatial {
    let rel = m3_mul_s(target.rot, m3_transpose_s(cur.rot));
    Spatial {
        lin: v3_sub_s(target.pos, cur.pos),
        ang: V3 {
            x: fx_divn_s(fx_sub_s(rel.m21, rel.m12), 2),
            y: fx_divn_s(fx_sub_s(rel.m02, rel.m20), 2),
            z: fx_divn_s(fx_sub_s(rel.m10, rel.m01), 2),
        },
    }
}

/// Euclidean norm of the 6-dimensional error (fixed-point floor).
pub open spec fn err_norm_s(e: Spatial) -> i64 {
    fx_sqrt_s(
        fx_add_s(
            fx_add_s(
                fx_add_s(
                    fx_add_s(
                        fx_add_s(fx_mul_s(e.lin.x, e.lin.x), fx_mul_s(e.lin.y, e.lin.y)),
                        fx_mul_s(e.lin.z, e.lin.z),
                    ),
                    fx_mul_s(e.ang.x, e.ang.x),
                ),
                fx_mul_s(e.ang.y, e.ang.y),
            ),
            fx_mul_s(e.ang.z, e.ang.z),
        ),
    )
}

fn spatial_to_r6(s: Spatial) -> (r: R6)
    ensures
        r == spatial_to_r6_s(s),
{
    R6 { c0: s.lin.x, c1: s.lin.y, c2: s.lin.z, c3: s.ang.x, c4: s.ang.y, c5: s.ang.z }
}

fn r6_at(u: R6, k: usize) -> (r: i64)
    ensures
        r == r6_at_s(u, k as int),
{
    if k == 0 {
        u.c0
    } else if k == 1 {
        u.c1
    } else if k == 2 {
        u.c2
    } else if k == 3 {
        u.c3
    } else if k == 4 {
        u.c4
    } else {
        u.c5
    }
}

fn m66_row(m: &M66, k: usize) -> (r: R6)
    ensures
        r == m66_row_s(*m, k as int),
{
    if k == 0 {
        m.r0
    } else if k == 1 {
        m.r1
    } else if k == 2 {
        m.r2
    } else if k == 3 {
        m.r3
    } else if k == 4 {
        m.r4
    } else {
        m.r5
    }
}

fn r6_axpy(t: R6, p: R6, f: i64) -> (r: R6)
    ensures
        r == r6_axpy_s(t, p, f),
{
    R6 {
        c0: fx_sub(t.c0, fx_mul(f, p.c0)),
        c1: fx_sub(t.c1, fx_mul(f, p.c1)),
        c2: fx_sub(t.c2, fx_mul(f, p.c2)),
        c3: fx_sub(t.c3, fx_mul(f, p.c3)),
        c4: fx_sub(t.c4, fx_mul(f, p.c4)),
        c5: fx_sub(t.c5, fx_mul(f, p.c5)),
    }
}

fn r6_scale(u: R6, k: i64) -> (r: R6)
    ensures
        r == r6_scale_s(u, k),
{
    R6 {
        c0: fx_mul(u.c0, k),
        c1: fx_mul(u.c1, k),
        c2: fx_mul(u.c2, k),
        c3: fx_mul(u.c3, k),
        c4: fx_mul(u.c4, k),
        c5: fx_mul(u.c5, k),
    }
}

fn r6_add(a: R6, b: R6) -> (r: R6)
    ensures
        r == r6_add_s(a, b),
{
    R6 {
        c0: fx_add(a.c0, b.c0),
        c1: fx_add(a.c1, b.c1),
        c2: fx_add(a.c2, b.c2),
        c3: fx_add(a.c3, b.c3),
        c4: fx_add(a.c4, b.c4),
        c5: fx_add(a.c5, b.c5),
    }
}

fn r6_dot(a: R6, b: R6) -> (r: i64)
    ensures
        r == r6_dot_s(a, b),
{
    fx_add(
        fx_add(
            fx_add(
                fx_add(fx_add(fx_mul(a.c0, b.c0), fx_mul(a.c1, b.c1)), fx_mul(a.c2, b.c2)),
                fx_mul(a.c3, b.c3),
            ),
            fx_mul(a.c4, b.c4),
        ),
        fx_mul(a.c5, b.c5),
    )
}

fn outer6(u: R6) -> (r: M66)
    ensures
        r == outer6_s(u),
{
    M66 {
        r0: r6_scale(u, u.c0),
        r1: r6_scale(u, u.c1),
        r2: r6_scale(u, u.c2),
        r3: r6_scale(u, u.c3),
        r4: r6_scale(u, u.c4),
        r5: r6_scale(u, u.c5),
    }
}

fn m66_add(a: &M66, b: &M66) -> (r: M66)
    ensures
        r == m66_add_s(*a, *b),
{
    M66 {
        r0: r6_add(a.r0, b.r0),
        r1: r6_add(a.r1, b.r1),
        r2: r6_add(a.r2, b.r2),
        r3: r6_add(a.r3, b.r3),
        r4: r6_add(a.r4, b.r4),
        r5: r6_add(a.r5, b.r5),
    }
}

fn damp_identity() -> (r: M66)
    ensures
        r == damp_identity_s(),
{
    M66 {
        r0: R6 { c0: IK_DAMPING_SQ, c1: 0, c2: 0, c3: 0, c4: 0, c5: 0 },
        r1: R6 { c0: 0, c1: IK_DAMPING_SQ, c2: 0, c3: 0, c4: 0, c5: 0 },
        r2: R6 { c0: 0, c1: 0, c2: IK_DAMPING_SQ, c3: 0, c4: 0, c5: 0 },
        r3: R6 { c0: 0, c1: 0, c2: 0, c3: IK_DAMPING_SQ, c4: 0, c5: 0 },
        r4: R6 { c0: 0, c1: 0, c2: 0, c3: 0, c4: IK_DAMPING_SQ, c5: 0 },
        r5: R6 { c0: 0, c1: 0, c2: 0, c3: 0, c4: 0, c5: IK_DAMPING_SQ },
    }
}

fn elim_col(m: &M66, b: &R6, k: usize) -> (r: (M66, R6))
    ensures
        r == elim_col_s(*m, *b, k as int),
{
    proof {
        reveal(elim_col_s);
    }
    let pr = m66_row(m, k);
    let pv = r6_at(pr, k);
    let pb = r6_at(*b, k);
    let f0 = fx_div(r6_at(m.r0, k), pv);
    let f1 = fx_div(r6_at(m.r1, k), pv);
    let f2 = fx_div(r6_at(m.r2, k), pv);
    let f3 = fx_div(r6_at(m.r3, k), pv);
    let f4 = fx_div(r6_at(m.r4, k), pv);
    let f5 = fx_div(r6_at(m.r5, k), pv);
    (
        M66 {
            r0: if k == 0 { m.r0 } else { r6_axpy(m.r0, pr, f0) },
            r1: if k == 1 { m.r1 } else { r6_axpy(m.r1, pr, f1) },
            r2: if k == 2 { m.r2 } else { r6_axpy(m.r2, pr, f2) },
            r3: if k == 3 { m.r3 } else { r6_axpy(m.r3, pr, f3) },
            r4: if k == 4 { m.r4 } else { r6_axpy(m.r4, pr, f4) },
            r5: if k == 5 { m.r5 } else { r6_axpy(m.r5, pr, f5) },
        },
        R6 {
            c0: if k == 0 { b.c0 } else { fx_sub(b.c0, fx_mul(f0, pb)) },
            c1: if k == 1 { b.c1 } else { fx_sub(b.c1, fx_mul(f1, pb)) },
            c2: if k == 2 { b.c2 } else { fx_sub(b.c2, fx_mul(f2, pb)) },
            c3: if k == 3 { b.c3 } else { fx_sub(b.c3, fx_mul(f3, pb)) },
            c4: if k == 4 { b.c4 } else { fx_sub(b.c4, fx_mul(f4, pb)) },
            c5: if k == 5 { b.c5 } else { fx_sub(b.c5, fx_mul(f5, pb)) },
        },
    )
}

fn solve6(m: &M66, b: &R6) -> (r: Option<R6>)
    ensures
        r == solve6_s(*m, *b),
{
    proof {
        reveal(solve6_s);
    }
    if m.r0.c0 == 0 {
        return None;
    }
    let s0 = elim_col(m, b, 0);
    if s0.0.r1.c1 == 0 {
        return None;
    }
    let s1 = elim_col(&s0.0, &s0.1, 1);
    if s1.0.r2.c2 == 0 {
        return None;
    }
    let s2 = elim_col(&s1.0, &s1.1, 2);
    if s2.0.r3.c3 == 0 {
        return None;
    }
    let s3 = elim_col(&s2.0, &s2.1, 3);
    if s3.0.r4.c4 == 0 {
        return None;
    }
    let s4 = elim_col(&s3.0, &s3.1, 4);
    if s4.0.r5.c5 == 0 {
        return None;
    }
    let s5 = elim_col(&s4.0, &s4.1, 5);
    Some(
        R6 {
            c0: fx_div(s5.1.c0, s5.0.r0.c0),
            c1: fx_div(s5.1.c1, s5.0.r1.c1),
            c2: fx_div(s5.1.c2, s5.0.r2.c2),
            c3: fx_div(s5.1.c3, s5.0.r3.c3),
            c4: fx_div(s5.1.c4, s5.0.r4.c4),
            c5: fx_div(s5.1.c5, s5.0.r5.c5),
        },
    )
}

fn pose_error(target: &Pose, cur: &Pose) -> (r: Spatial)
    ensures
        r == pose_error_s(*target, *cur),
{
    let rel: M3 = m3_mul(&target.rot, &m3_transpose(&cur.rot));
    Spatial {
        lin: v3_sub(target.pos, cur.pos),
        ang: V3 {
            x: fx_divn(fx_sub(rel.m21, rel.m12), 2),
            y: fx_divn(fx_sub(rel.m02, rel.m20), 2),
            z: fx_divn(fx_sub(rel.m10, rel.m01), 2),
        },
    }
}

fn err_norm(e: Spatial) -> (r: i64)
    ensures
        r == err_norm_s(e),
{
    fx_sqrt(
        fx_add(
            fx_add(
                fx_add(
                    fx_add(
                        fx_add(fx_mul(e.lin.x, e.lin.x), fx_mul(e.lin.y, e.lin.y)),
                        fx_mul(e.lin.z, e.lin.z),
                    ),
                    fx_mul(e.ang.x, e.ang.x),
                ),
                fx_mul(e.ang.y, e.ang.y),
            ),
            fx_mul(e.ang.z, e.ang.z),
        ),
    )
}

fn clone_config(q: &Vec<i64>) -> (r: Vec<i64>)
    ensures
        r@ == q@,
{
    let mut out: Vec<i64> = Vec::new();
    let mut i: usize = 0;
    while i < q.len()
        invariant
            i <= q@.len(),
            out@.len() == i as int,
            forall|k: int| 0 <= k < i as int ==> out@[k] == q@[k],
        decreases q@.len() - i,
    {
        let v = q[i];
        out.push(v);
        i += 1;
    }
    proof {
        assert(out@ =~= q@);
    }
    out
}

/// Apply the first `k` entries of the step `dq` to `q` at the positions named
/// by `path`, in order.
pub open spec fn apply_step_s(q: Seq<i64>, path: Seq<usize>, dq: Seq<i64>, k: int) -> Seq<i64>
    decreases k,
{
    if k <= 0 {
        q
    } else {
        let prev = apply_step_s(q, path, dq, k - 1);
        let d = path[k - 1] as int;
        if 0 <= d < prev.len() {
            prev.update(d, fx_add_s(prev[d], dq[k - 1]))
        } else {
            prev
        }
    }
}

pub proof fn lemma_apply_step_len(q: Seq<i64>, path: Seq<usize>, dq: Seq<i64>, k: int)
    ensures
        apply_step_s(q, path, dq, k).len() == q.len(),
    decreases k,
{
    if k > 0 {
        lemma_apply_step_len(q, path, dq, k - 1);
    }
}

impl Kin {
    /// Degrees of freedom on the path from the root to link `i`, in
    /// root-to-tip order.
    pub open spec fn path_dofs_s(self, i: int) -> Seq<usize>
        decreases self.depth@[i]
            when self.wf() && 0 <= i < self.nlinks()
    {
        match self.parent_joint@[i] {
            None => Seq::empty(),
            Some(j) => {
                let rest = self.path_dofs_s(self.joints@[j as int].parent as int);
                match self.joints@[j as int].dof {
                    Some(d) => rest.push(d),
                    None => rest,
                }
            },
        }
    }

    /// Every entry of the path is a valid index into the degree-of-freedom
    /// vector.
    pub proof fn lemma_path_dofs_valid(self, i: int)
        requires
            self.wf(),
            0 <= i < self.nlinks(),
        ensures
            forall|k: int|
                0 <= k < self.path_dofs_s(i).len() ==> (#[trigger] self.path_dofs_s(i)[k] as int)
                    < self.dof_n(),
        decreases self.depth@[i],
    {
        match self.parent_joint@[i] {
            None => {},
            Some(j) => {
                let p = self.joints@[j as int].parent as int;
                self.lemma_path_dofs_valid(p);
                let rest = self.path_dofs_s(p);
                match self.joints@[j as int].dof {
                    Some(d) => {
                        assert((d as int) < self.dof_n());
                        assert(self.path_dofs_s(i) == rest.push(d));
                        assert forall|k: int| 0 <= k < rest.push(d).len() implies (#[trigger] rest.push(
                            d,
                        )[k] as int) < self.dof_n() by {
                            if k < rest.len() {
                                assert(rest.push(d)[k] == rest[k]);
                            } else {
                                assert(rest.push(d)[k] == d);
                            }
                        }
                    },
                    None => {
                        assert(self.path_dofs_s(i) == rest);
                    },
                }
            },
        }
    }

    /// The degrees of freedom on the root-to-end-effector path.
    fn path_from(&self, i: usize) -> (r: Vec<usize>)
        requires
            self.wf(),
            (i as int) < self.nlinks(),
        ensures
            r@ == self.path_dofs_s(i as int),
        decreases self.depth@[i as int],
    {
        match self.parent_joint[i] {
            None => Vec::new(),
            Some(j) => {
                let p = self.joints[j].parent;
                let mut v = self.path_from(p);
                match self.joints[j].dof {
                    Some(d) => {
                        v.push(d);
                    },
                    None => {},
                }
                v
            },
        }
    }

    /// Geometric Jacobian column of the degree of freedom `d`: for a
    /// revolute or continuous joint, `(z x (p_ee - p_j), z)`; for a
    /// prismatic joint, `(z, 0)`; with `z` the joint axis in world frame and
    /// `p_j` the joint frame's world position.
    pub open spec fn jac_col_s(self, q: Seq<i64>, d: int) -> Spatial {
        let j = self.dof_joints@[d] as int;
        let jn = self.joints@[j];
        let frame = pose_compose_s(self.link_pose_s(q, jn.parent as int), jn.origin);
        let z = m3_apply_s(frame.rot, jn.axis);
        let eep = self.link_pose_s(q, self.ee as int).pos;
        if jn.jtype == JointType::Prismatic {
            Spatial { lin: z, ang: v3_zero_s() }
        } else {
            Spatial { lin: v3_cross_s(z, v3_sub_s(eep, frame.pos)), ang: z }
        }
    }

    fn jac_col(&self, poses: &Vec<Pose>, d: usize, Ghost(q): Ghost<Seq<i64>>) -> (r: Spatial)
        requires
            self.wf(),
            (d as int) < self.dof_n(),
            poses@.len() == self.nlinks(),
            forall|k: int| 0 <= k < self.nlinks() ==> poses@[k] == self.link_pose_s(q, k),
        ensures
            r == self.jac_col_s(q, d as int),
    {
        let j = self.dof_joints[d];
        let jn = &self.joints[j];
        let frame = pose_compose(&poses[jn.parent], &jn.origin);
        let z = m3_apply(&frame.rot, jn.axis);
        let eep = poses[self.ee].pos;
        if jn.jtype == JointType::Prismatic {
            Spatial { lin: z, ang: v3_zero() }
        } else {
            Spatial { lin: v3_cross(z, v3_sub(eep, frame.pos)), ang: z }
        }
    }

    /// Residual: the norm of the pose error between the target and the
    /// end-effector pose under `q`.
    #[verifier::opaque]
    pub open spec fn residual_s(self, q: Seq<i64>, target: Pose) -> i64 {
        err_norm_s(pose_error_s(target, self.link_pose_s(q, self.ee as int)))
    }

    /// One damped least-squares update of `q` toward `target` (before
    /// clamping): `q + J^T (J J^T + lambda^2 I)^{-1} e` over the path
    /// degrees of freedom, or `q` unchanged when a pivot vanishes.
    #[verifier::opaque]
    pub open spec fn ik_step_s(self, q: Seq<i64>, target: Pose) -> Seq<i64> {
        let path = self.path_dofs_s(self.ee as int);
        let cols = Seq::new(path.len(), |k: int| self.jac_col_s(q, path[k] as int));
        let a = jjt_upto_s(cols, path.len() as int);
        let e = pose_error_s(target, self.link_pose_s(q, self.ee as int));
        let b = spatial_to_r6_s(e);
        match solve6_s(a, b) {
            None => q,
            Some(y) => {
                let dq = Seq::new(cols.len(), |k: int| r6_dot_s(spatial_to_r6_s(cols[k]), y));
                apply_step_s(q, path, dq, path.len() as int)
            },
        }
    }

    /// The solver loop as a pure function: stop when the residual is below
    /// `eps` or the budget is exhausted, else take one clamped step.
    pub open spec fn ik_iterate_s(self, q: Seq<i64>, target: Pose, eps: i64, fuel: nat) -> (
        Seq<i64>,
        i64,
    )
        decreases fuel,
    {
        let res = self.residual_s(q, target);
        if res < eps || fuel == 0 {
            (q, res)
        } else {
            self.ik_iterate_s(
                self.clamp_seq_s(self.ik_step_s(q, target)),
                target,
                eps,
                (fuel - 1) as nat,
            )
        }
    }

    /// A step never changes the configuration's length.
    pub proof fn lemma_ik_step_len(self, q: Seq<i64>, target: Pose)
        ensures
            self.ik_step_s(q, target).len() == q.len(),
    {
        reveal(Kin::ik_step_s);
        let path = self.path_dofs_s(self.ee as int);
        let cols = Seq::new(path.len(), |k: int| self.jac_col_s(q, path[k] as int));
        let a = jjt_upto_s(cols, path.len() as int);
        let e = pose_error_s(target, self.link_pose_s(q, self.ee as int));
        let b = spatial_to_r6_s(e);
        match solve6_s(a, b) {
            None => {},
            Some(y) => {
                let dq = Seq::new(cols.len(), |k: int| r6_dot_s(spatial_to_r6_s(cols[k]), y));
                lemma_apply_step_len(q, path, dq, path.len() as int);
            },
        }
    }

    /// The solver's result keeps the configuration length, stays within the
    /// limits once started there, and reports the true residual of the
    /// returned configuration.
    pub proof fn lemma_ik_iterate_props(self, q: Seq<i64>, target: Pose, eps: i64, fuel: nat)
        requires
            self.wf(),
            q.len() == self.dof_n(),
        ensures
            self.ik_iterate_s(q, target, eps, fuel).0.len() == self.dof_n(),
            self.ik_iterate_s(q, target, eps, fuel).1 == self.residual_s(
                self.ik_iterate_s(q, target, eps, fuel).0,
                target,
            ),
            self.in_limits_s(q) ==> self.in_limits_s(self.ik_iterate_s(q, target, eps, fuel).0),
        decreases fuel,
    {
        let res = self.residual_s(q, target);
        if res < eps || fuel == 0 {
        } else {
            let stepped = self.ik_step_s(q, target);
            self.lemma_ik_step_len(q, target);
            assert(stepped.len() == self.dof_n());
            let clamped = self.clamp_seq_s(stepped);
            self.lemma_clamp_idempotent(stepped);
            self.lemma_ik_iterate_props(clamped, target, eps, (fuel - 1) as nat);
        }
    }

    /// One damped least-squares update, mirroring `ik_step_s` exactly.
    #[verifier::rlimit(100)]
    fn ik_step(&self, q: &Vec<i64>, poses: &Vec<Pose>, target: &Pose, path: &Vec<usize>) -> (qn:
        Vec<i64>)
        requires
            self.wf(),
            q@.len() == self.dof_n(),
            path@ == self.path_dofs_s(self.ee as int),
            poses@.len() == self.nlinks(),
            forall|k: int| 0 <= k < self.nlinks() ==> poses@[k] == self.link_pose_s(q@, k),
        ensures
            qn@ == self.ik_step_s(q@, *target),
    {
        let e = pose_error(target, &poses[self.ee]);
        proof {
            self.lemma_path_dofs_valid(self.ee as int);
        }
        let ghost cols_s = Seq::new(path@.len(), |k: int| self.jac_col_s(q@, path@[k] as int));
        let mut cols: Vec<Spatial> = Vec::new();
        let mut k: usize = 0;
        while k < path.len()
            invariant
                k <= path@.len(),
                self.wf(),
                q@.len() == self.dof_n(),
                path@ == self.path_dofs_s(self.ee as int),
                poses@.len() == self.nlinks(),
                forall|kk: int| 0 <= kk < self.nlinks() ==> poses@[kk] == self.link_pose_s(q@, kk),
                forall|kk: int|
                    0 <= kk < path@.len() ==> (#[trigger] path@[kk] as int) < self.dof_n(),
                cols_s == Seq::new(path@.len(), |kk: int| self.jac_col_s(q@, path@[kk] as int)),
                cols@.len() == k as int,
                forall|kk: int| 0 <= kk < k as int ==> cols@[kk] == cols_s[kk],
            decreases path@.len() - k,
        {
            let c = self.jac_col(&poses, path[k], Ghost(q@));
            cols.push(c);
            k += 1;
        }
        proof {
            assert(cols@ =~= cols_s);
        }
        let mut a = damp_identity();
        let mut k2: usize = 0;
        while k2 < cols.len()
            invariant
                k2 <= cols@.len(),
                cols@ == cols_s,
                a == jjt_upto_s(cols_s, k2 as int),
            decreases cols@.len() - k2,
        {
            let u = spatial_to_r6(cols[k2]);
            a = m66_add(&a, &outer6(u));
            k2 += 1;
        }
        let b = spatial_to_r6(e);
        let mut qn = clone_config(q);
        match solve6(&a, &b) {
            None => {},
            Some(y) => {
                let ghost dq_s = Seq::new(
                    cols_s.len(),
                    |kk: int| r6_dot_s(spatial_to_r6_s(cols_s[kk]), y),
                );
                let mut k3: usize = 0;
                while k3 < cols.len()
                    invariant
                        k3 <= cols@.len(),
                        self.wf(),
                        cols@ == cols_s,
                        cols_s.len() == path@.len(),
                        path@ == self.path_dofs_s(self.ee as int),
                        forall|kk: int|
                            0 <= kk < path@.len() ==> (#[trigger] path@[kk] as int) < self.dof_n(),
                        dq_s == Seq::new(
                            cols_s.len(),
                            |kk: int| r6_dot_s(spatial_to_r6_s(cols_s[kk]), y),
                        ),
                        qn@.len() == self.dof_n(),
                        qn@ == apply_step_s(q@, path@, dq_s, k3 as int),
                    decreases cols@.len() - k3,
                {
                    let d = path[k3];
                    let dot = r6_dot(spatial_to_r6(cols[k3]), y);
                    let nv = fx_add(qn[d], dot);
                    qn.set(d, nv);
                    k3 += 1;
                }
            },
        }
        proof {
            reveal(Kin::ik_step_s);
            assert(qn@ == self.ik_step_s(q@, *target));
        }
        qn
    }

    /// One iteration plus recursion, mirroring `ik_iterate_s` exactly.
    fn ik_iterate(&self, q: Vec<i64>, target: &Pose, eps: i64, fuel: usize, path: &Vec<usize>) -> (r:
        (Vec<i64>, i64))
        requires
            self.wf(),
            q@.len() == self.dof_n(),
            path@ == self.path_dofs_s(self.ee as int),
        ensures
            (r.0@, r.1) == self.ik_iterate_s(q@, *target, eps, fuel as nat),
        decreases fuel,
    {
        let poses = self.compute_poses(&q);
        let e = pose_error(target, &poses[self.ee]);
        let res = err_norm(e);
        proof {
            reveal(Kin::residual_s);
            assert(res == self.residual_s(q@, *target));
        }
        if res < eps || fuel == 0 {
            return (q, res);
        }
        let mut qn = self.ik_step(&q, &poses, target, path);
        proof {
            self.lemma_ik_step_len(q@, *target);
        }
        self.clamp(&mut qn);
        self.ik_iterate(qn, target, eps, fuel - 1, path)
    }

    /// Solve for a configuration whose end-effector pose approaches
    /// `target`, starting from `q0`, with at most `max_iter` damped-Jacobian
    /// iterations and convergence tolerance `eps` on the residual norm.
    ///
    /// A chain without movable joints on the root-to-end-effector path fails
    /// fast with `StructureError`; a `q0` of the wrong length fails with
    /// `DimensionError`. Otherwise the call always returns a best-effort
    /// configuration within the joint limits, together with the residual of
    /// exactly that configuration; non-convergence is visible only in the
    /// residual's magnitude.
    pub fn ik(&self, q0: &Vec<i64>, target: &Pose, max_iter: usize, eps: i64) -> (r: Result<
        (Vec<i64>, i64),
        KinError,
    >)
        requires
            self.wf(),
        ensures
            r is Ok <==> (self.dof_n() > 0 && self.path_dofs_s(self.ee as int).len() > 0
                && q0@.len() == self.dof_n()),
            (r matches Err(e) && e == KinError::StructureError) <==> (self.dof_n() == 0
                || self.path_dofs_s(self.ee as int).len() == 0),
            (r matches Err(e) && e == KinError::DimensionError) <==> (self.dof_n() > 0
                && self.path_dofs_s(self.ee as int).len() > 0 && q0@.len() != self.dof_n()),
            match r {
                Ok(p) => {
                    &&& q0@.len() == self.dof_n()
                    &&& (p.0@, p.1) == self.ik_iterate_s(
                        self.clamp_seq_s(q0@),
                        *target,
                        eps,
                        max_iter as nat,
                    )
                    &&& self.in_limits_s(p.0@)
                    &&& p.1 == self.residual_s(p.0@, *target)
                },
                Err(_) => true,
            },
    {
        let path = self.path_from(self.ee);
        if self.dof_joints.len() == 0 || path.len() == 0 {
            return Err(KinError::StructureError);
        }
        if q0.len() != self.dof_joints.len() {
            return Err(KinError::DimensionError);
        }
        let mut q = clone_config(q0);
        self.clamp(&mut q);
        proof {
            self.lemma_ik_iterate_props(q@, *target, eps, max_iter as nat);
        }
        let (qf, res) = self.ik_iterate(q, target, eps, max_iter, &path);
        Ok((qf, res))
    }
}

} // verus!

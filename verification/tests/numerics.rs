use armkin::fx::{fx_add, fx_clamp, fx_div, fx_mul, fx_sqrt, FX_HALF_PI, FX_ONE, FX_PI, FX_TWO_PI};
use armkin::geom::{m3_apply, m3_identity, v3_cross, V3};
use armkin::trig::{fx_cos, fx_sin, rot_axis_angle};

fn fx(v: f64) -> i64 {
    (v * 4294967296.0).round() as i64
}

fn to_f(v: i64) -> f64 {
    v as f64 / 4294967296.0
}

#[test]
fn fixed_point_products_and_quotients() {
    assert_eq!(fx_mul(fx(1.5), fx(2.0)), fx(3.0));
    assert_eq!(fx_mul(fx(-1.5), fx(2.0)), fx(-3.0));
    assert_eq!(fx_div(fx(3.0), fx(2.0)), fx(1.5));
    assert_eq!(fx_div(fx(1.0), 0), 0);
    assert_eq!(fx_add(i64::MAX, i64::MAX), i64::MAX);
}

#[test]
fn fixed_point_clamp() {
    assert_eq!(fx_clamp(5, 1, 3), 3);
    assert_eq!(fx_clamp(-5, 1, 3), 1);
    assert_eq!(fx_clamp(2, 1, 3), 2);
}

#[test]
fn square_root_is_exact_on_squares() {
    assert_eq!(fx_sqrt(4 * FX_ONE), 2 * FX_ONE);
    assert_eq!(fx_sqrt(FX_ONE), FX_ONE);
    assert_eq!(fx_sqrt(0), 0);
    assert_eq!(fx_sqrt(-5), 0);
    assert!((to_f(fx_sqrt(fx(2.0))) - 1.41421356).abs() < 1e-6);
}

#[test]
fn sine_and_cosine_values() {
    assert!((to_f(fx_sin(0)) - 0.0).abs() < 1e-6);
    assert!((to_f(fx_sin(FX_HALF_PI)) - 1.0).abs() < 1e-6);
    assert!((to_f(fx_sin(FX_PI)) - 0.0).abs() < 1e-6);
    assert!((to_f(fx_cos(0)) - 1.0).abs() < 1e-6);
    assert!((to_f(fx_cos(FX_PI)) + 1.0).abs() < 1e-6);
    assert!((to_f(fx_sin(fx(0.5))) - 0.4794255386).abs() < 1e-6);
    assert!((to_f(fx_cos(fx(0.5))) - 0.8775825619).abs() < 1e-6);
    // Negative angles and wrap-around.
    assert!((to_f(fx_sin(-FX_HALF_PI)) + 1.0).abs() < 1e-6);
    assert!((to_f(fx_sin(FX_TWO_PI + FX_HALF_PI)) - 1.0).abs() < 1e-6);
}

#[test]
fn rotation_about_z_rotates_x_to_y() {
    let z = V3 { x: 0, y: 0, z: FX_ONE };
    let r = rot_axis_angle(z, FX_HALF_PI);
    let v = m3_apply(&r, V3 { x: FX_ONE, y: 0, z: 0 });
    assert!(to_f(v.x).abs() < 1e-6);
    assert!((to_f(v.y) - 1.0).abs() < 1e-6);
    assert_eq!(v.z, 0);
}

#[test]
fn identity_leaves_vectors_alone() {
    let v = V3 { x: fx(0.25), y: fx(-3.5), z: fx(7.0) };
    assert_eq!(m3_apply(&m3_identity(), v), v);
}

#[test]
fn cross_product_of_axes() {
    let x = V3 { x: FX_ONE, y: 0, z: 0 };
    let y = V3 { x: 0, y: FX_ONE, z: 0 };
    let z = v3_cross(x, y);
    assert_eq!(z, V3 { x: 0, y: 0, z: FX_ONE });
}

//! Exact values of the fixed-point scalar operations.

use pathtrace::fixed::{Fx, FX_SCALE};
use pathtrace::trig;
use pathtrace::vec3::Three;

fn fxi(v: i64) -> Fx {
    Fx::from_int(v)
}

#[test]
fn mul_of_whole_units_is_exact() {
    assert_eq!(fxi(6).mul(fxi(7)).raw, 42 * FX_SCALE);
    assert_eq!(fxi(-6).mul(fxi(7)).raw, -42 * FX_SCALE);
    assert_eq!(fxi(0).mul(fxi(7)).raw, 0);
}

#[test]
fn mul_truncates_toward_zero() {
    // 0.5 * 0.5 = 0.25 exactly.
    assert_eq!(Fx::from_raw(32768).mul(Fx::from_raw(32768)).raw, 16384);
    // (1/65536) * (1/65536) truncates to zero, also for the negative case.
    assert_eq!(Fx::from_raw(1).mul(Fx::from_raw(1)).raw, 0);
    assert_eq!(Fx::from_raw(-1).mul(Fx::from_raw(1)).raw, 0);
}

#[test]
fn div_truncates_toward_zero() {
    // 1 / 3 = 0.333... rounds down to 21845 raw units.
    assert_eq!(fxi(1).div(fxi(3)).raw, 21845);
    assert_eq!(fxi(-1).div(fxi(3)).raw, -21845);
    // -7 / 2 = -3.5 is representable exactly.
    assert_eq!(fxi(-7).div(fxi(2)).raw, -229376);
}

#[test]
fn sqrt_of_perfect_squares_is_exact() {
    assert_eq!(fxi(4).sqrt().raw, 2 * FX_SCALE);
    assert_eq!(fxi(25).sqrt().raw, 5 * FX_SCALE);
    assert_eq!(fxi(0).sqrt().raw, 0);
    // sqrt(2) = 1.41421... rounds down.
    let r = fxi(2).sqrt().raw;
    assert!(r * r <= 2 * FX_SCALE * FX_SCALE);
    assert!((r + 1) * (r + 1) > 2 * FX_SCALE * FX_SCALE);
}

#[test]
fn min_max_abs() {
    assert_eq!(fxi(3).min(fxi(-4)).raw, -4 * FX_SCALE);
    assert_eq!(fxi(3).max(fxi(-4)).raw, 3 * FX_SCALE);
    assert_eq!(fxi(-4).abs().raw, 4 * FX_SCALE);
}

#[test]
fn sine_of_known_angles() {
    // sin(0) = 0 exactly.
    assert_eq!(trig::sin(Fx::from_raw(0)).raw, 0);
    // sin(30 degrees) = 1/2 exactly under Bhaskara's approximation.
    assert_eq!(trig::sin(Fx::from_raw(34315)).raw, 32768);
    // sin(pi/2) is within one raw unit of one.
    let s = trig::sin(Fx::from_raw(102944)).raw;
    assert!((FX_SCALE - s).abs() <= 1);
    // The sine is odd, up to one raw unit of reduction rounding.
    assert!((trig::sin(Fx::from_raw(-34315)).raw + 32768).abs() <= 1);
}

#[test]
fn cosine_and_tangent() {
    let c = trig::cos(Fx::from_raw(0)).raw;
    assert!((FX_SCALE - c).abs() <= 1);
    // tan(45 degrees) is close to one.
    let t = trig::tan(Fx::from_raw(51472)).unwrap().raw;
    assert!((t - FX_SCALE).abs() < 400);
}

#[test]
fn vector_dot_cross_length() {
    let a = Three::new(fxi(1), fxi(2), fxi(3));
    let b = Three::new(fxi(4), fxi(5), fxi(6));
    assert_eq!(a.dot(&b).raw, 32 * FX_SCALE);
    let c = a.cross(&b);
    assert_eq!(c.x.raw, -3 * FX_SCALE);
    assert_eq!(c.y.raw, 6 * FX_SCALE);
    assert_eq!(c.z.raw, -3 * FX_SCALE);
    let v = Three::new(fxi(3), fxi(4), fxi(0));
    assert_eq!(v.length().raw, 5 * FX_SCALE);
    assert_eq!(v.length_squared().raw, 25 * FX_SCALE);
}

#[test]
fn vector_normalized() {
    let v = Three::new(fxi(3), fxi(4), fxi(0));
    let n = v.normalized();
    // 3/5 = 0.6 and 4/5 = 0.8, truncated toward zero.
    assert_eq!(n.x.raw, 39321);
    assert_eq!(n.y.raw, 52428);
    assert_eq!(n.z.raw, 0);
}

#[test]
fn vector_min_max_between_fill() {
    let a = Three::new(fxi(1), fxi(5), fxi(3));
    let b = Three::new(fxi(2), fxi(4), fxi(3));
    let lo = a.min(&b);
    let hi = a.max(&b);
    assert_eq!((lo.x.raw, lo.y.raw, lo.z.raw), (FX_SCALE, 4 * FX_SCALE, 3 * FX_SCALE));
    assert_eq!((hi.x.raw, hi.y.raw, hi.z.raw), (2 * FX_SCALE, 5 * FX_SCALE, 3 * FX_SCALE));
    assert!(a.between(&lo, &hi));
    assert!(!Three::new(fxi(0), fxi(4), fxi(3)).between(&lo, &hi));
    let mut f = a;
    f.fill(fxi(9));
    assert_eq!((f.x.raw, f.y.raw, f.z.raw), (9 * FX_SCALE, 9 * FX_SCALE, 9 * FX_SCALE));
}

#[test]
fn rotate_quarter_turn() {
    let v = Three::new(fxi(1), fxi(0), fxi(0));
    let z_axis = Three::new(fxi(0), fxi(0), fxi(1));
    let r = v.rotate(&z_axis, fxi(90));
    // The rotation follows the stored convention (v cross axis), which
    // sends x to negative y for a positive quarter turn about z.
    assert!(r.x.raw.abs() < 400);
    assert!((r.y.raw + FX_SCALE).abs() < 400);
    assert_eq!(r.z.raw, 0);
}

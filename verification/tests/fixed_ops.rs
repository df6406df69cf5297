//! Exact-value tests for the fixed-point scalar type.

use raytracer::fixed::{Fx, FX_MAX, FX_MIN, FX_SCALE};

#[test]
fn from_int_and_raw_round_trip() {
    assert_eq!(Fx::from_int(3).raw(), 3 * FX_SCALE);
    assert_eq!(Fx::from_int(-7).raw(), -7 * FX_SCALE);
    assert_eq!(Fx::from_raw(12345).raw(), 12345);
    assert_eq!(Fx::zero().raw(), 0);
    assert_eq!(Fx::one().raw(), FX_SCALE);
}

#[test]
fn add_sub_neg_exact() {
    let a = Fx::from_int(5);
    let b = Fx::from_int(3);
    assert_eq!(a.add(b).raw(), 8 * FX_SCALE);
    assert_eq!(a.sub(b).raw(), 2 * FX_SCALE);
    assert_eq!(b.sub(a).raw(), -2 * FX_SCALE);
    assert_eq!(a.neg().raw(), -5 * FX_SCALE);
    assert_eq!(Fx::from_int(-4).abs().raw(), 4 * FX_SCALE);
}

#[test]
fn mul_exact_and_truncating() {
    assert_eq!(Fx::from_int(3).mul(Fx::from_int(4)).raw(), 12 * FX_SCALE);
    assert_eq!(Fx::from_int(-3).mul(Fx::from_int(4)).raw(), -12 * FX_SCALE);
    // 0.5 * 0.5 = 0.25 exactly.
    assert_eq!(Fx::from_raw(32768).mul(Fx::from_raw(32768)).raw(), 16384);
    // Truncation rounds toward zero on both signs.
    let third = Fx::one().div(Fx::from_int(3));
    assert_eq!(third.raw(), 21845);
    let neg_third = Fx::from_int(-1).div(Fx::from_int(3));
    assert_eq!(neg_third.raw(), -21845);
}

#[test]
fn div_exact() {
    assert_eq!(Fx::from_int(12).div(Fx::from_int(4)).raw(), 3 * FX_SCALE);
    assert_eq!(Fx::from_int(12).div(Fx::from_int(-4)).raw(), -3 * FX_SCALE);
    assert_eq!(Fx::from_int(-12).div(Fx::from_int(-4)).raw(), 3 * FX_SCALE);
}

#[test]
fn saturation_at_the_bounds() {
    assert_eq!(Fx::from_raw(FX_MAX).add(Fx::one()).raw(), FX_MAX);
    assert_eq!(Fx::from_raw(FX_MIN).sub(Fx::one()).raw(), FX_MIN);
    assert_eq!(Fx::from_raw(FX_MAX).mul(Fx::from_int(2)).raw(), FX_MAX);
    assert_eq!(Fx::from_raw(FX_MIN).mul(Fx::from_int(2)).raw(), FX_MIN);
    assert_eq!(Fx::from_raw(i64::MIN).raw(), FX_MIN);
}

#[test]
fn sqrt_exact_values() {
    assert_eq!(Fx::zero().sqrt().raw(), 0);
    assert_eq!(Fx::one().sqrt().raw(), FX_SCALE);
    assert_eq!(Fx::from_int(4).sqrt().raw(), 2 * FX_SCALE);
    // 0.25 has the exact square root 0.5.
    assert_eq!(Fx::from_raw(16384).sqrt().raw(), 32768);
    // sqrt(2) truncates to 92681 raw units.
    assert_eq!(Fx::from_int(2).sqrt().raw(), 92681);
}

#[test]
fn trunc_rounds_toward_zero() {
    assert_eq!(Fx::from_raw(3 * FX_SCALE + 40000).trunc(), 3);
    assert_eq!(Fx::from_raw(-(3 * FX_SCALE + 40000)).trunc(), -3);
    assert_eq!(Fx::from_raw(-1).trunc(), 0);
}

#[test]
fn comparisons_and_min_max() {
    let a = Fx::from_int(1);
    let b = Fx::from_int(2);
    assert!(a.lt(b));
    assert!(!b.lt(a));
    assert!(a.le(a));
    assert_eq!(a.min(b), a);
    assert_eq!(a.max(b), b);
}

//! Exact-value tests for the vector algebra and its sampling helpers.

use raytracer::fixed::{Fx, FX_SCALE};
use raytracer::vec3::Vec3;

fn v(x: i32, y: i32, z: i32) -> Vec3 {
    Vec3::new(Fx::from_int(x), Fx::from_int(y), Fx::from_int(z))
}

#[test]
fn accessors_and_componentwise_ops() {
    let a = v(1, 2, 3);
    let b = v(4, 5, 6);
    assert_eq!(a.x().raw(), FX_SCALE);
    assert_eq!(a.y().raw(), 2 * FX_SCALE);
    assert_eq!(a.z().raw(), 3 * FX_SCALE);
    let s = a.add(b);
    assert_eq!((s.x().raw(), s.y().raw(), s.z().raw()), (5 * FX_SCALE, 7 * FX_SCALE, 9 * FX_SCALE));
    let d = b.sub(a);
    assert_eq!((d.x().raw(), d.y().raw(), d.z().raw()), (3 * FX_SCALE, 3 * FX_SCALE, 3 * FX_SCALE));
    let n = a.neg();
    assert_eq!(n.x().raw(), -FX_SCALE);
    let m = a.mul(b);
    assert_eq!(m.y().raw(), 10 * FX_SCALE);
    let h = a.scale(Fx::from_raw(32768));
    assert_eq!(h.z().raw(), 3 * FX_SCALE / 2);
}

#[test]
fn dot_cross_and_lengths() {
    let a = v(1, 2, 3);
    let b = v(4, 5, 6);
    assert_eq!(Vec3::dot(&a, &b).raw(), 32 * FX_SCALE);
    let c = Vec3::cross(&a, &b);
    assert_eq!(
        (c.x().raw(), c.y().raw(), c.z().raw()),
        (-3 * FX_SCALE, 6 * FX_SCALE, -3 * FX_SCALE)
    );
    assert_eq!(v(3, 4, 0).length_squared().raw(), 25 * FX_SCALE);
    assert_eq!(v(3, 4, 0).length().raw(), 5 * FX_SCALE);
}

#[test]
fn unit_vector_of_a_pythagorean_vector() {
    let u = Vec3::unit_vector(v(3, 4, 0));
    // 0.6 and 0.8 truncate to 39321 and 52428 raw units.
    assert_eq!(u.x().raw(), 39321);
    assert_eq!(u.y().raw(), 52428);
    assert_eq!(u.z().raw(), 0);
}

#[test]
fn near_zero_is_exact_at_this_resolution() {
    assert!(Vec3::zero().near_zero());
    assert!(!Vec3::new(Fx::from_raw(1), Fx::zero(), Fx::zero()).near_zero());
}

#[test]
fn reflect_about_an_axis() {
    let r = Vec3::reflect(v(1, -1, 0), v(0, 1, 0));
    assert_eq!((r.x().raw(), r.y().raw(), r.z().raw()), (FX_SCALE, FX_SCALE, 0));
}

#[test]
fn refract_at_normal_incidence_continues_straight() {
    let uv = v(0, 0, -1);
    let n = v(0, 0, 1);
    let r = Vec3::refract(&uv, &n, Fx::one());
    assert_eq!((r.x().raw(), r.y().raw(), r.z().raw()), (0, 0, -FX_SCALE));
}

#[test]
fn refract_clamps_the_parallel_component_at_grazing_incidence() {
    // With the perpendicular component already longer than one, the clamped
    // parallel magnitude is zero: the result is the scaled perpendicular
    // part alone, with no component along the normal.
    let uv = v(1, 0, 0);
    let n = v(0, 0, 1);
    let r = Vec3::refract(&uv, &n, Fx::from_int(2));
    assert_eq!((r.x().raw(), r.y().raw(), r.z().raw()), (2 * FX_SCALE, 0, 0));
}

#[test]
fn random_vectors_stay_in_their_ranges() {
    for _ in 0..200 {
        let p = Vec3::random();
        assert!(0 <= p.x().raw() && p.x().raw() < FX_SCALE);
        assert!(0 <= p.y().raw() && p.y().raw() < FX_SCALE);
        assert!(0 <= p.z().raw() && p.z().raw() < FX_SCALE);
        let q = Vec3::random_r(Fx::from_int(-1), Fx::from_int(1));
        assert!(-FX_SCALE <= q.x().raw() && q.x().raw() < FX_SCALE);
        assert!(-FX_SCALE <= q.y().raw() && q.y().raw() < FX_SCALE);
        assert!(-FX_SCALE <= q.z().raw() && q.z().raw() < FX_SCALE);
    }
}

#[test]
fn random_unit_sphere_points_are_interior_and_nonzero() {
    for _ in 0..200 {
        let p = Vec3::random_in_unit_sphere();
        let ls = p.length_squared().raw();
        assert!(0 < ls && ls < FX_SCALE);
    }
}

#[test]
fn random_unit_vectors_have_unit_length_within_tolerance() {
    for _ in 0..200 {
        let u = Vec3::random_unit_vector();
        let ls = u.length_squared().raw();
        // The contract's tolerance window: within about 0.1% of one.
        assert!(65500 <= ls && ls <= 65600, "length squared {} out of tolerance", ls);
    }
}

#[test]
fn random_disk_points_are_planar_and_interior() {
    for _ in 0..200 {
        let p = Vec3::random_in_unit_disk();
        assert_eq!(p.z().raw(), 0);
        assert!(p.length_squared().raw() < FX_SCALE);
    }
}

#[test]
fn into_color_preserves_components() {
    let c = v(1, 2, 3).into_color();
    assert_eq!(c.0.y().raw(), 2 * FX_SCALE);
}

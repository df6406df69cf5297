//! Scatter-contract tests for the three materials.

use raytracer::color::Color;
use raytracer::fixed::{Fx, FX_SCALE};
use raytracer::hittable::HitRecord;
use raytracer::material::{Dielectric, Lambertian, Metal};
use raytracer::ray::Ray;
use raytracer::vec3::Vec3;

fn v(x: i32, y: i32, z: i32) -> Vec3 {
    Vec3::new(Fx::from_int(x), Fx::from_int(y), Fx::from_int(z))
}

fn gray() -> Color {
    Color::new(Fx::from_raw(32768), Fx::from_raw(32768), Fx::from_raw(32768))
}

fn record_at(p: Vec3, normal: Vec3, front_face: bool) -> HitRecord {
    let mut rec = HitRecord::default();
    rec.p = p;
    rec.normal = normal;
    rec.front_face = front_face;
    rec
}

#[test]
fn lambertian_attenuation_is_exactly_the_albedo() {
    let mat = Lambertian::new(gray());
    let rec = record_at(v(0, 0, -1), v(0, 0, 1), true);
    let r_in = Ray::new(v(0, 0, 0), v(0, 0, -1));
    for _ in 0..50 {
        let (attenuation, scattered) = mat.scatter(&r_in, &rec).unwrap();
        assert_eq!(attenuation.0.x().raw(), 32768);
        assert_eq!(attenuation.0.y().raw(), 32768);
        assert_eq!(attenuation.0.z().raw(), 32768);
        // The scattered ray always leaves the hit point.
        assert_eq!(scattered.origin().z().raw(), -FX_SCALE);
        assert_eq!(scattered.origin().x().raw(), 0);
    }
}

#[test]
fn lambertian_degenerate_sum_falls_back_to_the_normal() {
    let mat = Lambertian::new(gray());
    let rec = record_at(v(0, 0, -1), v(0, 1, 0), true);
    let opposite = v(0, -1, 0);
    let (_, scattered) = mat.scatter_with(&rec, opposite);
    assert_eq!(scattered.direction().y().raw(), FX_SCALE);
    assert_eq!(scattered.direction().x().raw(), 0);
    assert_eq!(scattered.direction().z().raw(), 0);
}

#[test]
fn metal_reflects_exactly_with_zero_fuzz() {
    let mat = Metal::new(gray(), Fx::zero());
    let rec = record_at(v(0, 0, -1), v(0, 1, 0), true);
    let r_in = Ray::new(v(-1, 1, -1), v(1, -1, 0));
    let (attenuation, scattered) = mat.scatter(&r_in, &rec).unwrap();
    assert_eq!(attenuation.0.x().raw(), 32768);
    // reflect(unit(1,-1,0), (0,1,0)) has a positive y component.
    assert!(scattered.direction().y().raw() > 0);
    assert_eq!(scattered.origin().y().raw(), 0);
}

#[test]
fn metal_absorbs_when_the_scatter_points_inward() {
    // Straight-down incidence reflects straight up; a fuzz of one with a
    // sample pointing straight down cancels it, so the dot product with the
    // normal is zero and the ray must be absorbed.
    let mat = Metal::new(gray(), Fx::one());
    let rec = record_at(v(0, 0, 0), v(0, 1, 0), true);
    let r_in = Ray::new(v(0, 1, 0), v(0, -1, 0));
    let res = mat.scatter_with(&r_in, &rec, v(0, -1, 0));
    assert!(res.is_none());
}

#[test]
fn metal_fuzz_spreads_the_reflections() {
    // With zero fuzz every scatter of the same incident ray reflects to
    // exactly the same direction; with full fuzz the directions vary.
    let rec = record_at(v(0, 0, 0), v(0, 1, 0), true);
    let r_in = Ray::new(v(0, 1, 0), v(1, -1, 0));
    let sharp = Metal::new(gray(), Fx::zero());
    let first = sharp.scatter(&r_in, &rec).unwrap().1;
    for _ in 0..20 {
        let next = sharp.scatter(&r_in, &rec).unwrap().1;
        assert_eq!(next.direction().x().raw(), first.direction().x().raw());
        assert_eq!(next.direction().y().raw(), first.direction().y().raw());
        assert_eq!(next.direction().z().raw(), first.direction().z().raw());
    }
    let fuzzy = Metal::new(gray(), Fx::one());
    let mut varied = false;
    let mut prev: Option<(i64, i64, i64)> = None;
    for _ in 0..200 {
        if let Some((_, s)) = fuzzy.scatter(&r_in, &rec) {
            let d = (s.direction().x().raw(), s.direction().y().raw(), s.direction().z().raw());
            if let Some(p) = prev {
                if p != d {
                    varied = true;
                }
            }
            prev = Some(d);
        }
    }
    assert!(varied);
}

#[test]
fn metal_fuzz_is_clamped_at_construction() {
    assert_eq!(Metal::new(gray(), Fx::from_int(5)).fuzz.raw(), FX_SCALE);
    assert_eq!(Metal::new(gray(), Fx::from_int(-5)).fuzz.raw(), 0);
    assert_eq!(Metal::new(gray(), Fx::from_raw(100)).fuzz.raw(), 100);
}

#[test]
fn dielectric_always_scatters_with_white_attenuation() {
    let mat = Dielectric::new(Fx::from_raw(98304));  // 1.5
    let rec = record_at(v(0, 0, -1), v(0, 0, 1), true);
    let r_in = Ray::new(v(0, 0, 0), v(0, 0, -1));
    for _ in 0..50 {
        let (attenuation, scattered) = mat.scatter(&r_in, &rec).unwrap();
        assert_eq!(attenuation.0.x().raw(), FX_SCALE);
        assert_eq!(attenuation.0.y().raw(), FX_SCALE);
        assert_eq!(attenuation.0.z().raw(), FX_SCALE);
        assert_eq!(scattered.origin().z().raw(), -FX_SCALE);
    }
}

#[test]
fn dielectric_refracts_straight_through_at_normal_incidence() {
    // At normal incidence entering glass, total internal reflection is
    // impossible; with a draw of one (never below the reflectance) the ray
    // refracts, and a head-on refraction continues straight.
    let mat = Dielectric::new(Fx::from_raw(98304));  // 1.5
    let rec = record_at(v(0, 0, -1), v(0, 0, 1), true);
    let r_in = Ray::new(v(0, 0, 0), v(0, 0, -1));
    let (_, scattered) = mat.scatter_with(&r_in, &rec, Fx::one());
    assert_eq!(scattered.direction().x().raw(), 0);
    assert_eq!(scattered.direction().y().raw(), 0);
    assert_eq!(scattered.direction().z().raw(), -FX_SCALE);
}

#[test]
fn dielectric_reflects_when_the_draw_is_below_the_reflectance() {
    // A draw of zero is below any positive reflectance, forcing reflection:
    // head-on, the ray bounces straight back.
    let mat = Dielectric::new(Fx::from_raw(98304));
    let rec = record_at(v(0, 0, -1), v(0, 0, 1), true);
    let r_in = Ray::new(v(0, 0, 0), v(0, 0, -1));
    let (_, scattered) = mat.scatter_with(&r_in, &rec, Fx::zero());
    assert_eq!(scattered.direction().z().raw(), FX_SCALE);
}

#[test]
fn schlick_reflectance_exact_value() {
    // With an index of 3, the base reflectance is ((1-3)/(1+3))^2 = 0.25, and
    // at normal incidence the angular term vanishes.
    let r = Dielectric::reflectance(Fx::one(), Fx::from_int(3));
    assert_eq!(r.raw(), 16384);
}

//! Interval, sphere-intersection and nearest-hit tests.

use raytracer::color::Color;
use raytracer::fixed::{Fx, FX_SCALE};
use raytracer::hittable::HitRecord;
use raytracer::hittable_list::HittableList;
use raytracer::interval::Interval;
use raytracer::material::{Dielectric, Lambertian, Material};
use raytracer::ray::Ray;
use raytracer::sphere::Sphere;
use raytracer::vec3::Vec3;

fn v(x: i32, y: i32, z: i32) -> Vec3 {
    Vec3::new(Fx::from_int(x), Fx::from_int(y), Fx::from_int(z))
}

fn eps() -> Fx {
    Fx::from_raw(66)
}

#[test]
fn surrounds_is_strict() {
    let iv = Interval::new(Fx::zero(), Fx::one());
    assert!(!iv.surrounds(Fx::zero()));
    assert!(!iv.surrounds(Fx::one()));
    assert!(iv.surrounds(Fx::from_raw(32768)));
    // An inverted interval surrounds nothing.
    let inv = Interval::new(Fx::one(), Fx::zero());
    assert!(!inv.surrounds(Fx::from_raw(32768)));
}

#[test]
fn clamp_saturates_to_the_bounds() {
    let iv = Interval::new(Fx::zero(), Fx::one());
    assert_eq!(iv.clamp(Fx::from_int(-3)).raw(), 0);
    assert_eq!(iv.clamp(Fx::from_int(3)).raw(), FX_SCALE);
    assert_eq!(iv.clamp(Fx::from_raw(100)).raw(), 100);
}

#[test]
fn sphere_hit_takes_the_smaller_analytic_root() {
    // Ray from the origin toward -z; unit sphere at (0,0,-2). The roots are
    // t = 1 and t = 3, all arithmetic exact in this representation.
    let sphere = Sphere::new(v(0, 0, -2), Fx::one(), None);
    let ray = Ray::new(v(0, 0, 0), v(0, 0, -1));
    let rec = sphere.hit(&ray, Interval::new(eps(), Fx::from_int(100))).unwrap();
    assert_eq!(rec.t.raw(), FX_SCALE);
    assert_eq!(rec.p.z().raw(), -FX_SCALE);
    assert!(rec.front_face);
    assert_eq!(rec.normal.z().raw(), FX_SCALE);
}

#[test]
fn sphere_hit_falls_back_to_the_larger_root() {
    // The same geometry, but the window starts past the first root.
    let sphere = Sphere::new(v(0, 0, -2), Fx::one(), None);
    let ray = Ray::new(v(0, 0, 0), v(0, 0, -1));
    let rec = sphere.hit(&ray, Interval::new(Fx::from_int(2), Fx::from_int(100))).unwrap();
    assert_eq!(rec.t.raw(), 3 * FX_SCALE);
    // Leaving through the far side strikes the back face: the normal is
    // flipped to oppose the ray.
    assert!(!rec.front_face);
    assert_eq!(rec.normal.z().raw(), FX_SCALE);
}

#[test]
fn sphere_miss_when_no_root_is_in_the_window() {
    let sphere = Sphere::new(v(0, 0, -2), Fx::one(), None);
    let ray = Ray::new(v(0, 0, 0), v(0, 0, -1));
    assert!(sphere.hit(&ray, Interval::new(Fx::from_int(4), Fx::from_int(100))).is_none());
    assert!(sphere.hit(&ray, Interval::new(eps(), Fx::from_raw(32768))).is_none());
}

#[test]
fn sphere_miss_on_negative_discriminant() {
    let sphere = Sphere::new(v(5, 0, 0), Fx::one(), None);
    let ray = Ray::new(v(0, 0, 0), v(0, 0, -1));
    assert!(sphere.hit(&ray, Interval::new(eps(), Fx::from_int(100))).is_none());
}

#[test]
fn hit_normal_opposes_the_incident_ray() {
    let sphere = Sphere::new(v(0, 0, -2), Fx::one(), None);
    let ray = Ray::new(v(0, 0, 0), v(0, 0, -1));
    // Front hit and back hit both produce a normal with a non-positive dot
    // product against the ray direction.
    let front = sphere.hit(&ray, Interval::new(eps(), Fx::from_int(100))).unwrap();
    assert!(Vec3::dot(&ray.direction(), &front.normal).raw() <= 0);
    let back = sphere.hit(&ray, Interval::new(Fx::from_int(2), Fx::from_int(100))).unwrap();
    assert!(Vec3::dot(&ray.direction(), &back.normal).raw() <= 0);
}

#[test]
fn set_face_normal_flips_on_back_faces() {
    let ray = Ray::new(v(0, 0, 0), v(0, 0, -1));
    let mut rec = HitRecord::default();
    rec.set_face_normal(&ray, &v(0, 0, -1));
    assert!(!rec.front_face);
    assert_eq!(rec.normal.z().raw(), FX_SCALE);
    rec.set_face_normal(&ray, &v(0, 0, 1));
    assert!(rec.front_face);
    assert_eq!(rec.normal.z().raw(), FX_SCALE);
}

#[test]
fn scene_scan_finds_the_nearest_hit_regardless_of_order() {
    let near = Sphere::new(v(0, 0, -2), Fx::from_raw(32768), None);
    let far = Sphere::new(v(0, 0, -5), Fx::from_raw(32768), None);
    let ray = Ray::new(v(0, 0, 0), v(0, 0, -1));
    let window = Interval::new(eps(), Fx::from_int(100));

    let mut world = HittableList::new();
    world.add(far);
    world.add(near);
    let rec = world.hit(&ray, window).unwrap();
    assert_eq!(rec.t.raw(), 3 * FX_SCALE / 2);

    let mut world2 = HittableList::new();
    world2.add(near);
    world2.add(far);
    let rec2 = world2.hit(&ray, window).unwrap();
    assert_eq!(rec2.t.raw(), 3 * FX_SCALE / 2);
}

#[test]
fn equal_distance_ties_go_to_the_first_surface() {
    // Two coincident spheres carrying different materials hit at exactly the
    // same parameter; the record must come from the one added first.
    let half = Fx::from_raw(32768);
    let first = Material::Lambertian(Lambertian::new(Color::new(half, half, half)));
    let second = Material::Dielectric(Dielectric::new(Fx::from_raw(98304)));
    let center = v(0, 0, -2);
    let ray = Ray::new(v(0, 0, 0), v(0, 0, -1));
    let window = Interval::new(eps(), Fx::from_int(100));

    let mut world = HittableList::new();
    world.add(Sphere::new(center, Fx::one(), Some(first)));
    world.add(Sphere::new(center, Fx::one(), Some(second)));
    let rec = world.hit(&ray, window).unwrap();
    assert_eq!(rec.t.raw(), FX_SCALE);
    assert!(matches!(rec.mat, Some(Material::Lambertian(_))));
}

#[test]
fn empty_scene_reports_no_hit() {
    let world = HittableList::new();
    let ray = Ray::new(v(0, 0, 0), v(0, 0, -1));
    assert!(world.hit(&ray, Interval::new(eps(), Fx::from_int(100))).is_none());
}

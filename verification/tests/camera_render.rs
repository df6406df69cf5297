//! Integrator and full-render tests, including the two-sphere reference
//! scene.

use raytracer::camera::Camera;
use raytracer::color::Color;
use raytracer::fixed::{Fx, FX_SCALE};
use raytracer::hittable_list::HittableList;
use raytracer::material::{Lambertian, Material};
use raytracer::ray::Ray;
use raytracer::sphere::Sphere;
use raytracer::vec3::Vec3;

fn v(x: i32, y: i32, z: i32) -> Vec3 {
    Vec3::new(Fx::from_int(x), Fx::from_int(y), Fx::from_int(z))
}

fn gray() -> Material {
    let half = Fx::from_raw(32768);
    Material::Lambertian(Lambertian::new(Color::new(half, half, half)))
}

#[test]
fn trace_with_zero_depth_is_exactly_black() {
    let mut world = HittableList::new();
    world.add(Sphere::new(v(0, 0, -2), Fx::one(), Some(gray())));
    let ray = Ray::new(v(0, 0, 0), v(0, 0, -1));
    let c = Camera::ray_color(&ray, 0, &world);
    assert_eq!((c.0.x().raw(), c.0.y().raw(), c.0.z().raw()), (0, 0, 0));
    let c2 = Camera::ray_color(&ray, -3, &world);
    assert_eq!((c2.0.x().raw(), c2.0.y().raw(), c2.0.z().raw()), (0, 0, 0));
}

#[test]
fn trace_of_a_miss_is_the_sky_gradient() {
    // A ray pointing straight up blends all the way to the sky color
    // (0.5, 0.7, 1.0).
    let world = HittableList::new();
    let up = Ray::new(v(0, 0, 0), v(0, 1, 0));
    let c = Camera::ray_color(&up, 5, &world);
    assert_eq!((c.0.x().raw(), c.0.y().raw(), c.0.z().raw()), (32768, 45875, FX_SCALE));
    // A ray pointing straight down blends all the way to white.
    let down = Ray::new(v(0, 0, 0), v(0, -1, 0));
    let w = Camera::ray_color(&down, 5, &world);
    assert_eq!((w.0.x().raw(), w.0.y().raw(), w.0.z().raw()), (FX_SCALE, FX_SCALE, FX_SCALE));
}

#[test]
fn trace_stays_within_the_linear_range() {
    let mut world = HittableList::new();
    world.add(Sphere::new(v(0, 0, -2), Fx::one(), Some(gray())));
    for _ in 0..50 {
        let ray = Ray::new(v(0, 0, 0), v(0, 0, -1));
        let c = Camera::ray_color(&ray, 10, &world);
        for raw in [c.0.x().raw(), c.0.y().raw(), c.0.z().raw()] {
            assert!(0 <= raw && raw <= FX_SCALE);
        }
    }
}

#[test]
fn default_camera_configuration() {
    let cam = Camera::default();
    assert_eq!(cam.aspect_ratio.raw(), FX_SCALE);
    assert_eq!(cam.image_width, 100);
    assert_eq!(cam.samples_per_pixel, 10);
    assert_eq!(cam.max_depth, 10);
    assert_eq!(cam.vfov.raw(), 90 * FX_SCALE);
    assert_eq!(cam.defocus_angle.raw(), 0);
    assert_eq!(cam.focus_dist.raw(), 10 * FX_SCALE);
    assert_eq!(cam.lookfrom.z().raw(), -FX_SCALE);
    assert_eq!(cam.vup.y().raw(), FX_SCALE);
}

#[test]
fn pinhole_rays_start_at_the_eye() {
    let mut cam = Camera::default();
    cam.lookfrom = v(0, 0, 0);
    cam.lookat = v(0, 0, -1);
    cam.initialize();
    let ray = cam.get_ray_with(50, 50, Fx::zero(), Fx::zero(), Vec3::zero());
    assert_eq!(ray.origin().x().raw(), 0);
    assert_eq!(ray.origin().y().raw(), 0);
    assert_eq!(ray.origin().z().raw(), 0);
    // The camera looks toward -z.
    assert!(ray.direction().z().raw() < 0);
}

#[test]
fn reinitializing_with_the_same_configuration_is_idempotent() {
    let mut cam = Camera::default();
    cam.lookfrom = v(0, 0, 0);
    cam.lookat = v(0, 0, -1);
    cam.initialize();
    let once = cam;
    cam.initialize();
    assert_eq!(cam.image_height, once.image_height);
    for (a, b) in [
        (cam.center, once.center),
        (cam.pixel_delta_u, once.pixel_delta_u),
        (cam.pixel_delta_v, once.pixel_delta_v),
        (cam.pixel00_loc, once.pixel00_loc),
        (cam.u, once.u),
        (cam.v, once.v),
        (cam.w, once.w),
        (cam.defocus_disk_u, once.defocus_disk_u),
        (cam.defocus_disk_v, once.defocus_disk_v),
    ] {
        assert_eq!(a.x().raw(), b.x().raw());
        assert_eq!(a.y().raw(), b.y().raw());
        assert_eq!(a.z().raw(), b.z().raw());
    }
}

#[test]
fn render_reference_scene_dimensions_header_and_pixels() {
    // The two-sphere reference scene: a ground sphere of radius 100 at
    // (0,-100.5,-1) and a small sphere of radius 0.5 at (0,0,-1), seen by a
    // pinhole camera at the origin with a 16:9 aspect ratio, 400 columns.
    let mut world = HittableList::new();
    world.add(Sphere::new(
        Vec3::new(Fx::zero(), Fx::from_raw(-6586368), Fx::from_int(-1)),  // y = -100.5
        Fx::from_int(100),
        Some(gray()),
    ));
    world.add(Sphere::new(v(0, 0, -1), Fx::from_raw(32768), Some(gray())));

    let mut cam = Camera::default();
    cam.aspect_ratio = Fx::from_int(16).div(Fx::from_int(9));
    cam.image_width = 400;
    cam.samples_per_pixel = 1;
    cam.max_depth = 8;
    cam.vfov = Fx::from_int(90);
    cam.lookfrom = v(0, 0, 0);
    cam.lookat = v(0, 0, -1);
    cam.vup = v(0, 1, 0);
    cam.defocus_angle = Fx::zero();
    cam.focus_dist = Fx::one();

    let img = cam.render(&world);
    assert_eq!(img.width, 400);
    assert_eq!(img.height, 225);
    assert_eq!(img.pixels.len(), 400 * 225);

    let header = format!("P3\n{} {}\n255\n", img.width, img.height);
    assert_eq!(header, "P3\n400 225\n255\n");

    // The top pixel of the center column sees only sky: a blue-white blend
    // whose blue channel is saturated.
    let top_center = img.pixels[200];
    assert_eq!(top_center.b, 255);
    assert!(top_center.r < 250);
    assert!(top_center.r <= top_center.g && top_center.g <= top_center.b);

    // The pixel at the image center sees the small sphere: after one diffuse
    // bounce at albedo 0.5 no channel can stay at the sky's brightness.
    let center = img.pixels[112 * 400 + 200];
    assert!(center.b < 255);
    assert!(center.r <= 200 && center.g <= 200 && center.b <= 200);
}

#[test]
fn render_one_pixel_image() {
    let world = HittableList::new();
    let mut cam = Camera::default();
    cam.aspect_ratio = Fx::one();
    cam.image_width = 1;
    cam.samples_per_pixel = 2;
    cam.max_depth = 3;
    cam.lookfrom = v(0, 0, 0);
    cam.lookat = v(0, 0, -1);
    let img = cam.render(&world);
    assert_eq!(img.width, 1);
    assert_eq!(img.height, 1);
    assert_eq!(img.pixels.len(), 1);
}

//! The camera: viewport geometry, per-pixel sampling, the shading integrator,
//! and the render loop that produces the final 8-bit image.

use vstd::prelude::*;

use crate::color::{channel_spec, color01, lemma_color01_mul, Color, Pixel};
use crate::fixed::{
    fx_add, fx_div, fx_mul, fx_sub, lemma_fx_mul_le_right, lemma_fx_mul_one, quot_to_zero, Fx,
    FX_MAX, FX_SCALE,
};
use crate::hittable_list::HittableList;
use crate::interval::{iv_clamp, Interval};
use crate::material::material_ok;
use crate::ray::{Ray, RayV};
use crate::rtweekend::{deg_to_rad, degrees_to_radians, random_double, tan_fx, tan_series};
use crate::sphere::{hit_record_matches, sphere_hit_of, Sphere};
use crate::vec3::{
    v3_add, v3_cross, v3_div_scalar, v3_len_sq, v3_mul, v3_neg, v3_scale, v3_sub, v3_unit, Point3,
    Vec3, V3,
};

verus! {

/// One half, in raw units.
pub const HALF_RAW: i64 = 32768;

/// The green channel of the sky's horizon-to-zenith blend color (`0.7`).
pub const SKY_GREEN_RAW: i64 = 45875;

/// The lower bound of every shading intersection window (`~0.001`), guarding
/// against spurious self-intersection at a bounce origin.
pub const SHADOW_ACNE_RAW: i64 = 66;

/// Opaque white.
pub open spec fn white_v3() -> V3 {
    V3 { x: FX_SCALE as int, y: FX_SCALE as int, z: FX_SCALE as int }
}

/// Black: the color of an exhausted or absorbed ray.
pub open spec fn black_v3() -> V3 {
    V3 { x: 0, y: 0, z: 0 }
}

/// The sky's zenith blend color `(0.5, 0.7, 1.0)`.
pub open spec fn sky_blue_v3() -> V3 {
    V3 { x: HALF_RAW as int, y: SKY_GREEN_RAW as int, z: FX_SCALE as int }
}

/// The background gradient: blend white and sky blue by the normalized
/// direction's height. The blend factor is clamped into `[0, 1]`, since a
/// fixed-point normalization can leave a component slightly outside `[-1, 1]`.
pub open spec fn sky_color(unit_y: int) -> V3 {
    let a = iv_clamp(0, FX_SCALE as int, fx_mul(HALF_RAW as int, fx_add(unit_y, FX_SCALE as int)));
    v3_add(v3_scale(white_v3(), fx_sub(FX_SCALE as int, a)), v3_scale(sky_blue_v3(), a))
}

/// The sky gradient is an in-range color for every direction.
pub proof fn lemma_sky01(unit_y: int)
    ensures
        color01(sky_color(unit_y)),
{
    let a = iv_clamp(0, FX_SCALE as int, fx_mul(HALF_RAW as int, fx_add(unit_y, FX_SCALE as int)));
    lemma_fx_mul_le_right(fx_sub(FX_SCALE as int, a), FX_SCALE as int);
    lemma_fx_mul_le_right(a, FX_SCALE as int);
    assert(fx_mul(white_v3().x, fx_sub(FX_SCALE as int, a)) <= fx_sub(FX_SCALE as int, a)) by {
        lemma_fx_mul_le_right(fx_sub(FX_SCALE as int, a), FX_SCALE as int);
        crate::fixed::lemma_fx_mul_one(fx_sub(FX_SCALE as int, a));
    }
    assert(fx_mul(sky_blue_v3().x, a) <= a && fx_mul(sky_blue_v3().y, a) <= a && fx_mul(
        sky_blue_v3().z,
        a,
    ) <= a) by {
        lemma_fx_mul_le_right(HALF_RAW as int, a);
        lemma_fx_mul_le_right(SKY_GREEN_RAW as int, a);
        lemma_fx_mul_le_right(FX_SCALE as int, a);
    }
    assert(fx_mul(white_v3().y, fx_sub(FX_SCALE as int, a)) <= fx_sub(FX_SCALE as int, a)
        && fx_mul(white_v3().z, fx_sub(FX_SCALE as int, a)) <= fx_sub(FX_SCALE as int, a)) by {
        crate::fixed::lemma_fx_mul_one(fx_sub(FX_SCALE as int, a));
    }
    assert(0 <= fx_mul(white_v3().x, fx_sub(FX_SCALE as int, a))) by {
        lemma_fx_mul_le_right(FX_SCALE as int, fx_sub(FX_SCALE as int, a));
    }
    assert(0 <= fx_mul(sky_blue_v3().x, a) && 0 <= fx_mul(sky_blue_v3().y, a) && 0 <= fx_mul(
        sky_blue_v3().z,
        a,
    )) by {
        lemma_fx_mul_le_right(HALF_RAW as int, a);
        lemma_fx_mul_le_right(SKY_GREEN_RAW as int, a);
        lemma_fx_mul_le_right(FX_SCALE as int, a);
    }
}

/// The derived image height: the width over the aspect ratio, truncated, and
/// at least one row.
pub open spec fn cam_image_height(c: Camera) -> int {
    let q = quot_to_zero(
        fx_div(c.image_width as int * FX_SCALE as int, c.aspect_ratio@),
        FX_SCALE as int,
    );
    if q < 1 {
        1
    } else {
        q
    }
}

/// The camera basis vector pointing from the target back at the eye.
pub open spec fn cam_w(c: Camera) -> V3 {
    v3_unit(v3_sub(c.lookfrom@, c.lookat@))
}

/// The camera basis vector pointing right.
pub open spec fn cam_u(c: Camera) -> V3 {
    v3_unit(v3_cross(c.vup@, cam_w(c)))
}

/// The camera basis vector pointing up.
pub open spec fn cam_v(c: Camera) -> V3 {
    v3_cross(cam_w(c), cam_u(c))
}

/// The viewport height: twice the tangent of half the vertical field of view,
/// at focus distance.
pub open spec fn cam_viewport_height(c: Camera) -> int {
    let theta = deg_to_rad(c.vfov@);
    let h = tan_series(fx_div(theta, 2 * FX_SCALE as int));
    fx_mul(fx_mul(2 * FX_SCALE as int, h), c.focus_dist@)
}

/// The viewport width: the height scaled by the realized aspect ratio.
pub open spec fn cam_viewport_width(c: Camera) -> int {
    fx_mul(
        cam_viewport_height(c),
        fx_div(c.image_width as int * FX_SCALE as int, cam_image_height(c) * FX_SCALE as int),
    )
}

/// The viewport's horizontal edge vector.
pub open spec fn cam_viewport_u(c: Camera) -> V3 {
    v3_scale(cam_u(c), cam_viewport_width(c))
}

/// The viewport's vertical edge vector, pointing down so rows advance
/// top-to-bottom.
pub open spec fn cam_viewport_v(c: Camera) -> V3 {
    v3_scale(v3_neg(cam_v(c)), cam_viewport_height(c))
}

/// The world-space step from one pixel column to the next.
pub open spec fn cam_pixel_delta_u(c: Camera) -> V3 {
    v3_div_scalar(cam_viewport_u(c), c.image_width as int * FX_SCALE as int)
}

/// The world-space step from one pixel row to the next.
pub open spec fn cam_pixel_delta_v(c: Camera) -> V3 {
    v3_div_scalar(cam_viewport_v(c), cam_image_height(c) * FX_SCALE as int)
}

/// The center of the top-left pixel.
pub open spec fn cam_pixel00(c: Camera) -> V3 {
    let upper_left = v3_sub(
        v3_sub(
            v3_sub(c.lookfrom@, v3_scale(cam_w(c), c.focus_dist@)),
            v3_div_scalar(cam_viewport_u(c), 2 * FX_SCALE as int),
        ),
        v3_div_scalar(cam_viewport_v(c), 2 * FX_SCALE as int),
    );
    v3_add(
        upper_left,
        v3_scale(v3_add(cam_pixel_delta_u(c), cam_pixel_delta_v(c)), HALF_RAW as int),
    )
}

/// The defocus disk's radius at focus distance.
pub open spec fn cam_defocus_radius(c: Camera) -> int {
    fx_mul(
        c.focus_dist@,
        tan_series(deg_to_rad(fx_div(c.defocus_angle@, 2 * FX_SCALE as int))),
    )
}

/// The defocus disk's horizontal basis vector.
pub open spec fn cam_defocus_disk_u(c: Camera) -> V3 {
    v3_scale(cam_u(c), cam_defocus_radius(c))
}

/// The defocus disk's vertical basis vector.
pub open spec fn cam_defocus_disk_v(c: Camera) -> V3 {
    v3_scale(cam_v(c), cam_defocus_radius(c))
}

/// The camera's configuration is usable: positive aspect ratio, at least one
/// pixel column, a representable derived height, a view direction, and an up
/// vector not parallel to it.
pub open spec fn cam_config_ok(c: Camera) -> bool {
    &&& c.aspect_ratio@ > 0
    &&& c.image_width >= 1
    &&& cam_image_height(c) <= i32::MAX as int
    &&& v3_len_sq(v3_sub(c.lookfrom@, c.lookat@)) > 0
    &&& v3_len_sq(v3_cross(c.vup@, cam_w(c))) > 0
}

/// The ray cast for pixel `(i, j)` given the pixel-square jitter `(px, py)`
/// and the defocus-disk sample `disk`: from the eye (or a point on the
/// defocus disk) through the jittered pixel center.
pub open spec fn get_ray_spec(cam: Camera, i: int, j: int, px: int, py: int, disk: V3) -> RayV {
    let pixel_center = v3_add(
        v3_add(cam.pixel00_loc@, v3_scale(cam.pixel_delta_u@, i * FX_SCALE as int)),
        v3_scale(cam.pixel_delta_v@, j * FX_SCALE as int),
    );
    let pixel_sample = v3_add(
        pixel_center,
        v3_add(v3_scale(cam.pixel_delta_u@, px), v3_scale(cam.pixel_delta_v@, py)),
    );
    let origin = if cam.defocus_angle@ <= 0 {
        cam.center@
    } else {
        v3_add(
            v3_add(cam.center@, v3_scale(cam.defocus_disk_u@, disk.x)),
            v3_scale(cam.defocus_disk_v@, disk.y),
        )
    };
    RayV { orig: origin, dir: v3_sub(pixel_sample, origin) }
}

/// One emitted pixel is the averaged, gamma-corrected, quantized encoding of
/// an accumulated per-pixel sample sum `c`.
pub open spec fn pixel_from_sum(p: Pixel, c: V3, samples: int) -> bool {
    &&& p.r as int == channel_spec(c.x, samples)
    &&& p.g as int == channel_spec(c.y, samples)
    &&& p.b as int == channel_spec(c.z, samples)
}

/// The channels of a sum of `n` in-range sample colors lie in `[0, n]`.
pub open spec fn sample_sum_bounded(c: V3, n: int) -> bool {
    &&& 0 <= c.x <= n * FX_SCALE as int
    &&& 0 <= c.y <= n * FX_SCALE as int
    &&& 0 <= c.z <= n * FX_SCALE as int
}

/// The ray misses every surface of the scene over the shading window
/// `(SHADOW_ACNE_RAW, FX_MAX)`.
pub open spec fn scene_misses(objs: Seq<Sphere>, r: RayV) -> bool {
    forall|n: int|
        0 <= n < objs.len() ==> sphere_hit_of(
            #[trigger] objs[n],
            r,
            SHADOW_ACNE_RAW as int,
            FX_MAX as int,
        ) is None
}

/// Everything the integrator guarantees of one traced color `c` for the ray
/// `r` with bounce budget `depth`: an exhausted budget yields exactly black;
/// the color is in range; every outcome is black or the sky gradient filtered
/// by an in-range attenuation product; and a ray that misses the whole scene
/// yields exactly the sky gradient.
pub open spec fn trace_outcome(objs: Seq<Sphere>, r: RayV, depth: int, c: V3) -> bool {
    &&& depth <= 0 ==> c == black_v3()
    &&& color01(c)
    &&& (c == black_v3() || exists|f: V3, y: int|
        color01(f) && c == #[trigger] v3_mul(f, sky_color(y)))
    &&& (depth > 0 && v3_len_sq(r.dir) > 0 && scene_misses(objs, r)) ==> c == sky_color(
        v3_unit(r.dir).y,
    )
}

/// `r` is a ray the camera may cast for pixel `(i, j)`: through the pixel
/// square under some admissible jitter, from the eye or some point of the
/// defocus disk.
pub open spec fn pixel_ray_admissible(cam: Camera, i: int, j: int, r: RayV) -> bool {
    exists|px: int, py: int, d: V3|
        #![auto]
        -(HALF_RAW as int) <= px < HALF_RAW as int && -(HALF_RAW as int) <= py < HALF_RAW as int
            && v3_len_sq(d) < FX_SCALE as int && d.z == 0 && r == get_ray_spec(cam, i, j, px, py, d)
}

/// `c` is a color that tracing one admissible ray of pixel `(i, j)` can
/// produce.
pub open spec fn pixel_sample_color(cam: Camera, objs: Seq<Sphere>, i: int, j: int, c: V3) -> bool {
    exists|r: RayV|
        #![auto]
        pixel_ray_admissible(cam, i, j, r) && trace_outcome(objs, r, cam.max_depth as int, c)
}

/// The saturating component-wise sum of a sequence of sample colors, in
/// accumulation order.
pub open spec fn sample_seq_sum(s: Seq<V3>) -> V3
    decreases s.len(),
{
    if s.len() == 0 {
        black_v3()
    } else {
        v3_add(sample_seq_sum(s.drop_last()), s.last())
    }
}

/// The pixel is the averaged, gamma-corrected, quantized encoding of the sum
/// of `samples_per_pixel` colors, each a possible trace outcome of an
/// admissible ray of pixel `(i, j)` itself.
pub open spec fn pixel_from_own_samples(
    cam: Camera,
    objs: Seq<Sphere>,
    i: int,
    j: int,
    p: Pixel,
) -> bool {
    exists|samples: Seq<V3>|
        #![auto]
        samples.len() == cam.samples_per_pixel as int && (forall|n: int|
            0 <= n < samples.len() ==> pixel_sample_color(cam, objs, i, j, #[trigger] samples[n]))
            && sample_sum_bounded(sample_seq_sum(samples), cam.samples_per_pixel as int)
            && pixel_from_sum(p, sample_seq_sum(samples), cam.samples_per_pixel as int)
}

/// `c2` is `c` with its derived state computed: the configuration is
/// unchanged and every derived field equals its spec-level value, which pins
/// `c2` completely.
pub open spec fn is_initialized_from(c2: Camera, c: Camera) -> bool {
    &&& c2.aspect_ratio == c.aspect_ratio
    &&& c2.image_width == c.image_width
    &&& c2.samples_per_pixel == c.samples_per_pixel
    &&& c2.max_depth == c.max_depth
    &&& c2.vfov == c.vfov
    &&& c2.lookfrom == c.lookfrom
    &&& c2.lookat == c.lookat
    &&& c2.vup == c.vup
    &&& c2.defocus_angle == c.defocus_angle
    &&& c2.focus_dist == c.focus_dist
    &&& c2.image_height as int == cam_image_height(c)
    &&& c2.center@ == c.lookfrom@
    &&& c2.w@ == cam_w(c)
    &&& c2.u@ == cam_u(c)
    &&& c2.v@ == cam_v(c)
    &&& c2.pixel_delta_u@ == cam_pixel_delta_u(c)
    &&& c2.pixel_delta_v@ == cam_pixel_delta_v(c)
    &&& c2.pixel00_loc@ == cam_pixel00(c)
    &&& c2.defocus_disk_u@ == cam_defocus_disk_u(c)
    &&& c2.defocus_disk_v@ == cam_defocus_disk_v(c)
}

/// A rendered image: row-major 8-bit pixels, top-to-bottom, left-to-right.
pub struct Image {
    /// Pixel columns.
    pub width: i32,
    /// Pixel rows.
    pub height: i32,
    /// The pixels, `width * height` of them in row-major order.
    pub pixels: Vec<Pixel>,
}

/// A camera: configuration plus the state derived from it by
/// [`Camera::initialize`].
#[derive(Clone, Copy, Debug)]
pub struct Camera {
    /// Target width-over-height ratio.
    pub aspect_ratio: Fx,
    /// Pixel columns of the output image.
    pub image_width: i32,
    /// Rays averaged per pixel.
    pub samples_per_pixel: i32,
    /// Bounce budget per ray.
    pub max_depth: i32,
    /// Vertical field of view, in degrees.
    pub vfov: Fx,
    /// Eye position.
    pub lookfrom: Point3,
    /// Point the camera looks at.
    pub lookat: Point3,
    /// The camera's up direction.
    pub vup: Vec3,
    /// Aperture angle in degrees; zero renders a pinhole camera.
    pub defocus_angle: Fx,
    /// Distance at which the image is sharpest.
    pub focus_dist: Fx,
    /// Derived: pixel rows of the output image.
    pub image_height: i32,
    /// Derived: the eye position rays start from.
    pub center: Point3,
    /// Derived: step between pixel columns.
    pub pixel_delta_u: Vec3,
    /// Derived: step between pixel rows.
    pub pixel_delta_v: Vec3,
    /// Derived: center of the top-left pixel.
    pub pixel00_loc: Point3,
    /// Derived: right basis vector.
    pub u: Vec3,
    /// Derived: up basis vector.
    pub v: Vec3,
    /// Derived: backward basis vector.
    pub w: Vec3,
    /// Derived: defocus disk horizontal basis.
    pub defocus_disk_u: Vec3,
    /// Derived: defocus disk vertical basis.
    pub defocus_disk_v: Vec3,
}

impl Camera {
    /// A camera with default settings: a square pinhole camera at `(0,0,-1)`
    /// looking at the origin.
    pub fn default() -> (c: Camera)
        ensures
            c.aspect_ratio@ == FX_SCALE as int,
            c.image_width == 100,
            c.samples_per_pixel == 10,
            c.max_depth == 10,
            c.vfov@ == 90 * FX_SCALE as int,
            c.defocus_angle@ == 0,
            c.focus_dist@ == 10 * FX_SCALE as int,
            c.lookfrom@ == (V3 { x: 0, y: 0, z: -(FX_SCALE as int) }),
            c.lookat@ == (V3 { x: 0, y: 0, z: 0 }),
            c.vup@ == (V3 { x: 0, y: FX_SCALE as int, z: 0 }),
    {
        Camera {
            aspect_ratio: Fx::one(),
            image_width: 100,
            samples_per_pixel: 10,
            max_depth: 10,
            vfov: Fx::from_int(90),
            defocus_angle: Fx::zero(),
            focus_dist: Fx::from_int(10),
            lookfrom: Vec3::new(Fx::zero(), Fx::zero(), Fx::from_int(-1)),
            lookat: Vec3::zero(),
            vup: Vec3::new(Fx::zero(), Fx::one(), Fx::zero()),
            image_height: 10,
            center: Vec3::zero(),
            pixel_delta_u: Vec3::zero(),
            pixel_delta_v: Vec3::zero(),
            pixel00_loc: Vec3::zero(),
            u: Vec3::zero(),
            v: Vec3::zero(),
            w: Vec3::zero(),
            defocus_disk_u: Vec3::zero(),
            defocus_disk_v: Vec3::zero(),
        }
    }

    /// Computes all derived state from the configuration. Re-initializing
    /// with the same configuration is idempotent, since every derived field
    /// is a function of the configuration alone.
    pub fn initialize(&mut self)
        requires
            cam_config_ok(*old(self)),
        ensures
            is_initialized_from(*final(self), *old(self)),
    {
        let two = Fx::from_int(2);
        let wfx = Fx::from_int(self.image_width);
        let ih64 = wfx.div(self.aspect_ratio).trunc();
        self.image_height = if ih64 < 1 {
            1
        } else {
            ih64 as i32
        };

        self.center = self.lookfrom;

        let theta = degrees_to_radians(self.vfov);
        let h = tan_fx(theta.div(two));
        let viewport_height = two.mul(h).mul(self.focus_dist);
        let viewport_width = viewport_height.mul(wfx.div(Fx::from_int(self.image_height)));

        self.w = Vec3::unit_vector(self.lookfrom.sub(self.lookat));
        self.u = Vec3::unit_vector(Vec3::cross(&self.vup, &self.w));
        self.v = Vec3::cross(&self.w, &self.u);

        let viewport_u = self.u.scale(viewport_width);
        let viewport_v = self.v.neg().scale(viewport_height);

        self.pixel_delta_u = viewport_u.div_scalar(wfx);
        self.pixel_delta_v = viewport_v.div_scalar(Fx::from_int(self.image_height));

        let viewport_upper_left = self.center.sub(self.w.scale(self.focus_dist)).sub(
            viewport_u.div_scalar(two),
        ).sub(viewport_v.div_scalar(two));
        self.pixel00_loc = viewport_upper_left.add(
            self.pixel_delta_u.add(self.pixel_delta_v).scale(Fx::from_raw(HALF_RAW)),
        );

        let defocus_radius = self.focus_dist.mul(
            tan_fx(degrees_to_radians(self.defocus_angle.div(two))),
        );
        self.defocus_disk_u = self.u.scale(defocus_radius);
        self.defocus_disk_v = self.v.scale(defocus_radius);
    }

    /// The ray for pixel `(i, j)` with explicit jitter and defocus samples.
    pub fn get_ray_with(&self, i: i32, j: i32, px: Fx, py: Fx, disk: Vec3) -> (r: Ray)
        ensures
            r@ == get_ray_spec(*self, i as int, j as int, px@, py@, disk@),
    {
        let pixel_center = self.pixel00_loc.add(self.pixel_delta_u.scale(Fx::from_int(i))).add(
            self.pixel_delta_v.scale(Fx::from_int(j)),
        );
        let pixel_sample = pixel_center.add(
            self.pixel_delta_u.scale(px).add(self.pixel_delta_v.scale(py)),
        );

        let ray_origin = if self.defocus_angle.le(Fx::zero()) {
            self.center
        } else {
            self.center.add(self.defocus_disk_u.scale(disk.x())).add(
                self.defocus_disk_v.scale(disk.y()),
            )
        };
        let ray_direction = pixel_sample.sub(ray_origin);

        Ray::new(ray_origin, ray_direction)
    }

    /// The ray for pixel `(i, j)`: jittered uniformly within the pixel square
    /// for antialiasing, and, with a positive defocus angle, originating from
    /// a random point on the defocus disk.
    pub fn get_ray(&self, i: i32, j: i32) -> (r: Ray)
        ensures
            pixel_ray_admissible(*self, i as int, j as int, r@),
    {
        let half = Fx::from_raw(HALF_RAW);
        let px = random_double().sub(half);
        let py = random_double().sub(half);
        let disk = if self.defocus_angle.le(Fx::zero()) {
            Vec3::zero()
        } else {
            Vec3::random_in_unit_disk()
        };
        proof {
            if self.defocus_angle@ <= 0 {
                assert(v3_len_sq(disk@) == 0) by {
                    assert(fx_mul(0, 0) == 0);
                }
            }
        }
        let r = self.get_ray_with(i, j, px, py, disk);
        proof {
            assert(-(HALF_RAW as int) <= px@ < HALF_RAW as int && -(HALF_RAW as int) <= py@
                < HALF_RAW as int && v3_len_sq(disk@) < FX_SCALE as int && disk@.z == 0 && r@
                == get_ray_spec(*self, i as int, j as int, px@, py@, disk@));
        }
        r
    }

    /// Traces a ray through the scene: an iterative bounce loop accumulating
    /// the attenuation product, terminating on absorption, on a miss (the sky
    /// gradient, the scene's only light), or when the bounce budget runs out
    /// (black). A zero-length direction, which only degenerate scatter could
    /// produce, also terminates as black. With `depth <= 0` the result is
    /// exactly black; if the incoming ray itself misses every surface, the
    /// result is exactly the sky gradient; and every outcome — absorption,
    /// depth exhaustion, or an escape to the sky — is either black or the sky
    /// gradient filtered by the accumulated in-range attenuation product, so
    /// in particular an in-range color.
    pub fn ray_color(r: &Ray, depth: i32, world: &HittableList) -> (res: Color)
        requires
            world.wf(),
        ensures
            trace_outcome(world.objects@, r@, depth as int, res@),
    {
        let mut current: Ray = *r;
        let mut throughput = Color::new(Fx::one(), Fx::one(), Fx::one());
        let mut remaining = depth;

        #[verifier::loop_isolation(false)]
        while remaining > 0
            invariant
                remaining <= depth,
                color01(throughput@),
                remaining == depth ==> current == *r && throughput@ == white_v3(),
                remaining < depth ==> exists|i: int|
                    0 <= i < world.objects@.len() && sphere_hit_of(
                        #[trigger] world.objects@[i],
                        r@,
                        SHADOW_ACNE_RAW as int,
                        FX_MAX as int,
                    ) is Some,
            decreases remaining,
        {
            let a = current.direction().length_squared();
            if a.raw() == 0 {
                return Color::zero();
            }
            let window = Interval::new(Fx::from_raw(SHADOW_ACNE_RAW), Fx::from_raw(FX_MAX));
            match world.hit(&current, window) {
                Some(rec) => {
                    match rec.mat {
                        Some(m) => {
                            proof {
                                let i = choose|i: int|
                                    0 <= i < world.objects@.len() && sphere_hit_of(
                                        #[trigger] world.objects@[i],
                                        current@,
                                        window.min@,
                                        window.max@,
                                    ) == Some(rec.t@) && hit_record_matches(
                                        world.objects@[i],
                                        current@,
                                        rec.t@,
                                        rec,
                                    );
                                assert(material_ok(m));
                            }
                            match m.scatter(&current, &rec) {
                                Some((attenuation, scattered)) => {
                                    proof {
                                        lemma_color01_mul(throughput@, attenuation@);
                                    }
                                    throughput = throughput.mul(attenuation);
                                    current = scattered;
                                    remaining = remaining - 1;
                                },
                                None => {
                                    return Color::zero();
                                },
                            }
                        },
                        None => {
                            // A record that carries no material absorbs the
                            // ray; scenes built through this crate always
                            // attach one.
                            return Color::zero();
                        },
                    }
                },
                None => {
                    let unit_direction = Vec3::unit_vector(current.direction());
                    let a_blend = Fx::from_raw(HALF_RAW).mul(unit_direction.y().add(Fx::one()));
                    let a_cl = Interval::new(Fx::zero(), Fx::one()).clamp(a_blend);
                    let white = Color::new(Fx::one(), Fx::one(), Fx::one());
                    let blue = Color::new(Fx::from_raw(HALF_RAW), Fx::from_raw(SKY_GREEN_RAW), Fx::one());
                    let sky = white.scale(Fx::one().sub(a_cl)).add(blue.scale(a_cl));
                    let out = throughput.mul(sky);
                    proof {
                        lemma_sky01(unit_direction@.y);
                        assert(sky@ == sky_color(unit_direction@.y));
                        lemma_color01_mul(throughput@, sky@);
                        assert(color01(throughput@) && out@ == v3_mul(
                            throughput@,
                            sky_color(unit_direction@.y),
                        ));
                        if remaining == depth {
                            lemma_fx_mul_one(sky@.x);
                            lemma_fx_mul_one(sky@.y);
                            lemma_fx_mul_one(sky@.z);
                        }
                    }
                    return out;
                },
            }
        }
        Color::zero()
    }

    /// Accumulates one pixel's samples and encodes them: the returned pixel
    /// is the averaged, gamma-corrected, quantized encoding of the sum of
    /// `samples_per_pixel` colors, each traced along an admissible ray of
    /// this very pixel.
    #[verifier::loop_isolation(false)]
    fn render_pixel(cam: &Camera, world: &HittableList, i: i32, j: i32) -> (px: Pixel)
        requires
            world.wf(),
            cam.samples_per_pixel >= 1,
        ensures
            pixel_from_own_samples(*cam, world.objects@, i as int, j as int, px),
    {
        let mut pixel_color: Color = Color::zero();
        let ghost mut samples: Seq<V3> = Seq::empty();
        let mut s: i32 = 0;
        while s < cam.samples_per_pixel
            invariant
                0 <= s <= cam.samples_per_pixel,
                samples.len() == s as int,
                pixel_color@ == sample_seq_sum(samples),
                sample_sum_bounded(pixel_color@, s as int),
                forall|n: int|
                    0 <= n < samples.len() ==> pixel_sample_color(
                        *cam,
                        world.objects@,
                        i as int,
                        j as int,
                        #[trigger] samples[n],
                    ),
            decreases cam.samples_per_pixel - s,
        {
            let ray = cam.get_ray(i, j);
            let sample = Camera::ray_color(&ray, cam.max_depth, world);
            proof {
                assert(pixel_ray_admissible(*cam, i as int, j as int, ray@) && trace_outcome(
                    world.objects@,
                    ray@,
                    cam.max_depth as int,
                    sample@,
                ));
                assert(pixel_sample_color(*cam, world.objects@, i as int, j as int, sample@));
            }
            let ghost samples_prev = samples;
            pixel_color = pixel_color.add(sample);
            proof {
                samples = samples.push(sample@);
                assert(samples.drop_last() =~= samples_prev);
                assert(samples.last() == sample@);
                assert(pixel_color@ == sample_seq_sum(samples));
            }
            s = s + 1;
        }
        let px = Color::write_color(pixel_color, cam.samples_per_pixel);
        proof {
            assert(samples.len() == cam.samples_per_pixel as int && (forall|n: int|
                0 <= n < samples.len() ==> pixel_sample_color(
                    *cam,
                    world.objects@,
                    i as int,
                    j as int,
                    #[trigger] samples[n],
                )) && sample_sum_bounded(sample_seq_sum(samples), cam.samples_per_pixel as int)
                && pixel_from_sum(px, sample_seq_sum(samples), cam.samples_per_pixel as int));
        }
        px
    }

    /// Renders the scene: one scanline at a time, top to bottom, averaging
    /// `samples_per_pixel` traced rays per pixel into each 8-bit pixel. The
    /// image has exactly the configured width and the derived height, and the
    /// pixel at row-major index `k` is the encoding of sample colors traced
    /// along admissible rays of pixel `(k % width, k / width)` itself, cast
    /// by the initialized camera.
    #[verifier::rlimit(80)]
    pub fn render(self, world: &HittableList) -> (img: Image)
        requires
            world.wf(),
            cam_config_ok(self),
            self.samples_per_pixel >= 1,
        ensures
            img.width == self.image_width,
            img.height as int == cam_image_height(self),
            img.pixels@.len() == cam_image_height(self) * self.image_width as int,
            exists|cam2: Camera|
                #![auto]
                is_initialized_from(cam2, self) && (forall|k: int|
                    0 <= k < img.pixels@.len() ==> pixel_from_own_samples(
                        cam2,
                        world.objects@,
                        k % (self.image_width as int),
                        k / (self.image_width as int),
                        #[trigger] img.pixels@[k],
                    )),
    {
        let mut cam = self;
        cam.initialize();
        let width = cam.image_width;
        let height = cam.image_height;
        let mut pixels: Vec<Pixel> = Vec::new();

        let mut j: i32 = 0;
        #[verifier::loop_isolation(false)]
        while j < height
            invariant
                0 <= j <= height,
                pixels@.len() == j as int * width as int,
                forall|k: int|
                    0 <= k < pixels@.len() ==> pixel_from_own_samples(
                        cam,
                        world.objects@,
                        k % (width as int),
                        k / (width as int),
                        #[trigger] pixels@[k],
                    ),
            decreases height - j,
        {
            let mut i: i32 = 0;
            #[verifier::loop_isolation(false)]
            while i < width
                invariant
                    0 <= i <= width,
                    0 <= j < height,
                    pixels@.len() == j as int * width as int + i as int,
                    forall|k: int|
                        0 <= k < pixels@.len() ==> pixel_from_own_samples(
                            cam,
                            world.objects@,
                            k % (width as int),
                            k / (width as int),
                            #[trigger] pixels@[k],
                        ),
                decreases width - i,
            {
                let ghost pixels_prev = pixels@;
                let px = Camera::render_pixel(&cam, world, i, j);
                pixels.push(px);
                proof {
                    assert(pixels@.len() == j as int * width as int + (i + 1) as int);
                    vstd::arithmetic::div_mod::lemma_fundamental_div_mod_converse_mod(
                        j as int * width as int + i as int,
                        width as int,
                        j as int,
                        i as int,
                    );
                    vstd::arithmetic::div_mod::lemma_fundamental_div_mod_converse_div(
                        j as int * width as int + i as int,
                        width as int,
                        j as int,
                        i as int,
                    );
                    assert forall|k: int|
                        0 <= k < pixels@.len() implies pixel_from_own_samples(
                        cam,
                        world.objects@,
                        k % (width as int),
                        k / (width as int),
                        #[trigger] pixels@[k],
                    ) by {
                        if k < pixels_prev.len() {
                            assert(pixels@[k] == pixels_prev[k]);
                        } else {
                            assert(k == j as int * width as int + i as int);
                            assert(pixels@[k] == px);
                            assert(k % (width as int) == i as int);
                            assert(k / (width as int) == j as int);
                        }
                    }
                }
                i = i + 1;
            }
            proof {
                assert(j as int * width as int + width as int == (j + 1) as int * width as int)
                    by (nonlinear_arith);
            }
            j = j + 1;
        }
        proof {
            assert(is_initialized_from(cam, self));
        }
        Image { width, height, pixels }
    }
}

} // verus!

//! Materials and their scattering behavior.
//!
//! Each material's stochastic `scatter` draws its random sample and hands it
//! to a deterministic core (`scatter_with`), whose contract pins the outgoing
//! ray exactly as a function of the sample. The stochastic wrapper's contract
//! states what holds of every outcome.

use vstd::prelude::*;

use crate::color::{color01, Color};
use crate::fixed::{
    fx_add, fx_div, fx_mul, fx_sqrt, fx_sub, lemma_isqrt_unique, max_int, min_int, Fx, FX_SCALE,
};
use crate::hittable::HitRecord;
use crate::ray::Ray;
use crate::rtweekend::random_double;
use crate::vec3::{
    is_unit_sample, v3_add, v3_dot, v3_len_sq, v3_near_zero, v3_neg, v3_reflect, v3_refract,
    v3_scale, v3_unit, Vec3, V3,
};

verus! {

/// The direction a diffuse surface scatters into: the oriented normal plus a
/// random unit vector, falling back to the normal itself when the sum is
/// degenerate.
pub open spec fn lambertian_dir(normal: V3, unit_sample: V3) -> V3 {
    let d = v3_add(normal, unit_sample);
    if v3_near_zero(d) {
        normal
    } else {
        d
    }
}

/// The direction a metal surface scatters into: the mirror reflection of the
/// normalized incident direction, perturbed by `fuzz` times a random unit
/// vector.
pub open spec fn metal_dir(in_dir: V3, normal: V3, fuzz: int, unit_sample: V3) -> V3 {
    v3_add(v3_reflect(v3_unit(in_dir), normal), v3_scale(unit_sample, fuzz))
}

/// Schlick's polynomial approximation of the Fresnel reflectance.
/// Meaningful only for `ref_idx != -1`.
pub open spec fn reflectance_spec(cosine: int, ref_idx: int) -> int {
    let r0 = fx_div(fx_sub(FX_SCALE as int, ref_idx), fx_add(FX_SCALE as int, ref_idx));
    let r0sq = fx_mul(r0, r0);
    let omc = fx_sub(FX_SCALE as int, cosine);
    let p5 = fx_mul(fx_mul(fx_mul(fx_mul(omc, omc), omc), omc), omc);
    fx_add(r0sq, fx_mul(fx_sub(FX_SCALE as int, r0sq), p5))
}

/// The sine of the incidence angle derived from its cosine. The difference
/// `1 - cos^2` is clamped to zero before the square root, guarding against
/// rounding when the normalized direction is slightly longer than one.
pub open spec fn dielectric_sin(cos: int) -> int {
    fx_sqrt(max_int(0, fx_sub(FX_SCALE as int, fx_mul(cos, cos))))
}

/// The direction a dielectric scatters into, given the uniform draw `rand`
/// that picks stochastically between reflection and refraction. Meaningful
/// only for `ir > 0`.
pub open spec fn dielectric_dir(in_dir: V3, front_face: bool, normal: V3, ir: int, rand: int) -> V3 {
    let ratio = if front_face {
        fx_div(FX_SCALE as int, ir)
    } else {
        ir
    };
    let unit = v3_unit(in_dir);
    let cos = min_int(v3_dot(v3_neg(unit), normal), FX_SCALE as int);
    let sin = dielectric_sin(cos);
    let cannot_refract = fx_mul(ratio, sin) > FX_SCALE as int;
    if cannot_refract || reflectance_spec(cos, ratio) > rand {
        v3_reflect(unit, normal)
    } else {
        v3_refract(unit, normal, ratio)
    }
}

/// At normal incidence with a refraction ratio of at most one (entering a
/// denser medium), refraction is always geometrically possible: the
/// total-internal-reflection test cannot fire.
pub proof fn lemma_normal_incidence_refracts(ratio: int)
    requires
        0 <= ratio <= FX_SCALE as int,
    ensures
        dielectric_sin(FX_SCALE as int) == 0,
        fx_mul(ratio, dielectric_sin(FX_SCALE as int)) <= FX_SCALE as int,
{
    assert(65536int * 65536int == 4294967296int);
    assert(4294967296int / 65536int == 65536int);
    assert(fx_mul(FX_SCALE as int, FX_SCALE as int) == FX_SCALE as int);
    lemma_isqrt_unique(0, 0);
    assert(dielectric_sin(FX_SCALE as int) == 0);
    assert(fx_mul(ratio, 0) == 0);
}

/// A matte surface scattering diffusely around the normal.
#[derive(Clone, Copy, Debug)]
pub struct Lambertian {
    /// The fraction of incident light reflected, per channel.
    pub albedo: Color,
}

/// A reflective surface with microfacet roughness.
#[derive(Clone, Copy, Debug)]
pub struct Metal {
    /// The fraction of incident light reflected, per channel.
    pub albedo: Color,
    /// Reflection perturbation magnitude, within `[0, 1]`.
    pub fuzz: Fx,
}

/// A transparent refractive surface such as glass.
#[derive(Clone, Copy, Debug)]
pub struct Dielectric {
    /// Index of refraction.
    pub ir: Fx,
}

/// A material: one of the three scattering behaviors.
#[derive(Clone, Copy, Debug)]
pub enum Material {
    Lambertian(Lambertian),
    Metal(Metal),
    Dielectric(Dielectric),
}

/// A material's construction invariant: attenuations lie in `[0, 1]`, fuzz is
/// clamped, and a refraction index is positive.
pub open spec fn material_ok(m: Material) -> bool {
    match m {
        Material::Lambertian(l) => color01(l.albedo@),
        Material::Metal(mt) => color01(mt.albedo@) && 0 <= mt.fuzz@ <= FX_SCALE as int,
        Material::Dielectric(d) => d.ir@ > 0,
    }
}

/// The invariant for an optional material.
pub open spec fn material_ok_opt(m: Option<Material>) -> bool {
    match m {
        Some(mm) => material_ok(mm),
        None => true,
    }
}

impl Lambertian {
    /// A diffuse material with the given albedo, whose channels must lie in
    /// `[0, 1]`.
    pub fn new(albedo: Color) -> (r: Lambertian)
        requires
            color01(albedo@),
        ensures
            r.albedo == albedo,
            material_ok(Material::Lambertian(r)),
    {
        Lambertian { albedo }
    }

    /// Deterministic scattering core: the outgoing ray for a given unit
    /// sample.
    pub fn scatter_with(&self, rec: &HitRecord, unit_sample: Vec3) -> (res: (Color, Ray))
        ensures
            res.0 == self.albedo,
            res.1@.orig == rec.p@,
            res.1@.dir == lambertian_dir(rec.normal@, unit_sample@),
    {
        let mut scatter_direction = rec.normal.add(unit_sample);
        if scatter_direction.near_zero() {
            scatter_direction = rec.normal;
        }
        (self.albedo, Ray::new(rec.p, scatter_direction))
    }

    /// Diffuse scattering: always succeeds, attenuating by exactly the
    /// configured albedo, with the scattered ray leaving the hit point.
    pub fn scatter(&self, r_in: &Ray, rec: &HitRecord) -> (res: Option<(Color, Ray)>)
        ensures
            res matches Some(p) && p.0 == self.albedo && p.1@.orig == rec.p@,
            res matches Some(p) ==> exists|u: V3|
                #[trigger] is_unit_sample(u) && p.1@.dir == lambertian_dir(rec.normal@, u),
    {
        let u = Vec3::random_unit_vector();
        let out = self.scatter_with(rec, u);
        proof {
            assert(is_unit_sample(u@) && out.1@.dir == lambertian_dir(rec.normal@, u@));
        }
        Some(out)
    }
}

impl Metal {
    /// A reflective material with the given albedo (channels in `[0, 1]`);
    /// the fuzz factor is clamped into `[0, 1]`.
    pub fn new(albedo: Color, fuzz: Fx) -> (r: Metal)
        requires
            color01(albedo@),
        ensures
            r.albedo == albedo,
            r.fuzz@ == if fuzz@ < 0 {
                0int
            } else if fuzz@ > FX_SCALE as int {
                FX_SCALE as int
            } else {
                fuzz@
            },
            material_ok(Material::Metal(r)),
    {
        let f = if fuzz.lt(Fx::zero()) {
            Fx::zero()
        } else if Fx::one().lt(fuzz) {
            Fx::one()
        } else {
            fuzz
        };
        Metal { albedo, fuzz: f }
    }

    /// Deterministic scattering core: reflects and perturbs by the given unit
    /// sample; absorbed exactly when the result does not leave the surface.
    pub fn scatter_with(&self, r_in: &Ray, rec: &HitRecord, unit_sample: Vec3) -> (res: Option<
        (Color, Ray),
    >)
        requires
            v3_len_sq(r_in@.dir) > 0,
        ensures
            ({
                let d = metal_dir(r_in@.dir, rec.normal@, self.fuzz@, unit_sample@);
                if v3_dot(d, rec.normal@) > 0 {
                    res matches Some(p) && p.0 == self.albedo && p.1@.orig == rec.p@ && p.1@.dir
                        == d
                } else {
                    res is None
                }
            }),
    {
        let reflected = Vec3::reflect(Vec3::unit_vector(r_in.direction()), rec.normal);
        let direction = reflected.add(unit_sample.scale(self.fuzz));
        if Fx::zero().lt(Vec3::dot(&direction, &rec.normal)) {
            Some((self.albedo, Ray::new(rec.p, direction)))
        } else {
            None
        }
    }

    /// Metal scattering: succeeds only when the perturbed reflection points
    /// away from the surface; otherwise the ray is absorbed.
    pub fn scatter(&self, r_in: &Ray, rec: &HitRecord) -> (res: Option<(Color, Ray)>)
        requires
            v3_len_sq(r_in@.dir) > 0,
        ensures
            res matches Some(p) ==> p.0 == self.albedo && p.1@.orig == rec.p@ && v3_dot(
                p.1@.dir,
                rec.normal@,
            ) > 0,
            exists|u: V3|
                #[trigger] is_unit_sample(u) && match res {
                    Some(p) => p.1@.dir == metal_dir(r_in@.dir, rec.normal@, self.fuzz@, u),
                    None => v3_dot(metal_dir(r_in@.dir, rec.normal@, self.fuzz@, u), rec.normal@)
                        <= 0,
                },
    {
        let u = Vec3::random_unit_vector();
        let res = self.scatter_with(r_in, rec, u);
        proof {
            assert(is_unit_sample(u@) && match res {
                Some(p) => p.1@.dir == metal_dir(r_in@.dir, rec.normal@, self.fuzz@, u@),
                None => v3_dot(metal_dir(r_in@.dir, rec.normal@, self.fuzz@, u@), rec.normal@)
                    <= 0,
            });
        }
        res
    }
}

impl Dielectric {
    /// A refractive material with the given (positive) index of refraction.
    pub fn new(ir: Fx) -> (r: Dielectric)
        requires
            ir@ > 0,
        ensures
            r.ir == ir,
            material_ok(Material::Dielectric(r)),
    {
        Dielectric { ir }
    }

    /// Schlick's reflectance approximation.
    pub fn reflectance(cosine: Fx, ref_idx: Fx) -> (r: Fx)
        requires
            fx_add(FX_SCALE as int, ref_idx@) != 0,
        ensures
            r@ == reflectance_spec(cosine@, ref_idx@),
    {
        let r0 = Fx::one().sub(ref_idx).div(Fx::one().add(ref_idx));
        let r0sq = r0.mul(r0);
        let omc = Fx::one().sub(cosine);
        let p5 = omc.mul(omc).mul(omc).mul(omc).mul(omc);
        r0sq.add(Fx::one().sub(r0sq).mul(p5))
    }

    /// Deterministic scattering core: reflects or refracts according to the
    /// given uniform draw; the attenuation is always opaque white.
    pub fn scatter_with(&self, r_in: &Ray, rec: &HitRecord, rand: Fx) -> (res: (Color, Ray))
        requires
            v3_len_sq(r_in@.dir) > 0,
            self.ir@ > 0,
        ensures
            res.0@ == (V3 { x: FX_SCALE as int, y: FX_SCALE as int, z: FX_SCALE as int }),
            res.1@.orig == rec.p@,
            res.1@.dir == dielectric_dir(r_in@.dir, rec.front_face, rec.normal@, self.ir@, rand@),
    {
        let attenuation = Color::new(Fx::one(), Fx::one(), Fx::one());
        let refraction_ratio = if rec.front_face {
            Fx::one().div(self.ir)
        } else {
            self.ir
        };
        proof {
            crate::fixed::lemma_fx_div_nonneg(FX_SCALE as int, self.ir@);
        }
        let unit_direction = Vec3::unit_vector(r_in.direction());
        let cos_theta = Vec3::dot(&unit_direction.neg(), &rec.normal).min(Fx::one());
        let sin_theta = Fx::one().sub(cos_theta.mul(cos_theta)).max(Fx::zero()).sqrt();

        let cannot_refract = Fx::one().lt(refraction_ratio.mul(sin_theta));
        let direction: Vec3 = if cannot_refract || rand.lt(
            Dielectric::reflectance(cos_theta, refraction_ratio),
        ) {
            Vec3::reflect(unit_direction, rec.normal)
        } else {
            Vec3::refract(&unit_direction, &rec.normal, refraction_ratio)
        };

        (attenuation, Ray::new(rec.p, direction))
    }

    /// Dielectric scattering: always succeeds with opaque white attenuation,
    /// choosing stochastically between reflection and refraction.
    pub fn scatter(&self, r_in: &Ray, rec: &HitRecord) -> (res: Option<(Color, Ray)>)
        requires
            v3_len_sq(r_in@.dir) > 0,
            self.ir@ > 0,
        ensures
            res matches Some(p) && p.0@ == (V3 {
                x: FX_SCALE as int,
                y: FX_SCALE as int,
                z: FX_SCALE as int,
            }) && p.1@.orig == rec.p@,
            res matches Some(p) ==> exists|rand: int|
                0 <= rand < FX_SCALE as int && p.1@.dir == #[trigger] dielectric_dir(
                    r_in@.dir,
                    rec.front_face,
                    rec.normal@,
                    self.ir@,
                    rand,
                ),
    {
        let rand = random_double();
        let out = self.scatter_with(r_in, rec, rand);
        proof {
            assert(out.1@.dir == dielectric_dir(
                r_in@.dir,
                rec.front_face,
                rec.normal@,
                self.ir@,
                rand@,
            ));
        }
        Some(out)
    }
}

impl Material {
    /// Scatter an incoming ray at a hit: the attenuation and outgoing ray, or
    /// absorption. Whatever the random draws, a diffuse surface attenuates by
    /// exactly its albedo, a metal's scattered ray leaves the surface or is
    /// absorbed, and a dielectric always scatters with white attenuation; all
    /// scattered rays leave the hit point, and every attenuation lies in
    /// `[0, 1]` per channel.
    pub fn scatter(&self, r_in: &Ray, rec: &HitRecord) -> (res: Option<(Color, Ray)>)
        requires
            v3_len_sq(r_in@.dir) > 0,
            material_ok(*self),
        ensures
            *self matches Material::Lambertian(l) ==> res matches Some(p) && p.0 == l.albedo
                && p.1@.orig == rec.p@,
            *self matches Material::Metal(m) ==> (res matches Some(p) ==> p.0 == m.albedo
                && p.1@.orig == rec.p@ && v3_dot(p.1@.dir, rec.normal@) > 0),
            *self matches Material::Metal(m) ==> exists|u: V3|
                #[trigger] is_unit_sample(u) && match res {
                    Some(p) => p.1@.dir == metal_dir(r_in@.dir, rec.normal@, m.fuzz@, u),
                    None => v3_dot(metal_dir(r_in@.dir, rec.normal@, m.fuzz@, u), rec.normal@)
                        <= 0,
                },
            *self matches Material::Dielectric(d) ==> res matches Some(p) && p.0@ == (V3 {
                x: FX_SCALE as int,
                y: FX_SCALE as int,
                z: FX_SCALE as int,
            }) && p.1@.orig == rec.p@,
            res matches Some(p) ==> color01(p.0@) && p.1@.orig == rec.p@,
    {
        match self {
            Material::Lambertian(l) => l.scatter(r_in, rec),
            Material::Metal(m) => m.scatter(r_in, rec),
            Material::Dielectric(d) => d.scatter(r_in, rec),
        }
    }
}

} // verus!

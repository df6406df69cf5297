//! The one analytic surface: a sphere, with its ray-intersection protocol.

use vstd::prelude::*;

use crate::fixed::{
    fx_add, fx_div, fx_mul, fx_neg, fx_sqrt, fx_sub, lemma_isqrt_exists, lemma_quot_monotone, Fx,
    FX_SCALE,
};
use crate::hittable::HitRecord;
use crate::interval::Interval;
use crate::material::Material;
use crate::ray::{ray_at, Ray, RayV};
use crate::vec3::{
    lemma_v3_dot_neg_right, v3_div_scalar, v3_dot, v3_len_sq, v3_neg, v3_ok, v3_sub, Point3, Vec3,
    V3,
};

verus! {

/// Half the linear coefficient of the ray/sphere quadratic.
pub open spec fn sphere_half_b(center: V3, ray: RayV) -> int {
    v3_dot(v3_sub(ray.orig, center), ray.dir)
}

/// The discriminant of the ray/sphere quadratic; negative exactly when the
/// line misses the sphere.
pub open spec fn sphere_disc(center: V3, radius: int, ray: RayV) -> int {
    let oc = v3_sub(ray.orig, center);
    let a = v3_len_sq(ray.dir);
    let half_b = sphere_half_b(center, ray);
    let c = fx_sub(v3_len_sq(oc), fx_mul(radius, radius));
    fx_sub(fx_mul(half_b, half_b), fx_mul(a, c))
}

/// The smaller (nearer) root of the quadratic. Meaningful only for a
/// non-degenerate direction and a non-negative discriminant.
pub open spec fn sphere_root_near(center: V3, radius: int, ray: RayV) -> int {
    fx_div(
        fx_sub(fx_neg(sphere_half_b(center, ray)), fx_sqrt(sphere_disc(center, radius, ray))),
        v3_len_sq(ray.dir),
    )
}

/// The larger (farther) root of the quadratic.
pub open spec fn sphere_root_far(center: V3, radius: int, ray: RayV) -> int {
    fx_div(
        fx_add(fx_neg(sphere_half_b(center, ray)), fx_sqrt(sphere_disc(center, radius, ray))),
        v3_len_sq(ray.dir),
    )
}

/// The ray parameter at which a ray first meets a sphere within the open
/// window `(tmin, tmax)`: the smaller quadratic root if it lies strictly
/// inside the window, else the larger root if it does, else no hit at all —
/// and no hit whenever the discriminant is negative. Meaningful only for a
/// non-degenerate direction (`a > 0`) and nonzero radius.
pub open spec fn sphere_hit_t(center: V3, radius: int, ray: RayV, tmin: int, tmax: int) -> Option<
    int,
> {
    if sphere_disc(center, radius, ray) < 0 {
        None
    } else if tmin < sphere_root_near(center, radius, ray) < tmax {
        Some(sphere_root_near(center, radius, ray))
    } else if tmin < sphere_root_far(center, radius, ray) < tmax {
        Some(sphere_root_far(center, radius, ray))
    } else {
        None
    }
}

/// The intersection protocol reports the nearer admissible root: when the
/// discriminant is non-negative and the smaller root lies strictly inside the
/// query window the reported parameter is the smaller root; when only the
/// larger root lies inside it is the larger root; and no intersection is
/// reported exactly when the discriminant is negative or neither root lies
/// inside the window.
pub proof fn lemma_sphere_reports_nearest_root(
    center: V3,
    radius: int,
    ray: RayV,
    tmin: int,
    tmax: int,
)
    ensures
        sphere_disc(center, radius, ray) < 0 ==> sphere_hit_t(center, radius, ray, tmin, tmax)
            is None,
        sphere_disc(center, radius, ray) >= 0 && tmin < sphere_root_near(center, radius, ray)
            < tmax ==> sphere_hit_t(center, radius, ray, tmin, tmax) == Some(
            sphere_root_near(center, radius, ray),
        ),
        sphere_disc(center, radius, ray) >= 0 && !(tmin < sphere_root_near(center, radius, ray)
            < tmax) && tmin < sphere_root_far(center, radius, ray) < tmax ==> sphere_hit_t(
            center,
            radius,
            ray,
            tmin,
            tmax,
        ) == Some(sphere_root_far(center, radius, ray)),
        sphere_disc(center, radius, ray) >= 0 && !(tmin < sphere_root_near(center, radius, ray)
            < tmax) && !(tmin < sphere_root_far(center, radius, ray) < tmax) ==> sphere_hit_t(
            center,
            radius,
            ray,
            tmin,
            tmax,
        ) is None,
{
}

/// Shorthand for [`sphere_hit_t`] applied to a sphere value.
pub open spec fn sphere_hit_of(s: Sphere, ray: RayV, tmin: int, tmax: int) -> Option<int> {
    sphere_hit_t(s.center@, s.radius@, ray, tmin, tmax)
}

/// Shrinking the upper end of the query window keeps exactly the hits that
/// fall below the new bound: this is what lets the nearest-hit scan query
/// each surface with "closer than the closest hit so far" and still find the
/// globally nearest hit.
pub proof fn lemma_sphere_hit_shrink(s: Sphere, ray: RayV, tmin: int, c: int, tmax: int)
    requires
        c <= tmax,
        v3_len_sq(ray.dir) > 0,
    ensures
        sphere_hit_of(s, ray, tmin, c) == (match sphere_hit_of(s, ray, tmin, tmax) {
            Some(t) => if t < c {
                Some(t)
            } else {
                None
            },
            None => None,
        }),
{
    let center = s.center@;
    let radius = s.radius@;
    let oc = v3_sub(ray.orig, center);
    let a = v3_len_sq(ray.dir);
    let half_b = v3_dot(oc, ray.dir);
    let cc = fx_sub(v3_len_sq(oc), fx_mul(radius, radius));
    let disc = fx_sub(fx_mul(half_b, half_b), fx_mul(a, cc));
    if disc >= 0 {
        lemma_isqrt_exists(disc * FX_SCALE as int);
        let sqrtd = fx_sqrt(disc);
        assert(sqrtd >= 0);
        let n1 = fx_sub(fx_neg(half_b), sqrtd);
        let n2 = fx_add(fx_neg(half_b), sqrtd);
        lemma_quot_monotone(n1 * FX_SCALE as int, n2 * FX_SCALE as int, a);
        assert(fx_div(n1, a) <= fx_div(n2, a));
    }
}

/// The outward normal of a sphere at the point the ray reaches at `t`.
pub open spec fn sphere_outward(center: V3, radius: int, ray: RayV, t: int) -> V3 {
    v3_div_scalar(v3_sub(ray_at(ray, t), center), radius)
}

/// A sphere: center, radius, and the material shared by every hit on it.
#[derive(Clone, Copy, Debug)]
pub struct Sphere {
    /// Center point.
    pub center: Point3,
    /// Radius; a caller must keep it nonzero for intersection queries.
    pub radius: Fx,
    /// The surface's material, if any.
    pub mat: Option<Material>,
}

/// The hit record a sphere produces for parameter `t`: the point on the ray,
/// the normal oriented against the incident ray with `front_face` recording
/// which side was struck, and the sphere's material.
pub open spec fn hit_record_matches(s: Sphere, ray: RayV, t: int, rec: HitRecord) -> bool {
    let outward = sphere_outward(s.center@, s.radius@, ray, t);
    &&& rec.t@ == t
    &&& rec.p@ == ray_at(ray, t)
    &&& rec.front_face == (v3_dot(ray.dir, outward) < 0)
    &&& rec.normal@ == if rec.front_face {
        outward
    } else {
        v3_neg(outward)
    }
    &&& rec.mat == s.mat
}

impl Sphere {
    /// A sphere with the given center, radius and material.
    pub fn new(center: Point3, radius: Fx, mat: Option<Material>) -> (r: Sphere)
        ensures
            r.center@ == center@,
            r.radius == radius,
            r.mat == mat,
    {
        Sphere { center, radius, mat }
    }

    /// Intersects a ray with this sphere over the open parameter window
    /// `ray_t`. Returns the record of the nearest admissible root exactly
    /// when [`sphere_hit_t`] reports one, and the record's normal never
    /// points along the incident ray.
    pub fn hit(&self, r: &Ray, ray_t: Interval) -> (res: Option<HitRecord>)
        requires
            v3_len_sq(r@.dir) > 0,
            self.radius@ != 0,
        ensures
            res is Some <==> sphere_hit_t(self.center@, self.radius@, r@, ray_t.min@, ray_t.max@)
                is Some,
            res matches Some(rec) ==> sphere_hit_t(
                self.center@,
                self.radius@,
                r@,
                ray_t.min@,
                ray_t.max@,
            ) == Some(rec.t@) && hit_record_matches(*self, r@, rec.t@, rec) && v3_dot(
                r@.dir,
                rec.normal@,
            ) <= 0,
    {
        let oc = r.origin().sub(self.center);
        let a = r.direction().length_squared();
        let half_b = Vec3::dot(&oc, &r.direction());
        let c = oc.length_squared().sub(self.radius.mul(self.radius));
        let discriminant = half_b.mul(half_b).sub(a.mul(c));
        if discriminant.lt(Fx::zero()) {
            return None;
        }
        let sqrtd = discriminant.sqrt();

        let mut root = half_b.neg().sub(sqrtd).div(a);
        if !ray_t.surrounds(root) {
            root = half_b.neg().add(sqrtd).div(a);
            if !ray_t.surrounds(root) {
                return None;
            }
        }

        let t = root;
        let p = r.at(t);
        let outward_normal = p.sub(self.center).div_scalar(self.radius);
        let mut rec = HitRecord::default();
        rec.t = t;
        rec.p = p;
        rec.set_face_normal(r, &outward_normal);
        rec.mat = self.mat;
        proof {
            assert(v3_ok(outward_normal@));
            if !rec.front_face {
                lemma_v3_dot_neg_right(r@.dir, outward_normal@);
            }
        }
        Some(rec)
    }
}

} // verus!

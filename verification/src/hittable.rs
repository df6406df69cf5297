//! The result of a successful ray/surface intersection query.

use vstd::prelude::*;

use crate::fixed::Fx;
use crate::material::Material;
use crate::ray::Ray;
use crate::vec3::{v3_dot, v3_neg, Point3, Vec3, V3};

verus! {

/// Everything a shading step needs to know about one intersection: the point,
/// the oriented normal, the ray parameter, which side was struck, and the
/// surface's material.
#[derive(Clone, Copy, Debug)]
pub struct HitRecord {
    /// Point of intersection.
    pub p: Point3,
    /// Normal at the intersection, oriented against the incident ray.
    pub normal: Vec3,
    /// Ray parameter of the intersection.
    pub t: Fx,
    /// Whether the ray struck the outside of the surface.
    pub front_face: bool,
    /// The material at the intersection, shared by value.
    pub mat: Option<Material>,
}

impl HitRecord {
    /// An empty record, to be filled by an intersection query.
    pub fn default() -> (r: HitRecord)
        ensures
            r.p@ == (V3 { x: 0, y: 0, z: 0 }),
            r.normal@ == (V3 { x: 0, y: 0, z: 0 }),
            r.t@ == 0,
            r.front_face == false,
            r.mat is None,
    {
        HitRecord {
            p: Vec3::zero(),
            normal: Vec3::zero(),
            t: Fx::zero(),
            front_face: false,
            mat: None,
        }
    }

    /// Records which side of the surface the ray struck and orients the
    /// normal against the incident ray: front-facing exactly when the ray
    /// direction opposes the outward normal.
    pub fn set_face_normal(&mut self, r: &Ray, outward_normal: &Vec3)
        ensures
            final(self).front_face == (v3_dot(r@.dir, outward_normal@) < 0),
            final(self).normal@ == if final(self).front_face {
                outward_normal@
            } else {
                v3_neg(outward_normal@)
            },
            final(self).p == old(self).p,
            final(self).t == old(self).t,
            final(self).mat == old(self).mat,
    {
        self.front_face = Vec3::dot(&r.direction(), outward_normal).lt(Fx::zero());
        self.normal = if self.front_face {
            *outward_normal
        } else {
            outward_normal.neg()
        };
    }
}

} // verus!

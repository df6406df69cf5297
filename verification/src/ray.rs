//! A parametric half-line: origin plus scaled direction.

use vstd::prelude::*;

use crate::fixed::Fx;
use crate::vec3::{v3_add, v3_scale, Point3, Vec3, V3};

verus! {

/// The mathematical model of a ray.
pub ghost struct RayV {
    pub orig: V3,
    pub dir: V3,
}

/// The point at distance parameter `t` along the ray.
pub open spec fn ray_at(r: RayV, t: int) -> V3 {
    v3_add(r.orig, v3_scale(r.dir, t))
}

/// A ray: origin and (not necessarily unit) direction.
#[derive(Clone, Copy, Debug)]
pub struct Ray {
    orig: Point3,
    dir: Vec3,
}

impl View for Ray {
    type V = RayV;

    closed spec fn view(&self) -> RayV {
        RayV { orig: self.orig@, dir: self.dir@ }
    }
}

impl Ray {
    /// A ray at the origin with a zero direction.
    pub fn default() -> (r: Ray)
        ensures
            r@.orig == (V3 { x: 0, y: 0, z: 0 }),
            r@.dir == (V3 { x: 0, y: 0, z: 0 }),
    {
        Ray { orig: Vec3::zero(), dir: Vec3::zero() }
    }

    /// A ray with the given origin and direction.
    pub fn new(origin: Point3, direction: Vec3) -> (r: Ray)
        ensures
            r@.orig == origin@,
            r@.dir == direction@,
    {
        Ray { orig: origin, dir: direction }
    }

    /// The ray's origin.
    pub fn origin(&self) -> (r: Point3)
        ensures
            r@ == self@.orig,
    {
        self.orig
    }

    /// The ray's direction.
    pub fn direction(&self) -> (r: Vec3)
        ensures
            r@ == self@.dir,
    {
        self.dir
    }

    /// The point at parameter `t` along the ray.
    pub fn at(&self, t: Fx) -> (r: Point3)
        ensures
            r@ == ray_at(self@, t@),
    {
        self.orig.add(self.dir.scale(t))
    }
}

} // verus!

//! The scene aggregate: an insertion-ordered list of spheres answering
//! nearest-hit queries with a linear scan.

use vstd::prelude::*;

use crate::fixed::Fx;
use crate::hittable::HitRecord;
use crate::interval::Interval;
use crate::material::material_ok_opt;
use crate::ray::Ray;
use crate::sphere::{hit_record_matches, lemma_sphere_hit_shrink, sphere_hit_of, Sphere};
use crate::vec3::{v3_dot, v3_len_sq};

verus! {

/// The scene: every surface it owns, in insertion order.
pub struct HittableList {
    /// The surfaces, scanned linearly by every query.
    pub objects: Vec<Sphere>,
}

impl HittableList {
    /// Scene well-formedness: every sphere has a nonzero radius (so its
    /// outward normal is defined) and a well-formed material.
    pub open spec fn wf(&self) -> bool {
        forall|i: int|
            0 <= i < self.objects@.len() ==> (#[trigger] self.objects@[i]).radius@ != 0
                && material_ok_opt(self.objects@[i].mat)
    }

    /// An empty scene.
    pub fn new() -> (r: HittableList)
        ensures
            r.objects@.len() == 0,
            r.wf(),
    {
        HittableList { objects: Vec::new() }
    }

    /// Appends a surface to the scene.
    pub fn add(&mut self, object: Sphere)
        ensures
            final(self).objects@ == old(self).objects@.push(object),
    {
        self.objects.push(object);
    }

    /// Finds the nearest intersection within the open window `ray_t`,
    /// scanning the surfaces in insertion order while shrinking the window's
    /// upper end to the closest hit found so far. Reports no hit exactly when
    /// no surface hits within the window; otherwise the returned record is a
    /// hit of one of the surfaces, no surface hits strictly closer, and a tie
    /// at equal parameter goes to the first surface in insertion order: every
    /// earlier surface hits strictly farther or not at all.
    #[verifier::loop_isolation(false)]
    #[verifier::rlimit(60)]
    pub fn hit(&self, r: &Ray, ray_t: Interval) -> (res: Option<HitRecord>)
        requires
            self.wf(),
            v3_len_sq(r@.dir) > 0,
        ensures
            res is None ==> forall|i: int|
                0 <= i < self.objects@.len() ==> sphere_hit_of(
                    #[trigger] self.objects@[i],
                    r@,
                    ray_t.min@,
                    ray_t.max@,
                ) is None,
            res matches Some(rec) ==> ({
                &&& exists|i: int|
                    0 <= i < self.objects@.len() && sphere_hit_of(
                        #[trigger] self.objects@[i],
                        r@,
                        ray_t.min@,
                        ray_t.max@,
                    ) == Some(rec.t@) && hit_record_matches(self.objects@[i], r@, rec.t@, rec) && (
                    forall|n: int|
                        0 <= n < i ==> (sphere_hit_of(
                            #[trigger] self.objects@[n],
                            r@,
                            ray_t.min@,
                            ray_t.max@,
                        ) matches Some(t) ==> t > rec.t@))
                &&& forall|i: int|
                    0 <= i < self.objects@.len() ==> (sphere_hit_of(
                        #[trigger] self.objects@[i],
                        r@,
                        ray_t.min@,
                        ray_t.max@,
                    ) matches Some(t) ==> rec.t@ <= t)
                &&& v3_dot(r@.dir, rec.normal@) <= 0
            }),
    {
        let mut result: Option<HitRecord> = None;
        let mut closest_so_far: Fx = ray_t.max;
        let ghost mut win: int = 0;
        let mut idx: usize = 0;

        while idx < self.objects.len()
            invariant
                idx <= self.objects@.len(),
                closest_so_far@ <= ray_t.max@,
                result is None ==> closest_so_far@ == ray_t.max@ && (forall|i: int|
                    0 <= i < idx ==> sphere_hit_of(
                        #[trigger] self.objects@[i],
                        r@,
                        ray_t.min@,
                        ray_t.max@,
                    ) is None),
                result matches Some(rec) ==> ({
                    &&& 0 <= win < idx
                    &&& sphere_hit_of(self.objects@[win], r@, ray_t.min@, ray_t.max@) == Some(
                        rec.t@,
                    )
                    &&& rec.t@ == closest_so_far@
                    &&& hit_record_matches(self.objects@[win], r@, rec.t@, rec)
                    &&& v3_dot(r@.dir, rec.normal@) <= 0
                    &&& forall|i: int|
                        0 <= i < idx ==> (sphere_hit_of(
                            #[trigger] self.objects@[i],
                            r@,
                            ray_t.min@,
                            ray_t.max@,
                        ) matches Some(t) ==> rec.t@ <= t)
                    &&& forall|n: int|
                        0 <= n < win ==> (sphere_hit_of(
                            #[trigger] self.objects@[n],
                            r@,
                            ray_t.min@,
                            ray_t.max@,
                        ) matches Some(t) ==> t > rec.t@)
                }),
            decreases self.objects@.len() - idx,
        {
            let obj = self.objects[idx];
            proof {
                lemma_sphere_hit_shrink(obj, r@, ray_t.min@, closest_so_far@, ray_t.max@);
            }
            match obj.hit(r, Interval::new(ray_t.min, closest_so_far)) {
                Some(rec2) => {
                    closest_so_far = rec2.t;
                    result = Some(rec2);
                    proof {
                        win = idx as int;
                    }
                },
                None => {},
            }
            idx = idx + 1;
        }
        result
    }
}

} // verus!

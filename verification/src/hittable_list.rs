//! The scene: an ordered list of primitives, answering for the closest hit.

use crate::hittable::HitRecord;
use crate::ray::Ray;
use crate::scalar::Scalar;
use crate::sphere::Sphere;
use vstd::prelude::*;

verus! {

#[derive(Debug)]
pub struct HittableList {
    pub objects: Vec<Sphere>,
}

impl HittableList {
    /// The fold the search loop computes: walk the objects in order, each
    /// hit narrowing the far end of the interval, and keep the last (hence
    /// closest) hit found.
    pub open spec fn spec_hit_from(
        objects: Seq<Sphere>,
        ray: Ray,
        t_min: Scalar,
        closest: Scalar,
        acc: Option<HitRecord>,
    ) -> Option<HitRecord>
        decreases objects.len(),
    {
        if objects.len() == 0 {
            acc
        } else {
            match objects[0].spec_hit(ray, t_min, closest) {
                Some(h) => Self::spec_hit_from(objects.drop_first(), ray, t_min, h.t, Some(h)),
                None => Self::spec_hit_from(objects.drop_first(), ray, t_min, closest, acc),
            }
        }
    }

    /// The closest hit over the whole list within `[t_min, t_max]`.
    /// Opaque: callers reason through the equation `hit` ensures.
    #[verifier::opaque]
    pub open spec fn spec_hit(self, ray: Ray, t_min: Scalar, t_max: Scalar) -> Option<HitRecord> {
        Self::spec_hit_from(self.objects@, ray, t_min, t_max, None)
    }

    pub fn new() -> (w: HittableList)
        ensures
            w.objects@ =~= Seq::<Sphere>::empty(),
    {
        HittableList { objects: Vec::new() }
    }

    pub fn push(&mut self, object: Sphere)
        ensures
            final(self).objects@ == old(self).objects@.push(object),
    {
        self.objects.push(object);
    }

    /// Walk all primitives, narrowing the acceptable interval to the closest
    /// hit so far, and return the globally closest intersection.
    pub fn hit(&self, ray: &Ray, t_min: Scalar, t_max: Scalar) -> (r: Option<HitRecord>)
        ensures
            r == self.spec_hit(*ray, t_min, t_max),
    {
        proof {
            reveal(HittableList::spec_hit);
        }
        let mut closest_hit: Option<HitRecord> = None;
        let mut closest_hit_time = t_max;
        let n = self.objects.len();
        let mut i: usize = 0;
        proof {
            assert(self.objects@.skip(0) =~= self.objects@);
        }
        while i < n
            invariant
                i <= n,
                n == self.objects@.len(),
                Self::spec_hit_from(self.objects@, *ray, t_min, t_max, None)
                    == Self::spec_hit_from(
                    self.objects@.skip(i as int),
                    *ray,
                    t_min,
                    closest_hit_time,
                    closest_hit,
                ),
            decreases n - i,
        {
            proof {
                assert(self.objects@.skip(i as int)[0] == self.objects@[i as int]);
                assert(self.objects@.skip(i as int).drop_first() =~= self.objects@.skip(
                    i as int + 1,
                ));
            }
            let object = &self.objects[i];
            if let Some(hit) = object.hit(ray, t_min, closest_hit_time) {
                closest_hit_time = hit.t;
                closest_hit = Some(hit);
            }
            i = i + 1;
        }
        proof {
            assert(self.objects@.skip(n as int) =~= Seq::<Sphere>::empty());
        }
        closest_hit
    }
}

/// A scene with no primitives misses every ray: the recursive color
/// evaluation of any ray against it, at any positive depth, is therefore the
/// exact background gradient for that ray's direction.
pub proof fn lemma_empty_scene_misses(w: HittableList, ray: Ray, t_min: Scalar, t_max: Scalar)
    requires
        w.objects@.len() == 0,
    ensures
        w.spec_hit(ray, t_min, t_max) is None,
{
    reveal(HittableList::spec_hit);
}

} // verus!

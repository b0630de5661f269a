//! The record of a ray/geometry intersection.

use crate::material::Material;
use crate::ray::Ray;
use crate::scalar::Scalar;
use crate::vec3::{Point3, Vec3};
use vstd::prelude::*;

verus! {

#[derive(Clone, Copy, Debug, PartialEq, Eq, Structural)]
pub struct HitRecord {
    /// Where the ray met the surface.
    pub p: Point3,
    /// Surface normal, oriented against the incoming ray by
    /// `set_face_normal`.
    pub normal: Vec3,
    /// Parametric distance of the hit along the ray.
    pub t: Scalar,
    /// Whether the ray met the surface from outside.
    pub front_facing: bool,
    /// The material at the hit point.
    pub material: Material,
}

impl HitRecord {
    /// Orient the stored normal against the incoming ray: the outward normal
    /// as given when the ray arrives from outside, its opposite when from
    /// inside.
    pub fn set_face_normal(&mut self, ray: &Ray, outward_normal: Vec3)
        ensures
            final(self).front_facing == ray.direction.spec_dot(outward_normal).spec_lt(
                Scalar::Fin(0i64),
            ),
            final(self).normal == (if ray.direction.spec_dot(outward_normal).spec_lt(
                Scalar::Fin(0i64),
            ) {
                outward_normal
            } else {
                Vec3::spec_zero().spec_sub(outward_normal)
            }),
            final(self).p == old(self).p,
            final(self).t == old(self).t,
            final(self).material == old(self).material,
    {
        self.front_facing = ray.direction().dot(&outward_normal).lt(Scalar::zero());
        self.normal = if self.front_facing {
            outward_normal
        } else {
            Vec3::default().sub(outward_normal)
        };
    }
}

/// Front-face orientation: the normal that `set_face_normal` stores never
/// points along the incoming ray — the projection of the ray's direction on
/// it is never positive — whenever that projection on the outward normal is
/// a number at all (a not-a-number projection orients nothing).
pub proof fn lemma_front_face_orientation(ray: Ray, outward_normal: Vec3, rec: HitRecord)
    requires
        ray.direction.wf(),
        outward_normal.wf(),
        !ray.direction.spec_dot(outward_normal).is_nan_s(),
        rec.front_facing == ray.direction.spec_dot(outward_normal).spec_lt(Scalar::Fin(0i64)),
        rec.normal == (if rec.front_facing {
            outward_normal
        } else {
            Vec3::spec_zero().spec_sub(outward_normal)
        }),
    ensures
        ray.direction.spec_dot(rec.normal).spec_le(Scalar::Fin(0i64)),
{
    if !rec.front_facing {
        crate::vec3::lemma_dot_flip(ray.direction, outward_normal);
    }
}

} // verus!

//! Specular material: mirror reflection, optionally fuzzed.

use crate::hittable::HitRecord;
use crate::ray::Ray;
use crate::scalar::{Scalar, SCALE};
use crate::color::Color;
use crate::vec3::Vec3;
use vstd::prelude::*;

verus! {

#[derive(Clone, Copy, Debug, PartialEq, Eq, Structural)]
pub struct Metal {
    pub albedo: Color,
    pub fuzz: Scalar,
}

impl Metal {
    /// The fuzz factor is clamped to at most one at construction: a larger
    /// perturbation radius would outgrow the reflection itself.
    pub fn new(albedo: Color, fuzz: Scalar) -> (m: Metal)
        ensures
            m.albedo == albedo,
            m.fuzz == fuzz.spec_min(Scalar::Fin(SCALE)),
    {
        let fuzz = fuzz.min(Scalar::one());
        Metal { albedo, fuzz }
    }

    /// The scatter decision for a given unit direction sample: mirror the
    /// incoming direction, perturb it by `fuzz * sample` unless the fuzz is
    /// zero, and reject the result when it does not point off the surface.
    pub open spec fn spec_scatter(self, ray_in: Ray, hit: HitRecord, unit_sample: Vec3) -> Option<
        (Ray, Color),
    > {
        let reflected = if self.fuzz.is_zero_s() {
            ray_in.direction.spec_reflect(hit.normal)
        } else {
            ray_in.direction.spec_reflect(hit.normal).spec_add(unit_sample.spec_scale(self.fuzz))
        };
        let scattered = Ray { origin: hit.p, direction: reflected };
        if Scalar::Fin(0i64).spec_lt(scattered.direction.spec_dot(hit.normal)) {
            Some((scattered, self.albedo))
        } else {
            None
        }
    }

    /// The deterministic part of the scatter, with the random direction
    /// sample handed in.
    pub fn scatter_with(&self, ray_in: &Ray, hit: &HitRecord, unit_sample: Vec3) -> (r: Option<
        (Ray, Color),
    >)
        ensures
            r == self.spec_scatter(*ray_in, *hit, unit_sample),
    {
        let reflected = if self.fuzz.is_zero() {
            ray_in.direction().reflect(hit.normal)
        } else {
            ray_in.direction().reflect(hit.normal).add(unit_sample.scale(self.fuzz))
        };
        let scattered = Ray::new(hit.p, reflected);
        if scattered.direction().dot(&hit.normal).gt(Scalar::zero()) {
            Some((scattered, self.albedo))
        } else {
            None
        }
    }

    /// Scatter with a fresh random direction sample.  With fuzz zero the
    /// outcome does not depend on the sample at all: the direction is the
    /// exact mirror image, kept when it points off the surface and rejected
    /// otherwise.
    pub fn scatter(&self, ray_in: &Ray, hit: &HitRecord) -> (r: Option<(Ray, Color)>)
        ensures
            exists|u: Vec3|
                #[trigger] Vec3::is_unit_sample(u) && r == self.spec_scatter(*ray_in, *hit, u),
            self.fuzz.is_zero_s() ==> r == self.spec_scatter(*ray_in, *hit, Vec3::spec_zero()),
            r matches Some(s) ==> s.0.origin == hit.p && s.1 == self.albedo,
    {
        let u = Vec3::random_unit_vec();
        let r = self.scatter_with(ray_in, hit, u);
        proof {
            assert(Vec3::is_unit_sample(u) && r == self.spec_scatter(*ray_in, *hit, u));
        }
        r
    }
}

/// With fuzz zero the metal scatter is a perfect mirror: whatever direction
/// sample is drawn, the outcome is the exact reflection about the normal,
/// kept exactly when it points off the surface and rejected (absorbed)
/// otherwise.
pub proof fn lemma_metal_mirror(m: Metal, ray_in: Ray, hit: HitRecord, unit_sample: Vec3)
    requires
        m.fuzz.is_zero_s(),
    ensures
        ({
            let mirrored = ray_in.direction.spec_reflect(hit.normal);
            m.spec_scatter(ray_in, hit, unit_sample) == (if Scalar::Fin(0i64).spec_lt(
                mirrored.spec_dot(hit.normal),
            ) {
                Some((Ray { origin: hit.p, direction: mirrored }, m.albedo))
            } else {
                None
            })
        }),
{
}

} // verus!

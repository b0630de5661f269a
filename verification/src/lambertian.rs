//! Diffuse material: scatter into a random direction near the normal.

use crate::hittable::HitRecord;
use crate::ray::Ray;
use crate::color::Color;
use crate::vec3::Vec3;
use vstd::prelude::*;

verus! {

#[derive(Clone, Copy, Debug, PartialEq, Eq, Structural)]
pub struct Lambertian {
    pub albedo: Color,
}

impl Lambertian {
    pub fn new(albedo: Color) -> (m: Lambertian)
        ensures
            m == (Lambertian { albedo }),
    {
        Lambertian { albedo }
    }

    /// The scattered ray for a given unit direction sample: the normal
    /// perturbed by the sample, or the normal itself when the sum degenerates
    /// to zero.  Attenuation is the albedo, always.
    pub open spec fn spec_scatter(self, hit: HitRecord, unit_sample: Vec3) -> (Ray, Color) {
        let scatter_dir = hit.normal.spec_add(unit_sample);
        let scattered = if scatter_dir.x.is_zero_s() && scatter_dir.y.is_zero_s()
            && scatter_dir.z.is_zero_s() {
            Ray { origin: hit.p, direction: hit.normal }
        } else {
            Ray { origin: hit.p, direction: scatter_dir }
        };
        (scattered, self.albedo)
    }

    /// The deterministic part of the scatter, with the random direction
    /// sample handed in.
    pub fn scatter_with(&self, hit: &HitRecord, unit_sample: Vec3) -> (r: (Ray, Color))
        ensures
            r == self.spec_scatter(*hit, unit_sample),
            r.0.origin == hit.p,
            r.1 == self.albedo,
    {
        let scatter_dir = hit.normal.add(unit_sample);
        let scattered = if scatter_dir.is_zero() {
            Ray::new(hit.p, hit.normal)
        } else {
            Ray::new(hit.p, scatter_dir)
        };
        (scattered, self.albedo)
    }

    /// Scatter with a fresh random direction sample.  Whatever the sample,
    /// the scattered ray starts at the hit point and the attenuation is the
    /// albedo.
    pub fn scatter(&self, _ray_in: &Ray, hit: &HitRecord) -> (r: (Ray, Color))
        ensures
            r.0.origin == hit.p,
            r.1 == self.albedo,
            exists|u: Vec3| #[trigger] Vec3::is_unit_sample(u) && r == self.spec_scatter(*hit, u),
    {
        let u = Vec3::random_unit_vec();
        let r = self.scatter_with(hit, u);
        proof {
            assert(Vec3::is_unit_sample(u) && r == self.spec_scatter(*hit, u));
        }
        r
    }
}

} // verus!

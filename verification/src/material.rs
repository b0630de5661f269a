//! The scatter policies, closed over the material kinds of the scene.

use crate::color::Color;
use crate::dielectric::Dielectric;
use crate::hittable::HitRecord;
use crate::lambertian::Lambertian;
use crate::metal::Metal;
use crate::ray::Ray;
use crate::scalar::{Scalar, SCALE};
use crate::vec3::Vec3;
use vstd::prelude::*;

verus! {

/// One random draw of a scatter: the unit direction sample a diffuse or
/// metallic surface perturbs by, or the reflectance coin a dielectric
/// compares against Schlick's approximation.
#[derive(Clone, Copy, Debug, PartialEq, Eq, Structural)]
pub enum ScatterDraw {
    Unit(Vec3),
    Coin(Scalar),
}

/// A material: the policy that turns an incoming ray at a hit point into an
/// outgoing ray and an attenuation, or absorbs it.
#[derive(Clone, Copy, Debug, PartialEq, Eq, Structural)]
pub enum Material {
    Lambertian(Lambertian),
    Metal(Metal),
    Dielectric(Dielectric),
}

impl Material {
    /// The draws this material's sampler can hand its scatter: a normalized
    /// unit-ball sample for the diffuse and metallic kinds, a coin in
    /// `[0, 1]` for the dielectric.
    #[verifier::opaque]
    pub open spec fn draw_ok(self, d: ScatterDraw) -> bool {
        match (self, d) {
            (Material::Lambertian(_), ScatterDraw::Unit(u)) => Vec3::is_unit_sample(u),
            (Material::Metal(_), ScatterDraw::Unit(u)) => Vec3::is_unit_sample(u),
            (Material::Dielectric(_), ScatterDraw::Coin(c)) => c.is_finite_s() && 0 <= c.raw()
                <= SCALE as int,
            _ => false,
        }
    }

    /// The deterministic scatter decision for a given draw.
    #[verifier::opaque]
    pub open spec fn spec_scatter_of(self, ray_in: Ray, hit: HitRecord, d: ScatterDraw) -> Option<
        (Ray, Color),
    > {
        match (self, d) {
            (Material::Lambertian(m), ScatterDraw::Unit(u)) => Some(m.spec_scatter(hit, u)),
            (Material::Metal(m), ScatterDraw::Unit(u)) => m.spec_scatter(ray_in, hit, u),
            (Material::Dielectric(m), ScatterDraw::Coin(c)) => m.spec_scatter(ray_in, hit, c),
            _ => None,
        }
    }

    /// The scatter relation: `r` is an outcome this material can produce at
    /// the hit — its deterministic scatter maps some admissible draw to `r`.
    #[verifier::opaque]
    pub open spec fn spec_scatter_outcome(
        self,
        ray_in: Ray,
        hit: HitRecord,
        r: Option<(Ray, Color)>,
    ) -> bool {
        exists|d: ScatterDraw| #[trigger] self.draw_ok(d) && r == self.spec_scatter_of(
            ray_in,
            hit,
            d,
        )
    }

    /// Scatter the incoming ray at the hit.  `None` means the ray was
    /// absorbed and contributes black.  The result is an admissible outcome
    /// of this material's scatter relation, and whatever randomness the
    /// variant draws, a scattered ray starts at the hit point.
    pub fn scatter(&self, ray_in: &Ray, hit: &HitRecord) -> (r: Option<(Ray, Color)>)
        ensures
            self.spec_scatter_outcome(*ray_in, *hit, r),
            r matches Some(s) ==> s.0.origin == hit.p,
            self matches Material::Lambertian(m) ==> r matches Some(s) && s.1 == m.albedo,
            self matches Material::Metal(m) ==> (r matches Some(s) ==> s.1 == m.albedo),
    {
        proof {
            reveal(Material::spec_scatter_outcome);
            reveal(Material::draw_ok);
            reveal(Material::spec_scatter_of);
        }
        match self {
            Material::Lambertian(m) => {
                let sc = m.scatter(ray_in, hit);
                proof {
                    let u = choose|u: Vec3|
                        #[trigger] Vec3::is_unit_sample(u) && sc == m.spec_scatter(*hit, u);
                    assert(self.draw_ok(ScatterDraw::Unit(u)) && Some(sc)
                        == self.spec_scatter_of(*ray_in, *hit, ScatterDraw::Unit(u)));
                }
                Some(sc)
            },
            Material::Metal(m) => {
                let sc = m.scatter(ray_in, hit);
                proof {
                    let u = choose|u: Vec3|
                        #[trigger] Vec3::is_unit_sample(u) && sc == m.spec_scatter(
                            *ray_in,
                            *hit,
                            u,
                        );
                    assert(self.draw_ok(ScatterDraw::Unit(u)) && sc == self.spec_scatter_of(
                        *ray_in,
                        *hit,
                        ScatterDraw::Unit(u),
                    ));
                }
                sc
            },
            Material::Dielectric(m) => {
                let sc = m.scatter(ray_in, hit);
                proof {
                    let co = choose|co: Scalar|
                        #[trigger] co.is_finite_s() && 0 <= co.raw() <= SCALE as int && sc
                            == m.spec_scatter(*ray_in, *hit, co);
                    assert(self.draw_ok(ScatterDraw::Coin(co)) && sc == self.spec_scatter_of(
                        *ray_in,
                        *hit,
                        ScatterDraw::Coin(co),
                    ));
                }
                sc
            },
        }
    }
}

} // verus!

//! Dielectric material: refraction with probabilistic Fresnel reflection.

use crate::hittable::HitRecord;
use crate::ray::Ray;
use crate::rng::random_raw;
use crate::scalar::{Scalar, SCALE};
use crate::color::Color;
use crate::vec3::Vec3;
use vstd::prelude::*;

verus! {

#[derive(Clone, Copy, Debug, PartialEq, Eq, Structural)]
pub struct Dielectric {
    pub refraction_index: Scalar,
}

impl Dielectric {
    pub fn new(refraction_index: Scalar) -> (m: Dielectric)
        ensures
            m == (Dielectric { refraction_index }),
    {
        Dielectric { refraction_index }
    }

    /// Schlick's approximation of the Fresnel reflectance; the fifth power
    /// is evaluated by squaring twice and multiplying once more.
    pub open spec fn spec_reflectance(cos: Scalar, refraction_index: Scalar) -> Scalar {
        let one = Scalar::Fin(SCALE);
        let r0a = one.spec_sub(refraction_index).spec_div(one.spec_add(refraction_index));
        let r0 = r0a.spec_mul(r0a);
        let b = one.spec_sub(cos);
        let b2 = b.spec_mul(b);
        let b5 = b2.spec_mul(b2).spec_mul(b);
        r0.spec_add(one.spec_sub(r0).spec_mul(b5))
    }

    pub fn reflectance(cos: Scalar, refraction_index: Scalar) -> (r: Scalar)
        ensures
            r == Self::spec_reflectance(cos, refraction_index),
    {
        let one = Scalar::one();
        let mut r0 = one.sub(refraction_index).div(one.add(refraction_index));
        r0 = r0.mul(r0);
        let b = one.sub(cos);
        let b2 = b.mul(b);
        let b5 = b2.mul(b2).mul(b);
        r0.add(one.sub(r0).mul(b5))
    }

    /// The effective index ratio at a hit: the reciprocal when the ray comes
    /// from outside, the index itself when from inside.
    pub open spec fn spec_ratio(self, hit: HitRecord) -> Scalar {
        if hit.front_facing {
            Scalar::Fin(SCALE).spec_div(self.refraction_index)
        } else {
            self.refraction_index
        }
    }

    /// The scatter decision for a given reflectance draw `coin`: with
    /// `ratio * sin > 1` refraction is impossible (total internal
    /// reflection), so the ray reflects whatever the draw; otherwise it
    /// reflects when the draw falls below Schlick's reflectance and refracts
    /// when it does not.  A dielectric only redirects: the attenuation is
    /// white.
    pub open spec fn spec_scatter(self, ray_in: Ray, hit: HitRecord, coin: Scalar) -> Option<
        (Ray, Color),
    > {
        let one = Scalar::Fin(SCALE);
        let ri = self.spec_ratio(hit);
        let unit_dir = ray_in.direction.spec_unit();
        let cos_theta = unit_dir.spec_neg().spec_dot(hit.normal).spec_min(one);
        let sin_theta = one.spec_sub(cos_theta.spec_mul(cos_theta)).spec_sqrt();
        let direction = if one.spec_lt(ri.spec_mul(sin_theta)) || coin.spec_lt(
            Self::spec_reflectance(cos_theta, ri),
        ) {
            unit_dir.spec_reflect(hit.normal)
        } else {
            unit_dir.spec_refract(hit.normal, ri)
        };
        Some((Ray { origin: hit.p, direction }, Vec3::spec_new(one, one, one)))
    }

    /// The deterministic part of the scatter, with the reflectance draw
    /// handed in.
    pub fn scatter_with(&self, ray_in: &Ray, hit: &HitRecord, coin: Scalar) -> (r: Option<
        (Ray, Color),
    >)
        ensures
            r == self.spec_scatter(*ray_in, *hit, coin),
    {
        let one = Scalar::one();
        let attenuation = Vec3::new(one, one, one);
        let ri = if hit.front_facing {
            one.div(self.refraction_index)
        } else {
            self.refraction_index
        };
        let unit_dir = ray_in.direction().unit_vector();
        let cos_theta = unit_dir.neg().dot(&hit.normal).min(one);
        let sin_theta = one.sub(cos_theta.mul(cos_theta)).sqrt();

        let direction = if ri.mul(sin_theta).gt(one) || Self::reflectance(cos_theta, ri).gt(coin) {
            unit_dir.reflect(hit.normal)
        } else {
            unit_dir.refract(hit.normal, ri)
        };
        Some((Ray::new(hit.p, direction), attenuation))
    }

    /// Scatter with a fresh uniform draw from `[0, 1]`.  Whatever the draw,
    /// the scattered ray starts at the hit point and the attenuation is
    /// white; under total internal reflection the direction is the exact
    /// mirror image whatever the draw.
    pub fn scatter(&self, ray_in: &Ray, hit: &HitRecord) -> (r: Option<(Ray, Color)>)
        ensures
            exists|c: Scalar|
                #[trigger] c.is_finite_s() && 0 <= c.raw() <= SCALE as int && r
                    == self.spec_scatter(*ray_in, *hit, c),
            r matches Some(s) ==> s.0.origin == hit.p && s.1 == Vec3::spec_new(
                Scalar::Fin(SCALE),
                Scalar::Fin(SCALE),
                Scalar::Fin(SCALE),
            ),
    {
        let coin = Scalar::Fin(random_raw(0, SCALE));
        let r = self.scatter_with(ray_in, hit, coin);
        proof {
            assert(coin.is_finite_s() && 0 <= coin.raw() <= SCALE as int && r == self.spec_scatter(
                *ray_in,
                *hit,
                coin,
            ));
        }
        r
    }
}

/// Total internal reflection: when the index ratio times the sine of the
/// incident angle exceeds one, the dielectric reflects, whatever the
/// reflectance draw.
pub proof fn lemma_total_internal_reflection(m: Dielectric, ray_in: Ray, hit: HitRecord, coin: Scalar)
    requires
        ({
            let one = Scalar::Fin(SCALE);
            let unit_dir = ray_in.direction.spec_unit();
            let cos_theta = unit_dir.spec_neg().spec_dot(hit.normal).spec_min(one);
            let sin_theta = one.spec_sub(cos_theta.spec_mul(cos_theta)).spec_sqrt();
            one.spec_lt(m.spec_ratio(hit).spec_mul(sin_theta))
        }),
    ensures
        m.spec_scatter(ray_in, hit, coin) == Some(
            (
                Ray {
                    origin: hit.p,
                    direction: ray_in.direction.spec_unit().spec_reflect(hit.normal),
                },
                Vec3::spec_new(Scalar::Fin(SCALE), Scalar::Fin(SCALE), Scalar::Fin(SCALE)),
            ),
        ),
{
}

} // verus!

//! Sphere geometry and its ray intersection.

use crate::hittable::HitRecord;
use crate::material::Material;
use crate::ray::Ray;
use crate::scalar::{Scalar, SCALE};
use crate::vec3::{Point3, Vec3};
use vstd::prelude::*;

verus! {

#[derive(Clone, Copy, Debug, PartialEq, Eq, Structural)]
pub struct Sphere {
    pub center: Point3,
    pub radius: Scalar,
    pub material: Material,
}

impl Sphere {
    /// A sphere with its radius floored at zero.
    pub fn new(center: Point3, radius: Scalar, material: Material) -> (s: Sphere)
        ensures
            s.center == center,
            s.radius == Scalar::Fin(0i64).spec_max(radius),
            s.material == material,
    {
        Sphere { center, radius: Scalar::zero().max(radius), material }
    }

    /// The half-discriminant of the intersection quadratic
    /// `a t^2 - 2 h t + c = 0`, where `a = |d|^2`, `h = d . (center - o)`
    /// and `c = |center - o|^2 - r^2`.
    pub open spec fn spec_discriminant(self, ray: Ray) -> Scalar {
        let o_to_c = self.center.spec_sub(ray.origin);
        let a = ray.direction.spec_length_squared();
        let h = ray.direction.spec_dot(o_to_c);
        let c = o_to_c.spec_length_squared().spec_sub(self.radius.spec_mul(self.radius));
        h.spec_mul(h).spec_sub(a.spec_mul(c))
    }

    /// The closest intersection of the ray with the sphere whose parameter
    /// lies in `[t_min, t_max]`, if any: the mirror of `hit`, step for step.
    /// Opaque: callers reason through the equation `hit` ensures, and reveal
    /// the body only where the algebra itself is at issue.
    #[verifier::opaque]
    pub open spec fn spec_hit(self, ray: Ray, t_min: Scalar, t_max: Scalar) -> Option<HitRecord> {
        let o_to_c = self.center.spec_sub(ray.origin);
        let a = ray.direction.spec_length_squared();
        let h = ray.direction.spec_dot(o_to_c);
        let discriminant = self.spec_discriminant(ray);
        if discriminant.spec_lt(Scalar::Fin(0i64)) {
            None
        } else {
            let sqrtd = discriminant.spec_sqrt();
            let root_1 = h.spec_sub(sqrtd).spec_div(a);
            let root_2 = h.spec_add(sqrtd).spec_div(a);
            let in_1 = t_min.spec_le(root_1) && root_1.spec_le(t_max);
            let in_2 = t_min.spec_le(root_2) && root_2.spec_le(t_max);
            if !in_1 && !in_2 {
                None
            } else {
                let t_near = if in_1 {
                    root_1
                } else {
                    root_2
                };
                let t_far = root_2;
                let root = if t_near.spec_lt(t_far) {
                    t_near
                } else {
                    t_far
                };
                let hit_point = ray.spec_at(root);
                let outward_normal = hit_point.spec_sub(self.center).spec_div_scalar(self.radius);
                let front = ray.direction.spec_dot(outward_normal).spec_lt(Scalar::Fin(0i64));
                Some(
                    HitRecord {
                        t: root,
                        p: hit_point,
                        normal: if front {
                            outward_normal
                        } else {
                            Vec3::spec_zero().spec_sub(outward_normal)
                        },
                        front_facing: front,
                        material: self.material,
                    },
                )
            }
        }
    }

    /// Solve the intersection quadratic in half-discriminant form and build
    /// the oriented hit record for the nearest root in range.
    pub fn hit(&self, ray: &Ray, t_min: Scalar, t_max: Scalar) -> (r: Option<HitRecord>)
        ensures
            r == self.spec_hit(*ray, t_min, t_max),
    {
        proof {
            reveal(Sphere::spec_hit);
        }
        let o_to_c = self.center.sub(ray.origin());

        // Quadratic equation coefficients.
        let a = ray.direction().length_squared();
        let h = ray.direction().dot(&o_to_c);
        let c = o_to_c.length_squared().sub(self.radius.mul(self.radius));

        let discriminant = h.mul(h).sub(a.mul(c));
        if discriminant.lt(Scalar::zero()) {
            return None;
        }
        let sqrtd = discriminant.sqrt();

        // Find the nearest root that lies in the acceptable range.
        let root_1 = h.sub(sqrtd).div(a);
        let root_2 = h.add(sqrtd).div(a);

        let in_1 = t_min.le(root_1) && root_1.le(t_max);
        let in_2 = t_min.le(root_2) && root_2.le(t_max);
        let (t_near, t_far) = if in_1 {
            (root_1, root_2)
        } else if in_2 {
            (root_2, root_2)
        } else {
            return None;
        };

        // Choose the closest root (t_near) that is valid and in range.
        let root = if t_near.lt(t_far) {
            t_near
        } else {
            t_far
        };

        // Calculate the point of intersection and the normal at the hit
        // point.
        let hit_point = ray.at(root);
        let outward_normal = hit_point.sub(self.center).div_scalar(self.radius);

        // Create the hit record and set the face normal.
        let mut hit_r = HitRecord {
            t: root,
            p: hit_point,
            normal: outward_normal,
            front_facing: false,
            material: self.material,
        };
        hit_r.set_face_normal(ray, outward_normal);

        Some(hit_r)
    }
}

/// The candidate intersection parameters: the near and far roots of the
/// quadratic, in that order.
pub open spec fn spec_roots(s: Sphere, ray: Ray) -> (Scalar, Scalar) {
    let o_to_c = s.center.spec_sub(ray.origin);
    let a = ray.direction.spec_length_squared();
    let h = ray.direction.spec_dot(o_to_c);
    let sqrtd = s.spec_discriminant(ray).spec_sqrt();
    (h.spec_sub(sqrtd).spec_div(a), h.spec_add(sqrtd).spec_div(a))
}

/// A ray whose closest approach to the center exceeds the radius has a
/// negative discriminant, and misses: no interval ever yields a hit.
pub proof fn lemma_negative_discriminant_misses(s: Sphere, ray: Ray, t_min: Scalar, t_max: Scalar)
    requires
        s.spec_discriminant(ray).spec_lt(Scalar::Fin(0i64)),
    ensures
        s.spec_hit(ray, t_min, t_max) is None,
{
    reveal(Sphere::spec_hit);
}

/// A tangent ray sees the discriminant vanish, and its two candidate roots
/// coincide numerically: there is exactly one valid root.
pub proof fn lemma_tangent_single_root(s: Sphere, ray: Ray)
    requires
        s.spec_discriminant(ray) == Scalar::Fin(0i64),
        ray.direction.spec_length_squared().is_finite_s(),
        !ray.direction.spec_length_squared().is_zero_s(),
        ray.direction.spec_dot(s.center.spec_sub(ray.origin)).is_finite_s(),
    ensures
        spec_roots(s, ray).0.spec_le(spec_roots(s, ray).1),
        spec_roots(s, ray).1.spec_le(spec_roots(s, ray).0),
{
    crate::scalar::lemma_sqrt_floor_unique(0, 0);
}

/// A tangent ray whose (numerically unique) double root lies inside the
/// interval yields the hit at exactly that root.
pub proof fn lemma_tangent_hit(s: Sphere, ray: Ray, t_min: Scalar, t_max: Scalar)
    requires
        s.spec_discriminant(ray) == Scalar::Fin(0i64),
        ray.direction.spec_length_squared().is_finite_s(),
        !ray.direction.spec_length_squared().is_zero_s(),
        ray.direction.spec_dot(s.center.spec_sub(ray.origin)).is_finite_s(),
        t_min.spec_le(spec_roots(s, ray).0),
        spec_roots(s, ray).0.spec_le(t_max),
    ensures
        (s.spec_hit(ray, t_min, t_max) matches Some(hr) && hr.t.spec_le(spec_roots(s, ray).0)
            && spec_roots(s, ray).0.spec_le(hr.t)),
{
    reveal(Sphere::spec_hit);
    lemma_tangent_single_root(s, ray);
}

/// A ray fired from the origin straight at the center of a sphere a
/// distance `d` away meets it at parameter `d - r`: the first surface
/// crossing.  Stated on the grid points where the arithmetic is exact: the
/// squared radius a multiple of the scale.
#[verifier::rlimit(60)]
pub proof fn lemma_head_on_hit(d: i64, r: i64, m: Material, t_min: Scalar, t_max: Scalar)
    requires
        0 < r < d <= 1_000_000_000_000,
        (r as int) * (r as int) % (SCALE as int) == 0,
        t_min.spec_le(Scalar::Fin((d - r) as i64)),
        Scalar::Fin((d - r) as i64).spec_le(t_max),
    ensures
        ({
            let sphere = Sphere {
                center: Vec3::spec_new(Scalar::Fin(0i64), Scalar::Fin(0i64), Scalar::Fin((-d) as i64)),
                radius: Scalar::Fin(r),
                material: m,
            };
            let ray = Ray {
                origin: Vec3::spec_zero(),
                direction: Vec3::spec_new(Scalar::Fin(0i64), Scalar::Fin(0i64), Scalar::Fin((-SCALE) as i64)),
            };
            sphere.spec_hit(ray, t_min, t_max) matches Some(hr) && hr.t == Scalar::Fin((d - r) as i64)
                && hr.front_facing
        }),
{
    reveal(Sphere::spec_hit);
    let sc = SCALE as int;
    let sphere = Sphere {
        center: Vec3::spec_new(Scalar::Fin(0i64), Scalar::Fin(0i64), Scalar::Fin((-d) as i64)),
        radius: Scalar::Fin(r),
        material: m,
    };
    let ray = Ray {
        origin: Vec3::spec_zero(),
        direction: Vec3::spec_new(Scalar::Fin(0i64), Scalar::Fin(0i64), Scalar::Fin((-SCALE) as i64)),
    };
    let o_to_c = sphere.center.spec_sub(ray.origin);
    assert(o_to_c == Vec3::spec_new(Scalar::Fin(0i64), Scalar::Fin(0i64), Scalar::Fin((-d) as i64)));

    // The direction is exactly unit: |d|^2 == 1.
    assert((sc * sc) / sc == sc) by (nonlinear_arith)
        requires
            sc == 100_000_000,
    ;
    assert(0int * 0int / sc == 0) by (nonlinear_arith)
        requires
            sc == 100_000_000,
    ;
    let a = ray.direction.spec_length_squared();
    assert(a == Scalar::Fin(SCALE));

    // Its projection of origin-to-center is exactly d.
    assert((sc * (d as int)) / sc == d as int) by (nonlinear_arith)
        requires
            sc == 100_000_000,
            0 < d,
    ;
    let h = ray.direction.spec_dot(o_to_c);
    assert(h == Scalar::Fin(d));

    // Squared distance to the center and squared radius, on the grid.
    let dd = (d as int) * (d as int) / sc;
    let rr = (r as int) * (r as int) / sc;
    assert((d as int) * (d as int) <= 1_000_000_000_000 * 1_000_000_000_000int) by (nonlinear_arith)
        requires
            0 < d <= 1_000_000_000_000,
    ;
    assert((r as int) * (r as int) < (d as int) * (d as int)) by (nonlinear_arith)
        requires
            0 < r < d,
    ;
    assert(dd <= 10_000_000_000_000_000int) by (nonlinear_arith)
        requires
            dd == (d as int) * (d as int) / sc,
            0 <= (d as int) * (d as int) <= 1_000_000_000_000 * 1_000_000_000_000int,
            sc == 100_000_000,
    ;
    vstd::arithmetic::div_mod::lemma_div_is_ordered((r as int) * (r as int), (d as int) * (d as int), sc);
    vstd::arithmetic::div_mod::lemma_div_pos_is_pos((r as int) * (r as int), sc);
    assert(0 <= rr <= dd);
    let ls_oc = o_to_c.spec_length_squared();
    assert(ls_oc == Scalar::Fin(dd as i64));
    let c = ls_oc.spec_sub(sphere.radius.spec_mul(sphere.radius));
    assert(sphere.radius.spec_mul(sphere.radius) == Scalar::Fin(rr as i64));
    assert(c == Scalar::Fin((dd - rr) as i64));

    // The discriminant collapses to the squared radius: h^2 - a c with a
    // exactly one cancels the squared distance.
    assert((sc * (dd - rr)) / sc == dd - rr) by (nonlinear_arith)
        requires
            sc == 100_000_000,
            0 <= dd - rr,
    ;
    assert(sphere.spec_discriminant(ray) == Scalar::Fin(rr as i64));

    // With the squared radius a grid multiple, its square root is exact.
    assert(rr * sc == (r as int) * (r as int)) by {
        vstd::arithmetic::div_mod::lemma_fundamental_div_mod((r as int) * (r as int), sc);
    };
    assert(rr > 0) by (nonlinear_arith)
        requires
            rr * sc == (r as int) * (r as int),
            0 < r,
            sc == 100_000_000,
    ;
    assert((r as int) * (r as int) < ((r as int) + 1) * ((r as int) + 1)) by (nonlinear_arith)
        requires
            0 < r,
    ;
    crate::scalar::lemma_sqrt_floor_unique(rr * sc, r as int);
    let sqrtd = sphere.spec_discriminant(ray).spec_sqrt();
    assert(sqrtd == Scalar::Fin(r));

    // The two roots, divided by the unit coefficient, stay on the grid.
    let near = Scalar::Fin((d - r) as i64);
    let far = Scalar::Fin((d + r) as i64);
    assert(((d - r) as int) * sc / sc == (d - r) as int) by (nonlinear_arith)
        requires
            0 < (d - r) as int,
            sc == 100_000_000,
    ;
    assert(((d + r) as int) * sc / sc == (d + r) as int) by (nonlinear_arith)
        requires
            0 < (d + r) as int,
            sc == 100_000_000,
    ;
    assert(h.spec_sub(sqrtd) == Scalar::Fin((d - r) as i64));
    assert(h.spec_add(sqrtd) == Scalar::Fin((d + r) as i64));
    assert(h.spec_sub(sqrtd).spec_div(a) == near);
    assert(h.spec_add(sqrtd).spec_div(a) == far);
    assert(near.spec_lt(far));

    // The hit point sits at parameter d - r straight down the axis, the
    // outward normal is the unit vector back toward the camera, and the ray
    // meets it head on: a front face.
    assert((sc * ((d - r) as int)) / sc == (d - r) as int) by (nonlinear_arith)
        requires
            sc == 100_000_000,
            0 < (d - r) as int,
    ;
    let hit_point = ray.spec_at(near);
    assert(hit_point == Vec3::spec_new(
        Scalar::Fin(0i64),
        Scalar::Fin(0i64),
        Scalar::Fin((-(d - r)) as i64),
    ));
    assert(((r as int) * sc) / (r as int) == sc) by {
        vstd::arithmetic::div_mod::lemma_div_multiples_vanish(sc, r as int);
        assert((r as int) * sc == (r as int) * sc);
        assert((r as int) * sc / (r as int) == ((r as int) * sc) / (r as int));
    };
    let outward = hit_point.spec_sub(sphere.center).spec_div_scalar(sphere.radius);
    assert(outward == Vec3::spec_new(Scalar::Fin(0i64), Scalar::Fin(0i64), Scalar::Fin(SCALE)));
    assert(ray.direction.spec_dot(outward) == Scalar::Fin((-SCALE) as i64));
    assert(ray.direction.spec_dot(outward).spec_lt(Scalar::Fin(0i64)));
}

} // verus!

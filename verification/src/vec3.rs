//! Three-component vectors: the points, directions and colors of the tracer.
//!
//! Every operation is specified exactly, component by component, in terms of
//! the scalar arithmetic of `crate::scalar`; the geometric laws (reflection,
//! length) are proved from those component equations.

use crate::rng::random_raw;
use crate::scalar::{Scalar, RAW_MAX, SCALE};
use vstd::math::abs;
use vstd::prelude::*;

verus! {

#[derive(Clone, Copy, Debug, PartialEq, Eq, Structural)]
pub struct Vec3 {
    pub x: Scalar,
    pub y: Scalar,
    pub z: Scalar,
}

/// A location in space.
pub type Point3 = Vec3;

impl Vec3 {
    pub open spec fn spec_new(x: Scalar, y: Scalar, z: Scalar) -> Vec3 {
        Vec3 { x, y, z }
    }

    pub open spec fn spec_zero() -> Vec3 {
        Vec3 { x: Scalar::Fin(0i64), y: Scalar::Fin(0i64), z: Scalar::Fin(0i64) }
    }

    /// All components carry raw values strictly above `i64::MIN`, as every
    /// arithmetic result does.
    pub open spec fn wf(self) -> bool {
        &&& self.x.wf()
        &&& self.y.wf()
        &&& self.z.wf()
    }

    pub open spec fn spec_add(self, rhs: Vec3) -> Vec3 {
        Vec3 {
            x: self.x.spec_add(rhs.x),
            y: self.y.spec_add(rhs.y),
            z: self.z.spec_add(rhs.z),
        }
    }

    pub open spec fn spec_sub(self, rhs: Vec3) -> Vec3 {
        Vec3 {
            x: self.x.spec_sub(rhs.x),
            y: self.y.spec_sub(rhs.y),
            z: self.z.spec_sub(rhs.z),
        }
    }

    pub open spec fn spec_neg(self) -> Vec3 {
        Vec3 { x: self.x.spec_neg(), y: self.y.spec_neg(), z: self.z.spec_neg() }
    }

    /// Component-wise product.
    pub open spec fn spec_mul(self, rhs: Vec3) -> Vec3 {
        Vec3 {
            x: self.x.spec_mul(rhs.x),
            y: self.y.spec_mul(rhs.y),
            z: self.z.spec_mul(rhs.z),
        }
    }

    /// Product with a scalar.
    pub open spec fn spec_scale(self, rhs: Scalar) -> Vec3 {
        Vec3 { x: self.x.spec_mul(rhs), y: self.y.spec_mul(rhs), z: self.z.spec_mul(rhs) }
    }

    /// Component-wise quotient.
    pub open spec fn spec_div(self, rhs: Vec3) -> Vec3 {
        Vec3 {
            x: self.x.spec_div(rhs.x),
            y: self.y.spec_div(rhs.y),
            z: self.z.spec_div(rhs.z),
        }
    }

    /// Quotient by a scalar.
    pub open spec fn spec_div_scalar(self, rhs: Scalar) -> Vec3 {
        Vec3 { x: self.x.spec_div(rhs), y: self.y.spec_div(rhs), z: self.z.spec_div(rhs) }
    }

    pub open spec fn spec_dot(self, rhs: Vec3) -> Scalar {
        self.x.spec_mul(rhs.x).spec_add(self.y.spec_mul(rhs.y)).spec_add(
            self.z.spec_mul(rhs.z),
        )
    }

    pub open spec fn spec_cross(self, rhs: Vec3) -> Vec3 {
        Vec3 {
            x: self.y.spec_mul(rhs.z).spec_sub(self.z.spec_mul(rhs.y)),
            y: self.z.spec_mul(rhs.x).spec_sub(self.x.spec_mul(rhs.z)),
            z: self.x.spec_mul(rhs.y).spec_sub(self.y.spec_mul(rhs.x)),
        }
    }

    pub open spec fn spec_length_squared(self) -> Scalar {
        self.spec_dot(self)
    }

    pub open spec fn spec_length(self) -> Scalar {
        self.spec_length_squared().spec_sqrt()
    }

    pub open spec fn spec_unit(self) -> Vec3 {
        self.spec_div_scalar(self.spec_length())
    }

    /// Strictly inside the unit ball: what the rejection sampler returns.
    pub open spec fn in_unit_ball(self) -> bool {
        &&& self.x.is_finite_s() && -(SCALE as int) <= self.x.raw() <= SCALE as int
        &&& self.y.is_finite_s() && -(SCALE as int) <= self.y.raw() <= SCALE as int
        &&& self.z.is_finite_s() && -(SCALE as int) <= self.z.raw() <= SCALE as int
        &&& self.spec_length_squared().spec_lt(Scalar::Fin(SCALE))
    }

    /// What the unit-direction sampler may hand back: the normalization of
    /// some point strictly inside the unit ball.
    pub open spec fn is_unit_sample(u: Vec3) -> bool {
        exists|s: Vec3| #[trigger] s.in_unit_ball() && u == s.spec_unit()
    }

    /// Snell's law, split into components perpendicular and parallel to the
    /// normal, for an incident unit vector and a ratio of refractive indices.
    pub open spec fn spec_refract(self, normal: Vec3, etai_over_etat: Scalar) -> Vec3 {
        let one = Scalar::Fin(SCALE);
        let cos_theta = self.spec_neg().spec_dot(normal).spec_min(one);
        let r_out_perp = self.spec_add(normal.spec_scale(cos_theta)).spec_scale(etai_over_etat);
        let r_out_parallel = normal.spec_scale(
            one.spec_sub(r_out_perp.spec_length_squared()).spec_sqrt().spec_neg(),
        );
        r_out_perp.spec_add(r_out_parallel)
    }

    /// Mirror about a normal: `v - n * 2 * (v . n)`.
    pub open spec fn spec_reflect(self, normal: Vec3) -> Vec3 {
        self.spec_sub(
            normal.spec_scale(Scalar::Fin((2 * SCALE) as i64)).spec_scale(self.spec_dot(normal)),
        )
    }

    pub fn new(x: Scalar, y: Scalar, z: Scalar) -> (v: Vec3)
        ensures
            v == (Vec3 { x, y, z }),
    {
        Vec3 { x, y, z }
    }

    pub fn zero() -> (v: Vec3)
        ensures
            v == Self::spec_zero(),
    {
        Vec3 { x: Scalar::Fin(0), y: Scalar::Fin(0), z: Scalar::Fin(0) }
    }

    pub fn is_zero(&self) -> (r: bool)
        ensures
            r == (self.x.is_zero_s() && self.y.is_zero_s() && self.z.is_zero_s()),
    {
        self.x.is_zero() && self.y.is_zero() && self.z.is_zero()
    }

    #[inline]
    pub fn x(&self) -> (r: Scalar)
        ensures
            r == self.x,
    {
        self.x
    }

    #[inline]
    pub fn y(&self) -> (r: Scalar)
        ensures
            r == self.y,
    {
        self.y
    }

    #[inline]
    pub fn z(&self) -> (r: Scalar)
        ensures
            r == self.z,
    {
        self.z
    }

    /// Component by position: the indexing operation, with positions past
    /// two excluded by contract.
    pub fn index(&self, index: usize) -> (r: Scalar)
        requires
            index < 3,
        ensures
            index == 0 ==> r == self.x,
            index == 1 ==> r == self.y,
            index == 2 ==> r == self.z,
    {
        if index == 0 {
            self.x
        } else if index == 1 {
            self.y
        } else {
            self.z
        }
    }

    /// Replace the component at a position; the mutating counterpart of
    /// `index`.
    pub fn set(&mut self, index: usize, value: Scalar)
        requires
            index < 3,
        ensures
            index == 0 ==> *final(self) == (Vec3 { x: value, ..*old(self) }),
            index == 1 ==> *final(self) == (Vec3 { y: value, ..*old(self) }),
            index == 2 ==> *final(self) == (Vec3 { z: value, ..*old(self) }),
    {
        if index == 0 {
            self.x = value;
        } else if index == 1 {
            self.y = value;
        } else {
            self.z = value;
        }
    }

    pub fn add(self, rhs: Vec3) -> (r: Vec3)
        ensures
            r == self.spec_add(rhs),
    {
        Vec3 { x: self.x.add(rhs.x), y: self.y.add(rhs.y), z: self.z.add(rhs.z) }
    }

    pub fn add_assign(&mut self, rhs: Vec3)
        ensures
            *final(self) == old(self).spec_add(rhs),
    {
        *self = self.add(rhs);
    }

    pub fn sub(self, rhs: Vec3) -> (r: Vec3)
        ensures
            r == self.spec_sub(rhs),
    {
        Vec3 { x: self.x.sub(rhs.x), y: self.y.sub(rhs.y), z: self.z.sub(rhs.z) }
    }

    pub fn sub_assign(&mut self, rhs: Vec3)
        ensures
            *final(self) == old(self).spec_sub(rhs),
    {
        *self = self.sub(rhs);
    }

    pub fn neg(self) -> (r: Vec3)
        ensures
            r == self.spec_neg(),
    {
        Vec3 { x: self.x.neg(), y: self.y.neg(), z: self.z.neg() }
    }

    pub fn mul(self, rhs: Vec3) -> (r: Vec3)
        ensures
            r == self.spec_mul(rhs),
    {
        Vec3 { x: self.x.mul(rhs.x), y: self.y.mul(rhs.y), z: self.z.mul(rhs.z) }
    }

    pub fn mul_assign(&mut self, rhs: Vec3)
        ensures
            *final(self) == old(self).spec_mul(rhs),
    {
        *self = self.mul(rhs);
    }

    pub fn scale(self, rhs: Scalar) -> (r: Vec3)
        ensures
            r == self.spec_scale(rhs),
    {
        Vec3 { x: self.x.mul(rhs), y: self.y.mul(rhs), z: self.z.mul(rhs) }
    }

    pub fn scale_assign(&mut self, rhs: Scalar)
        ensures
            *final(self) == old(self).spec_scale(rhs),
    {
        *self = self.scale(rhs);
    }

    pub fn div(self, rhs: Vec3) -> (r: Vec3)
        ensures
            r == self.spec_div(rhs),
    {
        Vec3 { x: self.x.div(rhs.x), y: self.y.div(rhs.y), z: self.z.div(rhs.z) }
    }

    pub fn div_assign(&mut self, rhs: Vec3)
        ensures
            *final(self) == old(self).spec_div(rhs),
    {
        *self = self.div(rhs);
    }

    pub fn div_scalar(self, rhs: Scalar) -> (r: Vec3)
        ensures
            r == self.spec_div_scalar(rhs),
    {
        Vec3 { x: self.x.div(rhs), y: self.y.div(rhs), z: self.z.div(rhs) }
    }

    pub fn div_scalar_assign(&mut self, rhs: Scalar)
        ensures
            *final(self) == old(self).spec_div_scalar(rhs),
    {
        *self = self.div_scalar(rhs);
    }

    pub fn dot(&self, rhs: &Vec3) -> (r: Scalar)
        ensures
            r == self.spec_dot(*rhs),
    {
        self.x.mul(rhs.x).add(self.y.mul(rhs.y)).add(self.z.mul(rhs.z))
    }

    pub fn cross(&self, rhs: &Vec3) -> (r: Vec3)
        ensures
            r == self.spec_cross(*rhs),
    {
        Vec3::new(
            self.y.mul(rhs.z).sub(self.z.mul(rhs.y)),
            self.z.mul(rhs.x).sub(self.x.mul(rhs.z)),
            self.x.mul(rhs.y).sub(self.y.mul(rhs.x)),
        )
    }

    #[inline]
    pub fn length_squared(&self) -> (r: Scalar)
        ensures
            r == self.spec_length_squared(),
    {
        self.x.mul(self.x).add(self.y.mul(self.y)).add(self.z.mul(self.z))
    }

    #[inline]
    pub fn length(&self) -> (r: Scalar)
        ensures
            r == self.spec_length(),
    {
        self.length_squared().sqrt()
    }

    pub fn unit_vector(&self) -> (r: Vec3)
        ensures
            r == self.spec_unit(),
    {
        self.div_scalar(self.length())
    }

    pub fn reflect(&self, normal: Vec3) -> (r: Vec3)
        ensures
            r == self.spec_reflect(normal),
    {
        self.sub(normal.scale(Scalar::Fin(2 * SCALE)).scale(self.dot(&normal)))
    }

    pub fn refract(&self, normal: Vec3, etai_over_etat: Scalar) -> (r: Vec3)
        ensures
            r == self.spec_refract(normal, etai_over_etat),
    {
        let one = Scalar::one();
        let cos_theta = self.neg().dot(&normal).min(one);
        let r_out_perp = self.add(normal.scale(cos_theta)).scale(etai_over_etat);
        let r_out_parallel = normal.scale(
            one.sub(r_out_perp.length_squared()).sqrt().neg(),
        );
        r_out_perp.add(r_out_parallel)
    }

    /// A vector whose components are fresh uniform samples between the two
    /// bounds.
    pub fn random_range(lo: Scalar, hi: Scalar) -> (v: Vec3)
        requires
            lo.is_finite_s(),
            hi.is_finite_s(),
            lo.wf(),
            lo.raw() <= hi.raw(),
        ensures
            v.wf(),
            v.x.is_finite_s() && lo.raw() <= v.x.raw() <= hi.raw(),
            v.y.is_finite_s() && lo.raw() <= v.y.raw() <= hi.raw(),
            v.z.is_finite_s() && lo.raw() <= v.z.raw() <= hi.raw(),
    {
        let a = lo.raw_i64();
        let b = hi.raw_i64();
        Vec3 {
            x: Scalar::Fin(random_raw(a, b)),
            y: Scalar::Fin(random_raw(a, b)),
            z: Scalar::Fin(random_raw(a, b)),
        }
    }

    /// A fully random vector, drawn from a range that keeps well clear of
    /// the representable extremes.
    pub fn random() -> (v: Vec3)
        ensures
            v.wf(),
            v.x.is_finite_s() && -1_000_000_000_000_000_000 <= v.x.raw() <= 1_000_000_000_000_000_000,
            v.y.is_finite_s() && -1_000_000_000_000_000_000 <= v.y.raw() <= 1_000_000_000_000_000_000,
            v.z.is_finite_s() && -1_000_000_000_000_000_000 <= v.z.raw() <= 1_000_000_000_000_000_000,
    {
        Self::random_range(Scalar::Fin(-1_000_000_000_000_000_000), Scalar::Fin(1_000_000_000_000_000_000))
    }

    /// Rejection sampling of the unit ball: uniform cube samples until one
    /// lands strictly inside.  The retry count is bounded so that the
    /// function provably terminates; a miss on every attempt (probability
    /// vanishing in practice) falls back to a fixed interior point.
    pub fn random_unit_sphere() -> (v: Vec3)
        ensures
            v.in_unit_ball(),
            v.wf(),
    {
        let one = Scalar::one();
        let mut attempts: u8 = 64;
        while attempts > 0
            invariant
                one == Scalar::Fin(SCALE),
            decreases attempts,
        {
            let v = Self::random_range(Scalar::Fin(-SCALE), Scalar::Fin(SCALE));
            if v.length_squared().lt(one) {
                return v;
            }
            attempts = attempts - 1;
        }
        let f = Vec3 { x: Scalar::Fin(50_000_000), y: Scalar::Fin(0), z: Scalar::Fin(0) };
        proof {
            let h = Scalar::Fin(50_000_000i64);
            let z = Scalar::Fin(0i64);
            assert(50_000_000int * 50_000_000int / 100_000_000int == 25_000_000int)
                by (nonlinear_arith);
            assert(abs(0int) == 0nat);
            assert((abs(0int) as int) * (abs(0int) as int) == 0int);
            assert(h.spec_mul(h) == Scalar::Fin(25_000_000i64));
            assert(z.spec_mul(z) == Scalar::Fin(0i64));
            assert(f.spec_length_squared() == Scalar::Fin(25_000_000i64));
        }
        f
    }

    /// A random direction of unit length: a unit-ball sample, normalized.
    pub fn random_unit_vec() -> (v: Vec3)
        ensures
            Vec3::is_unit_sample(v),
    {
        let s = Self::random_unit_sphere();
        let v = s.unit_vector();
        proof {
            assert(s.in_unit_ball() && v == s.spec_unit());
        }
        v
    }

    /// A unit-ball sample on the side of the given normal: the raw sample if
    /// its projection on the normal is nonnegative, else its opposite.
    pub fn random_on_hemisphere(normal: Vec3) -> (v: Vec3)
        ensures
            exists|s: Vec3|
                #[trigger] s.in_unit_ball() && v == (if Scalar::Fin(0i64).spec_le(
                    s.spec_dot(normal),
                ) {
                    s
                } else {
                    Vec3::spec_zero().spec_sub(s)
                }),
    {
        let v_sp = Self::random_unit_sphere();
        if v_sp.dot(&normal).ge(Scalar::zero()) {
            proof {
                assert(v_sp.in_unit_ball());
            }
            v_sp
        } else {
            let r = Vec3::zero().sub(v_sp);
            proof {
                assert(v_sp.in_unit_ball());
            }
            r
        }
    }
}

impl core::convert::From<[Scalar; 3]> for Vec3 {
    fn from(value: [Scalar; 3]) -> (v: Vec3) {
        Vec3 { x: value[0], y: value[1], z: value[2] }
    }
}

impl vstd::std_specs::convert::FromSpecImpl<[Scalar; 3]> for Vec3 {
    open spec fn obeys_from_spec() -> bool {
        true
    }

    open spec fn from_spec(value: [Scalar; 3]) -> Vec3 {
        Vec3 { x: value[0], y: value[1], z: value[2] }
    }
}

impl core::default::Default for Vec3 {
    /// The zero vector, as the default scalar is zero.
    fn default() -> (v: Vec3)
        ensures
            v == Vec3::spec_zero(),
    {
        Vec3::zero()
    }
}

/// Projecting on the zero-minus of a vector yields the numeric opposite of
/// the projection on the vector itself.
pub proof fn lemma_dot_flip(d: Vec3, w: Vec3)
    requires
        d.wf(),
        w.wf(),
    ensures
        crate::scalar::opp(d.spec_dot(w), d.spec_dot(Vec3::spec_zero().spec_sub(w))),
{
    crate::scalar::lemma_mul_opp(d.x, w.x);
    crate::scalar::lemma_mul_opp(d.y, w.y);
    crate::scalar::lemma_mul_opp(d.z, w.z);
    crate::scalar::lemma_add_opp(
        d.x.spec_mul(w.x),
        d.x.spec_mul(Scalar::Fin(0i64).spec_sub(w.x)),
        d.y.spec_mul(w.y),
        d.y.spec_mul(Scalar::Fin(0i64).spec_sub(w.y)),
    );
    crate::scalar::lemma_add_opp(
        d.x.spec_mul(w.x).spec_add(d.y.spec_mul(w.y)),
        d.x.spec_mul(Scalar::Fin(0i64).spec_sub(w.x)).spec_add(
            d.y.spec_mul(Scalar::Fin(0i64).spec_sub(w.y)),
        ),
        d.z.spec_mul(w.z),
        d.z.spec_mul(Scalar::Fin(0i64).spec_sub(w.z)),
    );
}

/// The exact (un-rounded) dot product over integer component triples.
pub open spec fn spec_dot_exact(a: (int, int, int), b: (int, int, int)) -> int {
    a.0 * b.0 + a.1 * b.1 + a.2 * b.2
}

/// The exact reflection map over integer component triples, scaled through
/// by `k` to stay in the integers: `k v - 2 (v . n) n`.  The executable
/// `reflect` evaluates this map at `k = SCALE * SCALE` with each step
/// rounded back to the fixed-point grid.
pub open spec fn spec_reflect_exact(v: (int, int, int), n: (int, int, int), k: int) -> (
    int,
    int,
    int,
) {
    let d = spec_dot_exact(v, n);
    (k * v.0 - 2 * d * n.0, k * v.1 - 2 * d * n.1, k * v.2 - 2 * d * n.2)
}

/// Reflection is an involution: about a normal of squared length `k`,
/// reflecting twice returns the original vector (scaled by `k * k`, the two
/// passes of the scale-through factor).
pub proof fn lemma_reflect_involution(v: (int, int, int), n: (int, int, int), k: int)
    requires
        spec_dot_exact(n, n) == k,
    ensures
        spec_reflect_exact(spec_reflect_exact(v, n, k), n, k) == (
            k * k * v.0,
            k * k * v.1,
            k * k * v.2,
        ),
{
    let d = spec_dot_exact(v, n);
    let r0 = k * v.0 - 2 * d * n.0;
    let r1 = k * v.1 - 2 * d * n.1;
    let r2 = k * v.2 - 2 * d * n.2;
    let d2 = spec_dot_exact((r0, r1, r2), n);
    assert(r0 * n.0 == k * (v.0 * n.0) - 2 * d * (n.0 * n.0)) by (nonlinear_arith)
        requires
            r0 == k * v.0 - 2 * d * n.0,
    ;
    assert(r1 * n.1 == k * (v.1 * n.1) - 2 * d * (n.1 * n.1)) by (nonlinear_arith)
        requires
            r1 == k * v.1 - 2 * d * n.1,
    ;
    assert(r2 * n.2 == k * (v.2 * n.2) - 2 * d * (n.2 * n.2)) by (nonlinear_arith)
        requires
            r2 == k * v.2 - 2 * d * n.2,
    ;
    assert(k * d == k * (v.0 * n.0) + k * (v.1 * n.1) + k * (v.2 * n.2)) by (nonlinear_arith)
        requires
            d == v.0 * n.0 + v.1 * n.1 + v.2 * n.2,
    ;
    assert(2 * d * (n.0 * n.0) + 2 * d * (n.1 * n.1) + 2 * d * (n.2 * n.2) == 2 * d * k)
        by (nonlinear_arith)
        requires
            n.0 * n.0 + n.1 * n.1 + n.2 * n.2 == k,
    ;
    assert(2 * d * k == 2 * (k * d)) by (nonlinear_arith);
    assert(d2 == -(k * d));
    assert(k * r0 - 2 * d2 * n.0 == k * k * v.0) by (nonlinear_arith)
        requires
            r0 == k * v.0 - 2 * d * n.0,
            d2 == -(k * d),
    ;
    assert(k * r1 - 2 * d2 * n.1 == k * k * v.1) by (nonlinear_arith)
        requires
            r1 == k * v.1 - 2 * d * n.1,
            d2 == -(k * d),
    ;
    assert(k * r2 - 2 * d2 * n.2 == k * k * v.2) by (nonlinear_arith)
        requires
            r2 == k * v.2 - 2 * d * n.2,
            d2 == -(k * d),
    ;
}

/// The squared length of a vector, recovered by squaring its length:
/// `length` is the rounded-down square root, so its square undershoots the
/// squared length by at most two units in the last place of the root.
pub proof fn lemma_length_squares(v: Vec3, s: i64)
    requires
        v.spec_length_squared() == Scalar::Fin(s),
        0 <= s,
    ensures
        v.spec_length() == Scalar::Fin(Scalar::sqrt_floor(s * SCALE) as i64),
        (v.spec_length().spec_mul(v.spec_length()) matches Scalar::Fin(sq) && sq <= s <= sq + 2
            * (Scalar::sqrt_floor(s * SCALE) / (SCALE as int)) + 2),
{
    let n = s * SCALE;
    assert(0 <= n) by (nonlinear_arith)
        requires
            0 <= s,
            n == s * SCALE,
            SCALE == 100_000_000i64,
    ;
    crate::scalar::lemma_sqrt_floor_bounds(n);
    let q = Scalar::sqrt_floor(n);
    if s == 0 {
        assert(n == 0) by (nonlinear_arith)
            requires
                n == s * SCALE,
                s == 0,
        ;
        assert(0int * 0int <= 0int) by (nonlinear_arith);
        assert(0int < 1int * 1int) by (nonlinear_arith);
        crate::scalar::lemma_sqrt_floor_unique(0, 0);
        assert(v.spec_length() == Scalar::Fin(0i64));
        assert(abs(0int) * abs(0int) == 0int);
        assert(0int / (SCALE as int) == 0int) by (nonlinear_arith);
    } else {
        assert(n <= (RAW_MAX as int) * (SCALE as int)) by (nonlinear_arith)
            requires
                n == s * SCALE,
                0 <= s <= RAW_MAX as int,
                SCALE == 100_000_000i64,
        ;
        // The root is positive and fits the raw range.
        assert(q <= RAW_MAX as int) by (nonlinear_arith)
            requires
                0 <= q,
                q * q <= n,
                n <= (RAW_MAX as int) * (SCALE as int),
        ;
        let l = v.spec_length();
        assert(l == Scalar::Fin(q as i64));
        let sq = (abs(q) as int) * (abs(q) as int) / (SCALE as int);
        assert((abs(q) as int) == q);
        // Squaring the rounded-down root undershoots: q * q <= n, so
        // q * q / SCALE <= n / SCALE == s.
        assert(q * q / (SCALE as int) <= s) by (nonlinear_arith)
            requires
                q * q <= n,
                n == s * SCALE,
                0 <= s,
                SCALE == 100_000_000i64,
        ;
        // And overshoots by little: with q^2 and q split by the scale,
        // n <= q^2 + 2 q pins s below qq + 2 qd + 3.
        let sc = SCALE as int;
        let qq = q * q / sc;
        let qd = q / sc;
        vstd::arithmetic::div_mod::lemma_fundamental_div_mod(q * q, sc);
        vstd::arithmetic::div_mod::lemma_fundamental_div_mod(q, sc);
        vstd::arithmetic::div_mod::lemma_mod_division_less_than_divisor(q * q, sc);
        vstd::arithmetic::div_mod::lemma_mod_division_less_than_divisor(q, sc);
        assert(n <= q * q + 2 * q) by (nonlinear_arith)
            requires
                n < (q + 1) * (q + 1),
        ;
        assert(s <= qq + 2 * qd + 2) by (nonlinear_arith)
            requires
                n == s * sc,
                n <= q * q + 2 * q,
                q * q == sc * qq + q * q % sc,
                q == sc * qd + q % sc,
                0 <= q * q % sc < sc,
                0 <= q % sc < sc,
                sc == 100_000_000,
        ;
        assert(sq <= RAW_MAX as int);
        assert(l.spec_mul(l) == Scalar::Fin(sq as i64));
    }
}

/// A normalized vector has length one, to within a few grid steps: for a
/// vector at least one unit long whose components stay in the bulk of the
/// range, the squared length of `unit_vector`'s result lands within sixteen
/// raw steps of one, and its length within nine.  (For vectors much shorter
/// than one the division's rounding overwhelms the quotient, and no such
/// bound holds.)
pub proof fn lemma_unit_vector_length(v: Vec3)
    requires
        v.x.is_finite_s(),
        v.y.is_finite_s(),
        v.z.is_finite_s(),
        -10_000_000_000_000 <= v.x.raw() <= 10_000_000_000_000,
        -10_000_000_000_000 <= v.y.raw() <= 10_000_000_000_000,
        -10_000_000_000_000 <= v.z.raw() <= 10_000_000_000_000,
        SCALE as int <= v.spec_length_squared().raw(),
    ensures
        (v.spec_unit().spec_length_squared() matches Scalar::Fin(t) && (SCALE as int) - 16 <= t
            <= (SCALE as int) + 6),
        (v.spec_unit().spec_length() matches Scalar::Fin(r) && (SCALE as int) - 9 <= r <= (
        SCALE as int) + 2),
{
    let sc = SCALE as int;
    let k = 10_000_000_000_000int;
    let ma = abs(v.x.raw()) as int;
    let mb = abs(v.y.raw()) as int;
    let mc = abs(v.z.raw()) as int;

    // The squared length is the sum of the three rounded squares, and the
    // bounds keep every step clear of saturation.
    let tx = ma * ma / sc;
    let ty = mb * mb / sc;
    let tz = mc * mc / sc;
    assert(ma * ma <= k * k && mb * mb <= k * k && mc * mc <= k * k) by (nonlinear_arith)
        requires
            0 <= ma <= k,
            0 <= mb <= k,
            0 <= mc <= k,
            k == 10_000_000_000_000int,
    ;
    vstd::arithmetic::div_mod::lemma_div_pos_is_pos(ma * ma, sc);
    vstd::arithmetic::div_mod::lemma_div_pos_is_pos(mb * mb, sc);
    vstd::arithmetic::div_mod::lemma_div_pos_is_pos(mc * mc, sc);
    vstd::arithmetic::div_mod::lemma_div_is_ordered(ma * ma, k * k, sc);
    vstd::arithmetic::div_mod::lemma_div_is_ordered(mb * mb, k * k, sc);
    vstd::arithmetic::div_mod::lemma_div_is_ordered(mc * mc, k * k, sc);
    assert(k * k / sc == 1_000_000_000_000_000_000int) by (nonlinear_arith)
        requires
            k == 10_000_000_000_000int,
            sc == 100_000_000,
    ;
    assert(v.x.spec_mul(v.x) == Scalar::Fin(tx as i64));
    assert(v.y.spec_mul(v.y) == Scalar::Fin(ty as i64));
    assert(v.z.spec_mul(v.z) == Scalar::Fin(tz as i64));
    let s = tx + ty + tz;
    assert(v.spec_length_squared() == Scalar::Fin(s as i64));
    assert(sc <= s);

    // The length: the rounded-down square root of the scaled squared length.
    let n = s * sc;
    assert(0 <= n && n <= 3_000_000_000_000_000_000 * sc) by (nonlinear_arith)
        requires
            n == s * sc,
            0 <= s <= 3_000_000_000_000_000_000,
            sc == 100_000_000,
    ;
    crate::scalar::lemma_sqrt_floor_bounds(n);
    let l = Scalar::sqrt_floor(n);
    assert(sc <= l) by (nonlinear_arith)
        requires
            sc * sc <= n,
            n < (l + 1) * (l + 1),
            0 <= l,
            sc == 100_000_000,
    ;
    assert(sc * sc <= n) by (nonlinear_arith)
        requires
            n == s * sc,
            sc <= s,
            sc == 100_000_000,
    ;
    assert(l <= 20_000_000_000_000) by (nonlinear_arith)
        requires
            l * l <= n,
            n <= 3_000_000_000_000_000_000 * 100_000_000int,
            0 <= l,
    ;
    assert(v.spec_length() == Scalar::Fin(l as i64));

    // The exact sum of squares brackets the rounded one.
    let m2 = ma * ma + mb * mb + mc * mc;
    vstd::arithmetic::div_mod::lemma_fundamental_div_mod(ma * ma, sc);
    vstd::arithmetic::div_mod::lemma_fundamental_div_mod(mb * mb, sc);
    vstd::arithmetic::div_mod::lemma_fundamental_div_mod(mc * mc, sc);
    vstd::arithmetic::div_mod::lemma_mod_division_less_than_divisor(ma * ma, sc);
    vstd::arithmetic::div_mod::lemma_mod_division_less_than_divisor(mb * mb, sc);
    vstd::arithmetic::div_mod::lemma_mod_division_less_than_divisor(mc * mc, sc);
    assert(s * sc <= m2 && m2 <= s * sc + 3 * sc - 3) by (nonlinear_arith)
        requires
            ma * ma == sc * tx + ma * ma % sc,
            mb * mb == sc * ty + mb * mb % sc,
            mc * mc == sc * tz + mc * mc % sc,
            0 <= ma * ma % sc < sc,
            0 <= mb * mb % sc < sc,
            0 <= mc * mc % sc < sc,
            s == tx + ty + tz,
            m2 == ma * ma + mb * mb + mc * mc,
            sc == 100_000_000,
    ;
    assert(m2 <= l * l + 2 * l + 3 * sc) by (nonlinear_arith)
        requires
            m2 <= s * sc + 3 * sc - 3,
            n == s * sc,
            n < (l + 1) * (l + 1),
            sc == 100_000_000,
    ;

    // Each component of the unit vector: the scaled magnitude divided by
    // the length, rounded toward zero.
    let wx = ma * sc / l;
    let wy = mb * sc / l;
    let wz = mc * sc / l;
    vstd::arithmetic::div_mod::lemma_div_pos_is_pos(ma * sc, sc);
    assert(0 <= ma * sc && 0 <= mb * sc && 0 <= mc * sc) by (nonlinear_arith)
        requires
            0 <= ma,
            0 <= mb,
            0 <= mc,
            sc == 100_000_000,
    ;
    vstd::arithmetic::div_mod::lemma_div_pos_is_pos(ma * sc, l);
    vstd::arithmetic::div_mod::lemma_div_pos_is_pos(mb * sc, l);
    vstd::arithmetic::div_mod::lemma_div_pos_is_pos(mc * sc, l);
    // Each magnitude stays below the length plus one scale: its square is
    // bounded by the exact sum of squares.
    assert(ma <= l + sc && mb <= l + sc && mc <= l + sc) by (nonlinear_arith)
        requires
            ma * ma <= m2,
            mb * mb <= m2,
            mc * mc <= m2,
            m2 <= l * l + 2 * l + 3 * sc,
            0 <= ma,
            0 <= mb,
            0 <= mc,
            sc <= l,
            sc == 100_000_000,
    ;
    assert(ma * ma <= m2 && mb * mb <= m2 && mc * mc <= m2) by (nonlinear_arith)
        requires
            m2 == ma * ma + mb * mb + mc * mc,
            0 <= ma * ma,
            0 <= mb * mb,
            0 <= mc * mc,
    ;
    // So each quotient stays below twice the scale.
    assert(ma * sc <= 2 * sc * l && mb * sc <= 2 * sc * l && mc * sc <= 2 * sc * l)
        by (nonlinear_arith)
        requires
            ma <= l + sc,
            mb <= l + sc,
            mc <= l + sc,
            sc <= l,
            sc == 100_000_000,
    ;
    vstd::arithmetic::div_mod::lemma_div_is_ordered(ma * sc, 2 * sc * l, l);
    vstd::arithmetic::div_mod::lemma_div_is_ordered(mb * sc, 2 * sc * l, l);
    vstd::arithmetic::div_mod::lemma_div_is_ordered(mc * sc, 2 * sc * l, l);
    assert(2 * sc * l / l == 2 * sc) by {
        vstd::arithmetic::div_mod::lemma_div_multiples_vanish(2 * sc, l);
        assert(2 * sc * l == l * (2 * sc)) by (nonlinear_arith);
    };
    assert(wx <= 2 * sc && wy <= 2 * sc && wz <= 2 * sc);

    // The unit vector's components carry exactly these magnitudes.
    let u = v.spec_unit();
    assert(u.x.is_finite_s() && abs(u.x.raw()) == wx);
    assert(u.y.is_finite_s() && abs(u.y.raw()) == wy);
    assert(u.z.is_finite_s() && abs(u.z.raw()) == wz);

    // Its squared length is the rounded sum of their squares.
    let ex = wx * wx / sc;
    let ey = wy * wy / sc;
    let ez = wz * wz / sc;
    assert(wx * wx <= 2 * sc * (2 * sc) && wy * wy <= 2 * sc * (2 * sc) && wz * wz <= 2 * sc * (2
        * sc)) by (nonlinear_arith)
        requires
            0 <= wx <= 2 * sc,
            0 <= wy <= 2 * sc,
            0 <= wz <= 2 * sc,
            sc == 100_000_000,
    ;
    vstd::arithmetic::div_mod::lemma_div_pos_is_pos(wx * wx, sc);
    vstd::arithmetic::div_mod::lemma_div_pos_is_pos(wy * wy, sc);
    vstd::arithmetic::div_mod::lemma_div_pos_is_pos(wz * wz, sc);
    vstd::arithmetic::div_mod::lemma_div_is_ordered(wx * wx, 2 * sc * (2 * sc), sc);
    vstd::arithmetic::div_mod::lemma_div_is_ordered(wy * wy, 2 * sc * (2 * sc), sc);
    vstd::arithmetic::div_mod::lemma_div_is_ordered(wz * wz, 2 * sc * (2 * sc), sc);
    assert(2 * sc * (2 * sc) / sc == 4 * sc) by (nonlinear_arith)
        requires
            sc == 100_000_000,
    ;
    assert(u.x.spec_mul(u.x) == Scalar::Fin(ex as i64));
    assert(u.y.spec_mul(u.y) == Scalar::Fin(ey as i64));
    assert(u.z.spec_mul(u.z) == Scalar::Fin(ez as i64));
    let t = ex + ey + ez;
    assert(u.spec_length_squared() == Scalar::Fin(t as i64));

    // Upper bound: the quotients undershoot the real ratios, so the sum of
    // their squares stays within six scale steps above one.
    vstd::arithmetic::div_mod::lemma_fundamental_div_mod(ma * sc, l);
    vstd::arithmetic::div_mod::lemma_fundamental_div_mod(mb * sc, l);
    vstd::arithmetic::div_mod::lemma_fundamental_div_mod(mc * sc, l);
    vstd::arithmetic::div_mod::lemma_mod_division_less_than_divisor(ma * sc, l);
    vstd::arithmetic::div_mod::lemma_mod_division_less_than_divisor(mb * sc, l);
    vstd::arithmetic::div_mod::lemma_mod_division_less_than_divisor(mc * sc, l);
    assert(l * wx <= ma * sc && ma * sc < l * (wx + 1)) by (nonlinear_arith)
        requires
            ma * sc == l * wx + (ma * sc) % l,
            0 <= (ma * sc) % l < l,
    ;
    assert(l * wy <= mb * sc && mb * sc < l * (wy + 1)) by (nonlinear_arith)
        requires
            mb * sc == l * wy + (mb * sc) % l,
            0 <= (mb * sc) % l < l,
    ;
    assert(l * wz <= mc * sc && mc * sc < l * (wz + 1)) by (nonlinear_arith)
        requires
            mc * sc == l * wz + (mc * sc) % l,
            0 <= (mc * sc) % l < l,
    ;
    let w2 = wx * wx + wy * wy + wz * wz;
    assert(l * l * (wx * wx) <= sc * sc * (ma * ma)) by (nonlinear_arith)
        requires
            0 <= l,
            0 <= wx,
            l * wx <= ma * sc,
    ;
    assert(l * l * (wy * wy) <= sc * sc * (mb * mb)) by (nonlinear_arith)
        requires
            0 <= l,
            0 <= wy,
            l * wy <= mb * sc,
    ;
    assert(l * l * (wz * wz) <= sc * sc * (mc * mc)) by (nonlinear_arith)
        requires
            0 <= l,
            0 <= wz,
            l * wz <= mc * sc,
    ;
    assert(l * l * w2 == l * l * (wx * wx) + l * l * (wy * wy) + l * l * (wz * wz))
        by (nonlinear_arith)
        requires
            w2 == wx * wx + wy * wy + wz * wz,
    ;
    assert(sc * sc * m2 == sc * sc * (ma * ma) + sc * sc * (mb * mb) + sc * sc * (mc * mc))
        by (nonlinear_arith)
        requires
            m2 == ma * ma + mb * mb + mc * mc,
    ;
    assert(l * l * w2 <= sc * sc * m2);
    assert(sc * sc * (2 * l + 3 * sc) <= l * l * (6 * sc)) by (nonlinear_arith)
        requires
            sc <= l,
            sc == 100_000_000,
    ;
    assert(w2 <= sc * sc + 6 * sc) by (nonlinear_arith)
        requires
            l * l * w2 <= sc * sc * m2,
            m2 <= l * l + 2 * l + 3 * sc,
            sc * sc * (2 * l + 3 * sc) <= l * l * (6 * sc),
            0 < l,
            sc == 100_000_000,
    ;

    // Lower bound: the quotients overshoot by less than one each, so the
    // sum of their squares stays within thirteen scale steps below one.
    assert(sc * sc * (ma * ma) < l * l * ((wx + 1) * (wx + 1))) by (nonlinear_arith)
        requires
            0 <= ma * sc,
            ma * sc < l * (wx + 1),
            0 <= l,
            0 <= wx,
    ;
    assert(sc * sc * (mb * mb) < l * l * ((wy + 1) * (wy + 1))) by (nonlinear_arith)
        requires
            0 <= mb * sc,
            mb * sc < l * (wy + 1),
            0 <= l,
            0 <= wy,
    ;
    assert(sc * sc * (mc * mc) < l * l * ((wz + 1) * (wz + 1))) by (nonlinear_arith)
        requires
            0 <= mc * sc,
            mc * sc < l * (wz + 1),
            0 <= l,
            0 <= wz,
    ;
    assert(l * l * (w2 + 2 * (wx + wy + wz) + 3) == l * l * ((wx + 1) * (wx + 1)) + l * l * ((wy
        + 1) * (wy + 1)) + l * l * ((wz + 1) * (wz + 1))) by (nonlinear_arith)
        requires
            w2 == wx * wx + wy * wy + wz * wz,
    ;
    assert(sc * sc * m2 < l * l * (w2 + 2 * (wx + wy + wz) + 3));
    assert(l * l * (sc * sc) <= sc * sc * m2) by (nonlinear_arith)
        requires
            l * l <= n,
            n == s * sc,
            s * sc <= m2,
            0 < sc,
    ;
    assert(sc * sc - 13 * sc <= w2) by (nonlinear_arith)
        requires
            l * l * (sc * sc) <= sc * sc * m2,
            sc * sc * m2 < l * l * (w2 + 2 * (wx + wy + wz) + 3),
            wx <= 2 * sc,
            wy <= 2 * sc,
            wz <= 2 * sc,
            0 < l,
            sc == 100_000_000,
    ;

    // Round the sum of squares back to the grid.
    vstd::arithmetic::div_mod::lemma_fundamental_div_mod(wx * wx, sc);
    vstd::arithmetic::div_mod::lemma_fundamental_div_mod(wy * wy, sc);
    vstd::arithmetic::div_mod::lemma_fundamental_div_mod(wz * wz, sc);
    vstd::arithmetic::div_mod::lemma_mod_division_less_than_divisor(wx * wx, sc);
    vstd::arithmetic::div_mod::lemma_mod_division_less_than_divisor(wy * wy, sc);
    vstd::arithmetic::div_mod::lemma_mod_division_less_than_divisor(wz * wz, sc);
    assert(sc - 16 <= t <= sc + 6) by (nonlinear_arith)
        requires
            wx * wx == sc * ex + wx * wx % sc,
            wy * wy == sc * ey + wy * wy % sc,
            wz * wz == sc * ez + wz * wz % sc,
            0 <= wx * wx % sc < sc,
            0 <= wy * wy % sc < sc,
            0 <= wz * wz % sc < sc,
            t == ex + ey + ez,
            w2 == wx * wx + wy * wy + wz * wz,
            sc * sc - 13 * sc <= w2 <= sc * sc + 6 * sc,
            sc == 100_000_000,
    ;

    // And take the square root once more: within nine steps of one.
    let n2 = t * sc;
    assert(0 <= n2 && (sc - 16) * sc <= n2 <= (sc + 6) * sc) by (nonlinear_arith)
        requires
            n2 == t * sc,
            sc - 16 <= t <= sc + 6,
            sc == 100_000_000,
    ;
    crate::scalar::lemma_sqrt_floor_bounds(n2);
    let r = Scalar::sqrt_floor(n2);
    assert(u.spec_length() == Scalar::Fin(r as i64));
    assert(r <= sc + 2) by (nonlinear_arith)
        requires
            r * r <= n2,
            n2 <= (sc + 6) * sc,
            0 <= r,
            sc == 100_000_000,
    ;
    assert(sc - 9 <= r) by (nonlinear_arith)
        requires
            n2 < (r + 1) * (r + 1),
            (sc - 16) * sc <= n2,
            0 <= r,
            sc == 100_000_000,
    ;
}

} // verus!

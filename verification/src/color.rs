//! Colors and their conversion to display pixels.

use crate::scalar::{lemma_sqrt_floor_bounds, Scalar, SCALE};
use crate::vec3::Vec3;
use vstd::prelude::*;

verus! {

/// A color triple (red, green, blue), with linear channel values.
pub type Color = Vec3;

impl Vec3 {
    /// Gamma-2 correction of a linear channel: the square root, with
    /// negative (and not-a-number) input darkened to zero.
    pub open spec fn spec_to_gamma(linear: Scalar) -> Scalar {
        if Scalar::Fin(0i64).spec_le(linear) {
            linear.spec_sqrt()
        } else {
            Scalar::Fin(0i64)
        }
    }

    /// One display channel: clamp to `[0, 0.999]`, gamma-correct, scale by
    /// 256 and truncate to an integer.  Always lands in `[0, 255]`.
    pub open spec fn spec_channel(c: Scalar) -> int {
        let clamped = c.spec_clamp(Scalar::Fin(0i64), Scalar::Fin(99_900_000i64));
        let g = Self::spec_to_gamma(clamped);
        g.spec_mul(Scalar::Fin(25_600_000_000i64)).raw() / (SCALE as int)
    }

    fn to_gamma(linear: Scalar) -> (r: Scalar)
        ensures
            r == Self::spec_to_gamma(linear),
    {
        if linear.ge(Scalar::zero()) {
            linear.sqrt()
        } else {
            Scalar::zero()
        }
    }

    /// One display channel, executable.
    fn channel(c: Scalar) -> (r: u8)
        ensures
            r as int == Self::spec_channel(c),
    {
        let clamped = c.clamp(Scalar::zero(), Scalar::Fin(99_900_000));
        let g = Self::to_gamma(clamped);
        proof {
            lemma_channel_bounds(clamped, g);
        }
        let m = g.mul(Scalar::Fin(25_600_000_000));
        let raw = m.raw_i64();
        let q = (raw as u64) / (SCALE as u64);
        q as u8
    }

    /// The corrected-for-display pixel of this color: each channel clamped,
    /// gamma-corrected and quantized to eight bits.
    pub fn to_pixel(self) -> (p: (u8, u8, u8))
        ensures
            p.0 as int == Self::spec_channel(self.x),
            p.1 as int == Self::spec_channel(self.y),
            p.2 as int == Self::spec_channel(self.z),
    {
        (Self::channel(self.x), Self::channel(self.y), Self::channel(self.z))
    }
}

/// After the clamp, the gamma-corrected channel is finite, nonnegative and
/// below one, so scaling by 256 stays finite and quantizes below 256.
proof fn lemma_channel_bounds(c: Scalar, g: Scalar)
    requires
        g == Vec3::spec_to_gamma(c.spec_clamp(Scalar::Fin(0i64), Scalar::Fin(99_900_000i64))),
    ensures
        g.is_finite_s(),
        0 <= g.raw() < SCALE as int,
        g.spec_mul(Scalar::Fin(25_600_000_000i64)).is_finite_s(),
        0 <= g.spec_mul(Scalar::Fin(25_600_000_000i64)).raw(),
        g.spec_mul(Scalar::Fin(25_600_000_000i64)).raw() / (SCALE as int) < 256,
{
    let clamped = c.spec_clamp(Scalar::Fin(0i64), Scalar::Fin(99_900_000i64));
    // The clamp leaves not-a-number, or a finite value between the bounds.
    assert(clamped == Scalar::Nan || (clamped.is_finite_s() && 0 <= clamped.raw()
        <= 99_900_000));
    // Gamma correction of such a value stays finite, below one.
    if clamped.is_finite_s() && clamped.raw() > 0 {
        let n = clamped.raw() * (SCALE as int);
        lemma_sqrt_floor_bounds(n);
        let sf = Scalar::sqrt_floor(n);
        assert(n <= 9_990_000_000_000_000) by (nonlinear_arith)
            requires
                0 <= clamped.raw() <= 99_900_000,
                n == clamped.raw() * (SCALE as int),
                SCALE == 100_000_000i64,
        ;
        assert(sf < 100_000_000) by (nonlinear_arith)
            requires
                0 <= sf,
                sf * sf <= n,
                n <= 9_990_000_000_000_000,
        ;
    }
    assert(g.is_finite_s() && 0 <= g.raw() < SCALE as int);
    // Scaling by 256 multiplies the raw value by exactly 256.
    let m = g.spec_mul(Scalar::Fin(25_600_000_000i64));
    assert((vstd::math::abs(g.raw()) as int) * 25_600_000_000 / (SCALE as int) == g.raw() * 256)
        by (nonlinear_arith)
        requires
            0 <= g.raw(),
            SCALE == 100_000_000i64,
    ;
    assert(m.is_finite_s() && m.raw() == g.raw() * 256);
    assert(m.raw() < 256 * (SCALE as int)) by (nonlinear_arith)
        requires
            m.raw() == g.raw() * 256,
            g.raw() < SCALE as int,
            SCALE == 100_000_000i64,
    ;
    assert(m.raw() / (SCALE as int) < 256) by (nonlinear_arith)
        requires
            0 <= m.raw() < 256 * (SCALE as int),
            SCALE == 100_000_000i64,
    ;
}

} // verus!

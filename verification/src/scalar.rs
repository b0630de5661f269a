//! The numeric element type of the tracer.
//!
//! Colors, points and directions are made of `Scalar` values: a fixed-point
//! number line extended with the special values that hardware floating point
//! would produce on the same paths.  A finite scalar with raw integer `r`
//! stands for the rational number `r / SCALE`; beside the finite values there
//! are a negative zero, two infinities and a not-a-number value, and the
//! arithmetic propagates them the way IEEE arithmetic does (an infinity times
//! zero is not a number, a nonzero value divided by zero is a signed
//! infinity, and so on).  Finite results saturate at the largest raw
//! magnitude instead of wrapping.

use vstd::math::abs;
use vstd::prelude::*;

verus! {

/// Denominator of the fixed-point representation: a finite scalar with raw
/// integer `r` stands for the rational number `r / SCALE`.
pub const SCALE: i64 = 100_000_000;

/// Largest raw magnitude a finite scalar may carry.  Finite arithmetic
/// saturates at `[-RAW_MAX, RAW_MAX]`, so a raw value is never `i64::MIN`
/// once it has passed through any operation.
pub const RAW_MAX: i64 = i64::MAX;

#[derive(Clone, Copy, Debug, PartialEq, Eq, Structural)]
pub enum Scalar {
    /// Not a number: the result of an undefined operation.
    Nan,
    /// Negative infinity.
    NegInf,
    /// Negative zero: equal to zero numerically, negative in sign.
    NegZero,
    /// A finite value; `Fin(r)` stands for `r / SCALE`.
    Fin(i64),
    /// Positive infinity.
    PosInf,
}

impl Scalar {
    /// Raw integer of a finite value; zero for negative zero.
    pub open spec fn raw(self) -> int {
        match self {
            Scalar::Fin(r) => r as int,
            _ => 0,
        }
    }

    pub open spec fn is_nan_s(self) -> bool {
        self == Scalar::Nan
    }

    pub open spec fn is_finite_s(self) -> bool {
        match self {
            Scalar::Fin(_) => true,
            Scalar::NegZero => true,
            _ => false,
        }
    }

    pub open spec fn is_infinite_s(self) -> bool {
        self == Scalar::PosInf || self == Scalar::NegInf
    }

    /// Numerically zero: positive or negative zero.
    pub open spec fn is_zero_s(self) -> bool {
        self == Scalar::Fin(0i64) || self == Scalar::NegZero
    }

    /// The raw value of a finite scalar stays strictly above `i64::MIN`,
    /// where negation would saturate; every operation's result satisfies
    /// this.
    pub open spec fn wf(self) -> bool {
        match self {
            Scalar::Fin(r) => -(RAW_MAX as int) <= r as int,
            _ => true,
        }
    }

    /// The sign bit: true for negative infinity, negative zero and negative
    /// finite values.
    pub open spec fn sign_neg(self) -> bool {
        match self {
            Scalar::NegInf => true,
            Scalar::NegZero => true,
            Scalar::Fin(r) => r < 0,
            _ => false,
        }
    }

    /// Saturation of a raw result into the representable range.
    pub open spec fn spec_clamp_raw(v: int) -> int {
        if v > RAW_MAX as int {
            RAW_MAX as int
        } else if v < -(RAW_MAX as int) {
            -(RAW_MAX as int)
        } else {
            v
        }
    }

    pub open spec fn spec_add(self, rhs: Scalar) -> Scalar {
        match (self, rhs) {
            (Scalar::Nan, _) => Scalar::Nan,
            (_, Scalar::Nan) => Scalar::Nan,
            (Scalar::PosInf, Scalar::NegInf) => Scalar::Nan,
            (Scalar::NegInf, Scalar::PosInf) => Scalar::Nan,
            (Scalar::PosInf, _) => Scalar::PosInf,
            (_, Scalar::PosInf) => Scalar::PosInf,
            (Scalar::NegInf, _) => Scalar::NegInf,
            (_, Scalar::NegInf) => Scalar::NegInf,
            (Scalar::NegZero, Scalar::NegZero) => Scalar::NegZero,
            (Scalar::NegZero, Scalar::Fin(b)) => Scalar::Fin(b),
            (Scalar::Fin(a), Scalar::NegZero) => Scalar::Fin(a),
            (Scalar::Fin(a), Scalar::Fin(b)) => Scalar::Fin(Self::spec_clamp_raw(a + b) as i64),
        }
    }

    pub open spec fn spec_neg(self) -> Scalar {
        match self {
            Scalar::Nan => Scalar::Nan,
            Scalar::PosInf => Scalar::NegInf,
            Scalar::NegInf => Scalar::PosInf,
            Scalar::NegZero => Scalar::Fin(0i64),
            Scalar::Fin(r) => if r == 0i64 {
                Scalar::NegZero
            } else {
                Scalar::Fin(Self::spec_clamp_raw(-r) as i64)
            },
        }
    }

    /// A saturated magnitude with a sign, the common tail of multiplication
    /// and division: magnitude zero yields a signed zero.
    pub open spec fn from_mag(m: int, neg: bool) -> Scalar {
        let c = Self::spec_clamp_raw(m);
        if c == 0 {
            if neg {
                Scalar::NegZero
            } else {
                Scalar::Fin(0i64)
            }
        } else {
            if neg {
                Scalar::Fin((-c) as i64)
            } else {
                Scalar::Fin(c as i64)
            }
        }
    }

    pub open spec fn spec_mul(self, rhs: Scalar) -> Scalar {
        if self.is_nan_s() || rhs.is_nan_s() {
            Scalar::Nan
        } else if self.is_infinite_s() || rhs.is_infinite_s() {
            if self.is_zero_s() || rhs.is_zero_s() {
                Scalar::Nan
            } else if self.sign_neg() != rhs.sign_neg() {
                Scalar::NegInf
            } else {
                Scalar::PosInf
            }
        } else {
            Self::from_mag((abs(self.raw()) as int) * (abs(rhs.raw()) as int) / (SCALE as int),
                self.sign_neg() != rhs.sign_neg())
        }
    }

    pub open spec fn spec_div(self, rhs: Scalar) -> Scalar {
        if self.is_nan_s() || rhs.is_nan_s() {
            Scalar::Nan
        } else if self.is_infinite_s() && rhs.is_infinite_s() {
            Scalar::Nan
        } else if self.is_infinite_s() {
            if self.sign_neg() != rhs.sign_neg() {
                Scalar::NegInf
            } else {
                Scalar::PosInf
            }
        } else if rhs.is_infinite_s() {
            if self.sign_neg() != rhs.sign_neg() {
                Scalar::NegZero
            } else {
                Scalar::Fin(0i64)
            }
        } else if rhs.is_zero_s() {
            if self.is_zero_s() {
                Scalar::Nan
            } else if self.sign_neg() != rhs.sign_neg() {
                Scalar::NegInf
            } else {
                Scalar::PosInf
            }
        } else {
            Self::from_mag((abs(self.raw()) as int) * (SCALE as int) / (abs(rhs.raw()) as int),
                self.sign_neg() != rhs.sign_neg())
        }
    }

    pub open spec fn spec_sub(self, rhs: Scalar) -> Scalar {
        self.spec_add(rhs.spec_neg())
    }

    /// The integer square root: the greatest `r` with `r * r <= n`.
    pub open spec fn sqrt_floor(n: int) -> int {
        choose|r: int| #![trigger r * r] 0 <= r && r * r <= n && n < (r + 1) * (r + 1)
    }

    pub open spec fn spec_sqrt(self) -> Scalar {
        match self {
            Scalar::Nan => Scalar::Nan,
            Scalar::NegInf => Scalar::Nan,
            Scalar::NegZero => Scalar::NegZero,
            Scalar::PosInf => Scalar::PosInf,
            Scalar::Fin(v) => if v < 0i64 {
                Scalar::Nan
            } else if v == 0i64 {
                Scalar::Fin(0i64)
            } else {
                Scalar::Fin(Self::sqrt_floor(v * SCALE) as i64)
            },
        }
    }

    pub open spec fn spec_lt(self, rhs: Scalar) -> bool {
        if self.is_nan_s() || rhs.is_nan_s() {
            false
        } else {
            match (self, rhs) {
                (Scalar::NegInf, Scalar::NegInf) => false,
                (Scalar::NegInf, _) => true,
                (_, Scalar::NegInf) => false,
                (Scalar::PosInf, _) => false,
                (_, Scalar::PosInf) => true,
                _ => self.raw() < rhs.raw(),
            }
        }
    }

    pub open spec fn spec_le(self, rhs: Scalar) -> bool {
        !self.is_nan_s() && !rhs.is_nan_s() && !rhs.spec_lt(self)
    }

    /// Smaller operand; a not-a-number operand yields the other one.
    pub open spec fn spec_min(self, rhs: Scalar) -> Scalar {
        if self.is_nan_s() {
            rhs
        } else if rhs.is_nan_s() {
            self
        } else if self.spec_lt(rhs) {
            self
        } else {
            rhs
        }
    }

    /// Larger operand; a not-a-number operand yields the other one.
    pub open spec fn spec_max(self, rhs: Scalar) -> Scalar {
        if self.is_nan_s() {
            rhs
        } else if rhs.is_nan_s() {
            self
        } else if self.spec_lt(rhs) {
            rhs
        } else {
            self
        }
    }

    /// Clamp into `[lo, hi]`; not-a-number stays not-a-number.
    pub open spec fn spec_clamp(self, lo: Scalar, hi: Scalar) -> Scalar {
        if self.is_nan_s() {
            Scalar::Nan
        } else if self.spec_lt(lo) {
            lo
        } else if hi.spec_lt(self) {
            hi
        } else {
            self
        }
    }

    /// The finite scalar standing for the integer `i`.
    pub fn from_int(i: i64) -> (r: Scalar)
        requires
            -(RAW_MAX as int) <= i * SCALE <= RAW_MAX as int,
        ensures
            r == Scalar::Fin((i * SCALE) as i64),
    {
        Scalar::Fin(i * SCALE)
    }

    /// The finite scalar with the given raw fixed-point integer.
    pub fn from_raw(raw: i64) -> (r: Scalar)
        ensures
            r == Scalar::Fin(raw),
    {
        Scalar::Fin(raw)
    }

    pub fn is_nan(self) -> (r: bool)
        ensures
            r == self.is_nan_s(),
    {
        match self {
            Scalar::Nan => true,
            _ => false,
        }
    }

    pub fn is_zero(self) -> (r: bool)
        ensures
            r == self.is_zero_s(),
    {
        match self {
            Scalar::Fin(r) => r == 0,
            Scalar::NegZero => true,
            _ => false,
        }
    }

    pub fn neg(self) -> (r: Scalar)
        ensures
            r == self.spec_neg(),
    {
        match self {
            Scalar::Nan => Scalar::Nan,
            Scalar::PosInf => Scalar::NegInf,
            Scalar::NegInf => Scalar::PosInf,
            Scalar::NegZero => Scalar::Fin(0),
            Scalar::Fin(r) => {
                if r == 0 {
                    Scalar::NegZero
                } else if r == i64::MIN {
                    Scalar::Fin(RAW_MAX)
                } else {
                    Scalar::Fin(-r)
                }
            },
        }
    }

    pub fn add(self, rhs: Scalar) -> (r: Scalar)
        ensures
            r == self.spec_add(rhs),
    {
        match (self, rhs) {
            (Scalar::Nan, _) => Scalar::Nan,
            (_, Scalar::Nan) => Scalar::Nan,
            (Scalar::PosInf, Scalar::NegInf) => Scalar::Nan,
            (Scalar::NegInf, Scalar::PosInf) => Scalar::Nan,
            (Scalar::PosInf, _) => Scalar::PosInf,
            (_, Scalar::PosInf) => Scalar::PosInf,
            (Scalar::NegInf, _) => Scalar::NegInf,
            (_, Scalar::NegInf) => Scalar::NegInf,
            (Scalar::NegZero, Scalar::NegZero) => Scalar::NegZero,
            (Scalar::NegZero, Scalar::Fin(b)) => Scalar::Fin(b),
            (Scalar::Fin(a), Scalar::NegZero) => Scalar::Fin(a),
            (Scalar::Fin(a), Scalar::Fin(b)) => Scalar::Fin(clamp_raw(a as i128 + b as i128)),
        }
    }

    pub fn sub(self, rhs: Scalar) -> (r: Scalar)
        ensures
            r == self.spec_sub(rhs),
    {
        self.add(rhs.neg())
    }

    pub fn is_finite(self) -> (r: bool)
        ensures
            r == self.is_finite_s(),
    {
        match self {
            Scalar::Fin(_) => true,
            Scalar::NegZero => true,
            _ => false,
        }
    }

    pub fn is_infinite(self) -> (r: bool)
        ensures
            r == self.is_infinite_s(),
    {
        match self {
            Scalar::PosInf => true,
            Scalar::NegInf => true,
            _ => false,
        }
    }

    pub fn is_sign_negative(self) -> (r: bool)
        ensures
            r == self.sign_neg(),
    {
        match self {
            Scalar::NegInf => true,
            Scalar::NegZero => true,
            Scalar::Fin(v) => v < 0,
            _ => false,
        }
    }

    /// Magnitude of a finite value as a wide unsigned raw integer.
    fn mag_raw(self) -> (m: u128)
        requires
            self.is_finite_s(),
        ensures
            m as int == abs(self.raw()),
    {
        match self {
            Scalar::Fin(v) => {
                if v < 0 {
                    (-(v as i128)) as u128
                } else {
                    v as u128
                }
            },
            _ => 0,
        }
    }

    pub fn mul(self, rhs: Scalar) -> (r: Scalar)
        ensures
            r == self.spec_mul(rhs),
    {
        if self.is_nan() || rhs.is_nan() {
            return Scalar::Nan;
        }
        let neg = self.is_sign_negative() != rhs.is_sign_negative();
        if self.is_infinite() || rhs.is_infinite() {
            if self.is_zero() || rhs.is_zero() {
                Scalar::Nan
            } else if neg {
                Scalar::NegInf
            } else {
                Scalar::PosInf
            }
        } else {
            let am = self.mag_raw();
            let bm = rhs.mag_raw();
            proof {
                assert(am * bm <= ((RAW_MAX as int) + 1) * ((RAW_MAX as int) + 1))
                    by (nonlinear_arith)
                    requires
                        0 <= am <= (RAW_MAX as int) + 1,
                        0 <= bm <= (RAW_MAX as int) + 1,
                ;
            }
            let q = (am * bm) / (SCALE as u128);
            Self::signed_mag(q, neg)
        }
    }

    pub fn div(self, rhs: Scalar) -> (r: Scalar)
        ensures
            r == self.spec_div(rhs),
    {
        if self.is_nan() || rhs.is_nan() {
            return Scalar::Nan;
        }
        let neg = self.is_sign_negative() != rhs.is_sign_negative();
        if self.is_infinite() && rhs.is_infinite() {
            Scalar::Nan
        } else if self.is_infinite() {
            if neg {
                Scalar::NegInf
            } else {
                Scalar::PosInf
            }
        } else if rhs.is_infinite() {
            if neg {
                Scalar::NegZero
            } else {
                Scalar::Fin(0)
            }
        } else if rhs.is_zero() {
            if self.is_zero() {
                Scalar::Nan
            } else if neg {
                Scalar::NegInf
            } else {
                Scalar::PosInf
            }
        } else {
            let am = self.mag_raw();
            let bm = rhs.mag_raw();
            proof {
                assert(am * (SCALE as int) <= ((RAW_MAX as int) + 1) * (SCALE as int))
                    by (nonlinear_arith)
                    requires
                        0 <= am <= (RAW_MAX as int) + 1,
                ;
            }
            let q = (am * (SCALE as u128)) / bm;
            Self::signed_mag(q, neg)
        }
    }

    /// Executable counterpart of `from_mag`.
    fn signed_mag(q: u128, neg: bool) -> (r: Scalar)
        ensures
            r == Self::from_mag(q as int, neg),
    {
        let m: i64 = if q > RAW_MAX as u128 {
            RAW_MAX
        } else {
            q as i64
        };
        if m == 0 {
            if neg {
                Scalar::NegZero
            } else {
                Scalar::Fin(0)
            }
        } else {
            if neg {
                Scalar::Fin(-m)
            } else {
                Scalar::Fin(m)
            }
        }
    }

    pub fn sqrt(self) -> (r: Scalar)
        ensures
            r == self.spec_sqrt(),
    {
        match self {
            Scalar::Nan => Scalar::Nan,
            Scalar::NegInf => Scalar::Nan,
            Scalar::NegZero => Scalar::NegZero,
            Scalar::PosInf => Scalar::PosInf,
            Scalar::Fin(v) => {
                if v < 0 {
                    Scalar::Nan
                } else if v == 0 {
                    Scalar::Fin(0)
                } else {
                    let n = (v as u128) * (SCALE as u128);
                    let q = isqrt(n);
                    proof {
                        lemma_sqrt_floor_unique(n as int, q as int);
                        assert(q * q <= n as int);
                        assert(q <= RAW_MAX as int) by (nonlinear_arith)
                            requires
                                0 <= q,
                                q * q <= n as int,
                                n as int <= (RAW_MAX as int) * (SCALE as int),
                        ;
                    }
                    Scalar::Fin(q as i64)
                }
            },
        }
    }

    pub fn lt(self, rhs: Scalar) -> (r: bool)
        ensures
            r == self.spec_lt(rhs),
    {
        match (self, rhs) {
            (Scalar::Nan, _) => false,
            (_, Scalar::Nan) => false,
            (Scalar::NegInf, Scalar::NegInf) => false,
            (Scalar::NegInf, _) => true,
            (_, Scalar::NegInf) => false,
            (Scalar::PosInf, _) => false,
            (_, Scalar::PosInf) => true,
            (Scalar::NegZero, Scalar::NegZero) => false,
            (Scalar::NegZero, Scalar::Fin(b)) => 0 < b,
            (Scalar::Fin(a), Scalar::NegZero) => a < 0,
            (Scalar::Fin(a), Scalar::Fin(b)) => a < b,
        }
    }

    pub fn le(self, rhs: Scalar) -> (r: bool)
        ensures
            r == self.spec_le(rhs),
    {
        if self.is_nan() || rhs.is_nan() {
            false
        } else {
            !rhs.lt(self)
        }
    }

    pub fn gt(self, rhs: Scalar) -> (r: bool)
        ensures
            r == rhs.spec_lt(self),
    {
        rhs.lt(self)
    }

    pub fn ge(self, rhs: Scalar) -> (r: bool)
        ensures
            r == rhs.spec_le(self),
    {
        rhs.le(self)
    }

    pub fn min(self, rhs: Scalar) -> (r: Scalar)
        ensures
            r == self.spec_min(rhs),
    {
        if self.is_nan() {
            rhs
        } else if rhs.is_nan() {
            self
        } else if self.lt(rhs) {
            self
        } else {
            rhs
        }
    }

    pub fn max(self, rhs: Scalar) -> (r: Scalar)
        ensures
            r == self.spec_max(rhs),
    {
        if self.is_nan() {
            rhs
        } else if rhs.is_nan() {
            self
        } else if self.lt(rhs) {
            rhs
        } else {
            self
        }
    }

    pub fn clamp(self, lo: Scalar, hi: Scalar) -> (r: Scalar)
        ensures
            r == self.spec_clamp(lo, hi),
    {
        if self.is_nan() {
            Scalar::Nan
        } else if self.lt(lo) {
            lo
        } else if hi.lt(self) {
            hi
        } else {
            self
        }
    }

    /// The raw fixed-point integer of a finite value.
    pub fn raw_i64(self) -> (r: i64)
        requires
            self.is_finite_s(),
        ensures
            r as int == self.raw(),
    {
        match self {
            Scalar::Fin(v) => v,
            _ => 0,
        }
    }

    pub fn zero() -> (r: Scalar)
        ensures
            r == Scalar::Fin(0i64),
    {
        Scalar::Fin(0)
    }

    pub fn one() -> (r: Scalar)
        ensures
            r == Scalar::Fin(SCALE),
    {
        Scalar::Fin(SCALE)
    }
}

/// The greatest `r` with `r * r <= n`, found by bisection.
fn isqrt(n: u128) -> (r: u128)
    requires
        n as int <= (RAW_MAX as int) * (SCALE as int),
    ensures
        0 <= r,
        r * r <= n as int,
        (n as int) < (r + 1) * (r + 1),
{
    // 2^45 squared exceeds RAW_MAX * SCALE, so the root lies below it.
    let mut lo: u128 = 0;
    let mut hi: u128 = 35_184_372_088_832;
    proof {
        assert((35_184_372_088_832 as int) * (35_184_372_088_832 as int) > (RAW_MAX as int) * (
        SCALE as int));
    }
    while hi - lo > 1
        invariant
            0 <= lo < hi,
            hi <= 35_184_372_088_832,
            lo * lo <= n as int,
            (n as int) < hi * hi,
        decreases hi - lo,
    {
        let mid = lo + (hi - lo) / 2;
        proof {
            assert(mid * mid <= (35_184_372_088_832 as int) * (35_184_372_088_832 as int))
                by (nonlinear_arith)
                requires
                    0 <= mid <= 35_184_372_088_832,
            ;
        }
        if mid * mid <= n {
            lo = mid;
        } else {
            hi = mid;
        }
    }
    lo
}

/// Two integer square roots of the same value agree, so the bisection result
/// is the unique `sqrt_floor`.
pub proof fn lemma_sqrt_floor_unique(n: int, r: int)
    requires
        0 <= r,
        r * r <= n,
        n < (r + 1) * (r + 1),
    ensures
        Scalar::sqrt_floor(n) == r,
{
    assert(exists|q: int| #![trigger q * q] 0 <= q && q * q <= n && n < (q + 1) * (q + 1)) by {
        assert(0 <= r && r * r <= n && n < (r + 1) * (r + 1));
    }
    let c = Scalar::sqrt_floor(n);
    assert(0 <= c && c * c <= n && n < (c + 1) * (c + 1));
    assert(c == r) by (nonlinear_arith)
        requires
            0 <= r,
            r * r <= n,
            n < (r + 1) * (r + 1),
            0 <= c,
            c * c <= n,
            n < (c + 1) * (c + 1),
    ;
}

/// `b` carries the opposite numeric value of `a`: what negation yields,
/// with the sign of zero ignored.
pub open spec fn opp(a: Scalar, b: Scalar) -> bool {
    ||| (a == Scalar::Nan && b == Scalar::Nan)
    ||| (a == Scalar::PosInf && b == Scalar::NegInf)
    ||| (a == Scalar::NegInf && b == Scalar::PosInf)
    ||| (a.is_finite_s() && b.is_finite_s() && a.raw() == -b.raw())
}

/// Multiplying by the zero-minus of a factor yields the numeric opposite of
/// the product.
pub proof fn lemma_mul_opp(a: Scalar, b: Scalar)
    requires
        a.wf(),
        b.wf(),
    ensures
        opp(a.spec_mul(b), a.spec_mul(Scalar::Fin(0i64).spec_sub(b))),
{
    let bf = Scalar::Fin(0i64).spec_sub(b);
    assert(abs(bf.raw()) == abs(b.raw()));
    assert(bf.is_zero_s() == b.is_zero_s());
}

/// Sums of numeric opposites are numeric opposites: the saturation bounds
/// are symmetric, and a zero's sign does not reach the numeric value.
pub proof fn lemma_add_opp(x: Scalar, xo: Scalar, y: Scalar, yo: Scalar)
    requires
        opp(x, xo),
        opp(y, yo),
    ensures
        opp(x.spec_add(y), xo.spec_add(yo)),
{
}

/// Every nonnegative integer has an integer square root, so `sqrt_floor`
/// satisfies its defining bounds.
pub proof fn lemma_sqrt_floor_bounds(n: int)
    requires
        0 <= n,
    ensures
        0 <= Scalar::sqrt_floor(n),
        Scalar::sqrt_floor(n) * Scalar::sqrt_floor(n) <= n,
        n < (Scalar::sqrt_floor(n) + 1) * (Scalar::sqrt_floor(n) + 1),
    decreases n,
{
    if n == 0 {
        lemma_sqrt_floor_unique(0, 0);
    } else {
        lemma_sqrt_floor_bounds(n - 1);
        let p = Scalar::sqrt_floor(n - 1);
        if n < (p + 1) * (p + 1) {
            lemma_sqrt_floor_unique(n, p);
        } else {
            assert(n == (p + 1) * (p + 1));
            assert((p + 1) * (p + 1) < (p + 2) * (p + 2)) by (nonlinear_arith)
                requires
                    0 <= p,
            ;
            lemma_sqrt_floor_unique(n, p + 1);
        }
    }
}

/// Saturate a wide raw result into the representable `i64` range.
fn clamp_raw(v: i128) -> (r: i64)
    ensures
        r as int == Scalar::spec_clamp_raw(v as int),
{
    if v > RAW_MAX as i128 {
        RAW_MAX
    } else if v < -(RAW_MAX as i128) {
        -RAW_MAX
    } else {
        v as i64
    }
}

} // verus!

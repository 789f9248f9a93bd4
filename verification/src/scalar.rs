//! Binary32 values held by their bit patterns, with the IEEE 754 ordering.

use vstd::prelude::*;
use vstd::arithmetic::power2::{
    lemma_pow2_pos,
    lemma_pow2_strictly_increases,
    lemma_pow2_unfold,
    pow2,
};

verus! {

/// The number of fraction patterns, `2^23`: the magnitude is the biased
/// exponent times this, plus the fraction.
pub const FRACTION_RANGE: u32 = 0x80_0000;

/// The sign occupies bit 31.
pub const SIGN_BIT: u32 = 0x8000_0000;

/// Magnitude of the two infinities; every larger magnitude is a NaN.
pub const INFINITY_BITS: u32 = 0x7F80_0000;

/// Bit pattern of one.
pub const ONE_BITS: u32 = 0x3F80_0000;

/// Bit pattern of the binary32 value nearest to the circle constant.
pub const PI_BITS: u32 = 0x4049_0FDB;

/// An IEEE 754 binary32 value, stored as its 32-bit pattern.
///
/// `==` on `Scalar` compares patterns. Numeric comparison, under which
/// the two zeros are equal and a NaN is unordered, is `lt`, `le` and
/// `same_value`.
#[derive(Clone, Copy, Debug, Default, PartialEq, Eq, Structural)]
pub struct Scalar {
    pub bits: u32,
}

impl Scalar {
    /// The pattern with the sign bit cleared.
    pub open spec fn magnitude(self) -> int {
        if self.bits >= SIGN_BIT {
            self.bits - SIGN_BIT
        } else {
            self.bits as int
        }
    }

    /// The sign bit is set. Holds of `-0.0` and of half the NaNs too.
    pub open spec fn sign_negative(self) -> bool {
        self.bits >= SIGN_BIT
    }

    pub open spec fn nan(self) -> bool {
        self.magnitude() > INFINITY_BITS
    }

    /// Neither an infinity nor a NaN.
    pub open spec fn finite(self) -> bool {
        self.magnitude() < INFINITY_BITS
    }

    /// Position on the number line of a value that is not a NaN: the
    /// magnitude, negated under a set sign bit. Both zeros have rank 0.
    pub open spec fn rank(self) -> int {
        if self.sign_negative() {
            -self.magnitude()
        } else {
            self.magnitude()
        }
    }

    /// `self < other` as IEEE 754 defines it: false when either is a NaN.
    pub open spec fn below(self, other: Scalar) -> bool {
        !self.nan() && !other.nan() && self.rank() < other.rank()
    }

    /// `self <= other` as IEEE 754 defines it: false when either is a NaN.
    pub open spec fn at_most(self, other: Scalar) -> bool {
        !self.nan() && !other.nan() && self.rank() <= other.rank()
    }

    /// `self == other` as IEEE 754 defines it.
    pub open spec fn equal_value(self, other: Scalar) -> bool {
        !self.nan() && !other.nan() && self.rank() == other.rank()
    }

    /// The biased exponent: bits 23 to 30.
    pub open spec fn exponent_field(self) -> int {
        self.magnitude() / (FRACTION_RANGE as int)
    }

    /// The fraction: bits 0 to 22.
    pub open spec fn fraction_field(self) -> int {
        self.magnitude() % (FRACTION_RANGE as int)
    }

    /// The absolute value of a finite scalar in units of `2^-149`: the
    /// fraction of a subnormal, and for a normal value the fraction
    /// with its leading one, shifted by the exponent.
    pub open spec fn scaled_magnitude(self) -> int {
        if self.exponent_field() == 0 {
            self.fraction_field()
        } else {
            (FRACTION_RANGE + self.fraction_field()) * pow2((self.exponent_field() - 1) as nat)
        }
    }

    /// The value of a finite scalar in units of `2^-149`, an integer.
    pub open spec fn scaled(self) -> int {
        if self.sign_negative() {
            -self.scaled_magnitude()
        } else {
            self.scaled_magnitude()
        }
    }

    /// Positive zero.
    pub open spec fn zero_spec() -> Scalar {
        Scalar { bits: 0 }
    }

    pub open spec fn one_spec() -> Scalar {
        Scalar { bits: ONE_BITS }
    }

    /// `self` held to the range from `min` to `max`: `min` where it is
    /// below, `max` where it is above, else itself. A NaN is neither and
    /// stays; so does a negative zero at a bound of zero.
    pub open spec fn clamped(self, min: Scalar, max: Scalar) -> Scalar {
        if self.below(min) {
            min
        } else if max.below(self) {
            max
        } else {
            self
        }
    }

    pub fn from_bits(bits: u32) -> (s: Scalar)
        ensures
            s.bits == bits,
    {
        Scalar { bits }
    }

    pub fn to_bits(self) -> (bits: u32)
        ensures
            bits == self.bits,
    {
        self.bits
    }

    #[verifier::when_used_as_spec(zero_spec)]
    pub fn zero() -> (s: Scalar)
        ensures
            s == Scalar::zero_spec(),
    {
        Scalar { bits: 0 }
    }

    #[verifier::when_used_as_spec(one_spec)]
    pub fn one() -> (s: Scalar)
        ensures
            s == Scalar::one_spec(),
    {
        Scalar { bits: ONE_BITS }
    }

    /// The binary32 value nearest to the circle constant.
    pub fn pi() -> (s: Scalar)
        ensures
            s.bits == PI_BITS,
    {
        Scalar { bits: PI_BITS }
    }

    pub fn is_nan(self) -> (r: bool)
        ensures
            r == self.nan(),
    {
        self.cleared() > INFINITY_BITS
    }

    pub fn is_finite(self) -> (r: bool)
        ensures
            r == self.finite(),
    {
        self.cleared() < INFINITY_BITS
    }

    pub fn lt(self, other: Scalar) -> (r: bool)
        ensures
            r == self.below(other),
    {
        !self.is_nan() && !other.is_nan() && self.ordinal() < other.ordinal()
    }

    pub fn le(self, other: Scalar) -> (r: bool)
        ensures
            r == self.at_most(other),
    {
        !self.is_nan() && !other.is_nan() && self.ordinal() <= other.ordinal()
    }

    pub fn same_value(self, other: Scalar) -> (r: bool)
        ensures
            r == self.equal_value(other),
    {
        !self.is_nan() && !other.is_nan() && self.ordinal() == other.ordinal()
    }

    /// Holds `self` to the range from `min` to `max`.
    pub fn clamp(self, min: Scalar, max: Scalar) -> (held: Scalar)
        requires
            min.at_most(max),
        ensures
            held == self.clamped(min, max),
            !self.nan() ==> min.at_most(held) && held.at_most(max),
            self.nan() ==> held == self,
    {
        if self.lt(min) {
            min
        } else if max.lt(self) {
            max
        } else {
            self
        }
    }

    fn cleared(self) -> (m: u32)
        ensures
            m == self.magnitude(),
    {
        if self.bits >= SIGN_BIT {
            self.bits - SIGN_BIT
        } else {
            self.bits
        }
    }

    fn ordinal(self) -> (r: i64)
        ensures
            r == self.rank(),
    {
        let m: i64 = self.cleared() as i64;
        if self.bits >= SIGN_BIT {
            -m
        } else {
            m
        }
    }
}

/// Between finite scalars a larger magnitude is a larger absolute value.
proof fn lemma_scaled_magnitude_increases(a: Scalar, b: Scalar)
    requires
        a.magnitude() < b.magnitude(),
        b.finite(),
    ensures
        0 <= a.scaled_magnitude() < b.scaled_magnitude(),
{
    let range = FRACTION_RANGE as int;
    let (ea, fa) = (a.exponent_field(), a.fraction_field());
    let (eb, fb) = (b.exponent_field(), b.fraction_field());
    assert(a.magnitude() == ea * range + fa && 0 <= fa < range && 0 <= ea);
    assert(b.magnitude() == eb * range + fb && 0 <= fb < range && 0 <= eb);
    assert(ea <= eb) by (nonlinear_arith)
        requires
            ea * range + fa < eb * range + fb,
            0 <= fa < range,
            0 <= fb < range,
    ;
    if ea == eb {
        if ea > 0 {
            let p = pow2((ea - 1) as nat) as int;
            lemma_pow2_pos((ea - 1) as nat);
            assert((range + fa) * p < (range + fb) * p) by (nonlinear_arith)
                requires
                    fa < fb,
                    0 < p,
            ;
            assert(0 <= (range + fa) * p) by (nonlinear_arith)
                requires
                    0 <= range + fa,
                    0 < p,
            ;
        }
    } else {
        let q = pow2((eb - 1) as nat) as int;
        lemma_pow2_pos((eb - 1) as nat);
        assert(range <= (range + fb) * q) by (nonlinear_arith)
            requires
                0 <= fb,
                0 < range,
                1 <= q,
        ;
        if ea > 0 {
            let p = pow2((ea - 1) as nat) as int;
            lemma_pow2_pos((ea - 1) as nat);
            lemma_pow2_unfold(ea as nat);
            if ea < eb - 1 {
                lemma_pow2_strictly_increases(ea as nat, (eb - 1) as nat);
            }
            assert(2 * p <= q);
            assert((range + fa) * p < (range + fb) * q) by (nonlinear_arith)
                requires
                    0 <= fa < range,
                    0 <= fb,
                    0 < p,
                    2 * p <= q,
            ;
            assert(0 <= (range + fa) * p) by (nonlinear_arith)
                requires
                    0 <= range + fa,
                    0 < p,
            ;
        }
    }
}

/// The ordering of bit patterns is the ordering of the numbers they
/// stand for: between finite scalars, `below`, `at_most` and
/// `equal_value` hold exactly where `<`, `<=` and `==` hold of their
/// values.
pub proof fn lemma_order_is_numeric(a: Scalar, b: Scalar)
    requires
        a.finite(),
        b.finite(),
    ensures
        a.below(b) <==> a.scaled() < b.scaled(),
        a.at_most(b) <==> a.scaled() <= b.scaled(),
        a.equal_value(b) <==> a.scaled() == b.scaled(),
{
    if a.magnitude() < b.magnitude() {
        lemma_scaled_magnitude_increases(a, b);
    } else if b.magnitude() < a.magnitude() {
        lemma_scaled_magnitude_increases(b, a);
    } else {
        assert(a.exponent_field() == b.exponent_field());
        assert(a.fraction_field() == b.fraction_field());
    }
    let zero = Scalar { bits: 0 };
    if 0 < a.magnitude() {
        lemma_scaled_magnitude_increases(zero, a);
    }
    if 0 < b.magnitude() {
        lemma_scaled_magnitude_increases(zero, b);
    }
    assert(zero.scaled_magnitude() == 0);
}

/// Among scalars that are not NaN, `at_most` is a total preorder and
/// `below` its strict part.
pub proof fn lemma_order_total(a: Scalar, b: Scalar, c: Scalar)
    requires
        !a.nan(),
        !b.nan(),
        !c.nan(),
    ensures
        a.at_most(b) || b.at_most(a),
        a.below(b) <==> !b.at_most(a),
        a.at_most(b) && b.at_most(c) ==> a.at_most(c),
        a.at_most(b) && b.at_most(a) <==> a.equal_value(b),
{
}

} // verus!

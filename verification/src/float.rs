//! IEEE 754 numbers, held by their bits.

use vstd::arithmetic::power2::{lemma2_to64, lemma_pow2_adds, lemma_pow2_unfold, pow2};
use vstd::prelude::*;

verus! {

/// A single-precision number, by its bits.
#[derive(Debug, Clone, Copy, PartialEq, Eq, Structural)]
pub struct Float32 {
    pub bits: u32,
}

/// A double-precision number, by its bits.
#[derive(Debug, Clone, Copy, PartialEq, Eq, Structural)]
pub struct Float64 {
    pub bits: u64,
}

impl Float32 {
    /// The sign bit.
    pub open spec fn sign(self) -> int {
        self.bits as int / 0x8000_0000
    }

    /// The biased exponent, of eight bits.
    pub open spec fn exponent(self) -> int {
        self.bits as int / 0x80_0000 % 0x100
    }

    /// The fraction, of twenty-three bits.
    pub open spec fn fraction(self) -> int {
        self.bits as int % 0x80_0000
    }

    /// Neither an infinity nor a NaN.
    pub open spec fn is_finite_spec(self) -> bool {
        self.exponent() != 0xFF
    }

    /// The absolute value of a finite number, as a multiple of 2 to the power of -149, which is
    /// the least positive number of this format.
    pub open spec fn magnitude(self) -> int {
        if self.exponent() == 0 {
            self.fraction()
        } else {
            (self.fraction() + 0x80_0000) * pow2((self.exponent() - 1) as nat)
        }
    }
}

impl Float64 {
    /// The sign bit.
    pub open spec fn sign(self) -> int {
        self.bits as int / 0x8000_0000_0000_0000
    }

    /// The biased exponent, of eleven bits.
    pub open spec fn exponent(self) -> int {
        self.bits as int / 0x10_0000_0000_0000 % 0x800
    }

    /// The fraction, of fifty-two bits.
    pub open spec fn fraction(self) -> int {
        self.bits as int % 0x10_0000_0000_0000
    }

    /// Neither an infinity nor a NaN.
    pub open spec fn is_finite_spec(self) -> bool {
        self.exponent() != 0x7FF
    }

    /// The absolute value of a finite number, as a multiple of 2 to the power of -1074, which is
    /// the least positive number of this format.
    pub open spec fn magnitude(self) -> int {
        if self.exponent() == 0 {
            self.fraction()
        } else {
            (self.fraction() + 0x10_0000_0000_0000) * pow2((self.exponent() - 1) as nat)
        }
    }

    /// Whether the number is neither an infinity nor a NaN.
    #[verifier::when_used_as_spec(is_finite_spec)]
    pub fn is_finite(self) -> (finite: bool)
        ensures
            finite == self.is_finite(),
    {
        self.bits / 0x10_0000_0000_0000 % 0x800 != 0x7FF
    }

    /// The number whose sign, exponent and fraction these are.
    fn from_parts(sign: u64, exponent: u64, fraction: u64) -> (number: Float64)
        requires
            sign < 2,
            exponent < 0x800,
            fraction < 0x10_0000_0000_0000,
        ensures
            number.sign() == sign,
            number.exponent() == exponent,
            number.fraction() == fraction,
    {
        Float64 {
            bits: sign * 0x8000_0000_0000_0000 + exponent * 0x10_0000_0000_0000 + fraction,
        }
    }
}

/// `wide` is the number `narrow`. A number keeps its sign and its value: a step of the narrow
/// format is 2 to the power of 925 steps of the wide one. A NaN becomes a quiet one that keeps
/// what it carries.
pub open spec fn is_widened(narrow: Float32, wide: Float64) -> bool {
    &&& wide.sign() == narrow.sign()
    &&& wide.is_finite_spec() == narrow.is_finite_spec()
    &&& narrow.is_finite_spec() ==> wide.magnitude() == narrow.magnitude() * pow2(925)
    &&& !narrow.is_finite_spec() ==> wide.fraction() == if narrow.fraction() == 0 {
        0
    } else if narrow.fraction() < 0x40_0000 {
        (narrow.fraction() + 0x40_0000) * 0x2000_0000
    } else {
        narrow.fraction() * 0x2000_0000
    }
}

/// The number in double precision.
pub open spec fn widened(narrow: Float32) -> Float64 {
    choose|wide: Float64| is_widened(narrow, wide)
}

impl Float32 {
    /// The same number in double precision.
    pub fn widen(self) -> (wide: Float64)
        ensures
            is_widened(self, wide),
            wide == widened(self),
    {
        let wide = self.widen_parts();
        proof {
            lemma_widened_is_unique(self, wide, widened(self));
        }
        wide
    }

    /// The same number in double precision, put together from its parts.
    fn widen_parts(self) -> (wide: Float64)
        ensures
            is_widened(self, wide),
    {
        let sign: u64 = (self.bits / 0x8000_0000) as u64;
        let exponent: u64 = (self.bits / 0x80_0000 % 0x100) as u64;
        let fraction: u64 = (self.bits % 0x80_0000) as u64;
        if exponent == 0xFF {
            let quiet: u64 = if fraction == 0 || fraction >= 0x40_0000 {
                fraction
            } else {
                fraction + 0x40_0000
            };
            Float64::from_parts(sign, 0x7FF, quiet * 0x2000_0000)
        } else if exponent > 0 {
            let wide = Float64::from_parts(sign, exponent + 896, fraction * 0x2000_0000);
            proof {
                lemma_normal(fraction as int, exponent as int);
            }
            wide
        } else if fraction == 0 {
            Float64::from_parts(sign, 0, 0)
        } else {
            let mut significand: u64 = fraction;
            let mut shift: u64 = 0;
            proof {
                lemma2_to64();
            }
            while significand < 0x80_0000
                invariant
                    0 < significand < 0x100_0000,
                    shift <= 23,
                    significand == fraction * pow2(shift as nat),
                    significand >= pow2(shift as nat),
                    fraction < 0x80_0000,
                decreases 0x100_0000 - significand,
            {
                proof {
                    lemma_pow2_unfold((shift + 1) as nat);
                    assert(fraction * (2 * pow2(shift as nat)) == 2 * (fraction * pow2(
                        shift as nat,
                    ))) by (nonlinear_arith);
                    if shift == 23 {
                        lemma2_to64();
                    }
                }
                significand = significand * 2;
                shift += 1;
            }
            proof {
                lemma_subnormal(fraction as int, significand as int, shift as int);
            }
            Float64::from_parts(sign, 897 - shift, (significand - 0x80_0000) * 0x2000_0000)
        }
    }
}

/// A normal number has the same value under the exponent and the fraction of the wide format.
pub(crate) proof fn lemma_normal(fraction: int, exponent: int)
    requires
        0 < exponent < 0xFF,
    ensures
        (fraction * 0x2000_0000 + 0x10_0000_0000_0000) * pow2((exponent + 895) as nat) == ((fraction
            + 0x80_0000) * pow2((exponent - 1) as nat)) * pow2(925),
{
    lemma2_to64();
    lemma_pow2_adds(29, (exponent + 895) as nat);
    lemma_pow2_adds((exponent - 1) as nat, 925);
    let a = fraction + 0x80_0000;
    let p = pow2((exponent + 895) as nat) as int;
    let q = pow2((exponent - 1) as nat) as int;
    let r = pow2(925) as int;
    assert((a * 0x2000_0000) * p == a * (0x2000_0000 * p)) by (nonlinear_arith);
    assert((a * q) * r == a * (q * r)) by (nonlinear_arith);
}

/// A subnormal number has the same value once its leading bit has been shifted into place.
pub(crate) proof fn lemma_subnormal(fraction: int, significand: int, shift: int)
    requires
        0 <= shift <= 23,
        significand == fraction * pow2(shift as nat),
    ensures
        ((significand - 0x80_0000) * 0x2000_0000 + 0x10_0000_0000_0000) * pow2(
            (896 - shift) as nat,
        ) == fraction * pow2(925),
{
    lemma2_to64();
    lemma_pow2_adds(29, (896 - shift) as nat);
    lemma_pow2_adds(shift as nat, (925 - shift) as nat);
    let p = pow2((896 - shift) as nat) as int;
    let q = pow2(shift as nat) as int;
    let r = pow2((925 - shift) as nat) as int;
    assert(((fraction * q) * 0x2000_0000) * p == (fraction * q) * (0x2000_0000 * p))
        by (nonlinear_arith);
    assert((fraction * q) * r == fraction * (q * r)) by (nonlinear_arith);
}

/// Two finite numbers with the same sign and the same value are the same number.
proof fn lemma_magnitude_identifies(first: Float64, second: Float64)
    requires
        first.sign() == second.sign(),
        first.is_finite_spec(),
        second.is_finite_spec(),
        first.magnitude() == second.magnitude(),
    ensures
        first == second,
{
    if first.exponent() < second.exponent() {
        lemma_magnitude_grows(first, second);
    } else if second.exponent() < first.exponent() {
        lemma_magnitude_grows(second, first);
    } else if first.exponent() > 0 {
        let p = pow2((first.exponent() - 1) as nat) as int;
        let a = first.fraction() + 0x10_0000_0000_0000;
        let b = second.fraction() + 0x10_0000_0000_0000;
        vstd::arithmetic::power2::lemma_pow2_pos((first.exponent() - 1) as nat);
        assert(a == b) by (nonlinear_arith)
            requires
                a * p == b * p,
                p > 0,
        ;
    }
}

/// A number with a greater exponent has a greater value.
proof fn lemma_magnitude_grows(small: Float64, large: Float64)
    requires
        small.exponent() < large.exponent(),
    ensures
        small.magnitude() < large.magnitude(),
{
    let p = pow2((large.exponent() - 1) as nat) as int;
    let f = large.fraction();
    vstd::arithmetic::power2::lemma_pow2_pos((large.exponent() - 1) as nat);
    assert(0x10_0000_0000_0000 * p <= (f + 0x10_0000_0000_0000) * p) by (nonlinear_arith)
        requires
            f >= 0,
            p > 0,
    ;
    if small.exponent() > 0 {
        let q = pow2((small.exponent() - 1) as nat) as int;
        let g = small.fraction();
        lemma_pow2_unfold(small.exponent() as nat);
        vstd::arithmetic::power2::lemma_pow2_pos((small.exponent() - 1) as nat);
        if small.exponent() < large.exponent() - 1 {
            vstd::arithmetic::power2::lemma_pow2_strictly_increases(
                small.exponent() as nat,
                (large.exponent() - 1) as nat,
            );
        }
        assert((g + 0x10_0000_0000_0000) * q < 0x10_0000_0000_0000 * (2 * q)) by (nonlinear_arith)
            requires
                g < 0x10_0000_0000_0000,
                q > 0,
        ;
    }
}

/// A number has one form in double precision.
pub proof fn lemma_widened_is_unique(narrow: Float32, first: Float64, second: Float64)
    requires
        is_widened(narrow, first),
        is_widened(narrow, second),
    ensures
        first == second,
{
    if narrow.is_finite_spec() {
        lemma_magnitude_identifies(first, second);
    }
}

} // verus!

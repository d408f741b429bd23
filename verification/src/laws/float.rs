//! Floating-point numbers.

use vstd::arithmetic::power2::pow2;
use vstd::prelude::*;

use crate::float::{
    is_widened, lemma_normal, lemma_subnormal, lemma_widened_is_unique, Float32, Float64,
};

verus! {

/// A double is finite exactly where its bits, without the sign, are below those of infinity.
pub proof fn law_finite_is_below_infinity(number: Float64, finite: bool)
    requires
        call_ensures(Float64::is_finite, (number,), finite),
    ensures
        finite <==> number.bits % 0x8000_0000_0000_0000 < 0x7FF0_0000_0000_0000,
{
}

/// Negating a number negates what it is widened to.
pub proof fn law_sign_is_kept(number: Float32, negated: Float32, wide: Float64, other: Float64)
    requires
        number.bits < 0x8000_0000,
        negated.bits == number.bits + 0x8000_0000,
        call_ensures(Float32::widen, (number,), wide),
        call_ensures(Float32::widen, (negated,), other),
    ensures
        wide.bits < 0x8000_0000_0000_0000,
        other.bits == wide.bits + 0x8000_0000_0000_0000,
{
    let expected = Float64 { bits: (other.bits - 0x8000_0000_0000_0000) as u64 };
    assert(other.sign() == 1);
    assert(expected.exponent() == other.exponent());
    assert(expected.fraction() == other.fraction());
    assert(number.exponent() == negated.exponent());
    assert(number.fraction() == negated.fraction());
    assert(is_widened(number, expected));
    lemma_widened_is_unique(number, wide, expected);
}

/// A positive normal number keeps its fraction, and its exponent is counted from 1023 in place of
/// 127.
pub proof fn law_normal_number(number: Float32, wide: Float64)
    requires
        0x80_0000 <= number.bits < 0x7F80_0000,
        call_ensures(Float32::widen, (number,), wide),
    ensures
        wide.bits == number.bits * 0x2000_0000 + 896 * 0x10_0000_0000_0000,
{
    let bits = number.bits * 0x2000_0000 + 896 * 0x10_0000_0000_0000;
    let expected = Float64 { bits: bits as u64 };
    assert(expected.sign() == 0);
    assert(expected.exponent() == number.exponent() + 896);
    assert(expected.fraction() == number.fraction() * 0x2000_0000);
    lemma_normal(number.fraction(), number.exponent());
    lemma_widened_is_unique(number, wide, expected);
}

/// A positive subnormal number has its leading bit shifted into place, and its exponent lowered as
/// far.
pub proof fn law_subnormal_number(number: Float32, shift: nat, wide: Float64)
    requires
        0 < number.bits < 0x80_0000,
        shift <= 23,
        0x80_0000 <= number.bits * pow2(shift) < 0x100_0000,
        call_ensures(Float32::widen, (number,), wide),
    ensures
        wide.bits == (897 - shift) * 0x10_0000_0000_0000 + (number.bits * pow2(shift) - 0x80_0000)
            * 0x2000_0000,
{
    let significand = number.bits * pow2(shift);
    let bits = (897 - shift) * 0x10_0000_0000_0000 + (significand - 0x80_0000) * 0x2000_0000;
    let expected = Float64 { bits: bits as u64 };
    assert(expected.sign() == 0);
    assert(expected.exponent() == 897 - shift);
    assert(expected.fraction() == (significand - 0x80_0000) * 0x2000_0000);
    assert(number.exponent() == 0 && number.fraction() == number.bits);
    lemma_subnormal(number.bits as int, significand, shift as int);
    lemma_widened_is_unique(number, wide, expected);
}

/// Zero stays zero.
pub proof fn law_zero(number: Float32, wide: Float64)
    requires
        number.bits == 0,
        call_ensures(Float32::widen, (number,), wide),
    ensures
        wide.bits == 0,
{
    let expected = Float64 { bits: 0 };
    assert(expected.magnitude() == 0);
    assert(number.magnitude() == 0);
    assert(is_widened(number, expected));
    lemma_widened_is_unique(number, wide, expected);
}

/// Infinity stays infinity, and what is not a number becomes a quiet one that keeps what it
/// carries.
pub proof fn law_infinity_and_nan(number: Float32, wide: Float64)
    requires
        0x7F80_0000 <= number.bits < 0x8000_0000,
        call_ensures(Float32::widen, (number,), wide),
    ensures
        number.bits == 0x7F80_0000 ==> wide.bits == 0x7FF0_0000_0000_0000,
        0x7F80_0000 < number.bits < 0x7FC0_0000 ==> wide.bits == 0x7FF8_0000_0000_0000 + (number.bits
            - 0x7F80_0000) * 0x2000_0000,
        0x7FC0_0000 <= number.bits ==> wide.bits == 0x7FF0_0000_0000_0000 + (number.bits
            - 0x7F80_0000) * 0x2000_0000,
{
    assert(wide.sign() == 0);
    assert(wide.exponent() == 0x7FF);
    assert(wide.bits == wide.exponent() * 0x10_0000_0000_0000 + wide.fraction());
}

} // verus!

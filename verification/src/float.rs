//! Double-precision arithmetic on IEEE-754 bit patterns.
//!
//! Numbers are carried as `u64` bit patterns. Arithmetic and conversion are
//! done by the software floating-point implementation of `rustc_apfloat`,
//! rounding to nearest with ties to even; each result is a function of the
//! operands alone and is named by an uninterpreted function below. Equality
//! is decided here, on the bit patterns.

use rustc_apfloat::ieee::Double;
use rustc_apfloat::Float;
use vstd::prelude::*;

verus! {

/// The bit pattern of the sum of the doubles with bit patterns `a` and `b`.
pub uninterp spec fn float_add(a: u64, b: u64) -> u64;

/// The bit pattern of the difference of the doubles with bit patterns `a` and `b`.
pub uninterp spec fn float_sub(a: u64, b: u64) -> u64;

/// The bit pattern of the product of the doubles with bit patterns `a` and `b`.
pub uninterp spec fn float_mul(a: u64, b: u64) -> u64;

/// The bit pattern of the quotient of the doubles with bit patterns `a` and `b`.
pub uninterp spec fn float_div(a: u64, b: u64) -> u64;

/// The bit pattern of the double nearest to the integer `i`.
pub uninterp spec fn float_of_int(i: i64) -> u64;

/// The bit pattern of the double that the decimal text `text` denotes, if it
/// denotes one.
pub uninterp spec fn float_parse(text: Seq<char>) -> Option<u64>;

/// Calls `+` of `rustc_apfloat::ieee::Double`, which adds with rounding to
/// nearest, ties to even. The result depends on the two operands only; the
/// status flags that come with it are dropped.
#[verifier::external_body]
pub(crate) fn add_bits(a: u64, b: u64) -> (r: u64)
    ensures
        r == float_add(a, b),
{
    (Double::from_bits(a as u128) + Double::from_bits(b as u128)).value.to_bits() as u64
}

/// Calls `-` of `rustc_apfloat::ieee::Double`, which subtracts with rounding
/// to nearest, ties to even. The result depends on the two operands only.
#[verifier::external_body]
pub(crate) fn sub_bits(a: u64, b: u64) -> (r: u64)
    ensures
        r == float_sub(a, b),
{
    (Double::from_bits(a as u128) - Double::from_bits(b as u128)).value.to_bits() as u64
}

/// Calls `*` of `rustc_apfloat::ieee::Double`, which multiplies with rounding
/// to nearest, ties to even. The result depends on the two operands only.
#[verifier::external_body]
pub(crate) fn mul_bits(a: u64, b: u64) -> (r: u64)
    ensures
        r == float_mul(a, b),
{
    (Double::from_bits(a as u128) * Double::from_bits(b as u128)).value.to_bits() as u64
}

/// Calls `/` of `rustc_apfloat::ieee::Double`, which divides with rounding to
/// nearest, ties to even; a zero divisor gives an infinity or a NaN, never a
/// panic. The result depends on the two operands only.
#[verifier::external_body]
pub(crate) fn div_bits(a: u64, b: u64) -> (r: u64)
    ensures
        r == float_div(a, b),
{
    (Double::from_bits(a as u128) / Double::from_bits(b as u128)).value.to_bits() as u64
}

/// Calls `Float::from_i128` of `rustc_apfloat` at `Double`, which converts an
/// integer to the nearest double, ties to even. The result depends on the
/// integer only.
#[verifier::external_body]
pub(crate) fn int_bits(i: i64) -> (r: u64)
    ensures
        r == float_of_int(i),
{
    Double::from_i128(i as i128).value.to_bits() as u64
}

/// Calls `parse` of `str` at `rustc_apfloat::ieee::Double`, which reads a
/// decimal number and rounds it to the nearest double, ties to even. The
/// result depends on the text only: the double's bit pattern, or `None` where
/// the text is refused. The text is asked to hold digits and dots only.
#[verifier::external_body]
pub(crate) fn parse_double(text: &Vec<char>) -> (r: Option<u64>)
    requires
        forall|i: int| 0 <= i < text@.len() ==> 0x30 <= (#[trigger] text@[i]) as u32 <= 0x39
            || text@[i] == '.',
    ensures
        r == float_parse(text@),
{
    let s: String = text.iter().collect();
    match s.parse::<Double>() {
        Ok(d) => Some(d.to_bits() as u64),
        Err(_) => None,
    }
}

/// Whether `bits` is the pattern of a NaN: all exponent bits set and a
/// non-zero fraction.
pub open spec fn is_nan(bits: u64) -> bool {
    bits % 0x8000_0000_0000_0000 > 0x7ff0_0000_0000_0000
}

/// Whether `bits` is the pattern of positive or negative zero.
pub open spec fn is_zero(bits: u64) -> bool {
    bits % 0x8000_0000_0000_0000 == 0
}

/// IEEE-754 equality of the doubles with bit patterns `a` and `b`: a NaN
/// equals nothing, the two zeros equal each other, and any other two doubles
/// are equal when their patterns are.
pub open spec fn float_eq(a: u64, b: u64) -> bool {
    !is_nan(a) && !is_nan(b) && (a == b || (is_zero(a) && is_zero(b)))
}

/// Decides IEEE-754 equality on bit patterns.
pub fn equal_bits(a: u64, b: u64) -> (r: bool)
    ensures
        r == float_eq(a, b),
{
    let ma: u64 = a % 0x8000_0000_0000_0000;
    let mb: u64 = b % 0x8000_0000_0000_0000;
    if ma > 0x7ff0_0000_0000_0000 || mb > 0x7ff0_0000_0000_0000 {
        false
    } else {
        a == b || (ma == 0 && mb == 0)
    }
}

} // verus!

//! Double-precision numbers, held as their IEEE-754 bit patterns.
//!
//! The language's numbers are 64-bit binary floating-point values. This crate
//! carries each one as the `u64` that encodes it and leaves the rounding
//! arithmetic to `rustc_apfloat`, a software implementation of IEEE-754. What
//! the arithmetic returns is not restated here: each operation's result has a
//! name, and the rest of the crate speaks of numbers through those names.
use rustc_apfloat::ieee::Double;
use rustc_apfloat::Float;
use vstd::prelude::*;

verus! {

/// The bit pattern of positive zero.
pub const POSITIVE_ZERO: u64 = 0;

/// The bit pattern of negative zero.
pub const NEGATIVE_ZERO: u64 = 0x8000_0000_0000_0000;

/// The longest run of decimal digits that is read as one number.
pub const MAX_DIGITS: usize = 0x7fff_ffff;

/// Whether `bits` encodes zero of either sign: the only two patterns that
/// compare equal to `0.0`.
pub open spec fn is_zero(bits: u64) -> bool {
    bits == POSITIVE_ZERO || bits == NEGATIVE_ZERO
}

/// Whether `c` is one of the ten ASCII decimal digits.
pub open spec fn is_decimal_digit(c: char) -> bool {
    '0' <= c && c <= '9'
}

/// Whether `digits` is a non-empty run of decimal digits short enough to be read.
pub open spec fn is_decimal_run(digits: Seq<char>) -> bool {
    &&& 0 < digits.len() <= MAX_DIGITS
    &&& forall|i: int| 0 <= i < digits.len() ==> is_decimal_digit(#[trigger] digits[i])
}

/// The double nearest to the non-negative integer that `digits` writes in base ten.
pub uninterp spec fn decimal_bits(digits: Seq<char>) -> u64;

/// The double that IEEE-754 addition gives for the doubles encoded by `a` and `b`.
pub uninterp spec fn float_sum(a: u64, b: u64) -> u64;

/// The double that IEEE-754 subtraction gives for `a` minus `b`.
pub uninterp spec fn float_difference(a: u64, b: u64) -> u64;

/// The double that IEEE-754 multiplication gives for `a` times `b`.
pub uninterp spec fn float_product(a: u64, b: u64) -> u64;

/// The double that IEEE-754 division gives for `a` divided by `b`.
pub uninterp spec fn float_quotient(a: u64, b: u64) -> u64;

/// The remainder of `a` divided by `b`, with the sign of `a` (C's `fmod`).
pub uninterp spec fn float_remainder(a: u64, b: u64) -> u64;

/// The double nearest to the integer `n`.
pub uninterp spec fn integer_bits(n: u128) -> u64;

/// Calls `rustc_apfloat`'s `Float::from_u128` for `Double`, which rounds to
/// nearest, ties to even. Trusted: the result is a function of the integer,
/// named `integer_bits`.
#[verifier::external_body]
pub(crate) fn integer_to_double(n: u128) -> (r: u64)
    ensures
        r == integer_bits(n),
{
    Double::from_u128(n).value.to_bits() as u64
}

/// Calls `<rustc_apfloat::ieee::Double as FromStr>::from_str`, which rounds to
/// nearest, ties to even. Trusted: on a non-empty run of at most `MAX_DIGITS`
/// decimal digits the call succeeds, and its result is a function of the
/// digits alone, named `decimal_bits`.
#[verifier::external_body]
pub(crate) fn parse_decimal(digits: &str) -> (r: Option<u64>)
    requires
        is_decimal_run(digits@),
    ensures
        r == Some(decimal_bits(digits@)),
{
    match digits.parse::<Double>() {
        Ok(value) => Some(value.to_bits() as u64),
        Err(_) => None,
    }
}

/// Calls `rustc_apfloat`'s `Add` for `Double` (`add_r`, nearest-ties-to-even).
/// Trusted: the result is a function of the two bit patterns, named `float_sum`.
#[verifier::external_body]
pub(crate) fn add_doubles(a: u64, b: u64) -> (r: u64)
    ensures
        r == float_sum(a, b),
{
    (Double::from_bits(a as u128) + Double::from_bits(b as u128)).value.to_bits() as u64
}

/// Calls `rustc_apfloat`'s `Sub` for `Double` (`sub_r`, nearest-ties-to-even).
/// Trusted: the result is a function of the two bit patterns, named
/// `float_difference`.
#[verifier::external_body]
pub(crate) fn subtract_doubles(a: u64, b: u64) -> (r: u64)
    ensures
        r == float_difference(a, b),
{
    (Double::from_bits(a as u128) - Double::from_bits(b as u128)).value.to_bits() as u64
}

/// Calls `rustc_apfloat`'s `Mul` for `Double` (`mul_r`, nearest-ties-to-even).
/// Trusted: the result is a function of the two bit patterns, named
/// `float_product`.
#[verifier::external_body]
pub(crate) fn multiply_doubles(a: u64, b: u64) -> (r: u64)
    ensures
        r == float_product(a, b),
{
    (Double::from_bits(a as u128) * Double::from_bits(b as u128)).value.to_bits() as u64
}

/// Calls `rustc_apfloat`'s `Div` for `Double` (`div_r`, nearest-ties-to-even).
/// Trusted: the result is a function of the two bit patterns, named
/// `float_quotient`.
#[verifier::external_body]
pub(crate) fn divide_doubles(a: u64, b: u64) -> (r: u64)
    ensures
        r == float_quotient(a, b),
{
    (Double::from_bits(a as u128) / Double::from_bits(b as u128)).value.to_bits() as u64
}

/// Calls `rustc_apfloat`'s `Rem` for `Double` (`c_fmod`). Trusted: the result
/// is a function of the two bit patterns, named `float_remainder`.
#[verifier::external_body]
pub(crate) fn remainder_doubles(a: u64, b: u64) -> (r: u64)
    ensures
        r == float_remainder(a, b),
{
    (Double::from_bits(a as u128) % Double::from_bits(b as u128)).value.to_bits() as u64
}

/// Tells whether `bits` encodes zero of either sign.
pub fn encodes_zero(bits: u64) -> (r: bool)
    ensures
        r == is_zero(bits),
{
    bits == POSITIVE_ZERO || bits == NEGATIVE_ZERO
}

} // verus!

//! Numbers: IEEE-754 binary64 values carried as their bit patterns.
//!
//! Equality of numbers is decided here, bit by bit, in verified code.
//! Arithmetic, decimal parsing and decimal rendering go through an
//! outside soft-float implementation behind trusted wrappers.

use vstd::prelude::*;
use rustc_apfloat::Float;
use crate::ast::Text;

verus! {

pub open spec fn is_digit_char(c: char) -> bool {
    '0' <= c && c <= '9'
}

pub open spec fn all_digits(s: Seq<char>) -> bool {
    s.len() > 0 && forall|i: int| 0 <= i < s.len() ==> is_digit_char(s[i])
}

/// The shape of a numeric token: digits, optionally one interior dot
/// with digits on both sides.
pub open spec fn is_simple_decimal(s: Seq<char>) -> bool {
    all_digits(s) || (exists|k: int|
        0 < k < s.len() && s[k] == '.' && all_digits(s.take(k)) && all_digits(s.skip(k + 1)))
}

// ---------------------------------------------------------------------
// IEEE-754 binary64 equality, decided from the bit patterns alone:
// NaN equals nothing, the two zeroes equal each other, and any other
// value equals only its own bit pattern.
// ---------------------------------------------------------------------

pub open spec fn is_nan_bits(a: u64) -> bool {
    (a >> 52) & 0x7ff == 0x7ff && (a & 0xf_ffff_ffff_ffff) != 0
}

pub open spec fn is_zero_bits(a: u64) -> bool {
    a & 0x7fff_ffff_ffff_ffff == 0
}

pub open spec fn ieee_eq(a: u64, b: u64) -> bool {
    &&& !is_nan_bits(a)
    &&& !is_nan_bits(b)
    &&& (a == b || (is_zero_bits(a) && is_zero_bits(b)))
}

/// Whether two binary64 bit patterns denote equal numbers.
pub fn num_eq(a: u64, b: u64) -> (r: bool)
    ensures
        r == ieee_eq(a, b),
{
    let a_nan = (a >> 52) & 0x7ff == 0x7ff && (a & 0xf_ffff_ffff_ffff) != 0;
    let b_nan = (b >> 52) & 0x7ff == 0x7ff && (b & 0xf_ffff_ffff_ffff) != 0;
    let both_zero = a & 0x7fff_ffff_ffff_ffff == 0 && b & 0x7fff_ffff_ffff_ffff == 0;
    !a_nan && !b_nan && (a == b || both_zero)
}

// ---------------------------------------------------------------------
// Named results of the outside soft-float routines.  Each is a pure
// function of the argument bit patterns, per IEEE-754 round-to-nearest.
// ---------------------------------------------------------------------

pub uninterp spec fn dbl_of_text(s: Seq<char>) -> u64;

pub uninterp spec fn text_of_dbl(bits: u64) -> Seq<char>;

pub uninterp spec fn dbl_add(a: u64, b: u64) -> u64;

pub uninterp spec fn dbl_sub(a: u64, b: u64) -> u64;

pub uninterp spec fn dbl_mul(a: u64, b: u64) -> u64;

pub uninterp spec fn dbl_div(a: u64, b: u64) -> u64;

/// Relies on rustc_apfloat's `Double` `FromStr`: correctly rounded
/// decimal-to-binary64 conversion, a function of the text alone; a
/// plain digit string, optionally with one interior dot, is accepted.
#[verifier::external_body]
pub fn num_of_text(text: &Text) -> (r: Option<u64>)
    ensures
        r matches Some(b) ==> b == dbl_of_text(text@),
        is_simple_decimal(text@) ==> r is Some,
{
    let s: String = text.iter().collect();
    match s.parse::<rustc_apfloat::ieee::Double>() {
        Ok(d) => Some(d.to_bits() as u64),
        Err(_) => None,
    }
}

/// Relies on rustc_apfloat's `Double` `Display`: a decimal rendering
/// determined by the bit pattern alone.
#[verifier::external_body]
pub fn num_text(bits: u64) -> (r: Text)
    ensures
        r@ == text_of_dbl(bits),
{
    let s = format!("{}", rustc_apfloat::ieee::Double::from_bits(bits as u128));
    s.chars().collect()
}

/// Relies on rustc_apfloat's `Double` addition: IEEE-754 binary64 add,
/// round to nearest even, a function of the operand bits alone.
#[verifier::external_body]
pub fn num_add(a: u64, b: u64) -> (r: u64)
    ensures
        r == dbl_add(a, b),
{
    let x = rustc_apfloat::ieee::Double::from_bits(a as u128);
    let y = rustc_apfloat::ieee::Double::from_bits(b as u128);
    (x + y).value.to_bits() as u64
}

/// Relies on rustc_apfloat's `Double` subtraction: IEEE-754 binary64
/// subtract, round to nearest even, a function of the operand bits alone.
#[verifier::external_body]
pub fn num_sub(a: u64, b: u64) -> (r: u64)
    ensures
        r == dbl_sub(a, b),
{
    let x = rustc_apfloat::ieee::Double::from_bits(a as u128);
    let y = rustc_apfloat::ieee::Double::from_bits(b as u128);
    (x - y).value.to_bits() as u64
}

/// Relies on rustc_apfloat's `Double` multiplication: IEEE-754 binary64
/// multiply, round to nearest even, a function of the operand bits alone.
#[verifier::external_body]
pub fn num_mul(a: u64, b: u64) -> (r: u64)
    ensures
        r == dbl_mul(a, b),
{
    let x = rustc_apfloat::ieee::Double::from_bits(a as u128);
    let y = rustc_apfloat::ieee::Double::from_bits(b as u128);
    (x * y).value.to_bits() as u64
}

/// Relies on rustc_apfloat's `Double` division: IEEE-754 binary64
/// divide, round to nearest even, a function of the operand bits alone.
#[verifier::external_body]
pub fn num_div(a: u64, b: u64) -> (r: u64)
    ensures
        r == dbl_div(a, b),
{
    let x = rustc_apfloat::ieee::Double::from_bits(a as u128);
    let y = rustc_apfloat::ieee::Double::from_bits(b as u128);
    (x / y).value.to_bits() as u64
}

} // verus!

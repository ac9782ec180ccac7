//! The 64-bit binary floating-point carrier of the language's Number values.
//!
//! A number is held as its IEEE-754 binary64 bit pattern in a `u64`.
//! Classification, equality, ordering and negation are defined here exactly,
//! bit by bit, and computed by verified code. Rounded arithmetic, decimal
//! parsing and decimal rendering are delegated to `rustc_apfloat`'s software
//! implementation of the same format, behind trusted wrappers whose results
//! are named below.

use vstd::prelude::*;
use rustc_apfloat::Float;

verus! {

/// The sign bit of a binary64 pattern.
pub open spec fn sign_bits(a: u64) -> bool {
    a & 0x8000_0000_0000_0000 != 0
}

/// Whether a binary64 pattern is a NaN: exponent all ones, mantissa nonzero.
pub open spec fn nan_bits(a: u64) -> bool {
    a & 0x7ff0_0000_0000_0000 == 0x7ff0_0000_0000_0000 && a & 0x000f_ffff_ffff_ffff != 0
}

/// Whether a binary64 pattern is a zero of either sign.
pub open spec fn zero_bits(a: u64) -> bool {
    a & 0x7fff_ffff_ffff_ffff == 0
}

/// IEEE-754 equality of two binary64 patterns: false on any NaN, true on
/// zeroes of both signs, bitwise equality otherwise.
pub open spec fn num_eq_bits(a: u64, b: u64) -> bool {
    !nan_bits(a) && !nan_bits(b) && (a == b || (zero_bits(a) && zero_bits(b)))
}

/// IEEE-754 less-than of two binary64 patterns: false on any NaN; otherwise
/// sign-magnitude order, with the two zeroes equal.
pub open spec fn num_lt_bits(a: u64, b: u64) -> bool {
    &&& !nan_bits(a)
    &&& !nan_bits(b)
    &&& !(zero_bits(a) && zero_bits(b))
    &&& if sign_bits(a) != sign_bits(b) {
        sign_bits(a)
    } else if !sign_bits(a) {
        a < b
    } else {
        a > b
    }
}

/// IEEE-754 less-or-equal of two binary64 patterns.
pub open spec fn num_le_bits(a: u64, b: u64) -> bool {
    num_lt_bits(a, b) || num_eq_bits(a, b)
}

/// The negation of a binary64 pattern: the sign bit flipped.
pub open spec fn neg_bits(a: u64) -> u64 {
    a ^ 0x8000_0000_0000_0000
}

pub fn num_is_zero(a: u64) -> (r: bool)
    ensures
        r == zero_bits(a),
{
    a & 0x7fff_ffff_ffff_ffff == 0
}

fn num_is_nan(a: u64) -> (r: bool)
    ensures
        r == nan_bits(a),
{
    a & 0x7ff0_0000_0000_0000 == 0x7ff0_0000_0000_0000 && a & 0x000f_ffff_ffff_ffff != 0
}

fn num_is_negative(a: u64) -> (r: bool)
    ensures
        r == sign_bits(a),
{
    a & 0x8000_0000_0000_0000 != 0
}

pub fn num_eq(a: u64, b: u64) -> (r: bool)
    ensures
        r == num_eq_bits(a, b),
{
    !num_is_nan(a) && !num_is_nan(b) && (a == b || (num_is_zero(a) && num_is_zero(b)))
}

pub fn num_lt(a: u64, b: u64) -> (r: bool)
    ensures
        r == num_lt_bits(a, b),
{
    if num_is_nan(a) || num_is_nan(b) {
        return false;
    }
    if num_is_zero(a) && num_is_zero(b) {
        return false;
    }
    let na = num_is_negative(a);
    let nb = num_is_negative(b);
    if na != nb {
        na
    } else if !na {
        a < b
    } else {
        a > b
    }
}

pub fn num_le(a: u64, b: u64) -> (r: bool)
    ensures
        r == num_le_bits(a, b),
{
    num_lt(a, b) || num_eq(a, b)
}

pub fn num_neg(a: u64) -> (r: u64)
    ensures
        r == neg_bits(a),
{
    a ^ 0x8000_0000_0000_0000
}

/// The IEEE-754 binary64 sum of two patterns, rounded to nearest-even.
pub uninterp spec fn add_bits(a: u64, b: u64) -> u64;

/// The IEEE-754 binary64 difference of two patterns, rounded to nearest-even.
pub uninterp spec fn sub_bits(a: u64, b: u64) -> u64;

/// The IEEE-754 binary64 product of two patterns, rounded to nearest-even.
pub uninterp spec fn mul_bits(a: u64, b: u64) -> u64;

/// The IEEE-754 binary64 quotient of two patterns, rounded to nearest-even.
pub uninterp spec fn div_bits(a: u64, b: u64) -> u64;

/// Relies on `rustc_apfloat::ieee::Double`'s addition: the correctly rounded
/// IEEE-754 binary64 sum, a function of the two operands alone.
#[verifier::external_body]
pub(crate) fn num_add(a: u64, b: u64) -> (r: u64)
    ensures
        r == add_bits(a, b),
{
    let x = rustc_apfloat::ieee::Double::from_bits(a as u128);
    let y = rustc_apfloat::ieee::Double::from_bits(b as u128);
    (x + y).value.to_bits() as u64
}

/// Relies on `rustc_apfloat::ieee::Double`'s subtraction: the correctly
/// rounded IEEE-754 binary64 difference, a function of the operands alone.
#[verifier::external_body]
pub(crate) fn num_sub(a: u64, b: u64) -> (r: u64)
    ensures
        r == sub_bits(a, b),
{
    let x = rustc_apfloat::ieee::Double::from_bits(a as u128);
    let y = rustc_apfloat::ieee::Double::from_bits(b as u128);
    (x - y).value.to_bits() as u64
}

/// Relies on `rustc_apfloat::ieee::Double`'s multiplication: the correctly
/// rounded IEEE-754 binary64 product, a function of the operands alone.
#[verifier::external_body]
pub(crate) fn num_mul(a: u64, b: u64) -> (r: u64)
    ensures
        r == mul_bits(a, b),
{
    let x = rustc_apfloat::ieee::Double::from_bits(a as u128);
    let y = rustc_apfloat::ieee::Double::from_bits(b as u128);
    (x * y).value.to_bits() as u64
}

/// Relies on `rustc_apfloat::ieee::Double`'s division: the correctly rounded
/// IEEE-754 binary64 quotient, a function of the operands alone.
#[verifier::external_body]
pub(crate) fn num_div(a: u64, b: u64) -> (r: u64)
    ensures
        r == div_bits(a, b),
{
    let x = rustc_apfloat::ieee::Double::from_bits(a as u128);
    let y = rustc_apfloat::ieee::Double::from_bits(b as u128);
    (x / y).value.to_bits() as u64
}

/// Whether every character in `s[a..b)` is a decimal digit.
pub open spec fn all_digits_range(s: Seq<char>, a: int, b: int) -> bool {
    forall|j: int| a <= j < b ==> is_digit_char(s[j])
}

/// Whether a character is a decimal digit.
pub open spec fn is_digit_char(c: char) -> bool {
    48 <= c as u32 <= 57
}

/// The shape of a numeric lexeme: a nonempty digit run, optionally followed
/// by a point and a further nonempty digit run.
pub open spec fn is_number_lexeme(s: Seq<char>) -> bool {
    s.len() > 0 && (all_digits_range(s, 0, s.len() as int) || (exists|i: int|
        1 <= i <= s.len() - 2 && s[i] == '.' && all_digits_range(s, 0, i) && all_digits_range(
            s,
            i + 1,
            s.len() as int,
        )))
}

/// The IEEE-754 binary64 value denoted by a numeric lexeme, rounded to
/// nearest-even.
pub uninterp spec fn number_bits_of(s: Seq<char>) -> u64;

/// Relies on `rustc_apfloat::ieee::Double`'s `FromStr`: a decimal lexeme of
/// digits, optionally with a point and further digits, parses to its
/// correctly rounded IEEE-754 binary64 value, a function of the lexeme alone.
#[verifier::external_body]
pub(crate) fn num_parse(s: &str) -> (r: Option<u64>)
    ensures
        is_number_lexeme(s@) ==> r == Some(number_bits_of(s@)),
{
    match s.parse::<rustc_apfloat::ieee::Double>() {
        Ok(d) => Some(d.to_bits() as u64),
        Err(_) => None,
    }
}

/// The decimal rendering of an IEEE-754 binary64 pattern.
pub uninterp spec fn decimal_of_bits(a: u64) -> Seq<char>;

/// Relies on `rustc_apfloat::ieee::Double`'s `Display`: the decimal
/// rendering of the value, a function of the bit pattern alone.
#[verifier::external_body]
pub(crate) fn num_to_text(a: u64) -> (r: String)
    ensures
        r@ == decimal_of_bits(a),
{
    let x = rustc_apfloat::ieee::Double::from_bits(a as u128);
    format!("{}", x)
}

} // verus!

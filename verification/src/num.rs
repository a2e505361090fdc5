//! Runtime numbers.
//!
//! A number is an IEEE-754 double, carried as its 64-bit pattern. The
//! arithmetic, the comparisons, the conversion from literal text and the
//! decimal rendering are done by `rustc_apfloat`, a software implementation
//! of IEEE-754 that works directly on bit patterns; each such result is
//! named by an uninterpreted spec function, since it is a function of the
//! operand bits alone.

use rustc_apfloat::Float;
use vstd::prelude::*;

verus! {

/// The bit pattern of positive zero.
pub const ZERO_BITS: u64 = 0;

pub open spec fn is_digit_char(c: char) -> bool {
    '0' <= c && c <= '9'
}

pub open spec fn all_digits(s: Seq<char>) -> bool {
    forall|i: int| 0 <= i < s.len() ==> is_digit_char(#[trigger] s[i])
}

/// The shape of a numeric literal as the scanner produces it: one or more
/// decimal digits, optionally followed by a dot and one or more digits.
pub open spec fn is_decimal_literal(s: Seq<char>) -> bool {
    s.len() > 0 && (all_digits(s) || (exists|k: int|
        1 <= k < s.len() - 1 && s[k] == '.' && all_digits(s.subrange(0, k)) && all_digits(
            s.subrange(k + 1, s.len() as int),
        )))
}

/// The double denoted by a numeric literal, correctly rounded.
pub uninterp spec fn num_of_text(s: Seq<char>) -> u64;

/// The IEEE-754 double sum of two doubles, rounded to nearest even.
pub uninterp spec fn num_add(a: u64, b: u64) -> u64;

/// The IEEE-754 double difference of two doubles, rounded to nearest even.
pub uninterp spec fn num_sub(a: u64, b: u64) -> u64;

/// The IEEE-754 double product of two doubles, rounded to nearest even.
pub uninterp spec fn num_mul(a: u64, b: u64) -> u64;

/// The IEEE-754 double quotient of two doubles, rounded to nearest even.
pub uninterp spec fn num_div(a: u64, b: u64) -> u64;

/// The IEEE-754 comparison `a < b` (false whenever an operand is NaN).
pub uninterp spec fn num_lt(a: u64, b: u64) -> bool;

/// The IEEE-754 comparison `a <= b` (false whenever an operand is NaN).
pub uninterp spec fn num_le(a: u64, b: u64) -> bool;

/// The IEEE-754 comparison `a > b` (false whenever an operand is NaN).
pub uninterp spec fn num_gt(a: u64, b: u64) -> bool;

/// The IEEE-754 comparison `a >= b` (false whenever an operand is NaN).
pub uninterp spec fn num_ge(a: u64, b: u64) -> bool;

/// Whether a bit pattern is a NaN: exponent all ones, fraction nonzero.
pub open spec fn is_nan_bits(a: u64) -> bool {
    (a >> 52) & 0x7FF == 0x7FF && (a & 0x000F_FFFF_FFFF_FFFF) != 0
}

/// Whether a bit pattern is one of the two zeros.
pub open spec fn is_zero_bits(a: u64) -> bool {
    a & 0x7FFF_FFFF_FFFF_FFFF == 0
}

/// IEEE-754 equality: neither operand is NaN, and the patterns are the
/// same or both are zeros. So the two zeros are equal to each other and
/// NaN is equal to nothing, itself included.
pub open spec fn num_eq(a: u64, b: u64) -> bool {
    !is_nan_bits(a) && !is_nan_bits(b) && (a == b || (is_zero_bits(a) && is_zero_bits(b)))
}

/// The decimal text of a double: a rendering that parses back to the same
/// bits. Numbers of ordinary size print without an exponent, as the host's
/// own default text does; very large or small magnitudes use exponent
/// form, and a double whose shortest decimal does not terminate prints
/// with seventeen significant digits.
pub uninterp spec fn num_text(a: u64) -> Seq<char>;

/// The double nearest to the given whole number of seconds.
pub uninterp spec fn num_of_seconds(s: u64) -> u64;

/// IEEE-754 negation flips the sign bit and leaves the rest of the pattern
/// as it is, for every operand, NaN included.
pub open spec fn spec_num_neg(a: u64) -> u64 {
    a ^ 0x8000_0000_0000_0000
}

/// Negate a double by flipping its sign bit.
pub fn num_neg(a: u64) -> (r: u64)
    ensures
        r == spec_num_neg(a),
{
    a ^ 0x8000_0000_0000_0000
}

/// Relies on `rustc_apfloat::ieee::Double`'s `FromStr`: correctly rounded
/// conversion of decimal text, a function of the text alone.
#[verifier::external_body]
pub(crate) fn parse_number(s: &str) -> (r: u64)
    requires
        is_decimal_literal(s@),
    ensures
        r == num_of_text(s@),
{
    match s.parse::<rustc_apfloat::ieee::Double>() {
        Ok(d) => d.to_bits() as u64,
        Err(_) => 0,
    }
}

/// Relies on `rustc_apfloat::ieee::Double`'s addition: IEEE-754 double
/// addition rounded to nearest even, a function of the operand bits alone.
#[verifier::external_body]
pub(crate) fn add_bits(a: u64, b: u64) -> (r: u64)
    ensures
        r == num_add(a, b),
{
    let x = rustc_apfloat::ieee::Double::from_bits(a as u128);
    let y = rustc_apfloat::ieee::Double::from_bits(b as u128);
    (x + y).value.to_bits() as u64
}

/// Relies on `rustc_apfloat::ieee::Double`'s subtraction: IEEE-754 double
/// subtraction rounded to nearest even, a function of the operand bits alone.
#[verifier::external_body]
pub(crate) fn sub_bits(a: u64, b: u64) -> (r: u64)
    ensures
        r == num_sub(a, b),
{
    let x = rustc_apfloat::ieee::Double::from_bits(a as u128);
    let y = rustc_apfloat::ieee::Double::from_bits(b as u128);
    (x - y).value.to_bits() as u64
}

/// Relies on `rustc_apfloat::ieee::Double`'s multiplication: IEEE-754 double
/// multiplication rounded to nearest even, a function of the operand bits
/// alone.
#[verifier::external_body]
pub(crate) fn mul_bits(a: u64, b: u64) -> (r: u64)
    ensures
        r == num_mul(a, b),
{
    let x = rustc_apfloat::ieee::Double::from_bits(a as u128);
    let y = rustc_apfloat::ieee::Double::from_bits(b as u128);
    (x * y).value.to_bits() as u64
}

/// Relies on `rustc_apfloat::ieee::Double`'s division: IEEE-754 double
/// division rounded to nearest even, a function of the operand bits alone.
#[verifier::external_body]
pub(crate) fn div_bits(a: u64, b: u64) -> (r: u64)
    ensures
        r == num_div(a, b),
{
    let x = rustc_apfloat::ieee::Double::from_bits(a as u128);
    let y = rustc_apfloat::ieee::Double::from_bits(b as u128);
    (x / y).value.to_bits() as u64
}

/// Relies on `rustc_apfloat::ieee::Double`'s `PartialOrd`: the IEEE-754
/// comparison predicate, `None` whenever an operand is NaN.
#[verifier::external_body]
pub(crate) fn lt_bits(a: u64, b: u64) -> (r: bool)
    ensures
        r == num_lt(a, b),
{
    let x = rustc_apfloat::ieee::Double::from_bits(a as u128);
    let y = rustc_apfloat::ieee::Double::from_bits(b as u128);
    matches!(x.partial_cmp(&y), Some(core::cmp::Ordering::Less))
}

/// Relies on `rustc_apfloat::ieee::Double`'s `PartialOrd`: the IEEE-754
/// comparison predicate, `None` whenever an operand is NaN.
#[verifier::external_body]
pub(crate) fn le_bits(a: u64, b: u64) -> (r: bool)
    ensures
        r == num_le(a, b),
{
    let x = rustc_apfloat::ieee::Double::from_bits(a as u128);
    let y = rustc_apfloat::ieee::Double::from_bits(b as u128);
    matches!(
        x.partial_cmp(&y),
        Some(core::cmp::Ordering::Less) | Some(core::cmp::Ordering::Equal)
    )
}

/// Relies on `rustc_apfloat::ieee::Double`'s `PartialOrd`: the IEEE-754
/// comparison predicate, `None` whenever an operand is NaN.
#[verifier::external_body]
pub(crate) fn gt_bits(a: u64, b: u64) -> (r: bool)
    ensures
        r == num_gt(a, b),
{
    let x = rustc_apfloat::ieee::Double::from_bits(a as u128);
    let y = rustc_apfloat::ieee::Double::from_bits(b as u128);
    matches!(x.partial_cmp(&y), Some(core::cmp::Ordering::Greater))
}

/// Relies on `rustc_apfloat::ieee::Double`'s `PartialOrd`: the IEEE-754
/// comparison predicate, `None` whenever an operand is NaN.
#[verifier::external_body]
pub(crate) fn ge_bits(a: u64, b: u64) -> (r: bool)
    ensures
        r == num_ge(a, b),
{
    let x = rustc_apfloat::ieee::Double::from_bits(a as u128);
    let y = rustc_apfloat::ieee::Double::from_bits(b as u128);
    matches!(
        x.partial_cmp(&y),
        Some(core::cmp::Ordering::Greater) | Some(core::cmp::Ordering::Equal)
    )
}

/// Relies on `rustc_apfloat::ieee::Double`'s `PartialOrd`: two doubles
/// compare equal exactly when neither is NaN and they carry the same
/// pattern or are both zeros, which is what `num_eq` spells out.
#[verifier::external_body]
pub(crate) fn eq_bits(a: u64, b: u64) -> (r: bool)
    ensures
        r == num_eq(a, b),
{
    let x = rustc_apfloat::ieee::Double::from_bits(a as u128);
    let y = rustc_apfloat::ieee::Double::from_bits(b as u128);
    matches!(x.partial_cmp(&y), Some(core::cmp::Ordering::Equal))
}

/// Relies on `rustc_apfloat::ieee::Double`'s `Display`: a decimal rendering
/// that depends on the bits alone.
#[verifier::external_body]
pub(crate) fn text_of_bits(a: u64) -> (r: String)
    ensures
        r@ == num_text(a),
{
    format!("{}", rustc_apfloat::ieee::Double::from_bits(a as u128))
}

/// Relies on `std::time::SystemTime::now`: the host clock, read as whole
/// seconds since the Unix epoch. Nothing is promised of the value.
#[verifier::external_body]
pub(crate) fn current_seconds() -> u64 {
    match std::time::SystemTime::now().duration_since(std::time::SystemTime::UNIX_EPOCH) {
        Ok(d) => d.as_secs(),
        Err(_) => 0,
    }
}

/// Relies on `rustc_apfloat::ieee::Double`'s conversion from unsigned
/// integers, rounded to nearest even: a function of the integer alone.
#[verifier::external_body]
pub(crate) fn seconds_to_bits(s: u64) -> (r: u64)
    ensures
        r == num_of_seconds(s),
{
    rustc_apfloat::ieee::Double::from_u128(s as u128).value.to_bits() as u64
}

} // verus!

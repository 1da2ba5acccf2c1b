use vstd::prelude::*;
use rustc_apfloat::Float;

verus! {

// The formula language computes on IEEE 754 double-precision values,
// which this crate carries as their 64-bit bit patterns. The arithmetic
// itself is done by the software implementation in `rustc_apfloat`
// (`ieee::Double`, the Rust compiler's own IEEE 754 code), which
// rounds to nearest, ties to even, exactly as the hardware operations
// do. Each operation's result is a pure function of the operand bit
// patterns; the spec functions below name those results, and the
// wrappers hand them to the verified evaluator.

/// The bit pattern of the IEEE 754 sum of two doubles given by bit pattern.
pub uninterp spec fn fp_add(a: u64, b: u64) -> u64;

/// The bit pattern of the IEEE 754 difference of two doubles given by bit pattern.
pub uninterp spec fn fp_sub(a: u64, b: u64) -> u64;

/// The bit pattern of the IEEE 754 product of two doubles given by bit pattern.
pub uninterp spec fn fp_mul(a: u64, b: u64) -> u64;

/// The bit pattern of the IEEE 754 quotient of two doubles given by bit pattern.
pub uninterp spec fn fp_div(a: u64, b: u64) -> u64;

/// The bit pattern of the C `fmod` remainder of two doubles given by bit pattern.
pub uninterp spec fn fp_rem(a: u64, b: u64) -> u64;

/// The bit pattern of the double nearest to a 64-bit signed integer.
pub uninterp spec fn fp_of_int(i: i64) -> u64;

/// The bit pattern of the double nearest to the text `s` read as a
/// decimal numeral, or `None` when the parse rejects it (for the
/// digit-and-dot runs the lexer hands over, that is a run with more
/// than one dot).
pub uninterp spec fn fp_of_decimal(s: Seq<char>) -> Option<u64>;

/// The IEEE 754 `<` comparison of two doubles given by bit pattern.
pub uninterp spec fn fp_lt(a: u64, b: u64) -> bool;

/// The IEEE 754 `==` comparison of two doubles given by bit pattern.
pub uninterp spec fn fp_eq(a: u64, b: u64) -> bool;

/// IEEE 754 `a <= b`: less or equal, and false when unordered.
pub open spec fn fp_le(a: u64, b: u64) -> bool {
    fp_lt(a, b) || fp_eq(a, b)
}

/// IEEE 754 `a > b`: the mirror image of `<`.
pub open spec fn fp_gt(a: u64, b: u64) -> bool {
    fp_lt(b, a)
}

/// IEEE 754 `a >= b`: greater or equal, and false when unordered.
pub open spec fn fp_ge(a: u64, b: u64) -> bool {
    fp_lt(b, a) || fp_eq(a, b)
}

/// Relies on `rustc_apfloat::ieee::Double::add_r`: correctly rounded
/// IEEE 754 addition, a function of the operand bits alone.
#[verifier::external_body]
pub(crate) fn add_bits(a: u64, b: u64) -> (r: u64)
    ensures
        r == fp_add(a, b),
{
    let x = rustc_apfloat::ieee::Double::from_bits(a as u128);
    let y = rustc_apfloat::ieee::Double::from_bits(b as u128);
    x.add_r(y, rustc_apfloat::Round::NearestTiesToEven).value.to_bits() as u64
}

/// Relies on `rustc_apfloat::ieee::Double::sub_r`: correctly rounded
/// IEEE 754 subtraction, a function of the operand bits alone.
#[verifier::external_body]
pub(crate) fn sub_bits(a: u64, b: u64) -> (r: u64)
    ensures
        r == fp_sub(a, b),
{
    let x = rustc_apfloat::ieee::Double::from_bits(a as u128);
    let y = rustc_apfloat::ieee::Double::from_bits(b as u128);
    x.sub_r(y, rustc_apfloat::Round::NearestTiesToEven).value.to_bits() as u64
}

/// Relies on `rustc_apfloat::ieee::Double::mul_r`: correctly rounded
/// IEEE 754 multiplication, a function of the operand bits alone.
#[verifier::external_body]
pub(crate) fn mul_bits(a: u64, b: u64) -> (r: u64)
    ensures
        r == fp_mul(a, b),
{
    let x = rustc_apfloat::ieee::Double::from_bits(a as u128);
    let y = rustc_apfloat::ieee::Double::from_bits(b as u128);
    x.mul_r(y, rustc_apfloat::Round::NearestTiesToEven).value.to_bits() as u64
}

/// Relies on `rustc_apfloat::ieee::Double::div_r`: correctly rounded
/// IEEE 754 division, a function of the operand bits alone.
#[verifier::external_body]
pub(crate) fn div_bits(a: u64, b: u64) -> (r: u64)
    ensures
        r == fp_div(a, b),
{
    let x = rustc_apfloat::ieee::Double::from_bits(a as u128);
    let y = rustc_apfloat::ieee::Double::from_bits(b as u128);
    x.div_r(y, rustc_apfloat::Round::NearestTiesToEven).value.to_bits() as u64
}

/// Relies on `rustc_apfloat::ieee::Double::c_fmod`: the C `fmod`
/// remainder (what `%` computes on doubles), a function of the operand
/// bits alone.
#[verifier::external_body]
pub(crate) fn rem_bits(a: u64, b: u64) -> (r: u64)
    ensures
        r == fp_rem(a, b),
{
    let x = rustc_apfloat::ieee::Double::from_bits(a as u128);
    let y = rustc_apfloat::ieee::Double::from_bits(b as u128);
    x.c_fmod(y).value.to_bits() as u64
}

/// Relies on `rustc_apfloat::Float::from_i128`: the double nearest to
/// the given integer, a function of the integer alone.
#[verifier::external_body]
pub(crate) fn int_to_bits(i: i64) -> (r: u64)
    ensures
        r == fp_of_int(i),
{
    rustc_apfloat::ieee::Double::from_i128(i as i128).value.to_bits() as u64
}

/// Relies on `rustc_apfloat::ieee::Double::from_str` (and so
/// `from_decimal_string`): the correctly rounded value of the text
/// read as a decimal numeral, a function of the text alone; a run
/// with more than one dot is rejected.
#[verifier::external_body]
pub(crate) fn parse_double_bits(s: &str) -> (r: Option<u64>)
    ensures
        r == fp_of_decimal(s@),
{
    match s.parse::<rustc_apfloat::ieee::Double>() {
        Ok(d) => Some(d.to_bits() as u64),
        Err(_) => None,
    }
}

/// Relies on `PartialOrd for rustc_apfloat::ieee::IeeeFloat`: the
/// IEEE 754 `<` comparison, a function of the operand bits alone, and
/// false when either operand is a NaN.
#[verifier::external_body]
pub(crate) fn lt_bits(a: u64, b: u64) -> (r: bool)
    ensures
        r == fp_lt(a, b),
{
    let x = rustc_apfloat::ieee::Double::from_bits(a as u128);
    let y = rustc_apfloat::ieee::Double::from_bits(b as u128);
    x < y
}

/// Relies on `PartialEq for rustc_apfloat::ieee::IeeeFloat`: the
/// IEEE 754 `==` comparison, a function of the operand bits alone;
/// false when either operand is a NaN, and true for the two zeros.
#[verifier::external_body]
pub(crate) fn eq_bits(a: u64, b: u64) -> (r: bool)
    ensures
        r == fp_eq(a, b),
{
    let x = rustc_apfloat::ieee::Double::from_bits(a as u128);
    let y = rustc_apfloat::ieee::Double::from_bits(b as u128);
    x == y
}

/// IEEE 754 `<=`, built from `<` and `==`: on doubles `a <= b` holds
/// exactly when `a < b` or `a == b` (both are false when unordered).
pub(crate) fn le_bits(a: u64, b: u64) -> (r: bool)
    ensures
        r == fp_le(a, b),
{
    lt_bits(a, b) || eq_bits(a, b)
}

/// IEEE 754 `>`: on doubles `a > b` holds exactly when `b < a`.
pub(crate) fn gt_bits(a: u64, b: u64) -> (r: bool)
    ensures
        r == fp_gt(a, b),
{
    lt_bits(b, a)
}

/// IEEE 754 `>=`, built from `<` and `==`: on doubles `a >= b` holds
/// exactly when `b < a` or `a == b`.
pub(crate) fn ge_bits(a: u64, b: u64) -> (r: bool)
    ensures
        r == fp_ge(a, b),
{
    lt_bits(b, a) || eq_bits(a, b)
}

} // verus!

//! Floating-point support. A float is carried everywhere as its IEEE-754
//! binary64 bit pattern (a `u64`). The four arithmetic operations,
//! truncation, the two integer conversions, decimal parsing and decimal
//! formatting are done by the software implementation of IEEE-754 in the
//! `rustc_apfloat` crate, behind trusted wrappers whose results are named.
//! Everything that can be read off the bit pattern directly — sign, zero,
//! NaN, infinity, and the IEEE ordering of two non-NaN values — is computed
//! here in verified code.
use rustc_apfloat::ieee::Double;
use rustc_apfloat::Float;
use rustc_apfloat::Round;
use vstd::prelude::*;

verus! {

/// The bits of the IEEE-754 sum of the two doubles given by bits.
pub uninterp spec fn add_bits(a: u64, b: u64) -> u64;

/// The bits of the IEEE-754 difference of the two doubles given by bits.
pub uninterp spec fn sub_bits(a: u64, b: u64) -> u64;

/// The bits of the IEEE-754 product of the two doubles given by bits.
pub uninterp spec fn mul_bits(a: u64, b: u64) -> u64;

/// The bits of the IEEE-754 quotient of the two doubles given by bits.
pub uninterp spec fn div_bits(a: u64, b: u64) -> u64;

/// The bits of the double given by bits, rounded toward zero to an
/// integral value.
pub uninterp spec fn trunc_bits(a: u64) -> u64;

/// The bits of the double nearest to the given integer.
pub uninterp spec fn bits_of_i64(n: i64) -> u64;

/// The integer that the double given by bits converts to: rounded toward
/// zero, saturating at the ends of the `i64` range, zero for NaN.
pub uninterp spec fn i64_of_bits(a: u64) -> i64;

/// The bits of the double nearest to the decimal number written in `s`,
/// or `None` where `s` is not a decimal number.
pub uninterp spec fn bits_of_decimal(s: Seq<char>) -> Option<u64>;

/// The decimal scientific form, `precision` significant digits wide, of
/// the double given by bits.
pub uninterp spec fn decimal_of_bits(a: u64, precision: usize) -> Seq<char>;

/// Relies on `rustc_apfloat`'s `add_r`: IEEE-754 addition of two doubles,
/// rounding to nearest, ties to even.
#[verifier::external_body]
pub(crate) fn f64_add(a: u64, b: u64) -> (r: u64)
    ensures
        r == add_bits(a, b),
{
    let x = Double::from_bits(a as u128);
    let y = Double::from_bits(b as u128);
    x.add_r(y, Round::NearestTiesToEven).value.to_bits() as u64
}

/// Relies on `rustc_apfloat`'s `sub_r`: IEEE-754 subtraction of two
/// doubles, rounding to nearest, ties to even.
#[verifier::external_body]
pub(crate) fn f64_sub(a: u64, b: u64) -> (r: u64)
    ensures
        r == sub_bits(a, b),
{
    let x = Double::from_bits(a as u128);
    let y = Double::from_bits(b as u128);
    x.sub_r(y, Round::NearestTiesToEven).value.to_bits() as u64
}

/// Relies on `rustc_apfloat`'s `mul_r`: IEEE-754 multiplication of two
/// doubles, rounding to nearest, ties to even.
#[verifier::external_body]
pub(crate) fn f64_mul(a: u64, b: u64) -> (r: u64)
    ensures
        r == mul_bits(a, b),
{
    let x = Double::from_bits(a as u128);
    let y = Double::from_bits(b as u128);
    x.mul_r(y, Round::NearestTiesToEven).value.to_bits() as u64
}

/// Relies on `rustc_apfloat`'s `div_r`: IEEE-754 division of two doubles,
/// rounding to nearest, ties to even.
#[verifier::external_body]
pub(crate) fn f64_div(a: u64, b: u64) -> (r: u64)
    ensures
        r == div_bits(a, b),
{
    let x = Double::from_bits(a as u128);
    let y = Double::from_bits(b as u128);
    x.div_r(y, Round::NearestTiesToEven).value.to_bits() as u64
}

/// Relies on `rustc_apfloat`'s `round_to_integral` with rounding toward
/// zero: the integral part of a double, as a double.
#[verifier::external_body]
pub(crate) fn f64_trunc(a: u64) -> (r: u64)
    ensures
        r == trunc_bits(a),
{
    Double::from_bits(a as u128).round_to_integral(Round::TowardZero).value.to_bits() as u64
}

/// Relies on `rustc_apfloat`'s `from_i128`: the double nearest to an
/// integer, rounding to nearest, ties to even.
#[verifier::external_body]
pub(crate) fn f64_from_i64(n: i64) -> (r: u64)
    ensures
        r == bits_of_i64(n),
{
    Double::from_i128(n as i128).value.to_bits() as u64
}

/// Relies on `rustc_apfloat`'s `to_i128`, which rounds toward zero and, as
/// its documentation states, returns zero for NaN and the nearest end of
/// the range for values outside it.
#[verifier::external_body]
pub(crate) fn f64_to_i64(a: u64) -> (r: i64)
    ensures
        r == i64_of_bits(a),
{
    Double::from_bits(a as u128).to_i128(64).value as i64
}

/// Relies on `rustc_apfloat`'s `FromStr`, which parses a decimal number to
/// the nearest double, rounding to nearest, ties to even, and rejects any
/// string that is not a number. The precondition keeps every input off
/// the hexadecimal-float path, whose digit-position arithmetic is not
/// total on gigabyte-long tokens; without an `x` the parser can only
/// take the decimal path, which is total.
#[verifier::external_body]
pub(crate) fn f64_parse(s: &str) -> (r: Option<u64>)
    requires
        forall|k: int| 0 <= k < s@.len() ==> s@[k] != 'x' && s@[k] != 'X',
    ensures
        r == bits_of_decimal(s@),
{
    match s.parse::<Double>() {
        Ok(d) => Some(d.to_bits() as u64),
        Err(_) => None,
    }
}

/// Relies on `rustc_apfloat`'s `Display`, which with a width of zero
/// writes a double in decimal scientific notation, `precision` significant
/// digits wide, trailing zeros dropped. Its output is drawn from digits,
/// signs, the dot, the exponent marker `E`, and the letters of `NaN` and
/// `Inf`; in particular it never holds an `x`, which the second clause
/// records for the round-trip search.
#[verifier::external_body]
pub(crate) fn f64_format(a: u64, precision: usize) -> (r: String)
    ensures
        r@ == decimal_of_bits(a, precision),
        forall|k: int| 0 <= k < r@.len() ==> r@[k] != 'x' && r@[k] != 'X',
{
    format!("{:w$.p$}", Double::from_bits(a as u128), w = 0, p = precision)
}

/// The sign bit of a double.
pub open spec fn sign_of_bits(a: u64) -> bool {
    a & 0x8000_0000_0000_0000 != 0
}

/// The magnitude bits of a double: its absolute value.
pub open spec fn abs_bits(a: u64) -> u64 {
    a & 0x7fff_ffff_ffff_ffff
}

/// Whether the bits encode an IEEE-754 NaN: exponent all ones, mantissa
/// not zero.
pub open spec fn is_nan_bits(a: u64) -> bool {
    abs_bits(a) > 0x7ff0_0000_0000_0000
}

/// Whether the bits encode an infinity.
pub open spec fn is_inf_bits(a: u64) -> bool {
    abs_bits(a) == 0x7ff0_0000_0000_0000
}

/// Whether the bits encode a zero (of either sign). A double compares
/// equal to `0.0` exactly when its magnitude bits are zero.
pub open spec fn is_zero_bits(a: u64) -> bool {
    abs_bits(a) == 0
}

/// A signed-magnitude key that orders all non-NaN doubles as IEEE-754
/// does: negative values in reverse bit order below, positives above, the
/// two zeros together at zero.
pub open spec fn float_key(a: u64) -> int {
    if sign_of_bits(a) {
        -(abs_bits(a) as int)
    } else {
        abs_bits(a) as int
    }
}

/// IEEE-754 `<` on two doubles given by bits: false if either is NaN,
/// else the signed-magnitude order. For non-NaN doubles the IEEE order
/// coincides with the order of the signed-magnitude keys, because within
/// one sign the magnitude bits of a double grow with its magnitude.
pub open spec fn f64_lt_spec(a: u64, b: u64) -> bool {
    !is_nan_bits(a) && !is_nan_bits(b) && float_key(a) < float_key(b)
}

/// IEEE-754 `<=` on two doubles given by bits.
pub open spec fn f64_le_spec(a: u64, b: u64) -> bool {
    !is_nan_bits(a) && !is_nan_bits(b) && float_key(a) <= float_key(b)
}

pub(crate) fn f64_lt(a: u64, b: u64) -> (r: bool)
    ensures
        r == f64_lt_spec(a, b),
{
    !f64_is_nan(a) && !f64_is_nan(b) && {
        let ka_neg = a & 0x8000_0000_0000_0000 != 0;
        let kb_neg = b & 0x8000_0000_0000_0000 != 0;
        let ma = a & 0x7fff_ffff_ffff_ffff;
        let mb = b & 0x7fff_ffff_ffff_ffff;
        if ka_neg && kb_neg {
            mb < ma
        } else if ka_neg {
            ma != 0 || mb != 0
        } else if kb_neg {
            false
        } else {
            ma < mb
        }
    }
}

pub(crate) fn f64_le(a: u64, b: u64) -> (r: bool)
    ensures
        r == f64_le_spec(a, b),
{
    !f64_is_nan(a) && !f64_is_nan(b) && !f64_lt(b, a)
}

pub(crate) fn f64_is_nan(a: u64) -> (r: bool)
    ensures
        r == is_nan_bits(a),
{
    a & 0x7fff_ffff_ffff_ffff > 0x7ff0_0000_0000_0000
}

pub(crate) fn f64_is_zero(a: u64) -> (r: bool)
    ensures
        r == is_zero_bits(a),
{
    a & 0x7fff_ffff_ffff_ffff == 0
}

pub(crate) fn f64_abs(a: u64) -> (r: u64)
    ensures
        r == abs_bits(a),
{
    a & 0x7fff_ffff_ffff_ffff
}

/// Whether the double given by bits has a zero fractional part: the
/// value minus its truncation, compared with zero, exactly as
/// `fract() == 0.0` reads on doubles. Infinities fail this test,
/// because subtracting them gives NaN.
pub open spec fn fract_zero_bits(a: u64) -> bool {
    is_zero_bits(sub_bits(a, trunc_bits(a)))
}

pub(crate) fn f64_fract_is_zero(a: u64) -> (r: bool)
    ensures
        r == fract_zero_bits(a),
{
    let t = f64_trunc(a);
    let d = f64_sub(a, t);
    f64_is_zero(d)
}

/// The bits of `f64::EPSILON`, the machine epsilon that `eq` and `ne`
/// compare float differences against.
pub open spec fn epsilon_bits() -> u64 {
    0x3cb0_0000_0000_0000
}

/// Whether two doubles given by bits are equal in the loose sense of the
/// `eq` operator: their difference, in magnitude, is below the machine
/// epsilon.
pub open spec fn f64_close_spec(a: u64, b: u64) -> bool {
    f64_lt_spec(abs_bits(sub_bits(a, b)), epsilon_bits())
}

pub(crate) fn f64_close(a: u64, b: u64) -> (r: bool)
    ensures
        r == f64_close_spec(a, b),
{
    let d = f64_sub(a, b);
    f64_lt(f64_abs(d), 0x3cb0_0000_0000_0000)
}

} // verus!

//! Trusted boundary to `num_complex`: the IEEE double domain.
//!
//! Source rules keep floating-point types out of this crate, so every float
//! travels inside a `Complex64` payload, opaque to the verifier; a real
//! value sits in the real component with the imaginary component at positive
//! zero. `re_bits` and `im_bits` give the IEEE-754 bit patterns of the two
//! components, and the results of the hardware operations are named over
//! those bit patterns: they are functions of the operand bits alone. For
//! the transcendentals this means deterministic within a process, which is
//! all the proofs use; their exact bits are not fixed across platforms.

use vstd::prelude::*;

verus! {

#[verifier::external_type_specification]
#[verifier::external_body]
#[verifier::reject_recursive_types(T)]
pub struct ExComplex<T>(num_complex::Complex<T>);

/// The IEEE-754 bit pattern of the real component.
pub uninterp spec fn re_bits(c: num_complex::Complex64) -> u64;

/// The IEEE-754 bit pattern of the imaginary component.
pub uninterp spec fn im_bits(c: num_complex::Complex64) -> u64;

/// What IEEE double addition returns, by operand bit patterns.
pub uninterp spec fn add_bits(a: u64, b: u64) -> u64;

/// What IEEE double subtraction returns, by operand bit patterns.
pub uninterp spec fn sub_bits(a: u64, b: u64) -> u64;

/// What IEEE double multiplication returns, by operand bit patterns.
pub uninterp spec fn mul_bits(a: u64, b: u64) -> u64;

/// What IEEE double division returns, by operand bit patterns.
pub uninterp spec fn div_bits(a: u64, b: u64) -> u64;

/// What IEEE double remainder returns, by operand bit patterns.
pub uninterp spec fn rem_bits(a: u64, b: u64) -> u64;

/// What `f64::powf` returns, by operand bit patterns.
pub uninterp spec fn pow_bits(a: u64, b: u64) -> u64;

/// What IEEE double `<` returns, by operand bit patterns.
pub uninterp spec fn lt_bits(a: u64, b: u64) -> bool;

/// What IEEE double `==` returns, by operand bit patterns; it is not
/// bit-pattern equality: zeroes of both signs are equal and NaN equals
/// nothing.
pub uninterp spec fn eq_bits(a: u64, b: u64) -> bool;

/// What `f64::fract` returns, by the operand's bit pattern.
pub uninterp spec fn fract_bits(a: u64) -> u64;

/// What `f64::round` followed by the saturating cast to `i64` returns.
pub uninterp spec fn round_i64_of(a: u64) -> i64;

/// What `Display` for `f64` writes, by the operand's bit pattern.
pub uninterp spec fn fstr_of(a: u64) -> Seq<char>;

/// What rounding a mathematical integer to the nearest IEEE double returns.
pub uninterp spec fn f_of_int(i: int) -> u64;

/// What rounding the fraction `n / d` to the nearest IEEE double returns.
pub uninterp spec fn f_of_rat(n: int, d: int) -> u64;

/// What parsing a decimal (or exponent) literal as an IEEE double returns,
/// by the literal's bytes.
pub uninterp spec fn f_of_dec(s: Seq<u8>) -> u64;

/// Whether parsing a decimal literal as an IEEE double succeeds.
pub uninterp spec fn f_dec_ok(s: Seq<u8>) -> bool;

/// What complex addition returns, componentwise, by operand bit patterns.
pub uninterp spec fn cadd_bits(ar: u64, ai: u64, br: u64, bi: u64) -> (u64, u64);

/// What complex subtraction returns, by operand bit patterns.
pub uninterp spec fn csub_bits(ar: u64, ai: u64, br: u64, bi: u64) -> (u64, u64);

/// What complex multiplication returns, by operand bit patterns.
pub uninterp spec fn cmul_bits(ar: u64, ai: u64, br: u64, bi: u64) -> (u64, u64);

/// What complex division returns, by operand bit patterns.
pub uninterp spec fn cdiv_bits(ar: u64, ai: u64, br: u64, bi: u64) -> (u64, u64);

/// What `Complex64::powc` returns, by operand bit patterns.
pub uninterp spec fn cpow_bits(ar: u64, ai: u64, br: u64, bi: u64) -> (u64, u64);

/// What `Complex64::norm` returns, by the operand's bit patterns.
pub uninterp spec fn cnorm_bits(re: u64, im: u64) -> u64;

/// What `Complex64::sin` returns, by the operand's bit patterns.
pub uninterp spec fn csin_bits(re: u64, im: u64) -> (u64, u64);

/// What `Complex64::cos` returns, by the operand's bit patterns.
pub uninterp spec fn ccos_bits(re: u64, im: u64) -> (u64, u64);

/// What `Complex64::tan` returns, by the operand's bit patterns.
pub uninterp spec fn ctan_bits(re: u64, im: u64) -> (u64, u64);

/// What `Complex64::asin` returns, by the operand's bit patterns.
pub uninterp spec fn casin_bits(re: u64, im: u64) -> (u64, u64);

/// What `Complex64::acos` returns, by the operand's bit patterns.
pub uninterp spec fn cacos_bits(re: u64, im: u64) -> (u64, u64);

/// What `Complex64::atan` returns, by the operand's bit patterns.
pub uninterp spec fn catan_bits(re: u64, im: u64) -> (u64, u64);

/// What `Complex64::sinh` returns, by the operand's bit patterns.
pub uninterp spec fn csinh_bits(re: u64, im: u64) -> (u64, u64);

/// What `Complex64::cosh` returns, by the operand's bit patterns.
pub uninterp spec fn ccosh_bits(re: u64, im: u64) -> (u64, u64);

/// What `Complex64::tanh` returns, by the operand's bit patterns.
pub uninterp spec fn ctanh_bits(re: u64, im: u64) -> (u64, u64);

/// What `Complex64::ln` returns, by the operand's bit patterns.
pub uninterp spec fn cln_bits(re: u64, im: u64) -> (u64, u64);

/// What `Complex64::log` with base ten returns, by the operand's bit
/// patterns.
pub uninterp spec fn clog10_bits(re: u64, im: u64) -> (u64, u64);

/// What `Complex64::sqrt` returns, by the operand's bit patterns.
pub uninterp spec fn csqrt_bits(re: u64, im: u64) -> (u64, u64);

/// The IEEE-754 bit pattern of positive infinity.
pub open spec fn inf_bits() -> u64 {
    0x7FF0_0000_0000_0000u64
}

/// The sign bit of an IEEE-754 double.
pub open spec fn sign_mask() -> u64 {
    0x8000_0000_0000_0000u64
}

/// Whether a bit pattern encodes a NaN: an all-ones exponent with a
/// non-zero mantissa.
pub open spec fn is_nan_bits(b: u64) -> bool {
    (b & 0x7FF0_0000_0000_0000u64) == 0x7FF0_0000_0000_0000u64 && (b
        & 0x000F_FFFF_FFFF_FFFFu64) != 0
}

/// Whether a bit pattern encodes an IEEE zero of either sign.
pub open spec fn is_zero_bits(b: u64) -> bool {
    b == 0 || b == sign_mask()
}

/// Relies on `f64::to_bits`: reads the bit pattern of the real component.
#[verifier::external_body]
pub(crate) fn c_re_bits(c: &num_complex::Complex64) -> (r: u64)
    ensures
        r == re_bits(*c),
{
    c.re.to_bits()
}

/// Relies on `f64::to_bits`: reads the bit pattern of the imaginary
/// component.
#[verifier::external_body]
pub(crate) fn c_im_bits(c: &num_complex::Complex64) -> (r: u64)
    ensures
        r == im_bits(*c),
{
    c.im.to_bits()
}

/// Relies on `Complex<T>: Clone`: the generic signature says nothing, so
/// the contracted copy below goes through the payload's own wrapper.
pub assume_specification<T: Clone>[ <num_complex::Complex<T> as Clone>::clone ](
    a: &num_complex::Complex<T>,
) -> num_complex::Complex<T>
;

/// Relies on `Complex64: Clone`: the copy holds the same components.
#[verifier::external_body]
pub(crate) fn c_dup(a: &num_complex::Complex64) -> (r: num_complex::Complex64)
    ensures
        re_bits(r) == re_bits(*a),
        im_bits(r) == im_bits(*a),
{
    *a
}

/// Relies on `Complex64::new` and `From<u8>`: a real payload holding
/// positive zero, whose bit pattern is zero, in both components.
#[verifier::external_body]
pub(crate) fn f_zero() -> (r: num_complex::Complex64)
    ensures
        re_bits(r) == 0u64,
        im_bits(r) == 0u64,
{
    num_complex::Complex64::new(0u8.into(), 0u8.into())
}

/// Relies on `str::parse` for IEEE doubles: the result is a function of the
/// text alone, and parsing fails exactly when the text is not one of the
/// documented decimal forms.
#[verifier::external_body]
pub(crate) fn f_lit(s: &str) -> (r: Option<num_complex::Complex64>)
    ensures
        r is Some <==> f_dec_ok(vstd::string::StringSliceAdditionalSpecFns::spec_bytes(s)),
        r matches Some(c) ==> re_bits(c) == f_of_dec(
            vstd::string::StringSliceAdditionalSpecFns::spec_bytes(s),
        ) && im_bits(c) == 0u64,
{
    match s.parse() {
        Ok(v) => Some(num_complex::Complex64::new(v, 0u8.into())),
        Err(_) => None,
    }
}

/// A real payload parsed from a literal, or zero where the text is not a
/// decimal form.
pub(crate) fn f_const(s: &str) -> (r: num_complex::Complex64)
    ensures
        im_bits(r) == 0u64,
        f_dec_ok(vstd::string::StringSliceAdditionalSpecFns::spec_bytes(s)) ==> re_bits(r)
            == f_of_dec(vstd::string::StringSliceAdditionalSpecFns::spec_bytes(s)),
        !f_dec_ok(vstd::string::StringSliceAdditionalSpecFns::spec_bytes(s)) ==> re_bits(r)
            == 0u64,
{
    match f_lit(s) {
        Some(c) => c,
        None => f_zero(),
    }
}

/// Relies on `str::parse` accepting `"inf"`: positive infinity, whose IEEE
/// bit pattern is fixed.
#[verifier::external_body]
pub(crate) fn f_inf() -> (r: num_complex::Complex64)
    ensures
        re_bits(r) == inf_bits(),
        im_bits(r) == 0u64,
{
    num_complex::Complex64::new("inf".parse().unwrap(), 0u8.into())
}

/// Relies on `ToPrimitive::to_f64` for `BigInt`: rounds to the nearest
/// double, overflowing to infinity; it never returns `None`.
#[verifier::external_body]
pub(crate) fn big_to_f(i: &num_bigint::BigInt) -> (r: num_complex::Complex64)
    ensures
        re_bits(r) == f_of_int(crate::bigint::int_of(*i)),
        im_bits(r) == 0u64,
{
    num_complex::Complex64::new(num_traits::ToPrimitive::to_f64(i).unwrap(), 0u8.into())
}

/// Relies on `ToPrimitive::to_f64` for `BigRational`: rounds the fraction
/// to the nearest double. With a positive denominator, as every value this
/// crate constructs keeps, it never returns `None`.
#[verifier::external_body]
pub(crate) fn rat_to_f(q: &num_rational::BigRational) -> (r: num_complex::Complex64)
    requires
        crate::rational::rat_den(*q) > 0,
    ensures
        re_bits(r) == f_of_rat(crate::rational::rat_num(*q), crate::rational::rat_den(*q)),
        im_bits(r) == 0u64,
{
    num_complex::Complex64::new(num_traits::ToPrimitive::to_f64(q).unwrap(), 0u8.into())
}

/// Relies on IEEE double addition of the real components.
#[verifier::external_body]
pub(crate) fn fl_add(a: &num_complex::Complex64, b: &num_complex::Complex64) -> (r:
    num_complex::Complex64)
    ensures
        re_bits(r) == add_bits(re_bits(*a), re_bits(*b)),
        im_bits(r) == 0u64,
{
    num_complex::Complex64::new(a.re + b.re, 0u8.into())
}

/// Relies on IEEE double subtraction of the real components.
#[verifier::external_body]
pub(crate) fn fl_sub(a: &num_complex::Complex64, b: &num_complex::Complex64) -> (r:
    num_complex::Complex64)
    ensures
        re_bits(r) == sub_bits(re_bits(*a), re_bits(*b)),
        im_bits(r) == 0u64,
{
    num_complex::Complex64::new(a.re - b.re, 0u8.into())
}

/// Relies on IEEE double multiplication of the real components.
#[verifier::external_body]
pub(crate) fn fl_mul(a: &num_complex::Complex64, b: &num_complex::Complex64) -> (r:
    num_complex::Complex64)
    ensures
        re_bits(r) == mul_bits(re_bits(*a), re_bits(*b)),
        im_bits(r) == 0u64,
{
    num_complex::Complex64::new(a.re * b.re, 0u8.into())
}

/// Relies on IEEE double division of the real components.
#[verifier::external_body]
pub(crate) fn fl_div(a: &num_complex::Complex64, b: &num_complex::Complex64) -> (r:
    num_complex::Complex64)
    ensures
        re_bits(r) == div_bits(re_bits(*a), re_bits(*b)),
        im_bits(r) == 0u64,
{
    num_complex::Complex64::new(a.re / b.re, 0u8.into())
}

/// Relies on IEEE double remainder of the real components.
#[verifier::external_body]
pub(crate) fn fl_rem(a: &num_complex::Complex64, b: &num_complex::Complex64) -> (r:
    num_complex::Complex64)
    ensures
        re_bits(r) == rem_bits(re_bits(*a), re_bits(*b)),
        im_bits(r) == 0u64,
{
    num_complex::Complex64::new(a.re % b.re, 0u8.into())
}

/// Relies on `f64::powf` on the real components.
#[verifier::external_body]
pub(crate) fn fl_powf(a: &num_complex::Complex64, b: &num_complex::Complex64) -> (r:
    num_complex::Complex64)
    ensures
        re_bits(r) == pow_bits(re_bits(*a), re_bits(*b)),
        im_bits(r) == 0u64,
{
    num_complex::Complex64::new(a.re.powf(b.re), 0u8.into())
}

/// Relies on IEEE double negation: it flips the sign bit exactly.
#[verifier::external_body]
pub(crate) fn fl_neg(a: &num_complex::Complex64) -> (r: num_complex::Complex64)
    ensures
        re_bits(r) == re_bits(*a) ^ sign_mask(),
        im_bits(r) == 0u64,
{
    num_complex::Complex64::new(-a.re, 0u8.into())
}

/// Relies on `f64::abs`: it clears the sign bit exactly.
#[verifier::external_body]
pub(crate) fn fl_abs(a: &num_complex::Complex64) -> (r: num_complex::Complex64)
    ensures
        re_bits(r) == re_bits(*a) & !sign_mask(),
        im_bits(r) == 0u64,
{
    num_complex::Complex64::new(a.re.abs(), 0u8.into())
}

/// Relies on `f64::fract` on the real component.
#[verifier::external_body]
pub(crate) fn fl_fract(a: &num_complex::Complex64) -> (r: num_complex::Complex64)
    ensures
        re_bits(r) == fract_bits(re_bits(*a)),
        im_bits(r) == 0u64,
{
    num_complex::Complex64::new(a.re.fract(), 0u8.into())
}

/// Relies on `f64::round` and the saturating cast to `i64`.
#[verifier::external_body]
pub(crate) fn fl_round_i64(a: &num_complex::Complex64) -> (r: i64)
    ensures
        r == round_i64_of(re_bits(*a)),
{
    a.re.round() as i64
}

/// Relies on IEEE double `<` on the real components.
#[verifier::external_body]
pub(crate) fn fl_lt(a: &num_complex::Complex64, b: &num_complex::Complex64) -> (r: bool)
    ensures
        r == lt_bits(re_bits(*a), re_bits(*b)),
{
    a.re < b.re
}

/// Relies on IEEE double `==` on the real components.
#[verifier::external_body]
pub(crate) fn fl_eq(a: &num_complex::Complex64, b: &num_complex::Complex64) -> (r: bool)
    ensures
        r == eq_bits(re_bits(*a), re_bits(*b)),
{
    a.re == b.re
}

/// Relies on `Display` for `f64` on the real component.
#[verifier::external_body]
pub(crate) fn fl_to_string(a: &num_complex::Complex64) -> (r: String)
    ensures
        r@ == fstr_of(re_bits(*a)),
{
    a.re.to_string()
}

/// Relies on `Complex64: Add`: componentwise IEEE addition.
#[verifier::external_body]
pub(crate) fn cx_add(a: &num_complex::Complex64, b: &num_complex::Complex64) -> (r:
    num_complex::Complex64)
    ensures
        (re_bits(r), im_bits(r)) == cadd_bits(re_bits(*a), im_bits(*a), re_bits(*b), im_bits(*b)),
{
    *a + *b
}

/// Relies on `Complex64: Sub`: componentwise IEEE subtraction.
#[verifier::external_body]
pub(crate) fn cx_sub(a: &num_complex::Complex64, b: &num_complex::Complex64) -> (r:
    num_complex::Complex64)
    ensures
        (re_bits(r), im_bits(r)) == csub_bits(re_bits(*a), im_bits(*a), re_bits(*b), im_bits(*b)),
{
    *a - *b
}

/// Relies on `Complex64: Mul`: complex multiplication.
#[verifier::external_body]
pub(crate) fn cx_mul(a: &num_complex::Complex64, b: &num_complex::Complex64) -> (r:
    num_complex::Complex64)
    ensures
        (re_bits(r), im_bits(r)) == cmul_bits(re_bits(*a), im_bits(*a), re_bits(*b), im_bits(*b)),
{
    *a * *b
}

/// Relies on `Complex64: Div`: complex division.
#[verifier::external_body]
pub(crate) fn cx_div(a: &num_complex::Complex64, b: &num_complex::Complex64) -> (r:
    num_complex::Complex64)
    ensures
        (re_bits(r), im_bits(r)) == cdiv_bits(re_bits(*a), im_bits(*a), re_bits(*b), im_bits(*b)),
{
    *a / *b
}

/// Relies on `Complex64::powc`: complex exponentiation.
#[verifier::external_body]
pub(crate) fn cx_powc(a: &num_complex::Complex64, b: &num_complex::Complex64) -> (r:
    num_complex::Complex64)
    ensures
        (re_bits(r), im_bits(r)) == cpow_bits(re_bits(*a), im_bits(*a), re_bits(*b), im_bits(*b)),
{
    a.powc(*b)
}

/// Relies on `Complex64: Neg`: it flips both sign bits exactly.
#[verifier::external_body]
pub(crate) fn cx_neg(a: &num_complex::Complex64) -> (r: num_complex::Complex64)
    ensures
        re_bits(r) == re_bits(*a) ^ sign_mask(),
        im_bits(r) == im_bits(*a) ^ sign_mask(),
{
    -*a
}

/// Relies on `Complex64::conj`: it flips the imaginary sign bit exactly.
#[verifier::external_body]
pub(crate) fn cx_conj(a: &num_complex::Complex64) -> (r: num_complex::Complex64)
    ensures
        re_bits(r) == re_bits(*a),
        im_bits(r) == im_bits(*a) ^ sign_mask(),
{
    a.conj()
}

/// Relies on `Complex64::new`: a real payload holding the real component of
/// the operand.
#[verifier::external_body]
pub(crate) fn cx_real_part(a: &num_complex::Complex64) -> (r: num_complex::Complex64)
    ensures
        re_bits(r) == re_bits(*a),
        im_bits(r) == 0u64,
{
    num_complex::Complex64::new(a.re, 0u8.into())
}

/// Relies on `Complex64::new`: a real payload holding the imaginary
/// component of the operand.
#[verifier::external_body]
pub(crate) fn cx_imag_part(a: &num_complex::Complex64) -> (r: num_complex::Complex64)
    ensures
        re_bits(r) == im_bits(*a),
        im_bits(r) == 0u64,
{
    num_complex::Complex64::new(a.im, 0u8.into())
}

/// Relies on `Complex64::norm`: the modulus, as a real payload.
#[verifier::external_body]
pub(crate) fn cx_norm(a: &num_complex::Complex64) -> (r: num_complex::Complex64)
    ensures
        re_bits(r) == cnorm_bits(re_bits(*a), im_bits(*a)),
        im_bits(r) == 0u64,
{
    num_complex::Complex64::new(a.norm(), 0u8.into())
}

/// Relies on `Complex64::sin`.
#[verifier::external_body]
pub(crate) fn cx_sin(a: &num_complex::Complex64) -> (r: num_complex::Complex64)
    ensures
        (re_bits(r), im_bits(r)) == csin_bits(re_bits(*a), im_bits(*a)),
{
    a.sin()
}

/// Relies on `Complex64::cos`.
#[verifier::external_body]
pub(crate) fn cx_cos(a: &num_complex::Complex64) -> (r: num_complex::Complex64)
    ensures
        (re_bits(r), im_bits(r)) == ccos_bits(re_bits(*a), im_bits(*a)),
{
    a.cos()
}

/// Relies on `Complex64::tan`.
#[verifier::external_body]
pub(crate) fn cx_tan(a: &num_complex::Complex64) -> (r: num_complex::Complex64)
    ensures
        (re_bits(r), im_bits(r)) == ctan_bits(re_bits(*a), im_bits(*a)),
{
    a.tan()
}

/// Relies on `Complex64::asin`.
#[verifier::external_body]
pub(crate) fn cx_asin(a: &num_complex::Complex64) -> (r: num_complex::Complex64)
    ensures
        (re_bits(r), im_bits(r)) == casin_bits(re_bits(*a), im_bits(*a)),
{
    a.asin()
}

/// Relies on `Complex64::acos`.
#[verifier::external_body]
pub(crate) fn cx_acos(a: &num_complex::Complex64) -> (r: num_complex::Complex64)
    ensures
        (re_bits(r), im_bits(r)) == cacos_bits(re_bits(*a), im_bits(*a)),
{
    a.acos()
}

/// Relies on `Complex64::atan`.
#[verifier::external_body]
pub(crate) fn cx_atan(a: &num_complex::Complex64) -> (r: num_complex::Complex64)
    ensures
        (re_bits(r), im_bits(r)) == catan_bits(re_bits(*a), im_bits(*a)),
{
    a.atan()
}

/// Relies on `Complex64::sinh`.
#[verifier::external_body]
pub(crate) fn cx_sinh(a: &num_complex::Complex64) -> (r: num_complex::Complex64)
    ensures
        (re_bits(r), im_bits(r)) == csinh_bits(re_bits(*a), im_bits(*a)),
{
    a.sinh()
}

/// Relies on `Complex64::cosh`.
#[verifier::external_body]
pub(crate) fn cx_cosh(a: &num_complex::Complex64) -> (r: num_complex::Complex64)
    ensures
        (re_bits(r), im_bits(r)) == ccosh_bits(re_bits(*a), im_bits(*a)),
{
    a.cosh()
}

/// Relies on `Complex64::tanh`.
#[verifier::external_body]
pub(crate) fn cx_tanh(a: &num_complex::Complex64) -> (r: num_complex::Complex64)
    ensures
        (re_bits(r), im_bits(r)) == ctanh_bits(re_bits(*a), im_bits(*a)),
{
    a.tanh()
}

/// Relies on `Complex64::ln`.
#[verifier::external_body]
pub(crate) fn cx_ln(a: &num_complex::Complex64) -> (r: num_complex::Complex64)
    ensures
        (re_bits(r), im_bits(r)) == cln_bits(re_bits(*a), im_bits(*a)),
{
    a.ln()
}

/// Relies on `Complex64::log` with base ten.
#[verifier::external_body]
pub(crate) fn cx_log10(a: &num_complex::Complex64) -> (r: num_complex::Complex64)
    ensures
        (re_bits(r), im_bits(r)) == clog10_bits(re_bits(*a), im_bits(*a)),
{
    a.log(10u8.into())
}

/// Relies on `Complex64::sqrt`.
#[verifier::external_body]
pub(crate) fn cx_sqrt(a: &num_complex::Complex64) -> (r: num_complex::Complex64)
    ensures
        (re_bits(r), im_bits(r)) == csqrt_bits(re_bits(*a), im_bits(*a)),
{
    a.sqrt()
}

/// What scaling a complex by a real factor returns, componentwise.
pub uninterp spec fn cscale_bits(ar: u64, ai: u64, s: u64) -> (u64, u64);

/// Relies on `Complex64: Mul<f64>`: componentwise scaling by the real
/// component of the factor.
#[verifier::external_body]
pub(crate) fn cx_scale(a: &num_complex::Complex64, s: &num_complex::Complex64) -> (r:
    num_complex::Complex64)
    ensures
        (re_bits(r), im_bits(r)) == cscale_bits(re_bits(*a), im_bits(*a), re_bits(*s)),
{
    *a * s.re
}

/// What `Complex64::powf` returns, by the base's bit patterns and the real
/// exponent's.
pub uninterp spec fn cpowf_bits(ar: u64, ai: u64, t: u64) -> (u64, u64);

/// Relies on `Complex64::powf`: the complex base raised to the real
/// component of the exponent.
#[verifier::external_body]
pub(crate) fn cx_powf(a: &num_complex::Complex64, t: &num_complex::Complex64) -> (r:
    num_complex::Complex64)
    ensures
        (re_bits(r), im_bits(r)) == cpowf_bits(re_bits(*a), im_bits(*a), re_bits(*t)),
{
    a.powf(t.re)
}

/// What the round trip through the saturating `i32` cast returns.
pub uninterp spec fn i32f_bits(b: u64) -> u64;

/// Relies on the saturating cast to `i32` and the exact conversion back.
#[verifier::external_body]
pub(crate) fn fl_i32(a: &num_complex::Complex64) -> (r: num_complex::Complex64)
    ensures
        re_bits(r) == i32f_bits(re_bits(*a)),
        im_bits(r) == 0u64,
{
    num_complex::Complex64::new((a.re as i32).into(), 0u8.into())
}

/// Relies on `ToPrimitive::to_f64` for `usize`: rounding the count to the
/// nearest double; it never returns `None`.
#[verifier::external_body]
pub(crate) fn fl_from_usize(x: usize) -> (r: num_complex::Complex64)
    ensures
        re_bits(r) == f_of_int(x as int),
        im_bits(r) == 0u64,
{
    num_complex::Complex64::new(num_traits::ToPrimitive::to_f64(&x).unwrap(), 0u8.into())
}

} // verus!

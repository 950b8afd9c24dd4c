//! Rendering numbers as text.
//!
//! A float whose fractional part is below a small epsilon prints as the
//! rounded integer; otherwise it prints as the double itself. A rational
//! prints as `numerator/denominator` unless it is integral, and a complex
//! prints as its parts around a sign with a trailing `i`.

use vstd::prelude::*;
use vstd::string::StringSliceAdditionalSpecFns;
use crate::bigint::{dec_of, int_from_i64, int_to_string};
use crate::floats::{
    eq_bits, f_const, f_dec_ok, f_of_dec, f_of_rat, fl_abs, fl_fract, fl_lt, fl_round_i64,
    fl_to_string, fract_bits, fstr_of, im_bits, lt_bits, re_bits, round_i64_of, sign_mask,
};
use crate::number::{NumV, Number};
use crate::rational::{rat_den, rat_num};

verus! {

/// The epsilon under which a float counts as integral: the parsed value of
/// the literal below.
pub open spec fn eps_bits() -> u64 {
    if f_dec_ok("1e-10".spec_bytes()) {
        f_of_dec("1e-10".spec_bytes())
    } else {
        0
    }
}

/// The rendering of one double: the rounded integer where the fractional
/// part is negligible, the plain rendering otherwise.
pub open spec fn fmt_float_spec(b: u64) -> Seq<char> {
    if lt_bits(fract_bits(b) & !sign_mask(), eps_bits()) {
        dec_of(round_i64_of(b) as int)
    } else {
        fstr_of(b)
    }
}

/// Renders the real component of a payload.
pub fn format_float(val: &num_complex::Complex64) -> (r: String)
    ensures
        r@ == fmt_float_spec(re_bits(*val)),
{
    let frac = fl_abs(&fl_fract(val));
    let eps = f_const("1e-10");
    if fl_lt(&frac, &eps) {
        int_to_string(&int_from_i64(fl_round_i64(val)))
    } else {
        fl_to_string(val)
    }
}

/// The rendering of a complex pair: a real with a negligible imaginary
/// part prints as a float; a pure imaginary prints as `bi` or `-bi`; the
/// rest prints as `a + bi` or `a - bi`.
pub open spec fn fmt_complex_spec(re: u64, im: u64) -> Seq<char> {
    let im_abs = im & !sign_mask();
    if lt_bits(im_abs, eps_bits()) {
        fmt_float_spec(re)
    } else {
        let im_str = fmt_float_spec(im_abs);
        if lt_bits(re & !sign_mask(), eps_bits()) {
            if lt_bits(im, 0) {
                "-"@ + im_str + "i"@
            } else {
                im_str + "i"@
            }
        } else {
            if lt_bits(im, 0) {
                fmt_float_spec(re) + " - "@ + im_str + "i"@
            } else {
                fmt_float_spec(re) + " + "@ + im_str + "i"@
            }
        }
    }
}

/// Renders a complex payload.
pub fn format_complex(c: &num_complex::Complex64) -> (r: String)
    ensures
        r@ == fmt_complex_spec(re_bits(*c), im_bits(*c)),
{
    let eps = f_const("1e-10");
    let re_part = crate::floats::cx_real_part(c);
    let im_part = crate::floats::cx_imag_part(c);
    let im_abs = fl_abs(&im_part);
    if fl_lt(&im_abs, &eps) {
        format_float(&re_part)
    } else {
        let im_str = format_float(&im_abs);
        let zero = crate::floats::f_zero();
        if fl_lt(&fl_abs(&re_part), &eps) {
            if fl_lt(&im_part, &zero) {
                let s = <String as vstd::string::StringExecFns>::from_str("-");
                let s = <String as vstd::string::StringExecFns>::concat(s, im_str.as_str());
                <String as vstd::string::StringExecFns>::concat(s, "i")
            } else {
                <String as vstd::string::StringExecFns>::concat(im_str, "i")
            }
        } else {
            let re_str = format_float(&re_part);
            if fl_lt(&im_part, &zero) {
                let s = <String as vstd::string::StringExecFns>::concat(re_str, " - ");
                let s = <String as vstd::string::StringExecFns>::concat(s, im_str.as_str());
                <String as vstd::string::StringExecFns>::concat(s, "i")
            } else {
                let s = <String as vstd::string::StringExecFns>::concat(re_str, " + ");
                let s = <String as vstd::string::StringExecFns>::concat(s, im_str.as_str());
                <String as vstd::string::StringExecFns>::concat(s, "i")
            }
        }
    }
}

/// The rendering of a number: exact digits for integers, a fraction or its
/// integral value for rationals, and the float renderings above.
pub open spec fn fmt_number_spec(v: NumV) -> Seq<char> {
    match v {
        NumV::Int { i } => dec_of(i),
        NumV::Rat { n, d } => if d == 1 {
            dec_of(n)
        } else {
            dec_of(n) + "/"@ + dec_of(d)
        },
        NumV::Fl { b } => fmt_float_spec(b),
        NumV::Cx { re, im } => fmt_complex_spec(re, im),
    }
}

/// Renders a number, keeping exact rationals as fractions.
pub fn format_number(n: Number) -> (r: String)
    requires
        n.wf(),
    ensures
        r@ == fmt_number_spec(n@),
{
    match &n {
        Number::Integer(i) => int_to_string(i),
        Number::Rational(q) => {
            if crate::rational::rq_is_integer(q) {
                int_to_string(&crate::rational::rq_numer(q))
            } else {
                let s = int_to_string(&crate::rational::rq_numer(q));
                let s = <String as vstd::string::StringExecFns>::concat(s, "/");
                let den = int_to_string(&crate::rational::rq_denom(q));
                <String as vstd::string::StringExecFns>::concat(s, den.as_str())
            }
        },
        Number::Float(c) => format_float(c),
        Number::Complex(c) => format_complex(c),
    }
}

/// The decimal rendering: a non-integral rational renders as the nearest
/// double instead of a fraction.
pub open spec fn fmt_decimal_spec(v: NumV) -> Seq<char> {
    match v {
        NumV::Rat { n, d } => if d == 1 {
            dec_of(n)
        } else {
            fmt_float_spec(f_of_rat(n, d))
        },
        _ => fmt_number_spec(v),
    }
}

/// Renders a number with non-integral rationals shown as decimals.
pub fn format_number_decimal(n: Number) -> (r: String)
    requires
        n.wf(),
    ensures
        r@ == fmt_decimal_spec(n@),
{
    match &n {
        Number::Rational(q) => {
            if crate::rational::rq_is_integer(q) {
                int_to_string(&crate::rational::rq_numer(q))
            } else {
                format_float(&crate::floats::rat_to_f(q))
            }
        },
        _ => format_number(n),
    }
}

} // verus!

//! The registry of named primitive functions.
//!
//! The evaluator consults it after the user-function table: each primitive
//! takes the fully evaluated arguments and returns a number or an error,
//! with no access to the context. A name absent from the registry is an
//! unknown function.

use vstd::prelude::*;
use vstd::string::StrSliceExecFns;
use crate::bigint::{
    and_of, int_abs, int_and, int_from_i64, int_from_u64, int_not, int_or, int_pow_u32, int_shl,
    int_shr, int_to_i64, int_to_u32, int_to_usize, int_trem, int_xor, int_of, i64_rotate_left,
    i64_rotate_right, or_of, rol_of, ror_of, xor_of,
};
use crate::errors::{EngineError, ErrV, chars_of, msg};
use crate::floats::{
    cacos_bits, casin_bits, catan_bits, ccos_bits, ccosh_bits, cln_bits, clog10_bits, cnorm_bits,
    csin_bits, csinh_bits, csqrt_bits, ctan_bits, ctanh_bits, cx_acos, cx_asin, cx_atan, cx_conj,
    cx_cos, cx_cosh, cx_imag_part, cx_ln, cx_log10, cx_norm, cx_real_part, cx_sin, cx_sinh,
    cx_sqrt, cx_tan, cx_tanh, f_zero, fl_abs, im_bits, is_zero_bits, re_bits, sign_mask,
};
use crate::number::{
    NumV, Number, add_spec, cmp_spec, cx_parts, div_spec, mul_spec, sub_spec, truthy,
};
use crate::rational::{rat_den, rat_num, rq_abs, rq_numer};
use crate::context::bytes_eq;

verus! {

/// The bytes that an ASCII name spells.
pub open spec fn bname(s: Seq<char>) -> Seq<u8> {
    s.map_values(|c: char| c as u8)
}

/// The byte word of an ASCII literal.
fn word(s: &str) -> (r: Vec<u8>)
    requires
        vstd::string::is_ascii(s),
    ensures
        r@ == bname(s@),
{
    let r = StrSliceExecFns::as_bytes_vec(s);
    proof {
        broadcast use vstd::string::is_ascii_spec_bytes;

        assert(r@ =~= bname(s@));
    }
    r
}

/// Whether a value counts as true: zero of any kind is false.
pub fn is_truthy(n: &Number) -> (r: bool)
    requires
        n.wf(),
    ensures
        r == truthy(n@),
{
    match n {
        Number::Integer(i) => {
            let zero = int_from_u64(0);
            !crate::bigint::int_eq(i, &zero)
        },
        Number::Rational(q) => {
            let zero = int_from_u64(0);
            !crate::bigint::int_eq(&rq_numer(q), &zero)
        },
        Number::Float(c) => {
            let b = crate::floats::c_re_bits(c);
            !(b == 0 || b == 0x8000_0000_0000_0000u64)
        },
        Number::Complex(c) => {
            let re = crate::floats::c_re_bits(c);
            let im = crate::floats::c_im_bits(c);
            !((re == 0 || re == 0x8000_0000_0000_0000u64) && (im == 0 || im
                == 0x8000_0000_0000_0000u64))
        },
    }
}

pub open spec fn bool_num(b: bool) -> NumV {
    NumV::Int { i: if b { 1int } else { 0int } }
}

fn from_bool(b: bool) -> (r: Number)
    ensures
        r@ == bool_num(b),
        r.wf(),
{
    if b {
        Number::Integer(int_from_u64(1))
    } else {
        Number::Integer(int_from_u64(0))
    }
}

/// Whether every argument is true.
pub open spec fn all_truthy(args: Seq<NumV>) -> bool {
    forall|k: int| 0 <= k < args.len() ==> truthy(#[trigger] args[k])
}

/// Whether some argument is true.
pub open spec fn any_truthy(args: Seq<NumV>) -> bool {
    exists|k: int| 0 <= k < args.len() && truthy(#[trigger] args[k])
}

/// How many arguments are true.
pub open spec fn count_truthy(args: Seq<NumV>) -> int
    decreases args.len(),
{
    if args.len() == 0 {
        0
    } else {
        count_truthy(args.drop_last()) + (if truthy(args.last()) {
            1int
        } else {
            0int
        })
    }
}

/// The views of a sequence of numbers.
pub open spec fn nums_v(args: Seq<Number>) -> Seq<NumV> {
    args.map_values(|n: Number| n@)
}

pub open spec fn nums_wf(args: Seq<Number>) -> bool {
    forall|k: int| 0 <= k < args.len() ==> (#[trigger] args[k]).wf()
}

pub open spec fn arity_err(name: Seq<char>, n: int) -> Result<NumV, ErrV> {
    Err(ErrV::ArgumentMismatch { name, expected: n })
}

// Logic primitives: zero of any kind is false, everything else is true,
// and the results are the integers one and zero.
pub open spec fn b_truth_spec(args: Seq<NumV>, value: bool) -> Result<NumV, ErrV> {
    Ok(bool_num(value))
}

pub open spec fn b_not_spec(args: Seq<NumV>) -> Result<NumV, ErrV> {
    if args.len() != 1 {
        arity_err("not"@, 1)
    } else {
        Ok(bool_num(!truthy(args[0])))
    }
}

pub open spec fn b_and_spec(args: Seq<NumV>) -> Result<NumV, ErrV> {
    Ok(bool_num(all_truthy(args)))
}

pub open spec fn b_or_spec(args: Seq<NumV>) -> Result<NumV, ErrV> {
    Ok(bool_num(any_truthy(args)))
}

pub open spec fn b_xor_spec(args: Seq<NumV>) -> Result<NumV, ErrV> {
    Ok(bool_num(count_truthy(args) % 2 != 0))
}

/// Both branches arrive already evaluated, so this cannot short-circuit.
pub open spec fn b_if_spec(args: Seq<NumV>) -> Result<NumV, ErrV> {
    if args.len() != 3 {
        arity_err("if"@, 3)
    } else if truthy(args[0]) {
        Ok(args[1])
    } else {
        Ok(args[2])
    }
}

fn b_not(args: &Vec<Number>) -> (r: Result<Number, EngineError>)
    requires
        nums_wf(args@),
    ensures
        res_matches(r, b_not_spec(nums_v(args@))),
{
    if args.len() != 1 {
        Err(EngineError::ArgumentMismatch(msg("not"), 1))
    } else {
        Ok(from_bool(!is_truthy(&args[0])))
    }
}

fn b_and(args: &Vec<Number>) -> (r: Result<Number, EngineError>)
    requires
        nums_wf(args@),
    ensures
        res_matches(r, b_and_spec(nums_v(args@))),
{
    let mut i: usize = 0;
    while i < args.len()
        invariant
            nums_wf(args@),
            i <= args@.len(),
            forall|k: int| 0 <= k < i ==> truthy(#[trigger] nums_v(args@)[k]),
        decreases args@.len() - i,
    {
        if !is_truthy(&args[i]) {
            proof {
                assert(nums_v(args@)[i as int] == args@[i as int]@);
            }
            return Ok(from_bool(false));
        }
        i = i + 1;
    }
    Ok(from_bool(true))
}

fn b_or(args: &Vec<Number>) -> (r: Result<Number, EngineError>)
    requires
        nums_wf(args@),
    ensures
        res_matches(r, b_or_spec(nums_v(args@))),
{
    let mut i: usize = 0;
    while i < args.len()
        invariant
            nums_wf(args@),
            i <= args@.len(),
            forall|k: int| 0 <= k < i ==> !truthy(#[trigger] nums_v(args@)[k]),
        decreases args@.len() - i,
    {
        if is_truthy(&args[i]) {
            proof {
                assert(nums_v(args@)[i as int] == args@[i as int]@);
            }
            return Ok(from_bool(true));
        }
        i = i + 1;
    }
    Ok(from_bool(false))
}

fn b_xor(args: &Vec<Number>) -> (r: Result<Number, EngineError>)
    requires
        nums_wf(args@),
    ensures
        res_matches(r, b_xor_spec(nums_v(args@))),
{
    let mut odd = false;
    let mut i: usize = 0;
    while i < args.len()
        invariant
            nums_wf(args@),
            i <= args@.len(),
            odd == (count_truthy(nums_v(args@).subrange(0, i as int)) % 2 != 0),
        decreases args@.len() - i,
    {
        let ghost pre = nums_v(args@).subrange(0, i as int);
        if is_truthy(&args[i]) {
            odd = !odd;
        }
        proof {
            let post = nums_v(args@).subrange(0, i + 1 as int);
            assert(post.drop_last() =~= pre);
            assert(post.last() == nums_v(args@)[i as int]);
        }
        i = i + 1;
    }
    proof {
        assert(nums_v(args@).subrange(0, args@.len() as int) =~= nums_v(args@));
    }
    Ok(from_bool(odd))
}

fn b_if(args: &Vec<Number>) -> (r: Result<Number, EngineError>)
    requires
        nums_wf(args@),
    ensures
        res_matches(r, b_if_spec(nums_v(args@))),
{
    if args.len() != 3 {
        Err(EngineError::ArgumentMismatch(msg("if"), 3))
    } else if is_truthy(&args[0]) {
        Ok(args[1].dup())
    } else {
        Ok(args[2].dup())
    }
}

/// Whether an executable result matches a specified one, value and error
/// alike, with a well-formed value.
pub open spec fn res_matches(r: Result<Number, EngineError>, s: Result<NumV, ErrV>) -> bool {
    match (r, s) {
        (Ok(n), Ok(v)) => n@ == v && n.wf(),
        (Err(e), Err(v)) => e@ == v,
        _ => false,
    }
}

// Bitwise primitives: defined on integers alone, over their two's-complement
// form.
pub open spec fn as_int(v: NumV) -> Option<int> {
    match v {
        NumV::Int { i } => Some(i),
        _ => None,
    }
}

pub open spec fn bit_type_err() -> ErrV {
    ErrV::TypeMismatch { expected: "Bitwise operation"@, actual: "Integer"@ }
}

/// The two integer operands of a binary bitwise call, or its error.
pub open spec fn bit2_args(args: Seq<NumV>, name: Seq<char>) -> Result<(int, int), ErrV> {
    if args.len() != 2 {
        Err(ErrV::ArgumentMismatch { name, expected: 2 })
    } else {
        match (as_int(args[0]), as_int(args[1])) {
            (Some(a), Some(b)) => Ok((a, b)),
            (None, _) => Err(bit_type_err()),
            (Some(_), None) => Err(bit_type_err()),
        }
    }
}

pub open spec fn b_band_spec(args: Seq<NumV>) -> Result<NumV, ErrV> {
    match bit2_args(args, "band"@) {
        Ok((a, b)) => Ok(NumV::Int { i: and_of(a, b) }),
        Err(e) => Err(e),
    }
}

pub open spec fn b_bor_spec(args: Seq<NumV>) -> Result<NumV, ErrV> {
    match bit2_args(args, "bor"@) {
        Ok((a, b)) => Ok(NumV::Int { i: or_of(a, b) }),
        Err(e) => Err(e),
    }
}

pub open spec fn b_bxor_spec(args: Seq<NumV>) -> Result<NumV, ErrV> {
    match bit2_args(args, "bxor"@) {
        Ok((a, b)) => Ok(NumV::Int { i: xor_of(a, b) }),
        Err(e) => Err(e),
    }
}

pub open spec fn b_bnot_spec(args: Seq<NumV>) -> Result<NumV, ErrV> {
    if args.len() != 1 {
        arity_err("bnot"@, 1)
    } else {
        match as_int(args[0]) {
            Some(a) => Ok(NumV::Int { i: -a - 1 }),
            None => Err(bit_type_err()),
        }
    }
}

pub open spec fn b_lsh_spec(args: Seq<NumV>) -> Result<NumV, ErrV> {
    match bit2_args(args, "lsh"@) {
        Ok((a, b)) => if 0 <= b <= usize::MAX {
            Ok(NumV::Int { i: a * vstd::arithmetic::power::pow(2, b as nat) })
        } else {
            Err(ErrV::Generic { msg: "Shift count too large or negative"@ })
        },
        Err(e) => Err(e),
    }
}

pub open spec fn b_rsh_spec(args: Seq<NumV>) -> Result<NumV, ErrV> {
    match bit2_args(args, "rsh"@) {
        Ok((a, b)) => if 0 <= b <= usize::MAX {
            Ok(NumV::Int { i: a / vstd::arithmetic::power::pow(2, b as nat) })
        } else {
            Err(ErrV::Generic { msg: "Shift count too large or negative"@ })
        },
        Err(e) => Err(e),
    }
}

pub open spec fn b_rol_spec(args: Seq<NumV>) -> Result<NumV, ErrV> {
    match bit2_args(args, "rol"@) {
        Ok((a, b)) => if i64::MIN <= a <= i64::MAX && 0 <= b <= u32::MAX {
            Ok(NumV::Int { i: rol_of(a as i64, b as u32) as int })
        } else {
            Err(ErrV::Generic { msg: "Rotation arguments too large"@ })
        },
        Err(e) => Err(e),
    }
}

pub open spec fn b_ror_spec(args: Seq<NumV>) -> Result<NumV, ErrV> {
    match bit2_args(args, "ror"@) {
        Ok((a, b)) => if i64::MIN <= a <= i64::MAX && 0 <= b <= u32::MAX {
            Ok(NumV::Int { i: ror_of(a as i64, b as u32) as int })
        } else {
            Err(ErrV::Generic { msg: "Rotation arguments too large"@ })
        },
        Err(e) => Err(e),
    }
}

/// The two `BigInt` operands of a binary bitwise call, or its error.
fn bit2_take(args: &Vec<Number>, name: &str) -> (r: Result<
    (num_bigint::BigInt, num_bigint::BigInt),
    EngineError,
>)
    requires
        nums_wf(args@),
    ensures
        match (r, bit2_args(nums_v(args@), name@)) {
            (Ok(p), Ok(s)) => int_of(p.0) == s.0 && int_of(p.1) == s.1,
            (Err(e), Err(s)) => e@ == s,
            _ => false,
        },
{
    if args.len() != 2 {
        return Err(EngineError::ArgumentMismatch(msg(name), 2));
    }
    proof {
        assert(nums_v(args@)[0] == args@[0]@);
        assert(nums_v(args@)[1] == args@[1]@);
    }
    let a = match &args[0] {
        Number::Integer(i) => crate::bigint::int_clone(i),
        _ => {
            return Err(
                EngineError::TypeMismatch(msg("Bitwise operation"), msg("Integer")),
            );
        },
    };
    let b = match &args[1] {
        Number::Integer(i) => crate::bigint::int_clone(i),
        _ => {
            return Err(
                EngineError::TypeMismatch(msg("Bitwise operation"), msg("Integer")),
            );
        },
    };
    Ok((a, b))
}

fn b_band(args: &Vec<Number>) -> (r: Result<Number, EngineError>)
    requires
        nums_wf(args@),
    ensures
        res_matches(r, b_band_spec(nums_v(args@))),
{
    match bit2_take(args, "band") {
        Ok((a, b)) => Ok(Number::Integer(int_and(&a, &b))),
        Err(e) => Err(e),
    }
}

fn b_bor(args: &Vec<Number>) -> (r: Result<Number, EngineError>)
    requires
        nums_wf(args@),
    ensures
        res_matches(r, b_bor_spec(nums_v(args@))),
{
    match bit2_take(args, "bor") {
        Ok((a, b)) => Ok(Number::Integer(int_or(&a, &b))),
        Err(e) => Err(e),
    }
}

fn b_bxor(args: &Vec<Number>) -> (r: Result<Number, EngineError>)
    requires
        nums_wf(args@),
    ensures
        res_matches(r, b_bxor_spec(nums_v(args@))),
{
    match bit2_take(args, "bxor") {
        Ok((a, b)) => Ok(Number::Integer(int_xor(&a, &b))),
        Err(e) => Err(e),
    }
}

fn b_bnot(args: &Vec<Number>) -> (r: Result<Number, EngineError>)
    requires
        nums_wf(args@),
    ensures
        res_matches(r, b_bnot_spec(nums_v(args@))),
{
    if args.len() != 1 {
        return Err(EngineError::ArgumentMismatch(msg("bnot"), 1));
    }
    proof {
        assert(nums_v(args@)[0] == args@[0]@);
    }
    match &args[0] {
        Number::Integer(i) => Ok(Number::Integer(int_not(i))),
        _ => Err(EngineError::TypeMismatch(msg("Bitwise operation"), msg("Integer"))),
    }
}

fn b_lsh(args: &Vec<Number>) -> (r: Result<Number, EngineError>)
    requires
        nums_wf(args@),
    ensures
        res_matches(r, b_lsh_spec(nums_v(args@))),
{
    match bit2_take(args, "lsh") {
        Ok((a, b)) => match int_to_usize(&b) {
            Some(s) => Ok(Number::Integer(int_shl(&a, s))),
            None => Err(EngineError::Generic(msg("Shift count too large or negative"))),
        },
        Err(e) => Err(e),
    }
}

fn b_rsh(args: &Vec<Number>) -> (r: Result<Number, EngineError>)
    requires
        nums_wf(args@),
    ensures
        res_matches(r, b_rsh_spec(nums_v(args@))),
{
    match bit2_take(args, "rsh") {
        Ok((a, b)) => match int_to_usize(&b) {
            Some(s) => Ok(Number::Integer(int_shr(&a, s))),
            None => Err(EngineError::Generic(msg("Shift count too large or negative"))),
        },
        Err(e) => Err(e),
    }
}

fn b_rol(args: &Vec<Number>) -> (r: Result<Number, EngineError>)
    requires
        nums_wf(args@),
    ensures
        res_matches(r, b_rol_spec(nums_v(args@))),
{
    match bit2_take(args, "rol") {
        Ok((a, b)) => match (int_to_i64(&a), int_to_u32(&b)) {
            (Some(v), Some(n)) => Ok(Number::Integer(int_from_i64(i64_rotate_left(v, n)))),
            (None, _) => Err(EngineError::Generic(msg("Rotation arguments too large"))),
            (Some(_), None) => Err(EngineError::Generic(msg("Rotation arguments too large"))),
        },
        Err(e) => Err(e),
    }
}

fn b_ror(args: &Vec<Number>) -> (r: Result<Number, EngineError>)
    requires
        nums_wf(args@),
    ensures
        res_matches(r, b_ror_spec(nums_v(args@))),
{
    match bit2_take(args, "ror") {
        Ok((a, b)) => match (int_to_i64(&a), int_to_u32(&b)) {
            (Some(v), Some(n)) => Ok(Number::Integer(int_from_i64(i64_rotate_right(v, n)))),
            (None, _) => Err(EngineError::Generic(msg("Rotation arguments too large"))),
            (Some(_), None) => Err(EngineError::Generic(msg("Rotation arguments too large"))),
        },
        Err(e) => Err(e),
    }
}

// Complex-part primitives.
pub open spec fn b_conj_spec(args: Seq<NumV>) -> Result<NumV, ErrV> {
    if args.len() != 1 {
        arity_err("conj"@, 1)
    } else {
        match args[0] {
            NumV::Cx { re, im } => Ok(NumV::Cx { re, im: im ^ sign_mask() }),
            _ => Ok(args[0]),
        }
    }
}

pub open spec fn b_re_spec(args: Seq<NumV>) -> Result<NumV, ErrV> {
    if args.len() != 1 {
        arity_err("re"@, 1)
    } else {
        match args[0] {
            NumV::Cx { re, .. } => Ok(NumV::Fl { b: re }),
            _ => Ok(args[0]),
        }
    }
}

pub open spec fn b_im_spec(args: Seq<NumV>) -> Result<NumV, ErrV> {
    if args.len() != 1 {
        arity_err("im"@, 1)
    } else {
        match args[0] {
            NumV::Cx { im, .. } => Ok(NumV::Fl { b: im }),
            NumV::Fl { .. } => Ok(NumV::Fl { b: 0 }),
            _ => Ok(NumV::Int { i: 0 }),
        }
    }
}

pub open spec fn b_abs_spec(args: Seq<NumV>) -> Result<NumV, ErrV> {
    if args.len() != 1 {
        arity_err("abs"@, 1)
    } else {
        match args[0] {
            NumV::Int { i } => Ok(NumV::Int { i: crate::bigint::abs_int(i) }),
            NumV::Rat { n, d } => Ok(NumV::Rat { n: crate::bigint::abs_int(n), d }),
            NumV::Fl { b } => Ok(NumV::Fl { b: b & !sign_mask() }),
            NumV::Cx { re, im } => Ok(NumV::Fl { b: cnorm_bits(re, im) }),
        }
    }
}

fn b_conj(args: &Vec<Number>) -> (r: Result<Number, EngineError>)
    requires
        nums_wf(args@),
    ensures
        res_matches(r, b_conj_spec(nums_v(args@))),
{
    if args.len() != 1 {
        return Err(EngineError::ArgumentMismatch(msg("conj"), 1));
    }
    proof {
        assert(nums_v(args@)[0] == args@[0]@);
    }
    match &args[0] {
        Number::Complex(c) => Ok(Number::Complex(cx_conj(c))),
        n => Ok(n.dup()),
    }
}

fn b_re(args: &Vec<Number>) -> (r: Result<Number, EngineError>)
    requires
        nums_wf(args@),
    ensures
        res_matches(r, b_re_spec(nums_v(args@))),
{
    if args.len() != 1 {
        return Err(EngineError::ArgumentMismatch(msg("re"), 1));
    }
    proof {
        assert(nums_v(args@)[0] == args@[0]@);
    }
    match &args[0] {
        Number::Complex(c) => Ok(Number::Float(cx_real_part(c))),
        n => Ok(n.dup()),
    }
}

fn b_im(args: &Vec<Number>) -> (r: Result<Number, EngineError>)
    requires
        nums_wf(args@),
    ensures
        res_matches(r, b_im_spec(nums_v(args@))),
{
    if args.len() != 1 {
        return Err(EngineError::ArgumentMismatch(msg("im"), 1));
    }
    proof {
        assert(nums_v(args@)[0] == args@[0]@);
    }
    match &args[0] {
        Number::Complex(c) => Ok(Number::Float(cx_imag_part(c))),
        Number::Float(_) => Ok(Number::Float(f_zero())),
        _ => Ok(Number::Integer(int_from_u64(0))),
    }
}

fn b_abs(args: &Vec<Number>) -> (r: Result<Number, EngineError>)
    requires
        nums_wf(args@),
    ensures
        res_matches(r, b_abs_spec(nums_v(args@))),
{
    if args.len() != 1 {
        return Err(EngineError::ArgumentMismatch(msg("abs"), 1));
    }
    proof {
        assert(nums_v(args@)[0] == args@[0]@);
    }
    match &args[0] {
        Number::Integer(i) => Ok(Number::Integer(int_abs(i))),
        Number::Rational(q) => Ok(Number::Rational(rq_abs(q))),
        Number::Float(c) => Ok(Number::Float(fl_abs(c))),
        Number::Complex(c) => Ok(Number::Float(cx_norm(c))),
    }
}

// One-argument complex primitives: the argument promotes to complex and
// the named operation applies.
pub open spec fn cx1_spec(args: Seq<NumV>, name: Seq<char>, out: (u64, u64)) -> Result<
    NumV,
    ErrV,
> {
    if args.len() != 1 {
        Err(ErrV::ArgumentMismatch { name, expected: 1 })
    } else {
        Ok(crate::number::cx_v(out))
    }
}

pub open spec fn arg_cx(args: Seq<NumV>) -> (u64, u64) {
    cx_parts(args[0])
}

pub open spec fn b_sin_spec(args: Seq<NumV>) -> Result<NumV, ErrV> {
    cx1_spec(args, "sin"@, csin_bits(arg_cx(args).0, arg_cx(args).1))
}

pub open spec fn b_cos_spec(args: Seq<NumV>) -> Result<NumV, ErrV> {
    cx1_spec(args, "cos"@, ccos_bits(arg_cx(args).0, arg_cx(args).1))
}

pub open spec fn b_tan_spec(args: Seq<NumV>) -> Result<NumV, ErrV> {
    cx1_spec(args, "tan"@, ctan_bits(arg_cx(args).0, arg_cx(args).1))
}

pub open spec fn b_asin_spec(args: Seq<NumV>) -> Result<NumV, ErrV> {
    cx1_spec(args, "asin"@, casin_bits(arg_cx(args).0, arg_cx(args).1))
}

pub open spec fn b_acos_spec(args: Seq<NumV>) -> Result<NumV, ErrV> {
    cx1_spec(args, "acos"@, cacos_bits(arg_cx(args).0, arg_cx(args).1))
}

pub open spec fn b_atan_spec(args: Seq<NumV>) -> Result<NumV, ErrV> {
    cx1_spec(args, "atan"@, catan_bits(arg_cx(args).0, arg_cx(args).1))
}

pub open spec fn b_sinh_spec(args: Seq<NumV>) -> Result<NumV, ErrV> {
    cx1_spec(args, "sinh"@, csinh_bits(arg_cx(args).0, arg_cx(args).1))
}

pub open spec fn b_cosh_spec(args: Seq<NumV>) -> Result<NumV, ErrV> {
    cx1_spec(args, "cosh"@, ccosh_bits(arg_cx(args).0, arg_cx(args).1))
}

pub open spec fn b_tanh_spec(args: Seq<NumV>) -> Result<NumV, ErrV> {
    cx1_spec(args, "tanh"@, ctanh_bits(arg_cx(args).0, arg_cx(args).1))
}

pub open spec fn b_log_spec(args: Seq<NumV>) -> Result<NumV, ErrV> {
    cx1_spec(args, "log"@, clog10_bits(arg_cx(args).0, arg_cx(args).1))
}

pub open spec fn b_ln_spec(args: Seq<NumV>) -> Result<NumV, ErrV> {
    cx1_spec(args, "ln"@, cln_bits(arg_cx(args).0, arg_cx(args).1))
}

pub open spec fn b_sqrt_spec(args: Seq<NumV>) -> Result<NumV, ErrV> {
    cx1_spec(args, "sqrt"@, csqrt_bits(arg_cx(args).0, arg_cx(args).1))
}

fn b_sin(args: &Vec<Number>) -> (r: Result<Number, EngineError>)
    requires
        nums_wf(args@),
    ensures
        res_matches(r, b_sin_spec(nums_v(args@))),
{
    if args.len() != 1 {
        return Err(EngineError::ArgumentMismatch(msg("sin"), 1));
    }
    proof {
        assert(nums_v(args@)[0] == args@[0]@);
    }
    Ok(Number::Complex(cx_sin(&args[0].to_complex())))
}

fn b_cos(args: &Vec<Number>) -> (r: Result<Number, EngineError>)
    requires
        nums_wf(args@),
    ensures
        res_matches(r, b_cos_spec(nums_v(args@))),
{
    if args.len() != 1 {
        return Err(EngineError::ArgumentMismatch(msg("cos"), 1));
    }
    proof {
        assert(nums_v(args@)[0] == args@[0]@);
    }
    Ok(Number::Complex(cx_cos(&args[0].to_complex())))
}

fn b_tan(args: &Vec<Number>) -> (r: Result<Number, EngineError>)
    requires
        nums_wf(args@),
    ensures
        res_matches(r, b_tan_spec(nums_v(args@))),
{
    if args.len() != 1 {
        return Err(EngineError::ArgumentMismatch(msg("tan"), 1));
    }
    proof {
        assert(nums_v(args@)[0] == args@[0]@);
    }
    Ok(Number::Complex(cx_tan(&args[0].to_complex())))
}

fn b_asin(args: &Vec<Number>) -> (r: Result<Number, EngineError>)
    requires
        nums_wf(args@),
    ensures
        res_matches(r, b_asin_spec(nums_v(args@))),
{
    if args.len() != 1 {
        return Err(EngineError::ArgumentMismatch(msg("asin"), 1));
    }
    proof {
        assert(nums_v(args@)[0] == args@[0]@);
    }
    Ok(Number::Complex(cx_asin(&args[0].to_complex())))
}

fn b_acos(args: &Vec<Number>) -> (r: Result<Number, EngineError>)
    requires
        nums_wf(args@),
    ensures
        res_matches(r, b_acos_spec(nums_v(args@))),
{
    if args.len() != 1 {
        return Err(EngineError::ArgumentMismatch(msg("acos"), 1));
    }
    proof {
        assert(nums_v(args@)[0] == args@[0]@);
    }
    Ok(Number::Complex(cx_acos(&args[0].to_complex())))
}

fn b_atan(args: &Vec<Number>) -> (r: Result<Number, EngineError>)
    requires
        nums_wf(args@),
    ensures
        res_matches(r, b_atan_spec(nums_v(args@))),
{
    if args.len() != 1 {
        return Err(EngineError::ArgumentMismatch(msg("atan"), 1));
    }
    proof {
        assert(nums_v(args@)[0] == args@[0]@);
    }
    Ok(Number::Complex(cx_atan(&args[0].to_complex())))
}

fn b_sinh(args: &Vec<Number>) -> (r: Result<Number, EngineError>)
    requires
        nums_wf(args@),
    ensures
        res_matches(r, b_sinh_spec(nums_v(args@))),
{
    if args.len() != 1 {
        return Err(EngineError::ArgumentMismatch(msg("sinh"), 1));
    }
    proof {
        assert(nums_v(args@)[0] == args@[0]@);
    }
    Ok(Number::Complex(cx_sinh(&args[0].to_complex())))
}

fn b_cosh(args: &Vec<Number>) -> (r: Result<Number, EngineError>)
    requires
        nums_wf(args@),
    ensures
        res_matches(r, b_cosh_spec(nums_v(args@))),
{
    if args.len() != 1 {
        return Err(EngineError::ArgumentMismatch(msg("cosh"), 1));
    }
    proof {
        assert(nums_v(args@)[0] == args@[0]@);
    }
    Ok(Number::Complex(cx_cosh(&args[0].to_complex())))
}

fn b_tanh(args: &Vec<Number>) -> (r: Result<Number, EngineError>)
    requires
        nums_wf(args@),
    ensures
        res_matches(r, b_tanh_spec(nums_v(args@))),
{
    if args.len() != 1 {
        return Err(EngineError::ArgumentMismatch(msg("tanh"), 1));
    }
    proof {
        assert(nums_v(args@)[0] == args@[0]@);
    }
    Ok(Number::Complex(cx_tanh(&args[0].to_complex())))
}

fn b_log(args: &Vec<Number>) -> (r: Result<Number, EngineError>)
    requires
        nums_wf(args@),
    ensures
        res_matches(r, b_log_spec(nums_v(args@))),
{
    if args.len() != 1 {
        return Err(EngineError::ArgumentMismatch(msg("log"), 1));
    }
    proof {
        assert(nums_v(args@)[0] == args@[0]@);
    }
    Ok(Number::Complex(cx_log10(&args[0].to_complex())))
}

fn b_ln(args: &Vec<Number>) -> (r: Result<Number, EngineError>)
    requires
        nums_wf(args@),
    ensures
        res_matches(r, b_ln_spec(nums_v(args@))),
{
    if args.len() != 1 {
        return Err(EngineError::ArgumentMismatch(msg("ln"), 1));
    }
    proof {
        assert(nums_v(args@)[0] == args@[0]@);
    }
    Ok(Number::Complex(cx_ln(&args[0].to_complex())))
}

fn b_sqrt(args: &Vec<Number>) -> (r: Result<Number, EngineError>)
    requires
        nums_wf(args@),
    ensures
        res_matches(r, b_sqrt_spec(nums_v(args@))),
{
    if args.len() != 1 {
        return Err(EngineError::ArgumentMismatch(msg("sqrt"), 1));
    }
    proof {
        assert(nums_v(args@)[0] == args@[0]@);
    }
    Ok(Number::Complex(cx_sqrt(&args[0].to_complex())))
}

// Statistics: sums and means are exact wherever the inputs are exact.
/// The running sum, left to right, starting from the integer zero.
pub open spec fn sum_spec(s: Seq<NumV>) -> NumV
    decreases s.len(),
{
    if s.len() == 0 {
        NumV::Int { i: 0 }
    } else {
        add_spec(sum_spec(s.drop_last()), s.last())
    }
}

pub open spec fn b_mean_spec(args: Seq<NumV>) -> Result<NumV, ErrV> {
    if args.len() == 0 {
        arity_err("mean"@, 1)
    } else {
        Ok(div_spec(sum_spec(args), NumV::Int { i: args.len() as int }))
    }
}

/// The running sum of squared differences from `m`.
pub open spec fn sumsq_spec(s: Seq<NumV>, m: NumV) -> NumV
    decreases s.len(),
{
    if s.len() == 0 {
        NumV::Int { i: 0 }
    } else {
        add_spec(
            sumsq_spec(s.drop_last(), m),
            mul_spec(sub_spec(s.last(), m), sub_spec(s.last(), m)),
        )
    }
}

pub open spec fn b_var_spec(args: Seq<NumV>) -> Result<NumV, ErrV> {
    if args.len() < 2 {
        arity_err("variance"@, 2)
    } else {
        let m = div_spec(sum_spec(args), NumV::Int { i: args.len() as int });
        Ok(div_spec(sumsq_spec(args, m), NumV::Int { i: args.len() - 1 }))
    }
}

pub open spec fn b_std_spec(args: Seq<NumV>) -> Result<NumV, ErrV> {
    match b_var_spec(args) {
        Ok(v) => Ok(crate::number::cx_v(csqrt_bits(cx_parts(v).0, cx_parts(v).1))),
        Err(e) => Err(e),
    }
}

/// Whether the total comparison puts `a` strictly after `b`; incomparable
/// pairs count as equal.
pub open spec fn tot_gt(a: NumV, b: NumV) -> bool {
    cmp_spec(a, b) == Some(core::cmp::Ordering::Greater)
}

/// Insertion into a sorted sequence, scanning from the right.
pub open spec fn insert_one(s: Seq<NumV>, x: NumV) -> Seq<NumV>
    decreases s.len(),
{
    if s.len() == 0 {
        seq![x]
    } else if tot_gt(s.last(), x) {
        insert_one(s.drop_last(), x).push(s.last())
    } else {
        s.push(x)
    }
}

/// Insertion sort, left to right: the deterministic reference order for
/// the median.
pub open spec fn sort_spec(s: Seq<NumV>) -> Seq<NumV>
    decreases s.len(),
{
    if s.len() == 0 {
        Seq::empty()
    } else {
        insert_one(sort_spec(s.drop_last()), s.last())
    }
}

pub proof fn lemma_insert_len(s: Seq<NumV>, x: NumV)
    ensures
        insert_one(s, x).len() == s.len() + 1,
    decreases s.len(),
{
    if s.len() > 0 && tot_gt(s.last(), x) {
        lemma_insert_len(s.drop_last(), x);
    }
}

pub proof fn lemma_sort_len(s: Seq<NumV>)
    ensures
        sort_spec(s).len() == s.len(),
    decreases s.len(),
{
    if s.len() > 0 {
        lemma_sort_len(s.drop_last());
        lemma_insert_len(sort_spec(s.drop_last()), s.last());
    }
}

pub open spec fn has_complex(args: Seq<NumV>) -> bool {
    exists|k: int| 0 <= k < args.len() && args[k] is Cx
}

pub open spec fn b_median_spec(args: Seq<NumV>) -> Result<NumV, ErrV> {
    if args.len() == 0 {
        arity_err("median"@, 1)
    } else if has_complex(args) {
        Err(ErrV::TypeMismatch { expected: "Median requires real numbers"@, actual: "Complex"@ })
    } else {
        let t = sort_spec(args);
        let mid = args.len() as int / 2;
        if args.len() % 2 == 1 {
            Ok(t[mid])
        } else {
            Ok(div_spec(add_spec(t[mid - 1], t[mid]), NumV::Int { i: 2 }))
        }
    }
}

fn is_gt(a: &Number, b: &Number) -> (r: bool)
    requires
        a.wf(),
        b.wf(),
    ensures
        r == tot_gt(a@, b@),
{
    match a.partial_cmp(b) {
        Some(core::cmp::Ordering::Greater) => true,
        _ => false,
    }
}

/// Inserts a value into a sorted vector, keeping the reference order.
fn sorted_insert(v: &mut Vec<Number>, x: Number)
    requires
        nums_wf(old(v)@),
        x.wf(),
    ensures
        nums_v(final(v)@) == insert_one(nums_v(old(v)@), x@),
        nums_wf(final(v)@),
{
    let ghost sv = nums_v(v@);
    let ghost xv = x@;
    let mut j = v.len();
    proof {
        assert(sv.subrange(0, j as int) =~= sv);
        assert(sv.subrange(j as int, sv.len() as int) =~= Seq::<NumV>::empty());
        assert(insert_one(sv, xv) =~= insert_one(sv.subrange(0, j as int), xv) + sv.subrange(
            j as int,
            sv.len() as int,
        ));
    }
    while j > 0 && is_gt(&v[j - 1], &x)
        invariant
            nums_wf(v@),
            x.wf(),
            j <= v@.len(),
            sv == nums_v(v@),
            xv == x@,
            insert_one(sv, xv) == insert_one(sv.subrange(0, j as int), xv) + sv.subrange(
                j as int,
                sv.len() as int,
            ),
        decreases j,
    {
        proof {
            let pre = sv.subrange(0, j as int);
            assert(nums_v(v@)[j - 1] == v@[j - 1]@);
            assert(pre.last() == sv[j - 1]);
            assert(pre.drop_last() =~= sv.subrange(0, j - 1 as int));
            assert(insert_one(pre, xv) == insert_one(sv.subrange(0, j - 1 as int), xv).push(
                sv[j - 1],
            ));
            assert(insert_one(sv.subrange(0, j - 1 as int), xv).push(sv[j - 1]) + sv.subrange(
                j as int,
                sv.len() as int,
            ) =~= insert_one(sv.subrange(0, j - 1 as int), xv) + sv.subrange(
                j - 1 as int,
                sv.len() as int,
            ));
        }
        j = j - 1;
    }
    proof {
        let pre = sv.subrange(0, j as int);
        if j > 0 {
            assert(nums_v(v@)[j - 1] == v@[j - 1]@);
            assert(pre.last() == sv[j - 1]);
            assert(insert_one(pre, xv) == pre.push(xv));
        } else {
            assert(pre =~= Seq::<NumV>::empty());
        }
        assert(insert_one(sv, xv) =~= pre.push(xv) + sv.subrange(j as int, sv.len() as int));
    }
    v.insert(j, x);
    proof {
        assert(nums_v(v@) =~= insert_one(sv, xv));
    }
}

fn b_mean(args: &Vec<Number>) -> (r: Result<Number, EngineError>)
    requires
        nums_wf(args@),
    ensures
        res_matches(r, b_mean_spec(nums_v(args@))),
{
    if args.len() == 0 {
        return Err(EngineError::ArgumentMismatch(msg("mean"), 1));
    }
    let mut sum = Number::Integer(int_from_u64(0));
    let mut i: usize = 0;
    proof {
        assert(nums_v(args@).subrange(0, 0) =~= Seq::<NumV>::empty());
    }
    while i < args.len()
        invariant
            nums_wf(args@),
            i <= args@.len(),
            sum.wf(),
            sum@ == sum_spec(nums_v(args@).subrange(0, i as int)),
        decreases args@.len() - i,
    {
        let ghost pre = nums_v(args@).subrange(0, i as int);
        proof {
            assert(nums_v(args@)[i as int] == args@[i as int]@);
            let post = nums_v(args@).subrange(0, i + 1 as int);
            assert(post.drop_last() =~= pre);
            assert(post.last() == nums_v(args@)[i as int]);
        }
        sum = sum.add(args[i].dup());
        i = i + 1;
    }
    proof {
        assert(nums_v(args@).subrange(0, args@.len() as int) =~= nums_v(args@));
    }
    let count = Number::Integer(int_from_u64(args.len() as u64));
    Ok(sum.div(count))
}

fn b_var(args: &Vec<Number>) -> (r: Result<Number, EngineError>)
    requires
        nums_wf(args@),
    ensures
        res_matches(r, b_var_spec(nums_v(args@))),
{
    if args.len() < 2 {
        return Err(EngineError::ArgumentMismatch(msg("variance"), 2));
    }
    let m = match b_mean(args) {
        Ok(m) => m,
        Err(_) => {
            proof {
                assert(false);
            }
            vstd::pervasive::unreached()
        },
    };
    let mut sum = Number::Integer(int_from_u64(0));
    let mut i: usize = 0;
    proof {
        assert(nums_v(args@).subrange(0, 0) =~= Seq::<NumV>::empty());
    }
    while i < args.len()
        invariant
            nums_wf(args@),
            i <= args@.len(),
            sum.wf(),
            m.wf(),
            m@ == div_spec(sum_spec(nums_v(args@)), NumV::Int { i: args@.len() as int }),
            sum@ == sumsq_spec(nums_v(args@).subrange(0, i as int), m@),
        decreases args@.len() - i,
    {
        let ghost pre = nums_v(args@).subrange(0, i as int);
        proof {
            assert(nums_v(args@)[i as int] == args@[i as int]@);
            let post = nums_v(args@).subrange(0, i + 1 as int);
            assert(post.drop_last() =~= pre);
            assert(post.last() == nums_v(args@)[i as int]);
        }
        let diff = args[i].dup().sub(m.dup());
        let diff2 = diff.dup();
        sum = sum.add(diff.mul(diff2));
        i = i + 1;
    }
    proof {
        assert(nums_v(args@).subrange(0, args@.len() as int) =~= nums_v(args@));
    }
    let count = Number::Integer(int_from_u64((args.len() - 1) as u64));
    Ok(sum.div(count))
}

fn b_std(args: &Vec<Number>) -> (r: Result<Number, EngineError>)
    requires
        nums_wf(args@),
    ensures
        res_matches(r, b_std_spec(nums_v(args@))),
{
    match b_var(args) {
        Ok(v) => Ok(Number::Complex(cx_sqrt(&v.to_complex()))),
        Err(e) => Err(e),
    }
}

fn b_median(args: &Vec<Number>) -> (r: Result<Number, EngineError>)
    requires
        nums_wf(args@),
    ensures
        res_matches(r, b_median_spec(nums_v(args@))),
{
    if args.len() == 0 {
        return Err(EngineError::ArgumentMismatch(msg("median"), 1));
    }
    let mut i: usize = 0;
    while i < args.len()
        invariant
            nums_wf(args@),
            i <= args@.len(),
            forall|k: int| 0 <= k < i ==> !(#[trigger] nums_v(args@)[k] is Cx),
        decreases args@.len() - i,
    {
        proof {
            assert(nums_v(args@)[i as int] == args@[i as int]@);
        }
        match &args[i] {
            Number::Complex(_) => {
                return Err(
                    EngineError::TypeMismatch(msg("Median requires real numbers"), msg("Complex")),
                );
            },
            _ => {},
        }
        i = i + 1;
    }
    let mut sorted: Vec<Number> = Vec::new();
    let mut i: usize = 0;
    proof {
        assert(nums_v(args@).subrange(0, 0) =~= Seq::<NumV>::empty());
        assert(nums_v(sorted@) =~= Seq::<NumV>::empty());
    }
    while i < args.len()
        invariant
            nums_wf(args@),
            i <= args@.len(),
            nums_wf(sorted@),
            nums_v(sorted@) == sort_spec(nums_v(args@).subrange(0, i as int)),
        decreases args@.len() - i,
    {
        let ghost pre = nums_v(args@).subrange(0, i as int);
        proof {
            assert(nums_v(args@)[i as int] == args@[i as int]@);
            let post = nums_v(args@).subrange(0, i + 1 as int);
            assert(post.drop_last() =~= pre);
            assert(post.last() == nums_v(args@)[i as int]);
        }
        sorted_insert(&mut sorted, args[i].dup());
        i = i + 1;
    }
    proof {
        assert(nums_v(args@).subrange(0, args@.len() as int) =~= nums_v(args@));
        lemma_sort_len(nums_v(args@));
    }
    let mid = args.len() / 2;
    proof {
        assert(nums_v(sorted@)[mid as int] == sorted@[mid as int]@);
    }
    if args.len() % 2 == 1 {
        Ok(sorted[mid].dup())
    } else {
        proof {
            assert(nums_v(sorted@)[mid - 1] == sorted@[mid - 1]@);
        }
        let left = sorted[mid - 1].dup();
        let right = sorted[mid].dup();
        Ok(left.add(right).div(Number::Integer(int_from_u64(2))))
    }
}

/// What the registry returns for each name: the primitive's result, or an
/// unknown-function error naming the call.
pub open spec fn apply_spec(name: Seq<u8>, args: Seq<NumV>) -> Result<NumV, ErrV> {
    if crate::financial::financial_spec(name, args) is Some {
        crate::financial::financial_spec(name, args)->0
    } else if name == bname("band"@) {
        b_band_spec(args)
    } else if name == bname("bor"@) {
        b_bor_spec(args)
    } else if name == bname("bxor"@) {
        b_bxor_spec(args)
    } else if name == bname("bnot"@) {
        b_bnot_spec(args)
    } else if name == bname("lsh"@) {
        b_lsh_spec(args)
    } else if name == bname("rsh"@) {
        b_rsh_spec(args)
    } else if name == bname("rol"@) {
        b_rol_spec(args)
    } else if name == bname("ror"@) {
        b_ror_spec(args)
    } else if name == bname("conj"@) {
        b_conj_spec(args)
    } else if name == bname("re"@) {
        b_re_spec(args)
    } else if name == bname("im"@) || name == bname("lm"@) {
        b_im_spec(args)
    } else if name == bname("abs"@) {
        b_abs_spec(args)
    } else if name == bname("log"@) {
        b_log_spec(args)
    } else if name == bname("ln"@) {
        b_ln_spec(args)
    } else if name == bname("sqrt"@) {
        b_sqrt_spec(args)
    } else if name == bname("sin"@) {
        b_sin_spec(args)
    } else if name == bname("cos"@) {
        b_cos_spec(args)
    } else if name == bname("tan"@) {
        b_tan_spec(args)
    } else if name == bname("asin"@) {
        b_asin_spec(args)
    } else if name == bname("acos"@) || name == bname("cosin"@) {
        b_acos_spec(args)
    } else if name == bname("atan"@) {
        b_atan_spec(args)
    } else if name == bname("sinh"@) {
        b_sinh_spec(args)
    } else if name == bname("cosh"@) {
        b_cosh_spec(args)
    } else if name == bname("tanh"@) {
        b_tanh_spec(args)
    } else if name == bname("TRUE"@) || name == bname("true"@) {
        Ok(bool_num(true))
    } else if name == bname("FALSE"@) || name == bname("false"@) {
        Ok(bool_num(false))
    } else if name == bname("NOT"@) || name == bname("not"@) {
        b_not_spec(args)
    } else if name == bname("AND"@) || name == bname("and"@) {
        b_and_spec(args)
    } else if name == bname("OR"@) || name == bname("or"@) {
        b_or_spec(args)
    } else if name == bname("XOR"@) || name == bname("xor"@) {
        b_xor_spec(args)
    } else if name == bname("IF"@) || name == bname("if"@) {
        b_if_spec(args)
    } else if name == bname("mean"@) {
        b_mean_spec(args)
    } else if name == bname("median"@) {
        b_median_spec(args)
    } else if name == bname("var"@) {
        b_var_spec(args)
    } else if name == bname("std"@) {
        b_std_spec(args)
    } else {
        Err(ErrV::UnknownFunction { name: chars_of(name) })
    }
}

/// Looks the name up and applies the primitive to the evaluated arguments.
#[verifier::rlimit(60)]
pub fn apply(name: &Vec<u8>, args: &Vec<Number>) -> (r: Result<Number, EngineError>)
    requires
        crate::ast::name_ascii(name@),
        nums_wf(args@),
    ensures
        res_matches(r, apply_spec(name@, nums_v(args@))),
{
    proof {
        reveal_strlit("band");
        reveal_strlit("bor");
        reveal_strlit("bxor");
        reveal_strlit("bnot");
        reveal_strlit("lsh");
        reveal_strlit("rsh");
        reveal_strlit("rol");
        reveal_strlit("ror");
        reveal_strlit("conj");
        reveal_strlit("re");
        reveal_strlit("im");
        reveal_strlit("lm");
        reveal_strlit("abs");
        reveal_strlit("log");
        reveal_strlit("ln");
        reveal_strlit("sqrt");
        reveal_strlit("sin");
        reveal_strlit("cos");
        reveal_strlit("tan");
        reveal_strlit("asin");
        reveal_strlit("acos");
        reveal_strlit("cosin");
        reveal_strlit("atan");
        reveal_strlit("sinh");
        reveal_strlit("cosh");
        reveal_strlit("tanh");
        reveal_strlit("TRUE");
        reveal_strlit("true");
        reveal_strlit("FALSE");
        reveal_strlit("false");
        reveal_strlit("NOT");
        reveal_strlit("not");
        reveal_strlit("AND");
        reveal_strlit("and");
        reveal_strlit("OR");
        reveal_strlit("or");
        reveal_strlit("XOR");
        reveal_strlit("xor");
        reveal_strlit("IF");
        reveal_strlit("if");
        reveal_strlit("mean");
        reveal_strlit("median");
        reveal_strlit("var");
        reveal_strlit("std");
    }
    match crate::financial::apply_financial(name, args) {
        Some(out) => {
            return out;
        },
        None => {},
    }
    if bytes_eq(name, &word("band")) {
        b_band(args)
    } else if bytes_eq(name, &word("bor")) {
        b_bor(args)
    } else if bytes_eq(name, &word("bxor")) {
        b_bxor(args)
    } else if bytes_eq(name, &word("bnot")) {
        b_bnot(args)
    } else if bytes_eq(name, &word("lsh")) {
        b_lsh(args)
    } else if bytes_eq(name, &word("rsh")) {
        b_rsh(args)
    } else if bytes_eq(name, &word("rol")) {
        b_rol(args)
    } else if bytes_eq(name, &word("ror")) {
        b_ror(args)
    } else if bytes_eq(name, &word("conj")) {
        b_conj(args)
    } else if bytes_eq(name, &word("re")) {
        b_re(args)
    } else if bytes_eq(name, &word("im")) || bytes_eq(name, &word("lm")) {
        b_im(args)
    } else if bytes_eq(name, &word("abs")) {
        b_abs(args)
    } else if bytes_eq(name, &word("log")) {
        b_log(args)
    } else if bytes_eq(name, &word("ln")) {
        b_ln(args)
    } else if bytes_eq(name, &word("sqrt")) {
        b_sqrt(args)
    } else if bytes_eq(name, &word("sin")) {
        b_sin(args)
    } else if bytes_eq(name, &word("cos")) {
        b_cos(args)
    } else if bytes_eq(name, &word("tan")) {
        b_tan(args)
    } else if bytes_eq(name, &word("asin")) {
        b_asin(args)
    } else if bytes_eq(name, &word("acos")) || bytes_eq(name, &word("cosin")) {
        b_acos(args)
    } else if bytes_eq(name, &word("atan")) {
        b_atan(args)
    } else if bytes_eq(name, &word("sinh")) {
        b_sinh(args)
    } else if bytes_eq(name, &word("cosh")) {
        b_cosh(args)
    } else if bytes_eq(name, &word("tanh")) {
        b_tanh(args)
    } else if bytes_eq(name, &word("TRUE")) || bytes_eq(name, &word("true")) {
        Ok(from_bool(true))
    } else if bytes_eq(name, &word("FALSE")) || bytes_eq(name, &word("false")) {
        Ok(from_bool(false))
    } else if bytes_eq(name, &word("NOT")) || bytes_eq(name, &word("not")) {
        b_not(args)
    } else if bytes_eq(name, &word("AND")) || bytes_eq(name, &word("and")) {
        b_and(args)
    } else if bytes_eq(name, &word("OR")) || bytes_eq(name, &word("or")) {
        b_or(args)
    } else if bytes_eq(name, &word("XOR")) || bytes_eq(name, &word("xor")) {
        b_xor(args)
    } else if bytes_eq(name, &word("IF")) || bytes_eq(name, &word("if")) {
        b_if(args)
    } else if bytes_eq(name, &word("mean")) {
        b_mean(args)
    } else if bytes_eq(name, &word("median")) {
        b_median(args)
    } else if bytes_eq(name, &word("var")) {
        b_var(args)
    } else if bytes_eq(name, &word("std")) {
        b_std(args)
    } else {
        Err(EngineError::UnknownFunction(crate::errors::bytes_to_string(name)))
    }
}

} // verus!

//! Financial primitives over the complex domain.
//!
//! Every argument promotes to complex, formulas follow the usual annuity
//! identities, and the iterative solvers search by Newton steps on the
//! real parts. Each result is a function of the operand bits alone, so the
//! reference definitions below pin the executable code exactly.

use vstd::prelude::*;
use vstd::string::StringSliceAdditionalSpecFns;
use crate::errors::{EngineError, ErrV, msg};
use crate::floats::{
    add_bits, cadd_bits, cdiv_bits, cmul_bits, cnorm_bits, cpow_bits, cpowf_bits, cscale_bits,
    csub_bits, cx_add, cx_div, cx_mul, cx_norm, cx_powc, cx_powf, cx_scale, cx_sub, div_bits,
    f_const, f_dec_ok, f_of_dec, f_of_int, f_zero, fl_abs, fl_add, fl_div, fl_from_usize, fl_i32,
    fl_lt, fl_mul, fl_sub, i32f_bits, im_bits, lt_bits, mul_bits, pow_bits, re_bits, sign_mask,
    sub_bits, cln_bits, cx_ln,
};
use crate::number::{NumV, Number, cx_parts, cx_v};
use crate::registry::{arity_err, nums_v, nums_wf, res_matches};

verus! {

pub open spec fn cadd2(a: (u64, u64), b: (u64, u64)) -> (u64, u64) {
    cadd_bits(a.0, a.1, b.0, b.1)
}

pub open spec fn csub2(a: (u64, u64), b: (u64, u64)) -> (u64, u64) {
    csub_bits(a.0, a.1, b.0, b.1)
}

pub open spec fn cmul2(a: (u64, u64), b: (u64, u64)) -> (u64, u64) {
    cmul_bits(a.0, a.1, b.0, b.1)
}

pub open spec fn cdiv2(a: (u64, u64), b: (u64, u64)) -> (u64, u64) {
    cdiv_bits(a.0, a.1, b.0, b.1)
}

pub open spec fn cpow2(a: (u64, u64), b: (u64, u64)) -> (u64, u64) {
    cpow_bits(a.0, a.1, b.0, b.1)
}

pub open spec fn cneg2(a: (u64, u64)) -> (u64, u64) {
    ((a.0 ^ sign_mask()), (a.1 ^ sign_mask()))
}

/// The parsed bits of the one literal.
pub open spec fn one_c() -> (u64, u64) {
    (
        if f_dec_ok("1".spec_bytes()) {
            f_of_dec("1".spec_bytes())
        } else {
            0
        },
        0,
    )
}

/// The parsed bits of the small epsilon against which a rate counts as
/// zero.
pub open spec fn lit_bits(ok: bool, v: u64) -> u64 {
    if ok {
        v
    } else {
        0
    }
}

pub open spec fn eps9_bits() -> u64 {
    lit_bits(f_dec_ok("1e-9".spec_bytes()), f_of_dec("1e-9".spec_bytes()))
}

pub open spec fn eps7_bits() -> u64 {
    lit_bits(f_dec_ok("1e-7".spec_bytes()), f_of_dec("1e-7".spec_bytes()))
}

pub open spec fn eps10_bits() -> u64 {
    lit_bits(f_dec_ok("1e-10".spec_bytes()), f_of_dec("1e-10".spec_bytes()))
}

/// The complex argument at an index, or zero where the list is shorter.
pub open spec fn carg(args: Seq<NumV>, k: int) -> (u64, u64) {
    if k < args.len() {
        cx_parts(args[k])
    } else {
        (0u64, 0u64)
    }
}

/// The payment-timing factor: the real part of the optional argument, cast
/// through `i32` as the original annuity convention takes it, or zero.
pub open spec fn targ(args: Seq<NumV>, k: int) -> u64 {
    if k < args.len() {
        i32f_bits(cx_parts(args[k]).0)
    } else {
        0
    }
}

/// Future value of an annuity.
pub open spec fn b_fv_spec(args: Seq<NumV>) -> Result<NumV, ErrV> {
    if args.len() < 3 || args.len() > 5 {
        arity_err("fv"@, 3)
    } else {
        let rate = carg(args, 0);
        let nper = carg(args, 1);
        let pv = carg(args, 2);
        let pmt = carg(args, 3);
        let tv = targ(args, 4);
        if lt_bits(cnorm_bits(rate.0, rate.1), eps9_bits()) {
            Ok(cx_v(cneg2(cadd2(pv, cmul2(pmt, nper)))))
        } else {
            let factor = cpow2(cadd2(one_c(), rate), nper);
            let term = cmul2(
                cmul2(pmt, cadd2(one_c(), cscale_bits(rate.0, rate.1, tv))),
                cdiv2(csub2(factor, one_c()), rate),
            );
            Ok(cx_v(cneg2(cadd2(cmul2(pv, factor), term))))
        }
    }
}

/// Present value of an annuity.
pub open spec fn b_pv_spec(args: Seq<NumV>) -> Result<NumV, ErrV> {
    if args.len() < 3 || args.len() > 5 {
        arity_err("pv"@, 3)
    } else {
        let rate = carg(args, 0);
        let nper = carg(args, 1);
        let fv = carg(args, 2);
        let pmt = carg(args, 3);
        let tv = targ(args, 4);
        if lt_bits(cnorm_bits(rate.0, rate.1), eps9_bits()) {
            Ok(cx_v(cneg2(cadd2(fv, cmul2(pmt, nper)))))
        } else {
            let factor = cpow2(cadd2(one_c(), rate), nper);
            let term = cmul2(
                cmul2(pmt, cadd2(one_c(), cscale_bits(rate.0, rate.1, tv))),
                cdiv2(csub2(factor, one_c()), rate),
            );
            Ok(cx_v(cdiv2(cneg2(cadd2(fv, term)), factor)))
        }
    }
}

/// Periodic payment of an annuity.
pub open spec fn b_pmt_spec(args: Seq<NumV>) -> Result<NumV, ErrV> {
    if args.len() < 3 || args.len() > 5 {
        arity_err("pmt"@, 3)
    } else {
        let rate = carg(args, 0);
        let nper = carg(args, 1);
        let pv = carg(args, 2);
        let fv = carg(args, 3);
        let tv = targ(args, 4);
        if lt_bits(cnorm_bits(rate.0, rate.1), eps9_bits()) {
            Ok(cx_v(cneg2(cdiv2(cadd2(fv, pv), nper))))
        } else {
            let factor = cpow2(cadd2(one_c(), rate), nper);
            let num = cmul2(cadd2(cmul2(pv, factor), fv), rate);
            let den = cmul2(
                cadd2(one_c(), cscale_bits(rate.0, rate.1, tv)),
                csub2(factor, one_c()),
            );
            Ok(cx_v(cneg2(cdiv2(num, den))))
        }
    }
}

/// Number of periods of an annuity.
pub open spec fn b_nper_spec(args: Seq<NumV>) -> Result<NumV, ErrV> {
    if args.len() < 3 || args.len() > 5 {
        arity_err("nper"@, 3)
    } else {
        let rate = carg(args, 0);
        let pmt = carg(args, 1);
        let pv = carg(args, 2);
        let fv = carg(args, 3);
        let tv = targ(args, 4);
        if lt_bits(cnorm_bits(rate.0, rate.1), eps9_bits()) {
            Ok(cx_v(cdiv2(cneg2(cadd2(fv, pv)), pmt)))
        } else {
            let rt = cadd2(one_c(), cscale_bits(rate.0, rate.1, tv));
            let num = csub2(cmul2(pmt, rt), cmul2(fv, rate));
            let den = cadd2(cmul2(pmt, rt), cmul2(pv, rate));
            let ln_q = cln_bits(cdiv2(num, den).0, cdiv2(num, den).1);
            let ln_r = cln_bits(cadd2(one_c(), rate).0, cadd2(one_c(), rate).1);
            Ok(cx_v(cdiv2(ln_q, ln_r)))
        }
    }
}

/// The discounted sum that net present value accumulates over a prefix of
/// the cash flows: each flow is divided by the rate factor to the power of
/// its one-based period.
pub open spec fn npv_sum(flows: Seq<(u64, u64)>, rate: (u64, u64), i: int) -> (u64, u64)
    decreases i,
{
    if i <= 0 {
        (0u64, 0u64)
    } else {
        let t = f_of_int(i);
        let term = cdiv2(flows[i - 1], cpowf_bits(cadd2(one_c(), rate).0, cadd2(one_c(), rate).1, t));
        cadd2(npv_sum(flows, rate, i - 1), term)
    }
}

/// Net present value: the discounted sum of the flows after the rate.
pub open spec fn b_npv_spec(args: Seq<NumV>) -> Result<NumV, ErrV> {
    if args.len() < 2 {
        arity_err("npv"@, 2)
    } else {
        let rate = carg(args, 0);
        let flows = Seq::new((args.len() - 1) as nat, |k: int| cx_parts(args[k + 1]));
        Ok(cx_v(npv_sum(flows, rate, flows.len() as int)))
    }
}

pub open spec fn fabs_bits(b: u64) -> u64 {
    b & !sign_mask()
}

/// One pass over the flows for the internal rate of return: the running
/// net value and its derivative with respect to the guess, over the first
/// `i` flows.
pub open spec fn irr_sums(vals: Seq<u64>, guess: u64, i: int) -> (u64, u64)
    decreases i,
{
    if i <= 0 {
        (0u64, 0u64)
    } else {
        let (npv, deriv) = irr_sums(vals, guess, i - 1);
        let t = f_of_int(i - 1);
        let base = add_bits(one_c().0, guess);
        let factor = pow_bits(base, t);
        let npv2 = add_bits(npv, div_bits(vals[i - 1], factor));
        let deriv2 = if i - 1 > 0 {
            let dfac = pow_bits(base, f_of_int(i));
            sub_bits(deriv, div_bits(mul_bits(t, vals[i - 1]), dfac))
        } else {
            deriv
        };
        (npv2, deriv2)
    }
}

/// The Newton iteration for the internal rate of return, with the number
/// of steps left; it stops early on a small net value or a flat
/// derivative.
pub open spec fn irr_iter(vals: Seq<u64>, guess: u64, k: nat) -> u64
    decreases k,
{
    if k == 0 {
        guess
    } else {
        let (npv, deriv) = irr_sums(vals, guess, vals.len() as int);
        if lt_bits(fabs_bits(npv), eps7_bits()) {
            guess
        } else if lt_bits(fabs_bits(deriv), eps10_bits()) {
            guess
        } else {
            irr_iter(vals, sub_bits(guess, div_bits(npv, deriv)), (k - 1) as nat)
        }
    }
}

pub open spec fn tenth_bits() -> u64 {
    lit_bits(f_dec_ok("0.1".spec_bytes()), f_of_dec("0.1".spec_bytes()))
}

/// Internal rate of return, found by up to a hundred Newton steps from a
/// guess of one tenth.
pub open spec fn b_irr_spec(args: Seq<NumV>) -> Result<NumV, ErrV> {
    let vals = Seq::new(args.len(), |k: int| cx_parts(args[k]).0);
    Ok(cx_v((irr_iter(vals, tenth_bits(), 100), 0u64)))
}

/// The annuity balance at a trial rate, the quantity the rate solver
/// drives to zero.
pub open spec fn rate_y(nper: u64, pmt: u64, pv: u64, fv: u64, tv: u64, r: u64) -> u64 {
    let factor = pow_bits(add_bits(one_c().0, r), nper);
    let term = mul_bits(
        mul_bits(pmt, add_bits(one_c().0, mul_bits(r, tv))),
        div_bits(sub_bits(factor, one_c().0), r),
    );
    add_bits(add_bits(mul_bits(pv, factor), term), fv)
}

pub open spec fn delta_bits() -> u64 {
    lit_bits(f_dec_ok("1e-5".spec_bytes()), f_of_dec("1e-5".spec_bytes()))
}

pub open spec fn small_rate_bits() -> u64 {
    lit_bits(f_dec_ok("0.0001".spec_bytes()), f_of_dec("0.0001".spec_bytes()))
}

/// One outcome of the rate solver: either a found rate or the guess to
/// continue from.
pub enum RateStep {
    Found { r: u64 },
    Next { g: u64 },
}

/// One Newton step of the rate solver, with a secant approximation of the
/// derivative; a near-zero guess is checked directly and bumped off zero.
pub open spec fn rate_step(nper: u64, pmt: u64, pv: u64, fv: u64, tv: u64, g: u64) -> RateStep {
    if lt_bits(fabs_bits(g), eps9_bits()) {
        let y = add_bits(add_bits(pv, mul_bits(pmt, nper)), fv);
        if lt_bits(fabs_bits(y), eps7_bits()) {
            RateStep::Found { r: 0 }
        } else {
            RateStep::Next { g: small_rate_bits() }
        }
    } else {
        let y = rate_y(nper, pmt, pv, fv, tv, g);
        let rd = add_bits(g, delta_bits());
        let yd = rate_y(nper, pmt, pv, fv, tv, rd);
        let deriv = div_bits(sub_bits(yd, y), delta_bits());
        if lt_bits(fabs_bits(deriv), eps10_bits()) {
            RateStep::Found { r: g }
        } else {
            let new_r = sub_bits(g, div_bits(y, deriv));
            if lt_bits(fabs_bits(sub_bits(new_r, g)), eps7_bits()) {
                RateStep::Found { r: new_r }
            } else {
                RateStep::Next { g: new_r }
            }
        }
    }
}

/// The rate solver's iteration with the number of steps left.
pub open spec fn rate_iter(nper: u64, pmt: u64, pv: u64, fv: u64, tv: u64, g: u64, k: nat) -> u64
    decreases k,
{
    if k == 0 {
        g
    } else {
        match rate_step(nper, pmt, pv, fv, tv, g) {
            RateStep::Found { r } => r,
            RateStep::Next { g: g2 } => rate_iter(nper, pmt, pv, fv, tv, g2, (k - 1) as nat),
        }
    }
}

/// The interest rate per period, solved numerically.
pub open spec fn b_rate_spec(args: Seq<NumV>) -> Result<NumV, ErrV> {
    if args.len() < 3 {
        arity_err("rate"@, 3)
    } else {
        let nper = carg(args, 0).0;
        let pmt = carg(args, 1).0;
        let pv = carg(args, 2).0;
        let fv = if args.len() >= 4 {
            carg(args, 3).0
        } else {
            0
        };
        let tv = targ(args, 4);
        let g0 = if args.len() >= 6 {
            carg(args, 5).0
        } else {
            tenth_bits()
        };
        Ok(cx_v((rate_iter(nper, pmt, pv, fv, tv, g0, 100), 0u64)))
    }
}

/// The complex payloads of the arguments.
fn cx_args(args: &Vec<Number>) -> (r: Vec<num_complex::Complex64>)
    requires
        nums_wf(args@),
    ensures
        r@.len() == args@.len(),
        forall|k: int|
            0 <= k < args@.len() ==> (re_bits(#[trigger] r@[k]), im_bits(r@[k])) == cx_parts(
                nums_v(args@)[k],
            ),
{
    let mut r: Vec<num_complex::Complex64> = Vec::new();
    let mut i: usize = 0;
    while i < args.len()
        invariant
            nums_wf(args@),
            i <= args@.len(),
            r@.len() == i,
            forall|k: int|
                0 <= k < i ==> (re_bits(#[trigger] r@[k]), im_bits(r@[k])) == cx_parts(
                    nums_v(args@)[k],
                ),
        decreases args@.len() - i,
    {
        proof {
            assert(nums_v(args@)[i as int] == args@[i as int]@);
        }
        r.push(args[i].to_complex());
        i = i + 1;
    }
    r
}

/// The argument at an index, or the zero payload where the list is
/// shorter.
fn carg_x(cx: &Vec<num_complex::Complex64>, ghost_args: Ghost<Seq<NumV>>, k: usize) -> (r:
    num_complex::Complex64)
    requires
        cx@.len() == ghost_args@.len(),
        forall|q: int|
            0 <= q < cx@.len() ==> (re_bits(#[trigger] cx@[q]), im_bits(cx@[q])) == cx_parts(
                ghost_args@[q],
            ),
    ensures
        (re_bits(r), im_bits(r)) == carg(ghost_args@, k as int),
{
    if k < cx.len() {
        crate::floats::c_dup(&cx[k])
    } else {
        f_zero()
    }
}

/// The payment-timing payload at an index, or zero.
fn targ_x(cx: &Vec<num_complex::Complex64>, ghost_args: Ghost<Seq<NumV>>, k: usize) -> (r:
    num_complex::Complex64)
    requires
        cx@.len() == ghost_args@.len(),
        forall|q: int|
            0 <= q < cx@.len() ==> (re_bits(#[trigger] cx@[q]), im_bits(cx@[q])) == cx_parts(
                ghost_args@[q],
            ),
    ensures
        re_bits(r) == targ(ghost_args@, k as int),
        im_bits(r) == 0,
{
    if k < cx.len() {
        fl_i32(&cx[k])
    } else {
        f_zero()
    }
}

fn b_fv(args: &Vec<Number>) -> (r: Result<Number, EngineError>)
    requires
        nums_wf(args@),
    ensures
        res_matches(r, b_fv_spec(nums_v(args@))),
{
    if args.len() < 3 || args.len() > 5 {
        return Err(EngineError::ArgumentMismatch(msg("fv"), 3));
    }
    let cx = cx_args(args);
    let ghost gargs = nums_v(args@);
    let rate = carg_x(&cx, Ghost(gargs), 0);
    let nper = carg_x(&cx, Ghost(gargs), 1);
    let pv = carg_x(&cx, Ghost(gargs), 2);
    let pmt = carg_x(&cx, Ghost(gargs), 3);
    let tvp = targ_x(&cx, Ghost(gargs), 4);
    let one = f_const("1");
    let eps = f_const("1e-9");
    if fl_lt(&cx_norm(&rate), &eps) {
        Ok(Number::Complex(crate::floats::cx_neg(&cx_add(&pv, &cx_mul(&pmt, &nper)))))
    } else {
        let factor = cx_powc(&cx_add(&one, &rate), &nper);
        let term = cx_mul(
            &cx_mul(&pmt, &cx_add(&one, &cx_scale(&rate, &tvp))),
            &cx_div(&cx_sub(&factor, &one), &rate),
        );
        Ok(Number::Complex(crate::floats::cx_neg(&cx_add(&cx_mul(&pv, &factor), &term))))
    }
}

fn b_pv(args: &Vec<Number>) -> (r: Result<Number, EngineError>)
    requires
        nums_wf(args@),
    ensures
        res_matches(r, b_pv_spec(nums_v(args@))),
{
    if args.len() < 3 || args.len() > 5 {
        return Err(EngineError::ArgumentMismatch(msg("pv"), 3));
    }
    let cx = cx_args(args);
    let ghost gargs = nums_v(args@);
    let rate = carg_x(&cx, Ghost(gargs), 0);
    let nper = carg_x(&cx, Ghost(gargs), 1);
    let fv = carg_x(&cx, Ghost(gargs), 2);
    let pmt = carg_x(&cx, Ghost(gargs), 3);
    let tvp = targ_x(&cx, Ghost(gargs), 4);
    let one = f_const("1");
    let eps = f_const("1e-9");
    if fl_lt(&cx_norm(&rate), &eps) {
        Ok(Number::Complex(crate::floats::cx_neg(&cx_add(&fv, &cx_mul(&pmt, &nper)))))
    } else {
        let factor = cx_powc(&cx_add(&one, &rate), &nper);
        let term = cx_mul(
            &cx_mul(&pmt, &cx_add(&one, &cx_scale(&rate, &tvp))),
            &cx_div(&cx_sub(&factor, &one), &rate),
        );
        Ok(Number::Complex(cx_div(&crate::floats::cx_neg(&cx_add(&fv, &term)), &factor)))
    }
}

fn b_pmt(args: &Vec<Number>) -> (r: Result<Number, EngineError>)
    requires
        nums_wf(args@),
    ensures
        res_matches(r, b_pmt_spec(nums_v(args@))),
{
    if args.len() < 3 || args.len() > 5 {
        return Err(EngineError::ArgumentMismatch(msg("pmt"), 3));
    }
    let cx = cx_args(args);
    let ghost gargs = nums_v(args@);
    let rate = carg_x(&cx, Ghost(gargs), 0);
    let nper = carg_x(&cx, Ghost(gargs), 1);
    let pv = carg_x(&cx, Ghost(gargs), 2);
    let fv = carg_x(&cx, Ghost(gargs), 3);
    let tvp = targ_x(&cx, Ghost(gargs), 4);
    let one = f_const("1");
    let eps = f_const("1e-9");
    if fl_lt(&cx_norm(&rate), &eps) {
        Ok(Number::Complex(crate::floats::cx_neg(&cx_div(&cx_add(&fv, &pv), &nper))))
    } else {
        let factor = cx_powc(&cx_add(&one, &rate), &nper);
        let num = cx_mul(&cx_add(&cx_mul(&pv, &factor), &fv), &rate);
        let den = cx_mul(
            &cx_add(&one, &cx_scale(&rate, &tvp)),
            &cx_sub(&factor, &one),
        );
        Ok(Number::Complex(crate::floats::cx_neg(&cx_div(&num, &den))))
    }
}

fn b_nper(args: &Vec<Number>) -> (r: Result<Number, EngineError>)
    requires
        nums_wf(args@),
    ensures
        res_matches(r, b_nper_spec(nums_v(args@))),
{
    if args.len() < 3 || args.len() > 5 {
        return Err(EngineError::ArgumentMismatch(msg("nper"), 3));
    }
    let cx = cx_args(args);
    let ghost gargs = nums_v(args@);
    let rate = carg_x(&cx, Ghost(gargs), 0);
    let pmt = carg_x(&cx, Ghost(gargs), 1);
    let pv = carg_x(&cx, Ghost(gargs), 2);
    let fv = carg_x(&cx, Ghost(gargs), 3);
    let tvp = targ_x(&cx, Ghost(gargs), 4);
    let one = f_const("1");
    let eps = f_const("1e-9");
    if fl_lt(&cx_norm(&rate), &eps) {
        Ok(Number::Complex(cx_div(&crate::floats::cx_neg(&cx_add(&fv, &pv)), &pmt)))
    } else {
        let rt = cx_add(&one, &cx_scale(&rate, &tvp));
        let num = cx_sub(&cx_mul(&pmt, &rt), &cx_mul(&fv, &rate));
        let den = cx_add(&cx_mul(&pmt, &rt), &cx_mul(&pv, &rate));
        let ln_q = cx_ln(&cx_div(&num, &den));
        let ln_r = cx_ln(&cx_add(&one, &rate));
        Ok(Number::Complex(cx_div(&ln_q, &ln_r)))
    }
}

/// The real payload of one small count.
fn fl_count(x: usize) -> (r: num_complex::Complex64)
    ensures
        re_bits(r) == f_of_int(x as int),
        im_bits(r) == 0,
{
    fl_from_usize(x)
}

fn b_npv(args: &Vec<Number>) -> (r: Result<Number, EngineError>)
    requires
        nums_wf(args@),
    ensures
        res_matches(r, b_npv_spec(nums_v(args@))),
{
    if args.len() < 2 {
        return Err(EngineError::ArgumentMismatch(msg("npv"), 2));
    }
    let cx = cx_args(args);
    let ghost gargs = nums_v(args@);
    let rate = carg_x(&cx, Ghost(gargs), 0);
    let one = f_const("1");
    let ghost flows = Seq::new((gargs.len() - 1) as nat, |k: int| cx_parts(gargs[k + 1]));
    let mut sum = f_zero();
    let mut k: usize = 1;
    proof {
        assert(npv_sum(flows, (re_bits(rate), im_bits(rate)), 0) == (0u64, 0u64));
    }
    while k < cx.len()
        invariant
            1 <= k <= cx@.len(),
            cx@.len() == gargs.len(),
            cx@.len() >= 2,
            flows == Seq::new((gargs.len() - 1) as nat, |q: int| cx_parts(gargs[q + 1])),
            forall|q: int|
                0 <= q < cx@.len() ==> (re_bits(#[trigger] cx@[q]), im_bits(cx@[q])) == cx_parts(
                    gargs[q],
                ),
            (re_bits(one), im_bits(one)) == one_c(),
            (re_bits(sum), im_bits(sum)) == npv_sum(
                flows,
                (re_bits(rate), im_bits(rate)),
                k - 1,
            ),
        decreases cx@.len() - k,
    {
        let t = fl_count(k);
        let term = cx_div(&cx[k], &cx_powf(&cx_add(&one, &rate), &t));
        proof {
            assert(flows[k - 1] == cx_parts(gargs[k as int]));
        }
        sum = cx_add(&sum, &term);
        k = k + 1;
    }
    Ok(Number::Complex(sum))
}

/// One pass over the flows: the running net value and derivative at a
/// guess.
fn irr_pass(vals: &Vec<num_complex::Complex64>, guess: &num_complex::Complex64) -> (r: (
    num_complex::Complex64,
    num_complex::Complex64,
))
    ensures
        (re_bits(r.0), re_bits(r.1)) == irr_sums(
            Seq::new(vals@.len(), |q: int| re_bits(vals@[q])),
            re_bits(*guess),
            vals@.len() as int,
        ),
        im_bits(r.0) == 0,
        im_bits(r.1) == 0,
{
    let ghost vb = Seq::new(vals@.len(), |q: int| re_bits(vals@[q]));
    let one = f_const("1");
    let base = fl_add(&one, guess);
    let mut npv = f_zero();
    let mut deriv = f_zero();
    let mut i: usize = 0;
    while i < vals.len()
        invariant
            i <= vals@.len(),
            vb == Seq::new(vals@.len(), |q: int| re_bits(vals@[q])),
            re_bits(base) == add_bits(one_c().0, re_bits(*guess)),
            (re_bits(npv), re_bits(deriv)) == irr_sums(vb, re_bits(*guess), i as int),
            im_bits(npv) == 0,
            im_bits(deriv) == 0,
        decreases vals@.len() - i,
    {
        let t = fl_count(i);
        let factor = crate::floats::fl_powf(&base, &t);
        npv = fl_add(&npv, &fl_div(&vals[i], &factor));
        if i > 0 {
            let dfac = crate::floats::fl_powf(&base, &fl_count(i + 1));
            deriv = fl_sub(&deriv, &fl_div(&fl_mul(&t, &vals[i]), &dfac));
        }
        i = i + 1;
    }
    (npv, deriv)
}

fn b_irr(args: &Vec<Number>) -> (r: Result<Number, EngineError>)
    requires
        nums_wf(args@),
    ensures
        res_matches(r, b_irr_spec(nums_v(args@))),
{
    let cx = cx_args(args);
    let ghost gargs = nums_v(args@);
    let mut vals: Vec<num_complex::Complex64> = Vec::new();
    let mut i: usize = 0;
    while i < cx.len()
        invariant
            i <= cx@.len(),
            cx@.len() == gargs.len(),
            forall|q: int|
                0 <= q < cx@.len() ==> (re_bits(#[trigger] cx@[q]), im_bits(cx@[q])) == cx_parts(
                    gargs[q],
                ),
            vals@.len() == i,
            forall|q: int|
                0 <= q < i ==> re_bits(#[trigger] vals@[q]) == cx_parts(gargs[q]).0,
        decreases cx@.len() - i,
    {
        vals.push(crate::floats::cx_real_part(&cx[i]));
        i = i + 1;
    }
    let ghost vb = Seq::new(gargs.len(), |q: int| cx_parts(gargs[q]).0);
    proof {
        assert(vb =~= Seq::new(vals@.len(), |q: int| re_bits(vals@[q])));
    }
    let eps7 = f_const("1e-7");
    let eps10 = f_const("1e-10");
    let mut guess = f_const("0.1");
    let mut k: usize = 0;
    while k < 100
        invariant
            k <= 100,
            gargs == nums_v(args@),
            vb == Seq::new(vals@.len(), |q: int| re_bits(vals@[q])),
            vb == Seq::new(gargs.len(), |q: int| cx_parts(gargs[q]).0),
            im_bits(guess) == 0,
            (re_bits(eps7), re_bits(eps10)) == (eps7_bits(), eps10_bits()),
            irr_iter(vb, re_bits(guess), (100 - k) as nat) == irr_iter(vb, tenth_bits(), 100),
        decreases 100 - k,
    {
        let (npv, deriv) = irr_pass(&vals, &guess);
        if fl_lt(&fl_abs(&npv), &eps7) {
            return Ok(Number::Complex(crate::floats::c_dup(&guess)));
        }
        if fl_lt(&fl_abs(&deriv), &eps10) {
            return Ok(Number::Complex(crate::floats::c_dup(&guess)));
        }
        guess = fl_sub(&guess, &fl_div(&npv, &deriv));
        k = k + 1;
    }
    Ok(Number::Complex(guess))
}

/// The annuity balance at a trial rate.
fn rate_y_x(
    nper: &num_complex::Complex64,
    pmt: &num_complex::Complex64,
    pv: &num_complex::Complex64,
    fv: &num_complex::Complex64,
    tvp: &num_complex::Complex64,
    g: &num_complex::Complex64,
) -> (r: num_complex::Complex64)
    ensures
        re_bits(r) == rate_y(
            re_bits(*nper),
            re_bits(*pmt),
            re_bits(*pv),
            re_bits(*fv),
            re_bits(*tvp),
            re_bits(*g),
        ),
        im_bits(r) == 0,
{
    let one = f_const("1");
    let factor = crate::floats::fl_powf(&fl_add(&one, g), nper);
    let term = fl_mul(
        &fl_mul(pmt, &fl_add(&one, &fl_mul(g, tvp))),
        &fl_div(&fl_sub(&factor, &one), g),
    );
    fl_add(&fl_add(&fl_mul(pv, &factor), &term), fv)
}

fn b_rate(args: &Vec<Number>) -> (r: Result<Number, EngineError>)
    requires
        nums_wf(args@),
    ensures
        res_matches(r, b_rate_spec(nums_v(args@))),
{
    if args.len() < 3 {
        return Err(EngineError::ArgumentMismatch(msg("rate"), 3));
    }
    let cx = cx_args(args);
    let ghost gargs = nums_v(args@);
    let nper = crate::floats::cx_real_part(&carg_x(&cx, Ghost(gargs), 0));
    let pmt = crate::floats::cx_real_part(&carg_x(&cx, Ghost(gargs), 1));
    let pv = crate::floats::cx_real_part(&carg_x(&cx, Ghost(gargs), 2));
    let fv = crate::floats::cx_real_part(&carg_x(&cx, Ghost(gargs), 3));
    let tvp = targ_x(&cx, Ghost(gargs), 4);
    let mut g = if cx.len() >= 6 {
        crate::floats::cx_real_part(&carg_x(&cx, Ghost(gargs), 5))
    } else {
        f_const("0.1")
    };
    let ghost g0 = re_bits(g);
    let eps7 = f_const("1e-7");
    let eps9 = f_const("1e-9");
    let eps10 = f_const("1e-10");
    let delta = f_const("1e-5");
    let mut k: usize = 0;
    while k < 100
        invariant
            k <= 100,
            gargs == nums_v(args@),
            gargs.len() >= 3,
            g0 == (if gargs.len() >= 6 {
                carg(gargs, 5).0
            } else {
                tenth_bits()
            }),
            im_bits(g) == 0,
            re_bits(nper) == carg(gargs, 0).0,
            re_bits(pmt) == carg(gargs, 1).0,
            re_bits(pv) == carg(gargs, 2).0,
            re_bits(fv) == (if gargs.len() >= 4 {
                carg(gargs, 3).0
            } else {
                0
            }),
            re_bits(tvp) == targ(gargs, 4),
            (re_bits(eps7), re_bits(eps9), re_bits(eps10), re_bits(delta)) == (
                eps7_bits(),
                eps9_bits(),
                eps10_bits(),
                delta_bits(),
            ),
            rate_iter(
                re_bits(nper),
                re_bits(pmt),
                re_bits(pv),
                re_bits(fv),
                re_bits(tvp),
                re_bits(g),
                (100 - k) as nat,
            ) == rate_iter(
                re_bits(nper),
                re_bits(pmt),
                re_bits(pv),
                re_bits(fv),
                re_bits(tvp),
                g0,
                100,
            ),
        decreases 100 - k,
    {
        if fl_lt(&fl_abs(&g), &eps9) {
            let y = fl_add(&fl_add(&pv, &fl_mul(&pmt, &nper)), &fv);
            if fl_lt(&fl_abs(&y), &eps7) {
                return Ok(Number::Complex(f_zero()));
            }
            g = f_const("0.0001");
            k = k + 1;
        } else {
            let y = rate_y_x(&nper, &pmt, &pv, &fv, &tvp, &g);
            let rd = fl_add(&g, &delta);
            let yd = rate_y_x(&nper, &pmt, &pv, &fv, &tvp, &rd);
            let deriv = fl_div(&fl_sub(&yd, &y), &delta);
            if fl_lt(&fl_abs(&deriv), &eps10) {
                return Ok(Number::Complex(crate::floats::c_dup(&g)));
            }
            let new_r = fl_sub(&g, &fl_div(&y, &deriv));
            if fl_lt(&fl_abs(&fl_sub(&new_r, &g)), &eps7) {
                return Ok(Number::Complex(crate::floats::c_dup(&new_r)));
            }
            g = new_r;
            k = k + 1;
        }
    }
    Ok(Number::Complex(g))
}

/// Dispatches a financial primitive by name, where one matches.
pub(crate) fn apply_financial(name: &Vec<u8>, args: &Vec<Number>) -> (r: Option<
    Result<Number, EngineError>,
>)
    requires
        nums_wf(args@),
    ensures
        match r {
            Some(out) => financial_spec(name@, nums_v(args@)) matches Some(s) && res_matches(
                out,
                s,
            ),
            None => financial_spec(name@, nums_v(args@)) is None,
        },
{
    proof {
        reveal_strlit("fv");
        reveal_strlit("pv");
        reveal_strlit("pmt");
        reveal_strlit("nper");
        reveal_strlit("rate");
        reveal_strlit("npv");
        reveal_strlit("irr");
    }
    if crate::context::bytes_eq(name, &fin_word("fv")) {
        Some(b_fv(args))
    } else if crate::context::bytes_eq(name, &fin_word("pv")) {
        Some(b_pv(args))
    } else if crate::context::bytes_eq(name, &fin_word("pmt")) {
        Some(b_pmt(args))
    } else if crate::context::bytes_eq(name, &fin_word("nper")) {
        Some(b_nper(args))
    } else if crate::context::bytes_eq(name, &fin_word("rate")) {
        Some(b_rate(args))
    } else if crate::context::bytes_eq(name, &fin_word("npv")) {
        Some(b_npv(args))
    } else if crate::context::bytes_eq(name, &fin_word("irr")) {
        Some(b_irr(args))
    } else {
        None
    }
}

/// What the financial primitives return, by name; other names are not
/// theirs.
pub open spec fn financial_spec(name: Seq<u8>, args: Seq<NumV>) -> Option<Result<NumV, ErrV>> {
    if name == crate::registry::bname("fv"@) {
        Some(b_fv_spec(args))
    } else if name == crate::registry::bname("pv"@) {
        Some(b_pv_spec(args))
    } else if name == crate::registry::bname("pmt"@) {
        Some(b_pmt_spec(args))
    } else if name == crate::registry::bname("nper"@) {
        Some(b_nper_spec(args))
    } else if name == crate::registry::bname("rate"@) {
        Some(b_rate_spec(args))
    } else if name == crate::registry::bname("npv"@) {
        Some(b_npv_spec(args))
    } else if name == crate::registry::bname("irr"@) {
        Some(b_irr_spec(args))
    } else {
        None
    }
}

/// The byte word of an ASCII literal.
fn fin_word(s: &str) -> (r: Vec<u8>)
    requires
        vstd::string::is_ascii(s),
    ensures
        r@ == crate::registry::bname(s@),
{
    let r = vstd::string::StrSliceExecFns::as_bytes_vec(s);
    proof {
        crate::utils::lemma_ascii_word(s);
    }
    r
}

} // verus!

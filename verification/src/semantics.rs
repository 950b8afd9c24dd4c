//! The meaning of an expression: a structural interpreter over views.
//!
//! Evaluation threads the context left to right through every subterm. The
//! interpreter carries a fuel that bounds the depth of every recursion
//! except one: descending the left spine of a binary chain costs nothing,
//! so left-associative chains of any length evaluate. The executable
//! evaluator uses the same accounting, so the two agree step for step, and
//! a computation too deeply nested for the bound ends in the same error on
//! both sides.

use vstd::prelude::*;
use crate::ast::{BinaryOp, ExprV, UnaryOp};
use crate::context::{CtxV, assoc_fn, fn_put, frame_put, lookup_var, set_var_spec};
use crate::errors::{ErrV, chars_of};
use crate::number::{
    NumV, add_spec, div_spec, factorial_spec, mul_spec, neg_spec, pow_spec, rem_spec, sub_spec,
};
use crate::ast::UfV;

verus! {

/// The error of a computation deeper than the evaluator's bound.
pub open spec fn depth_err() -> ErrV {
    ErrV::Generic { msg: "Evaluation depth limit exceeded"@ }
}

/// What a binary operator means on the numeric tower.
pub open spec fn bin_apply(op: BinaryOp, a: NumV, b: NumV) -> NumV {
    match op {
        BinaryOp::Add => add_spec(a, b),
        BinaryOp::Sub => sub_spec(a, b),
        BinaryOp::Mul => mul_spec(a, b),
        BinaryOp::Div => div_spec(a, b),
        BinaryOp::Mod => rem_spec(a, b),
        BinaryOp::Pow => pow_spec(a, b),
    }
}

/// The structural size of an expression, the interpreter's second measure.
pub open spec fn esize(e: ExprV) -> nat
    decreases e,
{
    match e {
        ExprV::Literal { .. } => 1,
        ExprV::Variable { .. } => 1,
        ExprV::Binary { l, r, .. } => 1 + esize(*l) + esize(*r),
        ExprV::Unary { e: inner, .. } => 1 + esize(*inner),
        ExprV::Call { args, .. } => 1 + esizes(args),
        ExprV::Assign { e: inner, .. } => 1 + esize(*inner),
        ExprV::Def { body, .. } => 1 + esize(*body),
    }
}

/// The summed size of a sequence of expressions.
pub open spec fn esizes(es: Seq<ExprV>) -> nat
    decreases es,
{
    if es.len() == 0 {
        0
    } else {
        esize(es[0]) + esizes(es.subrange(1, es.len() as int))
    }
}

/// The scope that binds each parameter, left to right, to its argument.
pub open spec fn bind_frame(params: Seq<Seq<u8>>, vals: Seq<NumV>) -> Seq<(Seq<u8>, NumV)>
    decreases params.len(),
{
    if params.len() == 0 {
        Seq::empty()
    } else {
        frame_put(
            bind_frame(params.drop_last(), vals.drop_last()),
            params.last(),
            vals.last(),
        )
    }
}

/// The result and the context after evaluating one expression.
pub open spec fn ev(fuel: nat, e: ExprV, c: CtxV) -> (Result<NumV, ErrV>, CtxV)
    decreases fuel, esize(e),
{
    if fuel == 0 {
        (Err(depth_err()), c)
    } else {
        let fl = (fuel - 1) as nat;
        match e {
            ExprV::Literal { n } => (Ok(n), c),
            ExprV::Variable { name } => match lookup_var(c.scopes, name) {
                Some(v) => (Ok(v), c),
                None => (Err(ErrV::UndefinedVariable { name: chars_of(name) }), c),
            },
            ExprV::Assign { name, e: inner } => {
                let (r, c1) = ev(fl, *inner, c);
                match r {
                    Ok(v) => (
                        Ok(v),
                        CtxV { scopes: set_var_spec(c1.scopes, name, v), funcs: c1.funcs },
                    ),
                    Err(er) => (Err(er), c1),
                }
            },
            ExprV::Def { name, params, body } => (
                Ok(NumV::Int { i: 0 }),
                CtxV {
                    scopes: c.scopes,
                    funcs: fn_put(c.funcs, name, UfV { params, body: *body }),
                },
            ),
            ExprV::Unary { op, e: inner } => {
                let (r, c1) = ev(fl, *inner, c);
                match r {
                    Ok(v) => match op {
                        UnaryOp::Neg => (Ok(neg_spec(v)), c1),
                        UnaryOp::Factorial => (factorial_spec(v), c1),
                    },
                    Err(er) => (Err(er), c1),
                }
            },
            ExprV::Binary { op, l, r } => {
                // The left operand keeps the whole fuel: a left-associative
                // chain of any length costs no depth, as the evaluator
                // walks it iteratively. Only the right operand descends.
                let (lv, c1) = ev(fuel, *l, c);
                match lv {
                    Ok(a) => {
                        let (rv, c2) = ev(fl, *r, c1);
                        match rv {
                            Ok(b) => (Ok(bin_apply(op, a, b)), c2),
                            Err(er) => (Err(er), c2),
                        }
                    },
                    Err(er) => (Err(er), c1),
                }
            },
            ExprV::Call { name, args } => {
                let (ra, c1) = ev_args(fuel, args, c);
                match ra {
                    Ok(vals) => {
                        match assoc_fn(c1.funcs, name) {
                            Some(uf) => {
                                if vals.len() != uf.params.len() {
                                    (
                                        Err(
                                            ErrV::ArgumentMismatch {
                                                name: chars_of(name),
                                                expected: uf.params.len() as int,
                                            },
                                        ),
                                        c1,
                                    )
                                } else {
                                    let entered = CtxV {
                                        scopes: c1.scopes.push(bind_frame(uf.params, vals)),
                                        funcs: c1.funcs,
                                    };
                                    let (rb, c2) = ev(fl, uf.body, entered);
                                    let left = CtxV {
                                        scopes: if c2.scopes.len() > 1 {
                                            c2.scopes.drop_last()
                                        } else {
                                            c2.scopes
                                        },
                                        funcs: c2.funcs,
                                    };
                                    (rb, left)
                                }
                            },
                            None => (crate::registry::apply_spec(name, vals), c1),
                        }
                    },
                    Err(er) => (Err(er), c1),
                }
            },
        }
    }
}

/// The arguments of a call, evaluated left to right in the caller's
/// context, each one step deeper.
pub open spec fn ev_args(fuel: nat, es: Seq<ExprV>, c: CtxV) -> (Result<Seq<NumV>, ErrV>, CtxV)
    decreases fuel, esizes(es),
    via ev_args_dec
{
    if es.len() == 0 {
        (Ok(Seq::empty()), c)
    } else if fuel == 0 {
        (Err(depth_err()), c)
    } else {
        let fl = (fuel - 1) as nat;
        let (r0, c1) = ev(fl, es[0], c);
        match r0 {
            Ok(v) => {
                let (rr, c2) = ev_args(fuel, es.subrange(1, es.len() as int), c1);
                match rr {
                    Ok(vs) => (Ok(seq![v] + vs), c2),
                    Err(er) => (Err(er), c2),
                }
            },
            Err(er) => (Err(er), c1),
        }
    }
}

/// Every expression has positive size.
pub proof fn lemma_esize_pos(e: ExprV)
    ensures
        esize(e) >= 1,
{
    match e {
        ExprV::Literal { .. } => {},
        ExprV::Variable { .. } => {},
        ExprV::Binary { .. } => {},
        ExprV::Unary { .. } => {},
        ExprV::Call { .. } => {},
        ExprV::Assign { .. } => {},
        ExprV::Def { .. } => {},
    }
}

#[via_fn]
proof fn ev_args_dec(fuel: nat, es: Seq<ExprV>, c: CtxV) {
    if es.len() > 0 && fuel > 0 {
        lemma_esize_pos(es[0]);
    }
}

} // verus!

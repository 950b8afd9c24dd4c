//! The evaluator.
//!
//! Long left-associative operator chains are evaluated iteratively: the
//! walk down the left spine collects the pending operators and right
//! operands, the leftmost leaf is evaluated once, and the pending pairs are
//! applied left to right. Neither the call stack nor the depth fuel grows
//! with the chain's length, so chains of any length evaluate, and the
//! result is exactly what the structural interpreter `ev` gives. Every
//! other construct evaluates by ordinary recursion, which is what the
//! depth fuel bounds.

use vstd::prelude::*;
use crate::ast::{
    BinaryOp, Expr, ExprV, UnaryOp, UserFunction, bytes_dup, expr_dup, expr_wf, exprs_v,
    lemma_exprs_v, lemma_exprs_wf, name_ascii, names_dup,
};
use crate::bigint::int_from_u64;
use crate::context::{Context, CtxV, define_var_spec, frame_put};
use crate::errors::{EngineError, ErrV, bytes_to_string, msg};
use crate::number::{Number, NumV, factorial, pow};
use crate::registry::{apply, nums_v, nums_wf};
use crate::semantics::{bind_frame, esize, ev, ev_args};

verus! {

/// The depth bound that `eval` uses. Left-associative chains cost no
/// depth and stay unbounded; other nesting deeper than this ends in the
/// depth error instead of exhausting the call stack.
pub const DEFAULT_FUEL: u64 = 4096;

/// The views of a collected spine: each pending operator with the view of
/// its right operand.
pub open spec fn stack_v(st: Seq<(BinaryOp, &Expr)>) -> Seq<(BinaryOp, ExprV)> {
    st.map_values(|p: (BinaryOp, &Expr)| (p.0, p.1@))
}

/// The tree that a collected spine stands for: the pairs wrap the leaf
/// from the innermost (last collected) outward.
pub open spec fn wrap(cur: ExprV, st: Seq<(BinaryOp, ExprV)>) -> ExprV
    decreases st.len(),
{
    if st.len() == 0 {
        cur
    } else {
        wrap(
            ExprV::Binary { op: st.last().0, l: Box::new(cur), r: Box::new(st.last().1) },
            st.drop_last(),
        )
    }
}

/// Seen from the root: the first collected pair is the outermost operator.
pub proof fn lemma_wrap_unfold(cur: ExprV, st: Seq<(BinaryOp, ExprV)>)
    requires
        st.len() > 0,
    ensures
        wrap(cur, st) == (ExprV::Binary {
            op: st[0].0,
            l: Box::new(wrap(cur, st.subrange(1, st.len() as int))),
            r: Box::new(st[0].1),
        }),
    decreases st.len(),
{
    if st.len() == 1 {
        assert(st.drop_last() =~= Seq::<(BinaryOp, ExprV)>::empty());
        assert(st.subrange(1, st.len() as int) =~= Seq::<(BinaryOp, ExprV)>::empty());
    } else {
        let inner = ExprV::Binary {
            op: st.last().0,
            l: Box::new(cur),
            r: Box::new(st.last().1),
        };
        lemma_wrap_unfold(inner, st.drop_last());
        assert(st.drop_last()[0] == st[0]);
        assert(st.drop_last().subrange(1, st.len() - 1) =~= st.subrange(1, st.len() as int).drop_last());
        assert(st.subrange(1, st.len() as int).last() == st.last());
    }
}

/// An error at the current subtree propagates out through the pending
/// pairs unchanged: the spine costs no fuel, so the whole wrap fails the
/// same way at the same fuel.
pub proof fn lemma_wrap_err(
    cur: ExprV,
    st: Seq<(BinaryOp, ExprV)>,
    c0: CtxV,
    cerr: CtxV,
    e: ErrV,
    fuel: nat,
)
    requires
        fuel > 0,
        ev(fuel, cur, c0) == (Result::<NumV, ErrV>::Err(e), cerr),
    ensures
        ev(fuel, wrap(cur, st), c0) == (Result::<NumV, ErrV>::Err(e), cerr),
    decreases st.len(),
{
    if st.len() > 0 {
        lemma_wrap_unfold(cur, st);
        lemma_wrap_err(cur, st.subrange(1, st.len() as int), c0, cerr, e, fuel);
    }
}

/// What the executable evaluator returns must be exactly what the
/// interpreter gives, context included.
pub open spec fn out_matches(
    r: Result<Number, EngineError>,
    after: CtxV,
    s: (Result<NumV, ErrV>, CtxV),
) -> bool {
    after == s.1 && match (r, s.0) {
        (Ok(n), Ok(v)) => n@ == v && n.wf(),
        (Err(e), Err(w)) => e@ == w,
        _ => false,
    }
}

/// Prefixing already-evaluated arguments onto the outcome of the rest.
pub open spec fn args_pre(pre: Seq<NumV>, t: (Result<Seq<NumV>, ErrV>, CtxV)) -> (Result<
    Seq<NumV>,
    ErrV,
>, CtxV) {
    match t.0 {
        Ok(vs) => (Ok(pre + vs), t.1),
        Err(e) => t,
    }
}

/// Whether an expression is a binary operation, the spine's material.
fn is_bin(e: &Expr) -> (r: bool)
    ensures
        r == (e@ is Binary),
{
    match e {
        Expr::BinaryOp(_, _, _) => true,
        _ => false,
    }
}

impl Expr {
    /// Evaluates the expression against the context, with the default
    /// depth bound.
    pub fn eval(&self, context: &mut Context) -> (r: Result<Number, EngineError>)
        requires
            old(context).wf(),
            expr_wf(*self),
        ensures
            final(context).wf(),
            out_matches(r, final(context)@, ev(DEFAULT_FUEL as nat, self@, old(context)@)),
    {
        self.eval_depth(context, DEFAULT_FUEL)
    }

    /// Evaluates with an explicit depth bound; the left spine of operator
    /// chains is handled iteratively.
    #[verifier::rlimit(100)]
    pub fn eval_depth(&self, context: &mut Context, fuel: u64) -> (r: Result<Number, EngineError>)
        requires
            old(context).wf(),
            expr_wf(*self),
        ensures
            final(context).wf(),
            out_matches(r, final(context)@, ev(fuel as nat, self@, old(context)@)),
        decreases fuel, 1int,
    {
        let ghost c0 = old(context)@;
        if fuel == 0 {
            return Err(EngineError::Generic(msg("Evaluation depth limit exceeded")));
        }
        let mut stack: Vec<(BinaryOp, &Expr)> = Vec::new();
        let mut cur: &Expr = self;
        proof {
            assert(stack_v(stack@) =~= Seq::<(BinaryOp, ExprV)>::empty());
        }
        while is_bin(cur)
            invariant
                old(context).wf(),
                context.wf(),
                context@ == old(context)@,
                expr_wf(*cur),
                wrap(cur@, stack_v(stack@)) == self@,
                forall|k: int| 0 <= k < stack@.len() ==> expr_wf(*(#[trigger] stack@[k]).1),
            decreases esize(cur@),
        {
            match cur {
                Expr::BinaryOp(op, lhs, rhs) => {
                    let ghost pre = stack_v(stack@);
                    stack.push((*op, rhs));
                    proof {
                        assert(stack_v(stack@) =~= pre.push((*op, rhs@)));
                        assert(stack_v(stack@).drop_last() =~= pre);
                        crate::semantics::lemma_esize_pos(rhs@);
                    }
                    cur = lhs;
                },
                _ => {
                    proof {
                        assert(false);
                    }
                },
            }
        }
        let mut result = match eval_node(cur, context, fuel) {
            Ok(v) => v,
            Err(e) => {
                proof {
                    lemma_wrap_err(cur@, stack_v(stack@), c0, context@, e@, fuel as nat);
                }
                return Err(e);
            },
        };
        let ghost mut tj: ExprV = cur@;
        while stack.len() > 0
            invariant
                old(context).wf(),
                c0 == old(context)@,
                context.wf(),
                result.wf(),
                fuel >= 1,
                wrap(tj, stack_v(stack@)) == self@,
                ev(fuel as nat, tj, c0) == (Result::<NumV, ErrV>::Ok(result@), context@),
                forall|k: int| 0 <= k < stack@.len() ==> expr_wf(*(#[trigger] stack@[k]).1),
            decreases stack@.len(),
        {
            let ghost pre = stack_v(stack@);
            let (op, rhs) = stack.pop().unwrap();
            proof {
                assert(stack_v(stack@) =~= pre.drop_last());
                assert(pre.last() == (op, rhs@));
            }
            let ghost tnew: ExprV = ExprV::Binary { op, l: Box::new(tj), r: Box::new(rhs@) };
            let rv = match rhs.eval_depth(context, fuel - 1) {
                Ok(v) => v,
                Err(e) => {
                    proof {
                        assert(ev(fuel as nat, tnew, c0) == (Result::<NumV, ErrV>::Err(e@),
                        context@));
                        lemma_wrap_err(tnew, stack_v(stack@), c0, context@, e@, fuel as nat);
                    }
                    return Err(e);
                },
            };
            let applied = match op {
                BinaryOp::Add => result.add(rv),
                BinaryOp::Sub => result.sub(rv),
                BinaryOp::Mul => result.mul(rv),
                BinaryOp::Div => result.div(rv),
                BinaryOp::Mod => result.rem(rv),
                BinaryOp::Pow => pow(result, rv),
            };
            result = applied;
            proof {
                assert(ev(fuel as nat, tnew, c0) == (Result::<NumV, ErrV>::Ok(result@),
                context@));
            }
            proof {
                tj = tnew;
            }
        }
        proof {
            assert(stack_v(stack@) =~= Seq::<(BinaryOp, ExprV)>::empty());
            assert(wrap(tj, stack_v(stack@)) == tj);
        }
        Ok(result)
    }
}

/// Evaluates one non-chain node: every construct but the binary spine.
#[verifier::rlimit(100)]
fn eval_node(e: &Expr, context: &mut Context, fuel: u64) -> (r: Result<Number, EngineError>)
    requires
        old(context).wf(),
        expr_wf(*e),
        !(e@ is Binary),
    ensures
        final(context).wf(),
        out_matches(r, final(context)@, ev(fuel as nat, e@, old(context)@)),
    decreases fuel, 0int,
{
    let ghost c0 = old(context)@;
    if fuel == 0 {
        return Err(EngineError::Generic(msg("Evaluation depth limit exceeded")));
    }
    match e {
        Expr::Literal(n) => Ok(n.dup()),
        Expr::Variable(name) => match context.get_var(name) {
            Some(v) => Ok(v),
            None => Err(EngineError::UndefinedVariable(bytes_to_string(name))),
        },
        Expr::Assignment(name, inner) => {
            match inner.eval_depth(context, fuel - 1) {
                Ok(v) => {
                    context.set_var(bytes_dup(name), v.dup());
                    Ok(v)
                },
                Err(er) => Err(er),
            }
        },
        Expr::FunctionDef(name, params, body) => {
            let f = UserFunction { params: names_dup(params), body: expr_dup(body) };
            proof {
                assert forall|k: int| 0 <= k < f.params@.len() implies name_ascii(
                    #[trigger] f.params@[k]@,
                ) by {
                    assert(f.params@[k]@ == params@[k]@);
                }
                assert(f@.params =~= params@.map_values(|p: Vec<u8>| p@));
            }
            context.def_function(bytes_dup(name), f);
            Ok(Number::Integer(int_from_u64(0)))
        },
        Expr::UnaryOp(op, inner) => {
            match inner.eval_depth(context, fuel - 1) {
                Ok(v) => match op {
                    UnaryOp::Neg => Ok(v.neg()),
                    UnaryOp::Factorial => factorial(v),
                },
                Err(er) => Err(er),
            }
        },
        Expr::FunctionCall(name, arg_exprs) => {
            let ghost argsv = exprs_v(arg_exprs@);
            proof {
                lemma_exprs_v(arg_exprs@);
                lemma_exprs_wf(arg_exprs@);
            }
            let mut vals: Vec<Number> = Vec::new();
            let mut i: usize = 0;
            proof {
                assert(argsv.subrange(0, argsv.len() as int) =~= argsv);
                let t = ev_args(fuel as nat, argsv, c0);
                match t.0 {
                    Ok(vs) => {
                        assert(Seq::<NumV>::empty() + vs =~= vs);
                        assert(nums_v(vals@) =~= Seq::<NumV>::empty());
                    },
                    Err(_) => {},
                }
            }
            while i < arg_exprs.len()
                invariant
                    old(context).wf(),
                    c0 == old(context)@,
                    context.wf(),
                    fuel >= 1,
                    i <= arg_exprs@.len(),
                    e@ == (ExprV::Call { name: name@, args: argsv }),
                    argsv == exprs_v(arg_exprs@),
                    argsv.len() == arg_exprs@.len(),
                    forall|k: int|
                        0 <= k < arg_exprs@.len() ==> argsv[k] == expr_v_of(
                            #[trigger] arg_exprs@[k],
                        ),
                    forall|k: int| 0 <= k < arg_exprs@.len() ==> expr_wf(#[trigger] arg_exprs@[k]),
                    nums_wf(vals@),
                    ev_args(fuel as nat, argsv, c0) == args_pre(
                        nums_v(vals@),
                        ev_args(fuel as nat, argsv.subrange(i as int, argsv.len() as int), context@),
                    ),
                decreases arg_exprs@.len() - i,
            {
                let ghost cb = context@;
                let ghost remaining = argsv.subrange(i as int, argsv.len() as int);
                let av = match arg_exprs[i].eval_depth(context, fuel - 1) {
                    Ok(v) => v,
                    Err(er) => {
                        proof {
                            assert(remaining[0] == argsv[i as int]);
                            assert(ev_args(fuel as nat, remaining, cb) == (Result::<
                                Seq<NumV>,
                                ErrV,
                            >::Err(er@), context@));
                            assert(ev_args(fuel as nat, argsv, c0) == (Result::<
                                Seq<NumV>,
                                ErrV,
                            >::Err(er@), context@));
                            assert(ev(fuel as nat, e@, c0) == (Result::<NumV, ErrV>::Err(er@),
                            context@));
                        }
                        return Err(er);
                    },
                };
                proof {
                    assert(remaining[0] == argsv[i as int]);
                    assert(remaining.subrange(1, remaining.len() as int) =~= argsv.subrange(
                        i + 1 as int,
                        argsv.len() as int,
                    ));
                    let rest = ev_args(
                        fuel as nat,
                        argsv.subrange(i + 1 as int, argsv.len() as int),
                        context@,
                    );
                    match rest.0 {
                        Ok(vs) => {
                            assert(nums_v(vals@.push(av)) =~= nums_v(vals@).push(av@));
                            assert(nums_v(vals@) + (seq![av@] + vs) =~= nums_v(vals@).push(av@)
                                + vs);
                        },
                        Err(_) => {},
                    }
                }
                vals.push(av);
                i = i + 1;
            }
            proof {
                assert(argsv.subrange(argsv.len() as int, argsv.len() as int) =~= Seq::<
                    ExprV,
                >::empty());
                assert(nums_v(vals@) + Seq::<NumV>::empty() =~= nums_v(vals@));
                assert(ev_args(fuel as nat, argsv, c0) == (Result::<Seq<NumV>, ErrV>::Ok(nums_v(
                    vals@,
                )), context@));
            }
            match context.get_function(name) {
                Some(uf) => {
                    if vals.len() != uf.params.len() {
                        return Err(
                            EngineError::ArgumentMismatch(bytes_to_string(name), uf.params.len()),
                        );
                    }
                    let ghost cargs = context@;
                    context.push_scope();
                    let mut k: usize = 0;
                    proof {
                        assert(bind_frame(
                            uf@.params.subrange(0, 0),
                            nums_v(vals@).subrange(0, 0),
                        ) =~= Seq::<(Seq<u8>, NumV)>::empty());
                        assert(context@.scopes =~= cargs.scopes.push(
                            bind_frame(uf@.params.subrange(0, 0), nums_v(vals@).subrange(0, 0)),
                        ));
                    }
                    while k < uf.params.len()
                        invariant
                            context.wf(),
                            k <= uf.params@.len(),
                            uf.wf(),
                            nums_wf(vals@),
                            vals@.len() == uf.params@.len(),
                            uf@.params.len() == uf.params@.len(),
                            forall|q: int|
                                0 <= q < uf.params@.len() ==> uf@.params[q] == (
                                #[trigger] uf.params@[q])@,
                            context@.scopes == cargs.scopes.push(
                                bind_frame(
                                    uf@.params.subrange(0, k as int),
                                    nums_v(vals@).subrange(0, k as int),
                                ),
                            ),
                            context@.funcs == cargs.funcs,
                            cargs.scopes.len() >= 1,
                        decreases uf.params@.len() - k,
                    {
                        let ghost prev = bind_frame(
                            uf@.params.subrange(0, k as int),
                            nums_v(vals@).subrange(0, k as int),
                        );
                        proof {
                            assert(nums_v(vals@)[k as int] == vals@[k as int]@);
                        }
                        context.define_var(bytes_dup(&uf.params[k]), vals[k].dup());
                        proof {
                            let ps = uf@.params.subrange(0, k + 1 as int);
                            let vs = nums_v(vals@).subrange(0, k + 1 as int);
                            assert(ps.drop_last() =~= uf@.params.subrange(0, k as int));
                            assert(vs.drop_last() =~= nums_v(vals@).subrange(0, k as int));
                            assert(ps.last() == uf@.params[k as int]);
                            assert(vs.last() == nums_v(vals@)[k as int]);
                            assert(bind_frame(ps, vs) == frame_put(
                                prev,
                                uf@.params[k as int],
                                nums_v(vals@)[k as int],
                            ));
                            assert(cargs.scopes.push(prev).drop_last() =~= cargs.scopes);
                            assert(context@.scopes =~= cargs.scopes.push(bind_frame(ps, vs)));
                        }
                        k = k + 1;
                    }
                    proof {
                        assert(uf@.params.subrange(0, uf@.params.len() as int) =~= uf@.params);
                        assert(nums_v(vals@).subrange(0, nums_v(vals@).len() as int) =~= nums_v(
                            vals@,
                        ));
                    }
                    let rb = uf.body.eval_depth(context, fuel - 1);
                    context.pop_scope();
                    rb
                },
                None => {
                    match apply(name, &vals) {
                        Ok(v) => Ok(v),
                        Err(er) => Err(er),
                    }
                },
            }
        },
        Expr::BinaryOp(_, _, _) => {
            proof {
                assert(false);
            }
            vstd::pervasive::unreached()
        },
    }
}

/// The view of one expression, named for the argument-loop invariant.
pub open spec fn expr_v_of(e: Expr) -> ExprV {
    crate::ast::expr_v(e)
}

/// What evaluating a source text against a context means: parse, then run
/// the interpreter; a parse error leaves the context unchanged.
pub open spec fn evaluate_spec(bytes: Seq<u8>, c: CtxV) -> (Result<NumV, ErrV>, CtxV) {
    match crate::parser::parse_spec(bytes) {
        Ok(e) => ev(DEFAULT_FUEL as nat, e, c),
        Err(m) => (Err(ErrV::ParserError { msg: m }), c),
    }
}

/// Parses and evaluates an expression, mutating the context.
pub fn evaluate(expression: &str, context: &mut Context) -> (r: Result<Number, EngineError>)
    requires
        old(context).wf(),
    ensures
        final(context).wf(),
        vstd::string::is_ascii(expression) ==> out_matches(
            r,
            final(context)@,
            evaluate_spec(
                vstd::string::StringSliceAdditionalSpecFns::spec_bytes(expression),
                old(context)@,
            ),
        ),
        !vstd::string::is_ascii(expression) ==> ({
            &&& final(context)@ == old(context)@
            &&& r matches Err(er) && er@ == (ErrV::ParserError { msg: "Unexpected token"@ })
        }),
{
    match crate::parser::parse(expression) {
        Ok(e) => e.eval(context),
        Err(er) => Err(er),
    }
}

} // verus!

//! The library's stated laws, proved against the public contracts.

use vstd::prelude::*;
use vstd::arithmetic::div_mod::{
    lemma_add_mod_noop, lemma_fundamental_div_mod, lemma_mod_bound, lemma_mod_multiples_basic,
    lemma_small_mod,
};
use crate::ast::{BinaryOp, ExprV};
use crate::context::CtxV;
use crate::errors::ErrV;
use crate::floats::{div_bits, f_of_int};
use crate::number::{NumV, add_spec, div_spec, mul_spec, rem_spec, sub_spec, v_wf};
use crate::parser::{parse_toks, sp_bp, sp_loop, sp_prefix};
use crate::bigint::abs_int;
use crate::rational::{gcd, lemma_gcd_props, norm_q};
use crate::tokens::TokV;

verus! {

/// Integer addition, subtraction and multiplication stay in the integer
/// kind and equal the exact mathematical values, at any magnitude; chains
/// of such operations therefore never round.
pub proof fn lemma_integer_arithmetic_exact(a: int, b: int)
    ensures
        add_spec(NumV::Int { i: a }, NumV::Int { i: b }) == (NumV::Int { i: a + b }),
        sub_spec(NumV::Int { i: a }, NumV::Int { i: b }) == (NumV::Int { i: a - b }),
        mul_spec(NumV::Int { i: a }, NumV::Int { i: b }) == (NumV::Int { i: a * b }),
{
}

/// An expression built of integer literals and the exact operators alone.
pub open spec fn int_only(e: ExprV) -> bool
    decreases e,
{
    match e {
        ExprV::Literal { n } => n is Int,
        ExprV::Binary { op, l, r } => (op == BinaryOp::Add || op == BinaryOp::Sub || op
            == BinaryOp::Mul) && int_only(*l) && int_only(*r),
        _ => false,
    }
}

/// The exact mathematical value of such an expression.
pub open spec fn int_val(e: ExprV) -> int
    decreases e,
{
    match e {
        ExprV::Literal { n } => n->Int_i,
        ExprV::Binary { op, l, r } => if op == BinaryOp::Add {
            int_val(*l) + int_val(*r)
        } else if op == BinaryOp::Sub {
            int_val(*l) - int_val(*r)
        } else {
            int_val(*l) * int_val(*r)
        },
        _ => 0,
    }
}

/// The depth fuel an expression needs: each right operand descends one
/// step, the left spine is free. A left-associative chain of any length
/// therefore needs depth one.
pub open spec fn rdepth(e: ExprV) -> nat
    decreases e,
{
    match e {
        ExprV::Binary { l, r, .. } => {
            let a = rdepth(*l);
            let b = rdepth(*r) + 1;
            if a >= b {
                a
            } else {
                b
            }
        },
        _ => 0,
    }
}

/// Every expression of integer literals under `+ - *`, of any shape and
/// any magnitude, evaluates to the integer kind holding its exact
/// mathematical value, with the context untouched — nothing overflows,
/// rounds or fails. The fuel bound depends only on the nesting of right
/// operands, so left-associative chains of any length are covered at any
/// fuel above one.
pub proof fn lemma_integer_expression_exact(e: ExprV, c: CtxV, fuel: nat)
    requires
        int_only(e),
        fuel > rdepth(e),
    ensures
        crate::semantics::ev(fuel, e, c) == (Result::<NumV, ErrV>::Ok(
            NumV::Int { i: int_val(e) },
        ), c),
    decreases e,
{
    match e {
        ExprV::Binary { op, l, r } => {
            lemma_integer_expression_exact(*l, c, fuel);
            lemma_integer_expression_exact(*r, c, (fuel - 1) as nat);
            lemma_integer_arithmetic_exact(int_val(*l), int_val(*r));
        },
        _ => {},
    }
}

/// An exact operand meeting a float is promoted to the float kind: the
/// exact value is rounded once and the sum is an IEEE addition. Rationals
/// lose their exactness on contact with a float.
pub proof fn lemma_promotion_to_float(i: int, n: int, d: int, b: u64)
    ensures
        add_spec(NumV::Int { i }, NumV::Fl { b }) == (NumV::Fl {
            b: crate::floats::add_bits(f_of_int(i), b),
        }),
        add_spec(NumV::Rat { n, d }, NumV::Fl { b }) == (NumV::Fl {
            b: crate::floats::add_bits(crate::floats::f_of_rat(n, d), b),
        }),
{
}

/// The mathematical sum of a sequence of integer values.
pub open spec fn int_sum(s: Seq<NumV>) -> int
    decreases s.len(),
{
    if s.len() == 0 {
        0
    } else {
        int_sum(s.drop_last()) + (match s.last() {
            NumV::Int { i } => i,
            _ => 0,
        })
    }
}

/// A whole chain of integer additions stays exact: folding any sequence of
/// integers gives the integer kind holding the mathematical sum, at any
/// magnitude.
pub proof fn lemma_integer_sum_exact(s: Seq<NumV>)
    requires
        forall|k: int| 0 <= k < s.len() ==> (#[trigger] s[k]) is Int,
    ensures
        crate::registry::sum_spec(s) == (NumV::Int { i: int_sum(s) }),
    decreases s.len(),
{
    if s.len() > 0 {
        lemma_integer_sum_exact(s.drop_last());
    }
}

/// Assigning to a name bound in the innermost scope rewrites that scope
/// alone: the outer scopes keep their bindings, which is why a function
/// parameter shadows a global of the same name.
pub proof fn lemma_assignment_shadowed(ss: Seq<Seq<(Seq<u8>, NumV)>>, k: Seq<u8>, v: NumV)
    requires
        ss.len() >= 1,
        crate::context::assoc_num(ss.last(), k) is Some,
    ensures
        crate::context::set_var_spec(ss, k, v) == ss.drop_last().push(
            crate::context::frame_put(ss.last(), k, v),
        ),
        crate::context::set_var_spec(ss, k, v).drop_last() == ss.drop_last(),
{
    assert(ss.drop_last().push(crate::context::frame_put(ss.last(), k, v)).drop_last()
        =~= ss.drop_last());
}

/// Assigning to a name bound nowhere defines it in the innermost scope
/// alone; once that scope is dropped, the whole stack is as before. This
/// is why a fresh name assigned inside a function is gone after the call.
pub proof fn lemma_assignment_fresh(ss: Seq<Seq<(Seq<u8>, NumV)>>, k: Seq<u8>, v: NumV)
    requires
        ss.len() >= 1,
        crate::context::lookup_var(ss, k) is None,
    ensures
        crate::context::set_var_spec(ss, k, v) == crate::context::define_var_spec(ss, k, v),
        crate::context::set_var_spec(ss, k, v).drop_last() == ss.drop_last(),
{
    assert(crate::context::define_var_spec(ss, k, v).drop_last() =~= ss.drop_last());
}

/// A binding forced into a freshly pushed scope vanishes with it: pushing
/// a scope, binding there, and popping leaves the stack exactly as it was.
pub proof fn lemma_scope_discipline(ss: Seq<Seq<(Seq<u8>, NumV)>>, k: Seq<u8>, v: NumV)
    ensures
        crate::context::define_var_spec(
            ss.push(Seq::<(Seq<u8>, NumV)>::empty()),
            k,
            v,
        ).drop_last() == ss,
{
    assert(crate::context::define_var_spec(ss.push(Seq::<(Seq<u8>, NumV)>::empty()), k, v)
        .drop_last() =~= ss);
}

/// Euclid's algorithm divides both arguments.
pub proof fn lemma_gcd_divides(a: int, b: int)
    requires
        a >= 0,
        b >= 0,
        a > 0 || b > 0,
    ensures
        gcd(a, b) > 0,
        a % gcd(a, b) == 0,
        b % gcd(a, b) == 0,
    decreases b,
{
    lemma_gcd_props(a, b);
    if b == 0 {
        lemma_mod_multiples_basic(1, a);
        lemma_mod_multiples_basic(0, a);
        assert(1 * a == a) by (nonlinear_arith);
        assert(0 * a == 0) by (nonlinear_arith);
    } else {
        let g = gcd(b, a % b);
        lemma_mod_bound(a, b);
        lemma_gcd_divides(b, a % b);
        lemma_fundamental_div_mod(a, b);
        lemma_fundamental_div_mod(b, g);
        assert(b * (a / b) == ((b / g) * (a / b)) * g) by (nonlinear_arith)
            requires
                b == g * (b / g),
        ;
        lemma_mod_multiples_basic((b / g) * (a / b), g);
        lemma_add_mod_noop(b * (a / b), a % b, g);
        lemma_small_mod(0, g as nat);
    }
}

/// Canonicalization preserves the fraction's value: the reduced pair
/// stands for exactly `n / d`.
pub proof fn lemma_norm_q_value(n: int, d: int)
    requires
        d != 0,
    ensures
        norm_q(n, d).1 > 0,
        norm_q(n, d).0 * d == n * norm_q(n, d).1,
{
    crate::rational::lemma_norm_den_pos(n, d);
    let n1 = if d < 0 {
        -n
    } else {
        n
    };
    let d1 = abs_int(d);
    if n1 == 0 {
        assert(n == 0);
        assert(norm_q(n, d) == (0int, 1int));
        assert(norm_q(n, d).0 * d == n * norm_q(n, d).1) by (nonlinear_arith)
            requires
                n == 0,
                norm_q(n, d) == (0int, 1int),
        ;
    } else {
        let g = gcd(abs_int(n1), d1);
        lemma_gcd_divides(abs_int(n1), d1);
        lemma_fundamental_div_mod(abs_int(n1), g);
        lemma_fundamental_div_mod(d1, g);
        // exact division carries over to the signed numerator
        if n1 < 0 {
            assert(n1 == g * (-(abs_int(n1) / g)) + 0) by (nonlinear_arith)
                requires
                    n1 < 0,
                    abs_int(n1) == g * (abs_int(n1) / g),
                    abs_int(n1) == -n1,
            ;
            vstd::arithmetic::div_mod::lemma_fundamental_div_mod_converse(
                n1,
                g,
                -(abs_int(n1) / g),
                0,
            );
        }
        assert(norm_q(n, d) == (n1 / g, d1 / g));
        assert((n1 / g) * d == n * (d1 / g)) by (nonlinear_arith)
            requires
                g > 0,
                abs_int(n1) == g * (abs_int(n1) / g),
                d1 == g * (d1 / g),
                n1 / g == (if n1 >= 0 {
                    abs_int(n1) / g
                } else {
                    -(abs_int(n1) / g)
                }),
                n1 == (if d < 0 {
                    -n
                } else {
                    n
                }),
                d1 == abs_int(d),
                d != 0,
        ;
        assert(norm_q(n, d).0 * d == n * norm_q(n, d).1);
    }
}

/// Integer division with a non-zero divisor is exact: it yields the
/// rational kind, never a float, and the reduced fraction stands for
/// exactly `a / b`.
pub proof fn lemma_int_division_exact(a: int, b: int)
    requires
        b != 0,
    ensures
        div_spec(NumV::Int { i: a }, NumV::Int { i: b }) is Rat,
        ({
            let q = div_spec(NumV::Int { i: a }, NumV::Int { i: b });
            q->Rat_d > 0 && q->Rat_n * b == a * q->Rat_d
        }),
{
    lemma_norm_q_value(a, b);
}

/// Dividing by a non-zero integer and multiplying back returns exactly
/// the value one started with: `(a / b) * b` is the rational `a`, with
/// nothing rounded away.
pub proof fn lemma_division_round_trip(a: int, b: int)
    requires
        b != 0,
    ensures
        ({
            let back = mul_spec(div_spec(NumV::Int { i: a }, NumV::Int { i: b }), NumV::Int { i: b });
            back is Rat && back->Rat_d > 0 && back->Rat_n == a * back->Rat_d
        }),
{
    lemma_int_division_exact(a, b);
    let q = div_spec(NumV::Int { i: a }, NumV::Int { i: b });
    let n0 = q->Rat_n;
    let d0 = q->Rat_d;
    let back = mul_spec(q, NumV::Int { i: b });
    assert(back == crate::number::rat_v(norm_q(n0 * b, d0 * 1)));
    lemma_norm_q_value(n0 * b, d0 * 1);
    let nm = back->Rat_n;
    let dm = back->Rat_d;
    assert(nm * (d0 * 1) == (n0 * b) * dm);
    assert(nm == a * dm) by (nonlinear_arith)
        requires
            nm * (d0 * 1) == (n0 * b) * dm,
            n0 * b == a * d0,
            d0 > 0,
    ;
}

/// Division by zero raises no error on the exact kinds: an integer or
/// rational divided by a zero divisor comes back as the float of IEEE
/// division by positive zero, and the remainder follows the same policy.
pub proof fn lemma_zero_divisor_gives_float(a: NumV, b: NumV)
    requires
        v_wf(a),
        v_wf(b),
        a is Int || a is Rat,
        (b matches NumV::Int { i } && i == 0) || (b matches NumV::Rat { n, .. } && n == 0),
    ensures
        div_spec(a, b) is Fl,
        rem_spec(a, b) is Fl,
        a matches NumV::Int { i } ==> (b is Int ==> div_spec(a, b) == (NumV::Fl {
            b: div_bits(f_of_int(i), 0),
        })),
{
}

/// The power operator is right-associative: `a ^ b ^ c` parses as
/// `a ^ (b ^ c)`, not `(a ^ b) ^ c`.
pub proof fn lemma_pow_right_associative(a: int, b: int, c: int)
    ensures
        parse_toks(
            seq![
                TokV::Integer { i: a },
                TokV::Power,
                TokV::Integer { i: b },
                TokV::Power,
                TokV::Integer { i: c },
            ],
        ) == Ok::<ExprV, Seq<char>>(
            ExprV::Binary {
                op: BinaryOp::Pow,
                l: Box::new(ExprV::Literal { n: NumV::Int { i: a } }),
                r: Box::new(
                    ExprV::Binary {
                        op: BinaryOp::Pow,
                        l: Box::new(ExprV::Literal { n: NumV::Int { i: b } }),
                        r: Box::new(ExprV::Literal { n: NumV::Int { i: c } }),
                    },
                ),
            },
        ),
{
    let t = seq![
        TokV::Integer { i: a },
        TokV::Power,
        TokV::Integer { i: b },
        TokV::Power,
        TokV::Integer { i: c },
    ];
    let ea = ExprV::Literal { n: NumV::Int { i: a } };
    let eb = ExprV::Literal { n: NumV::Int { i: b } };
    let ec = ExprV::Literal { n: NumV::Int { i: c } };
    let ebc = ExprV::Binary { op: BinaryOp::Pow, l: Box::new(eb), r: Box::new(ec) };
    // the innermost exponent
    assert(sp_prefix(t, 4) == Ok::<(ExprV, int), Seq<char>>((ec, 5)));
    assert(sp_loop(t, ec, 5, 5int) == Ok::<(ExprV, int), Seq<char>>((ec, 5)));
    assert(sp_bp(t, 4, 5int) == Ok::<(ExprV, int), Seq<char>>((ec, 5)));
    // the middle base binds its exponent first: b ^ c
    assert(sp_prefix(t, 2) == Ok::<(ExprV, int), Seq<char>>((eb, 3)));
    assert(sp_loop(t, ebc, 5, 5int) == Ok::<(ExprV, int), Seq<char>>((ebc, 5)));
    assert(sp_loop(t, eb, 3, 5int) == Ok::<(ExprV, int), Seq<char>>((ebc, 5)));
    assert(sp_bp(t, 2, 5int) == Ok::<(ExprV, int), Seq<char>>((ebc, 5)));
    // the outer base takes the whole right-hand tower
    assert(sp_prefix(t, 0) == Ok::<(ExprV, int), Seq<char>>((ea, 1)));
    let eabc = ExprV::Binary { op: BinaryOp::Pow, l: Box::new(ea), r: Box::new(ebc) };
    assert(sp_loop(t, eabc, 5, 0int) == Ok::<(ExprV, int), Seq<char>>((eabc, 5)));
    assert(sp_loop(t, ea, 1, 0int) == Ok::<(ExprV, int), Seq<char>>((eabc, 5)));
    assert(sp_bp(t, 0, 0int) == Ok::<(ExprV, int), Seq<char>>((eabc, 5)));
}

} // verus!

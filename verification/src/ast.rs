//! The abstract syntax tree and the evaluation context.

use vstd::prelude::*;
use crate::number::{NumV, Number};

verus! {

/// A binary operator of the expression language.
#[derive(Debug, Clone, Copy, PartialEq, Eq, Structural)]
pub enum BinaryOp {
    Add,
    Sub,
    Mul,
    Div,
    Mod,
    Pow,
}

/// A unary operator of the expression language.
#[derive(Debug, Clone, Copy, PartialEq, Eq, Structural)]
pub enum UnaryOp {
    Neg,
    Factorial,
}

/// A parsed expression. Names are ASCII words, kept as their bytes.
#[derive(Debug)]
pub enum Expr {
    Literal(Number),
    Variable(Vec<u8>),
    BinaryOp(BinaryOp, Box<Expr>, Box<Expr>),
    UnaryOp(UnaryOp, Box<Expr>),
    FunctionCall(Vec<u8>, Vec<Expr>),
    Assignment(Vec<u8>, Box<Expr>),
    FunctionDef(Vec<u8>, Vec<Vec<u8>>, Box<Expr>),
}

/// The view of an expression.
pub enum ExprV {
    Literal { n: NumV },
    Variable { name: Seq<u8> },
    Binary { op: BinaryOp, l: Box<ExprV>, r: Box<ExprV> },
    Unary { op: UnaryOp, e: Box<ExprV> },
    Call { name: Seq<u8>, args: Seq<ExprV> },
    Assign { name: Seq<u8>, e: Box<ExprV> },
    Def { name: Seq<u8>, params: Seq<Seq<u8>>, body: Box<ExprV> },
}

/// The view of an expression, structurally.
pub open spec fn expr_v(e: Expr) -> ExprV
    decreases e,
    via expr_v_dec
{
    match e {
        Expr::Literal(n) => ExprV::Literal { n: n@ },
        Expr::Variable(name) => ExprV::Variable { name: name@ },
        Expr::BinaryOp(op, l, r) => ExprV::Binary {
            op,
            l: Box::new(expr_v(*l)),
            r: Box::new(expr_v(*r)),
        },
        Expr::UnaryOp(op, inner) => ExprV::Unary { op, e: Box::new(expr_v(*inner)) },
        Expr::FunctionCall(name, args) => ExprV::Call { name: name@, args: exprs_v(args@) },
        Expr::Assignment(name, inner) => ExprV::Assign { name: name@, e: Box::new(expr_v(*inner)) },
        Expr::FunctionDef(name, params, body) => ExprV::Def {
            name: name@,
            params: params@.map_values(|p: Vec<u8>| p@),
            body: Box::new(expr_v(*body)),
        },
    }
}

#[via_fn]
proof fn expr_v_dec(e: Expr) {
    match e {
        Expr::FunctionCall(name, args) => {
            assert(decreases_to!(e => args));
            assert(decreases_to!(args => args@));
        },
        _ => {},
    }
}

/// The views of a sequence of expressions.
pub open spec fn exprs_v(es: Seq<Expr>) -> Seq<ExprV>
    decreases es,
    via exprs_v_dec
{
    if es.len() == 0 {
        Seq::empty()
    } else {
        seq![expr_v(es[0])] + exprs_v(es.subrange(1, es.len() as int))
    }
}

#[via_fn]
proof fn exprs_v_dec(es: Seq<Expr>) {
    if es.len() > 0 {
        assert(decreases_to!(es => es[0]));
        assert(decreases_to!(es => es.subrange(1, es.len() as int)));
    }
}

/// Element by element, `exprs_v` is the view of each expression.
pub proof fn lemma_exprs_v(es: Seq<Expr>)
    ensures
        exprs_v(es).len() == es.len(),
        forall|k: int| 0 <= k < es.len() ==> exprs_v(es)[k] == expr_v(#[trigger] es[k]),
    decreases es.len(),
{
    if es.len() > 0 {
        let tail = es.subrange(1, es.len() as int);
        lemma_exprs_v(tail);
        assert forall|k: int| 0 <= k < es.len() implies exprs_v(es)[k] == expr_v(
            #[trigger] es[k],
        ) by {
            if k > 0 {
                assert(exprs_v(es)[k] == exprs_v(tail)[k - 1]);
                assert(tail[k - 1] == es[k]);
            }
        }
    }
}

impl View for Expr {
    type V = ExprV;

    open spec fn view(&self) -> ExprV {
        expr_v(*self)
    }
}

/// Whether every byte of a name is ASCII, as the identifiers the tokenizer
/// produces are.
pub open spec fn name_ascii(n: Seq<u8>) -> bool {
    forall|k: int| 0 <= k < n.len() ==> n[k] < 128
}

/// Well-formedness of an expression: its literals are well-formed numbers
/// and its names are ASCII words.
pub open spec fn expr_wf(e: Expr) -> bool
    decreases e,
    via expr_wf_dec
{
    match e {
        Expr::Literal(n) => n.wf(),
        Expr::Variable(name) => name_ascii(name@),
        Expr::BinaryOp(op, l, r) => expr_wf(*l) && expr_wf(*r),
        Expr::UnaryOp(op, inner) => expr_wf(*inner),
        Expr::FunctionCall(name, args) => name_ascii(name@) && exprs_wf(args@),
        Expr::Assignment(name, inner) => name_ascii(name@) && expr_wf(*inner),
        Expr::FunctionDef(name, params, body) => name_ascii(name@) && (forall|k: int|
            0 <= k < params@.len() ==> name_ascii(#[trigger] params@[k]@)) && expr_wf(*body),
    }
}

#[via_fn]
proof fn expr_wf_dec(e: Expr) {
    match e {
        Expr::FunctionCall(name, args) => {
            assert(decreases_to!(e => args));
            assert(decreases_to!(args => args@));
        },
        _ => {},
    }
}

/// Well-formedness of a sequence of expressions.
pub open spec fn exprs_wf(es: Seq<Expr>) -> bool
    decreases es,
    via exprs_wf_dec
{
    if es.len() == 0 {
        true
    } else {
        expr_wf(es[0]) && exprs_wf(es.subrange(1, es.len() as int))
    }
}

#[via_fn]
proof fn exprs_wf_dec(es: Seq<Expr>) {
    if es.len() > 0 {
        assert(decreases_to!(es => es[0]));
        assert(decreases_to!(es => es.subrange(1, es.len() as int)));
    }
}

/// Element by element, a sequence of expressions is well-formed exactly
/// when each is.
pub proof fn lemma_exprs_wf(es: Seq<Expr>)
    ensures
        exprs_wf(es) <==> (forall|k: int| 0 <= k < es.len() ==> expr_wf(#[trigger] es[k])),
    decreases es.len(),
{
    if es.len() > 0 {
        let tail = es.subrange(1, es.len() as int);
        lemma_exprs_wf(tail);
        if exprs_wf(es) {
            assert forall|k: int| 0 <= k < es.len() implies expr_wf(#[trigger] es[k]) by {
                if k > 0 {
                    assert(tail[k - 1] == es[k]);
                }
            }
        } else {
            if expr_wf(es[0]) {
                let j = choose|j: int| 0 <= j < tail.len() && !expr_wf(tail[j]);
                assert(es[j + 1] == tail[j]);
            }
        }
    }
}

/// A user-defined function: its parameter names and its body.
#[derive(Debug)]
pub struct UserFunction {
    pub params: Vec<Vec<u8>>,
    pub body: Expr,
}

/// The view of a user-defined function.
pub struct UfV {
    pub params: Seq<Seq<u8>>,
    pub body: ExprV,
}

impl View for UserFunction {
    type V = UfV;

    open spec fn view(&self) -> UfV {
        UfV { params: self.params@.map_values(|p: Vec<u8>| p@), body: self.body@ }
    }
}

impl UserFunction {
    pub open spec fn wf(&self) -> bool {
        expr_wf(self.body) && (forall|k: int|
            0 <= k < self.params@.len() ==> name_ascii(#[trigger] self.params@[k]@))
    }

    /// An owned copy with the same view.
    pub fn dup(&self) -> (r: UserFunction)
        ensures
            r@ == self@,
            self.wf() ==> r.wf(),
    {
        let r = UserFunction { params: names_dup(&self.params), body: expr_dup(&self.body) };
        proof {
            if self.wf() {
                assert forall|k: int| 0 <= k < r.params@.len() implies name_ascii(
                    #[trigger] r.params@[k]@,
                ) by {
                    assert(r.params@[k]@ == self.params@[k]@);
                }
            }
        }
        r
    }
}

/// An owned copy of a byte word.
pub fn bytes_dup(v: &Vec<u8>) -> (r: Vec<u8>)
    ensures
        r@ == v@,
{
    let r = v.clone();
    proof {
        assert(r@ =~= v@);
    }
    r
}

/// An owned copy of a parameter list.
pub fn names_dup(v: &Vec<Vec<u8>>) -> (r: Vec<Vec<u8>>)
    ensures
        r@.map_values(|p: Vec<u8>| p@) == v@.map_values(|p: Vec<u8>| p@),
        r@.len() == v@.len(),
        forall|k: int| 0 <= k < v@.len() ==> #[trigger] r@[k]@ == v@[k]@,
{
    let mut r: Vec<Vec<u8>> = Vec::new();
    let mut i: usize = 0;
    while i < v.len()
        invariant
            i <= v@.len(),
            r@.len() == i,
            forall|k: int| 0 <= k < i ==> #[trigger] r@[k]@ == v@[k]@,
        decreases v@.len() - i,
    {
        r.push(bytes_dup(&v[i]));
        i = i + 1;
    }
    proof {
        assert(r@.map_values(|p: Vec<u8>| p@) =~= v@.map_values(|p: Vec<u8>| p@));
    }
    r
}

/// An owned copy of an expression with the same view; a well-formed
/// expression stays well-formed.
pub fn expr_dup(e: &Expr) -> (r: Expr)
    ensures
        r@ == e@,
        expr_wf(*e) ==> expr_wf(r),
    decreases e,
{
    match e {
        Expr::Literal(n) => Expr::Literal(n.dup()),
        Expr::Variable(name) => Expr::Variable(bytes_dup(name)),
        Expr::BinaryOp(op, l, r) => Expr::BinaryOp(*op, Box::new(expr_dup(l)), Box::new(expr_dup(r))),
        Expr::UnaryOp(op, inner) => Expr::UnaryOp(*op, Box::new(expr_dup(inner))),
        Expr::FunctionCall(name, args) => {
            let mut out: Vec<Expr> = Vec::new();
            let mut i: usize = 0;
            while i < args.len()
                invariant
                    i <= args@.len(),
                    out@.len() == i,
                    *e is FunctionCall,
                    (*e)->FunctionCall_1 == *args,
                    forall|k: int| 0 <= k < i ==> #[trigger] out@[k]@ == args@[k]@,
                    forall|k: int|
                        0 <= k < i ==> (expr_wf(args@[k]) ==> expr_wf(#[trigger] out@[k])),
                decreases args@.len() - i,
            {
                proof {
                    let ev: Expr = *e;
                    assert(decreases_to!(ev => ev->FunctionCall_1));
                    assert(decreases_to!(*args => args@));
                    assert(decreases_to!(args@ => args@[i as int]));
                }
                out.push(expr_dup(&args[i]));
                i = i + 1;
            }
            proof {
                lemma_exprs_v(out@);
                lemma_exprs_v(args@);
                assert forall|k: int| 0 <= k < args@.len() implies exprs_v(out@)[k] == exprs_v(
                    args@,
                )[k] by {
                    assert(exprs_v(out@)[k] == expr_v(out@[k]));
                    assert(exprs_v(args@)[k] == expr_v(args@[k]));
                    assert(out@[k]@ == args@[k]@);
                }
                assert(exprs_v(out@) =~= exprs_v(args@));
                if expr_wf(*e) {
                    lemma_exprs_wf(args@);
                    lemma_exprs_wf(out@);
                }
            }
            Expr::FunctionCall(bytes_dup(name), out)
        },
        Expr::Assignment(name, inner) => Expr::Assignment(bytes_dup(name), Box::new(expr_dup(inner))),
        Expr::FunctionDef(name, params, body) => {
            let ps = names_dup(params);
            proof {
                if expr_wf(*e) {
                    assert forall|k: int| 0 <= k < ps@.len() implies name_ascii(
                        #[trigger] ps@[k]@,
                    ) by {
                        assert(ps@[k]@ == params@[k]@);
                    }
                }
            }
            Expr::FunctionDef(bytes_dup(name), ps, Box::new(expr_dup(body)))
        },
    }
}

} // verus!

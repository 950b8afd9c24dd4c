//! The Pratt parser: tokens to syntax trees by binding power.
//!
//! `parse_toks` is the reference meaning: a precedence-climbing reading of
//! the token sequence with one token of lookahead. The executable parser
//! below returns exactly what it says. Positions in the reference are
//! clamped to move strictly forward, which changes nothing on the
//! positions the parser actually produces.

use vstd::prelude::*;
use crate::ast::{BinaryOp, Expr, ExprV, UnaryOp, expr_wf, exprs_wf, name_ascii};
use crate::errors::{EngineError, ErrV};
use crate::number::{NumV, Number};
use crate::tokens::{TokV, Token, lex_from};

verus! {

/// The token standing at a position; past the end stands the end-of-input
/// marker.
pub open spec fn tok_at(t: Seq<TokV>, i: int) -> TokV {
    if 0 <= i < t.len() {
        t[i]
    } else {
        TokV::Eof
    }
}

/// The binding powers of the infix operators; `^` binds tighter to the
/// left than to the right, which makes it right-associative.
pub open spec fn infix_bp(tk: TokV) -> Option<(int, int)> {
    match tk {
        TokV::Plus => Some((1int, 2int)),
        TokV::Minus => Some((1int, 2int)),
        TokV::Multiply => Some((3int, 4int)),
        TokV::Divide => Some((3int, 4int)),
        TokV::Percent => Some((3int, 4int)),
        TokV::Power => Some((6int, 5int)),
        _ => None,
    }
}

/// The operator an infix token stands for.
pub open spec fn op_of(tk: TokV) -> BinaryOp {
    match tk {
        TokV::Plus => BinaryOp::Add,
        TokV::Minus => BinaryOp::Sub,
        TokV::Multiply => BinaryOp::Mul,
        TokV::Divide => BinaryOp::Div,
        TokV::Percent => BinaryOp::Mod,
        _ => BinaryOp::Pow,
    }
}

/// A position clamped to land strictly after `i` and at most at the end.
pub open spec fn nxt(k: int, i: int, len: int) -> int {
    let a = if k <= i {
        i + 1
    } else {
        k
    };
    if a > len {
        len
    } else {
        a
    }
}

/// The parameter names of a definition's argument list, where every
/// argument is a bare variable.
pub open spec fn params_of(args: Seq<ExprV>) -> Option<Seq<Seq<u8>>>
    decreases args.len(),
{
    if args.len() == 0 {
        Some(Seq::empty())
    } else {
        match params_of(args.drop_last()) {
            Some(ps) => match args.last() {
                ExprV::Variable { name } => Some(ps.push(name)),
                _ => None,
            },
            None => None,
        }
    }
}

/// One non-variable argument spoils the whole parameter list.
pub proof fn lemma_params_of_none(args: Seq<ExprV>, q: int)
    requires
        0 <= q < args.len(),
        !(args[q] is Variable),
    ensures
        params_of(args) is None,
    decreases args.len(),
{
    if q < args.len() - 1 {
        lemma_params_of_none(args.drop_last(), q);
    }
}

/// A prefix term: a literal, an identifier form, a parenthesized
/// subexpression, or a negation.
pub open spec fn sp_prefix(t: Seq<TokV>, i: int) -> Result<(ExprV, int), Seq<char>>
    decreases (if i > t.len() { 0int } else { t.len() - i }), 0int,
{
    match tok_at(t, i) {
        TokV::Float { b } => Ok((ExprV::Literal { n: NumV::Fl { b } }, i + 1)),
        TokV::Integer { i: v } => Ok((ExprV::Literal { n: NumV::Int { i: v } }, i + 1)),
        TokV::Identifier { name } => sp_ident(t, name, i + 1),
        TokV::LParen => match sp_bp(t, i + 1, 0) {
            Ok((v, j)) => if tok_at(t, j) is RParen {
                Ok((v, j + 1))
            } else {
                Err("Expected ')'"@)
            },
            Err(m) => Err(m),
        },
        TokV::Minus => match sp_bp(t, i + 1, 9) {
            Ok((v, j)) => Ok((ExprV::Unary { op: UnaryOp::Neg, e: Box::new(v) }, j)),
            Err(m) => Err(m),
        },
        TokV::Eof => Err("Unexpected EOF"@),
        _ => Err("Unexpected token"@),
    }
}

/// An identifier form: a call or definition where `(` follows, an
/// assignment where `=` follows, and a variable otherwise.
pub open spec fn sp_ident(t: Seq<TokV>, name: Seq<u8>, j: int) -> Result<(ExprV, int), Seq<char>>
    decreases (if j > t.len() { 0int } else { t.len() - j }), 3int,
{
    match tok_at(t, j) {
        TokV::LParen => match sp_args(t, j + 1) {
            Ok((args, k0)) => {
                let k = nxt(k0, j + 1, t.len() as int);
                if tok_at(t, k) is Equals {
                    match sp_bp(t, k + 1, 0) {
                        Ok((body, m)) => match params_of(args) {
                            Some(ps) => Ok(
                                (ExprV::Def { name, params: ps, body: Box::new(body) }, m),
                            ),
                            None => Err("Function parameters must be identifiers"@),
                        },
                        Err(e) => Err(e),
                    }
                } else {
                    Ok((ExprV::Call { name, args }, k))
                }
            },
            Err(e) => Err(e),
        },
        TokV::Equals => match sp_bp(t, j + 1, 0) {
            Ok((v, m)) => Ok((ExprV::Assign { name, e: Box::new(v) }, m)),
            Err(e) => Err(e),
        },
        _ => Ok((ExprV::Variable { name }, j)),
    }
}

/// An argument list after its opening parenthesis: empty, or expressions
/// separated by commas up to the closing parenthesis.
pub open spec fn sp_args(t: Seq<TokV>, j: int) -> Result<(Seq<ExprV>, int), Seq<char>>
    decreases (if j > t.len() { 0int } else { t.len() - j }), 3int,
{
    if tok_at(t, j) is RParen {
        Ok((Seq::empty(), j + 1))
    } else {
        sp_args_more(t, j, Seq::empty())
    }
}

/// The remaining arguments, the ones already read in hand.
pub open spec fn sp_args_more(t: Seq<TokV>, j: int, acc: Seq<ExprV>) -> Result<
    (Seq<ExprV>, int),
    Seq<char>,
>
    decreases (if j > t.len() { 0int } else { t.len() - j }), 2int,
{
    match sp_bp(t, j, 0) {
        Ok((a, k0)) => {
            let k = nxt(k0, j, t.len() as int);
            if tok_at(t, k) is Comma {
                sp_args_more(t, k + 1, acc.push(a))
            } else if tok_at(t, k) is RParen {
                Ok((acc.push(a), k + 1))
            } else {
                Err("Expected ',' or ')' in argument list"@)
            }
        },
        Err(m) => Err(m),
    }
}

/// A full expression with a minimum binding power: a prefix term, then the
/// infix and postfix loop.
pub open spec fn sp_bp(t: Seq<TokV>, i: int, min_bp: int) -> Result<(ExprV, int), Seq<char>>
    decreases (if i > t.len() { 0int } else { t.len() - i }), 1int,
{
    if tok_at(t, i) is Eof {
        Err("Unexpected EOF"@)
    } else {
        match sp_prefix(t, i) {
            Ok((lhs, j)) => sp_loop(t, lhs, nxt(j, i, t.len() as int), min_bp),
            Err(m) => Err(m),
        }
    }
}

/// The infix and postfix loop: while the coming operator binds at least as
/// strongly as the caller demands, extend the left-hand side; a value
/// directly followed by `(` or an identifier multiplies implicitly.
pub open spec fn sp_loop(t: Seq<TokV>, lhs: ExprV, j: int, min_bp: int) -> Result<
    (ExprV, int),
    Seq<char>,
>
    decreases (if j > t.len() { 0int } else { t.len() - j }), 2int,
{
    let tk = tok_at(t, j);
    if tk is Eof {
        Ok((lhs, j))
    } else if tk is Factorial {
        if 11 < min_bp {
            Ok((lhs, j))
        } else {
            sp_loop(
                t,
                ExprV::Unary { op: UnaryOp::Factorial, e: Box::new(lhs) },
                j + 1,
                min_bp,
            )
        }
    } else {
        match infix_bp(tk) {
            Some((lb, rb)) => if lb < min_bp {
                Ok((lhs, j))
            } else {
                match sp_bp(t, j + 1, rb) {
                    Ok((rhs, k)) => sp_loop(
                        t,
                        ExprV::Binary { op: op_of(tk), l: Box::new(lhs), r: Box::new(rhs) },
                        nxt(k, j, t.len() as int),
                        min_bp,
                    ),
                    Err(m) => Err(m),
                }
            },
            None => if (tk is LParen || tk is Identifier) {
                if 3 < min_bp {
                    Ok((lhs, j))
                } else {
                    match sp_bp(t, j, 4) {
                        Ok((rhs, k)) => sp_loop(
                            t,
                            ExprV::Binary {
                                op: BinaryOp::Mul,
                                l: Box::new(lhs),
                                r: Box::new(rhs),
                            },
                            nxt(k, j, t.len() as int),
                            min_bp,
                        ),
                        Err(m) => Err(m),
                    }
                }
            } else {
                Ok((lhs, j))
            },
        }
    }
}

/// The meaning of a token sequence: a complete parse that consumes every
/// token.
pub open spec fn parse_toks(t: Seq<TokV>) -> Result<ExprV, Seq<char>> {
    match sp_bp(t, 0, 0) {
        Ok((e, j)) => if tok_at(t, j) is Eof {
            Ok(e)
        } else {
            Err("Unexpected token at end"@)
        },
        Err(m) => Err(m),
    }
}

/// The meaning of an expression's bytes: tokenize, then parse.
pub open spec fn parse_spec(bytes: Seq<u8>) -> Result<ExprV, Seq<char>> {
    parse_toks(lex_from(bytes, 0))
}

/// The tokens a parser works on: well-formed, with no end marker inside.
pub open spec fn toks_wf(ts: Seq<Token>) -> bool {
    forall|k: int|
        0 <= k < ts.len() ==> ((#[trigger] ts[k]).wf() && !(ts[k]@ is Eof))
}

/// Whether the executable outcome is the one the reference gives, with the
/// returned position strictly after `lo` and in range.
pub open spec fn pres(
    r: Result<(Expr, usize), EngineError>,
    s: Result<(ExprV, int), Seq<char>>,
    lo: int,
    len: int,
) -> bool {
    match (r, s) {
        (Ok(p), Ok(q)) => p.0@ == q.0 && p.1 as int == q.1 && lo < p.1 <= len && expr_wf(p.0),
        (Err(er), Err(m)) => er@ == (ErrV::ParserError { msg: m }),
        _ => false,
    }
}

/// The tokenizer never yields the end marker; the parser reads it off the
/// end of the sequence instead.
pub proof fn lemma_lex_no_eof(s: Seq<u8>, i: int)
    ensures
        forall|k: int|
            0 <= k < lex_from(s, i).len() ==> !((#[trigger] lex_from(s, i)[k]) is Eof),
    decreases s.len() - i,
{
    if i < 0 || i >= s.len() {
    } else if crate::tokens::is_ws(s[i]) {
        lemma_lex_no_eof(s, i + 1);
    } else {
        crate::tokens::lemma_token_at(s, i);
        lemma_lex_no_eof(s, crate::tokens::tok_adv(s, i));
        assert(!(crate::tokens::token_at(s, i).0 is Eof));
    }
}

fn infix_bp_x(tk: &Token) -> (r: Option<(u8, u8)>)
    ensures
        match (r, infix_bp(tk@)) {
            (Some(p), Some(q)) => p.0 as int == q.0 && p.1 as int == q.1,
            (None, None) => true,
            _ => false,
        },
{
    match tk {
        Token::Plus => Some((1, 2)),
        Token::Minus => Some((1, 2)),
        Token::Multiply => Some((3, 4)),
        Token::Divide => Some((3, 4)),
        Token::Percent => Some((3, 4)),
        Token::Power => Some((6, 5)),
        _ => None,
    }
}

fn op_of_x(tk: &Token) -> (r: BinaryOp)
    ensures
        r == op_of(tk@),
{
    match tk {
        Token::Plus => BinaryOp::Add,
        Token::Minus => BinaryOp::Sub,
        Token::Multiply => BinaryOp::Mul,
        Token::Divide => BinaryOp::Div,
        Token::Percent => BinaryOp::Mod,
        _ => BinaryOp::Pow,
    }
}

/// A prefix term of the expression.
fn pe_prefix(toks: &Vec<Token>, i: usize) -> (r: Result<(Expr, usize), EngineError>)
    requires
        toks_wf(toks@),
        i < toks@.len(),
    ensures
        pres(r, sp_prefix(crate::tokens::toks_v(toks@), i as int), i as int, toks@.len() as int),
    decreases toks@.len() - i, 0int,
{
    let ghost tv = crate::tokens::toks_v(toks@);
    let nlen = toks.len();
    proof {
        assert(tv[i as int] == toks@[i as int]@);
    }
    match &toks[i] {
        Token::Float(c) => Ok((Expr::Literal(Number::Float(crate::floats::c_dup(c))), i + 1)),
        Token::Integer(b) => Ok((Expr::Literal(Number::Integer(crate::bigint::int_clone(b))), i + 1)),
        Token::Identifier(nm) => pe_ident(toks, bytes_dup_ident(nm), i + 1),
        Token::LParen => match pe_bp(toks, i + 1, 0) {
            Ok((v, j)) => {
                proof {
                    assert(tok_at(tv, j as int) == (if j < toks@.len() {
                        toks@[j as int]@
                    } else {
                        TokV::Eof
                    }));
                }
                if j < toks.len() && matches!(&toks[j], Token::RParen) {
                    Ok((v, j + 1))
                } else {
                    Err(EngineError::ParserError(crate::errors::msg("Expected ')'")))
                }
            },
            Err(er) => Err(er),
        },
        Token::Minus => match pe_bp(toks, i + 1, 9) {
            Ok((v, j)) => Ok((Expr::UnaryOp(UnaryOp::Neg, Box::new(v)), j)),
            Err(er) => Err(er),
        },
        _ => Err(EngineError::ParserError(crate::errors::msg("Unexpected token"))),
    }
}

/// An identifier's word, copied with its well-formedness.
fn bytes_dup_ident(v: &Vec<u8>) -> (r: Vec<u8>)
    ensures
        r@ == v@,
{
    crate::ast::bytes_dup(v)
}

/// An identifier form: call, definition, assignment, or variable.
fn pe_ident(toks: &Vec<Token>, name: Vec<u8>, j: usize) -> (r: Result<(Expr, usize), EngineError>)
    requires
        toks_wf(toks@),
        j <= toks@.len(),
        name_ascii(name@),
    ensures
        pres(
            r,
            sp_ident(crate::tokens::toks_v(toks@), name@, j as int),
            j as int - 1,
            toks@.len() as int,
        ),
    decreases toks@.len() - j, 3int,
{
    let ghost tv = crate::tokens::toks_v(toks@);
    proof {
        assert(tok_at(tv, j as int) == (if j < toks@.len() {
            toks@[j as int]@
        } else {
            TokV::Eof
        }));
    }
    if j < toks.len() && matches!(&toks[j], Token::LParen) {
        match pe_args(toks, j + 1) {
            Ok((args, k)) => {
                proof {
                    assert(nxt(k as int, j + 1 as int, tv.len() as int) == k as int);
                    assert(tok_at(tv, k as int) == (if k < toks@.len() {
                        toks@[k as int]@
                    } else {
                        TokV::Eof
                    }));
                }
                if k < toks.len() && matches!(&toks[k], Token::Equals) {
                    match pe_bp(toks, k + 1, 0) {
                        Ok((body, m)) => {
                            let ghost argsv = crate::ast::exprs_v(args@);
                            let mut params: Vec<Vec<u8>> = Vec::new();
                            let mut q: usize = 0;
                            proof {
                                crate::ast::lemma_exprs_v(args@);
                                assert(argsv.subrange(0, 0) =~= Seq::<ExprV>::empty());
                                assert(params_of(argsv.subrange(0, 0)) == Some(
                                    params@.map_values(|p: Vec<u8>| p@),
                                )) by {
                                    assert(params@.map_values(|p: Vec<u8>| p@) =~= Seq::<
                                        Seq<u8>,
                                    >::empty());
                                }
                            }
                            while q < args.len()
                                invariant
                                    q <= args@.len(),
                                    name_ascii(name@),
                                    expr_wf(body),
                                    j < m <= toks@.len(),
                                    tv == crate::tokens::toks_v(toks@),
                                    sp_ident(tv, name@, j as int) == (match params_of(argsv) {
                                        Some(ps) => Ok::<(ExprV, int), Seq<char>>((
                                        ExprV::Def {
                                            name: name@,
                                            params: ps,
                                            body: Box::new(body@),
                                        }, m as int)),
                                        None => Err("Function parameters must be identifiers"@),
                                    }),
                                    argsv == crate::ast::exprs_v(args@),
                                    argsv.len() == args@.len(),
                                    forall|w: int|
                                        0 <= w < args@.len() ==> argsv[w] == (
                                        #[trigger] args@[w])@,
                                    forall|w: int|
                                        0 <= w < args@.len() ==> expr_wf(#[trigger] args@[w]),
                                    params_of(argsv.subrange(0, q as int)) == Some(
                                        params@.map_values(|p: Vec<u8>| p@),
                                    ),
                                    forall|w: int|
                                        0 <= w < params@.len() ==> name_ascii(
                                            (#[trigger] params@[w])@,
                                        ),
                                decreases args@.len() - q,
                            {
                                let ghost pre = argsv.subrange(0, q as int);
                                proof {
                                    let post = argsv.subrange(0, q + 1 as int);
                                    assert(post.drop_last() =~= pre);
                                    assert(post.last() == argsv[q as int]);
                                }
                                match &args[q] {
                                    Expr::Variable(pn) => {
                                        let ghost pv = params@.map_values(|p: Vec<u8>| p@);
                                        params.push(crate::ast::bytes_dup(pn));
                                        proof {
                                            assert(params@.map_values(|p: Vec<u8>| p@) =~= pv.push(
                                                pn@,
                                            ));
                                        }
                                    },
                                    _ => {
                                        proof {
                                            lemma_params_of_none(argsv, q as int);
                                        }
                                        return Err(
                                            EngineError::ParserError(
                                                crate::errors::msg(
                                                    "Function parameters must be identifiers",
                                                ),
                                            ),
                                        );
                                    },
                                }
                                q = q + 1;
                            }
                            proof {
                                assert(argsv.subrange(0, argsv.len() as int) =~= argsv);
                            }
                            Ok((Expr::FunctionDef(name, params, Box::new(body)), m))
                        },
                        Err(er) => Err(er),
                    }
                } else {
                    Ok((Expr::FunctionCall(name, args), k))
                }
            },
            Err(er) => Err(er),
        }
    } else if j < toks.len() && matches!(&toks[j], Token::Equals) {
        match pe_bp(toks, j + 1, 0) {
            Ok((v, m)) => Ok((Expr::Assignment(name, Box::new(v)), m)),
            Err(er) => Err(er),
        }
    } else {
        Ok((Expr::Variable(name), j))
    }
}

/// An argument list after its opening parenthesis.
fn pe_args(toks: &Vec<Token>, j: usize) -> (r: Result<(Vec<Expr>, usize), EngineError>)
    requires
        toks_wf(toks@),
        j <= toks@.len(),
    ensures
        match (r, sp_args(crate::tokens::toks_v(toks@), j as int)) {
            (Ok(p), Ok(q)) => {
                &&& crate::ast::exprs_v(p.0@) == q.0
                &&& p.1 as int == q.1
                &&& j < p.1 <= toks@.len()
                &&& crate::ast::exprs_wf(p.0@)
                &&& forall|w: int| 0 <= w < p.0@.len() ==> expr_wf(#[trigger] p.0@[w])
            },
            (Err(er), Err(m)) => er@ == (ErrV::ParserError { msg: m }),
            _ => false,
        },
    decreases toks@.len() - j, 2int,
{
    let ghost tv = crate::tokens::toks_v(toks@);
    proof {
        assert(tok_at(tv, j as int) == (if j < toks@.len() {
            toks@[j as int]@
        } else {
            TokV::Eof
        }));
    }
    if j < toks.len() && matches!(&toks[j], Token::RParen) {
        let empty: Vec<Expr> = Vec::new();
        proof {
            assert(crate::ast::exprs_v(empty@) =~= Seq::<ExprV>::empty());
        }
        return Ok((empty, j + 1));
    }
    let mut acc: Vec<Expr> = Vec::new();
    let mut pos = j;
    proof {
        assert(crate::ast::exprs_v(acc@) =~= Seq::<ExprV>::empty());
    }
    loop
        invariant
            toks_wf(toks@),
            tv == crate::tokens::toks_v(toks@),
            j <= pos <= toks@.len(),
            forall|w: int| 0 <= w < acc@.len() ==> expr_wf(#[trigger] acc@[w]),
            sp_args(tv, j as int) == sp_args_more(tv, pos as int, crate::ast::exprs_v(acc@)),
        decreases toks@.len() - pos,
    {
        let arg = match pe_bp(toks, pos, 0) {
            Ok(p) => p,
            Err(er) => {
                return Err(er);
            },
        };
        let (a, k) = arg;
        proof {
            assert(nxt(k as int, pos as int, tv.len() as int) == k as int);
            assert(tok_at(tv, k as int) == (if k < toks@.len() {
                toks@[k as int]@
            } else {
                TokV::Eof
            }));
        }
        if k < toks.len() && matches!(&toks[k], Token::Comma) {
            let ghost prevs = acc@;
            let ghost prev = crate::ast::exprs_v(acc@);
            acc.push(a);
            proof {
                crate::ast::lemma_exprs_v(prevs);
                crate::ast::lemma_exprs_v(acc@);
                assert forall|w: int| 0 <= w < acc@.len() implies crate::ast::exprs_v(acc@)[w]
                    == prev.push(a@)[w] by {
                    assert(crate::ast::exprs_v(acc@)[w] == crate::ast::expr_v(acc@[w]));
                    if w < prevs.len() {
                        assert(acc@[w] == prevs[w]);
                        assert(prev[w] == crate::ast::expr_v(prevs[w]));
                    } else {
                        assert(acc@[w] == a);
                    }
                }
                assert(crate::ast::exprs_v(acc@) =~= prev.push(a@));
            }
            pos = k + 1;
        } else if k < toks.len() && matches!(&toks[k], Token::RParen) {
            let ghost prevs = acc@;
            let ghost prev = crate::ast::exprs_v(acc@);
            acc.push(a);
            proof {
                crate::ast::lemma_exprs_v(prevs);
                crate::ast::lemma_exprs_v(acc@);
                assert forall|w: int| 0 <= w < acc@.len() implies crate::ast::exprs_v(acc@)[w]
                    == prev.push(a@)[w] by {
                    assert(crate::ast::exprs_v(acc@)[w] == crate::ast::expr_v(acc@[w]));
                    if w < prevs.len() {
                        assert(acc@[w] == prevs[w]);
                        assert(prev[w] == crate::ast::expr_v(prevs[w]));
                    } else {
                        assert(acc@[w] == a);
                    }
                }
                assert(crate::ast::exprs_v(acc@) =~= prev.push(a@));
                crate::ast::lemma_exprs_wf(acc@);
            }
            return Ok((acc, k + 1));
        } else {
            return Err(
                EngineError::ParserError(
                    crate::errors::msg("Expected ',' or ')' in argument list"),
                ),
            );
        }
    }
}

/// A full expression with a minimum binding power.
fn pe_bp(toks: &Vec<Token>, i: usize, min_bp: u8) -> (r: Result<(Expr, usize), EngineError>)
    requires
        toks_wf(toks@),
        i <= toks@.len(),
    ensures
        pres(r, sp_bp(crate::tokens::toks_v(toks@), i as int, min_bp as int), i as int, toks@.len() as int),
    decreases toks@.len() - i, 1int,
{
    let ghost tv = crate::tokens::toks_v(toks@);
    if i >= toks.len() {
        return Err(EngineError::ParserError(crate::errors::msg("Unexpected EOF")));
    }
    proof {
        assert(tv[i as int] == toks@[i as int]@);
        assert(!(tok_at(tv, i as int) is Eof));
    }
    let first = match pe_prefix(toks, i) {
        Ok(p) => p,
        Err(er) => {
            return Err(er);
        },
    };
    let (mut lhs, mut pos) = first;
    proof {
        assert(nxt(pos as int, i as int, tv.len() as int) == pos as int);
    }
    let mut go = true;
    while go
        invariant
            toks_wf(toks@),
            tv == crate::tokens::toks_v(toks@),
            i < pos <= toks@.len(),
            expr_wf(lhs),
            sp_bp(tv, i as int, min_bp as int) == sp_loop(tv, lhs@, pos as int, min_bp as int),
            !go ==> sp_loop(tv, lhs@, pos as int, min_bp as int) == Ok::<_, Seq<char>>((
            lhs@, pos as int)),
        decreases toks@.len() - pos, (if go { 1int } else { 0int }),
    {
        proof {
            assert(tok_at(tv, pos as int) == (if pos < toks@.len() {
                toks@[pos as int]@
            } else {
                TokV::Eof
            }));
        }
        if pos >= toks.len() {
            go = false;
        } else if matches!(&toks[pos], Token::Factorial) {
            if 11 < min_bp {
                go = false;
            } else {
                lhs = Expr::UnaryOp(UnaryOp::Factorial, Box::new(lhs));
                pos = pos + 1;
            }
        } else {
            match infix_bp_x(&toks[pos]) {
                Some((lb, rb)) => {
                    if lb < min_bp {
                        go = false;
                    } else {
                        let op = op_of_x(&toks[pos]);
                        let rhs_r = match pe_bp(toks, pos + 1, rb) {
                            Ok(p) => p,
                            Err(er) => {
                                return Err(er);
                            },
                        };
                        let (rhs, k) = rhs_r;
                        proof {
                            assert(nxt(k as int, pos as int, tv.len() as int) == k as int);
                        }
                        lhs = Expr::BinaryOp(op, Box::new(lhs), Box::new(rhs));
                        pos = k;
                    }
                },
                None => {
                    if matches!(&toks[pos], Token::LParen) || matches!(
                        &toks[pos],
                        Token::Identifier(_),
                    ) {
                        if 3 < min_bp {
                            go = false;
                        } else {
                            let rhs_r = match pe_bp(toks, pos, 4) {
                                Ok(p) => p,
                                Err(er) => {
                                    return Err(er);
                                },
                            };
                            let (rhs, k) = rhs_r;
                            proof {
                                assert(nxt(k as int, pos as int, tv.len() as int) == k as int);
                            }
                            lhs = Expr::BinaryOp(BinaryOp::Mul, Box::new(lhs), Box::new(rhs));
                            pos = k;
                        }
                    } else {
                        go = false;
                    }
                },
            }
        }
    }
    Ok((lhs, pos))
}

/// Parses the expression into an abstract syntax tree; it does not
/// evaluate it. Every token up to the end of the input must be consumed.
pub fn parse(expression: &str) -> (r: Result<Expr, EngineError>)
    ensures
        vstd::string::is_ascii(expression) ==> match (
            r,
            parse_spec(vstd::string::StringSliceAdditionalSpecFns::spec_bytes(expression)),
        ) {
            (Ok(e), Ok(v)) => e@ == v && expr_wf(e),
            (Err(er), Err(m)) => er@ == (ErrV::ParserError { msg: m }),
            _ => false,
        },
        !vstd::string::is_ascii(expression) ==> (r matches Err(er) && er@ == (ErrV::ParserError {
            msg: "Unexpected token"@,
        })),
{
    if !expression.is_ascii() {
        return Err(EngineError::ParserError(crate::errors::msg("Unexpected token")));
    }
    let toks = crate::tokens::lex(expression);
    let ghost bytes = vstd::string::StringSliceAdditionalSpecFns::spec_bytes(expression);
    proof {
        lemma_lex_no_eof(bytes, 0);
        assert forall|k: int| 0 <= k < toks@.len() implies ((#[trigger] toks@[k]).wf() && !(
        toks@[k]@ is Eof)) by {
            assert(crate::tokens::toks_v(toks@)[k] == toks@[k]@);
            assert(lex_from(bytes, 0)[k] == crate::tokens::toks_v(toks@)[k]);
        }
    }
    match pe_bp(&toks, 0, 0) {
        Ok((e, j)) => {
            proof {
                assert(tok_at(crate::tokens::toks_v(toks@), j as int) == (if j < toks@.len() {
                    toks@[j as int]@
                } else {
                    TokV::Eof
                }));
            }
            if j >= toks.len() {
                Ok(e)
            } else {
                Err(EngineError::ParserError(crate::errors::msg("Unexpected token at end")))
            }
        },
        Err(er) => Err(er),
    }
}

} // verus!

//! The token alphabet and the tokenizer.
//!
//! The tokenizer reads the expression's bytes with maximal munch: at each
//! position the longest rule wins. ASCII whitespace is skipped; a byte that
//! no rule matches becomes an error token that the parser rejects.

use vstd::prelude::*;
use crate::bigint::int_of;
use crate::floats::{f_dec_ok, f_of_dec, im_bits, re_bits};

verus! {

/// One token of an expression.
#[derive(Debug, Clone)]
pub enum Token {
    Plus,
    Minus,
    Multiply,
    Divide,
    Power,
    Factorial,
    Percent,
    LParen,
    RParen,
    Comma,
    Equals,
    Float(num_complex::Complex64),
    Integer(num_bigint::BigInt),
    Identifier(Vec<u8>),
    Eof,
    Error,
}

/// The view of a token.
pub enum TokV {
    Plus,
    Minus,
    Multiply,
    Divide,
    Power,
    Factorial,
    Percent,
    LParen,
    RParen,
    Comma,
    Equals,
    Float { b: u64 },
    Integer { i: int },
    Identifier { name: Seq<u8> },
    Eof,
    Error,
}

impl View for Token {
    type V = TokV;

    open spec fn view(&self) -> TokV {
        match self {
            Token::Plus => TokV::Plus,
            Token::Minus => TokV::Minus,
            Token::Multiply => TokV::Multiply,
            Token::Divide => TokV::Divide,
            Token::Power => TokV::Power,
            Token::Factorial => TokV::Factorial,
            Token::Percent => TokV::Percent,
            Token::LParen => TokV::LParen,
            Token::RParen => TokV::RParen,
            Token::Comma => TokV::Comma,
            Token::Equals => TokV::Equals,
            Token::Float(c) => TokV::Float { b: re_bits(*c) },
            Token::Integer(i) => TokV::Integer { i: int_of(*i) },
            Token::Identifier(v) => TokV::Identifier { name: v@ },
            Token::Eof => TokV::Eof,
            Token::Error => TokV::Error,
        }
    }
}

impl Token {
    /// A float token keeps its imaginary component at zero, and an
    /// identifier is a non-empty ASCII word.
    pub open spec fn wf(&self) -> bool {
        match self {
            Token::Float(c) => im_bits(*c) == 0,
            Token::Identifier(v) => v@.len() > 0 && (forall|k: int|
                0 <= k < v@.len() ==> is_ident_cont(#[trigger] v@[k])),
            _ => true,
        }
    }
}

pub open spec fn is_ws(b: u8) -> bool {
    b == 32 || b == 9 || b == 10 || b == 12
}

pub open spec fn is_digit(b: u8) -> bool {
    48 <= b <= 57
}

pub open spec fn is_hex_digit(b: u8) -> bool {
    is_digit(b) || 97 <= b <= 102 || 65 <= b <= 70
}

pub open spec fn is_bin_digit(b: u8) -> bool {
    b == 48 || b == 49
}

pub open spec fn is_alpha(b: u8) -> bool {
    65 <= b <= 90 || 97 <= b <= 122
}

pub open spec fn is_ident_cont(b: u8) -> bool {
    is_alpha(b) || is_digit(b) || b == 95
}

/// The value of a digit byte in any base up to sixteen.
pub open spec fn digit_val(b: u8) -> int {
    if is_digit(b) {
        b - 48
    } else if 97 <= b <= 102 {
        b - 87
    } else if 65 <= b <= 70 {
        b - 55
    } else {
        0
    }
}

/// The integer that a digit run spells in the given base.
pub open spec fn digits_val(s: Seq<u8>, base: int) -> int
    decreases s.len(),
{
    if s.len() == 0 {
        0
    } else {
        digits_val(s.drop_last(), base) * base + digit_val(s.last())
    }
}

/// The end of the run of decimal digits that starts at `i`.
pub open spec fn digits_end(s: Seq<u8>, i: int) -> int
    decreases s.len() - i,
{
    if 0 <= i < s.len() && is_digit(s[i]) {
        digits_end(s, i + 1)
    } else {
        i
    }
}

/// The end of the run of hexadecimal digits that starts at `i`.
pub open spec fn hex_end(s: Seq<u8>, i: int) -> int
    decreases s.len() - i,
{
    if 0 <= i < s.len() && is_hex_digit(s[i]) {
        hex_end(s, i + 1)
    } else {
        i
    }
}

/// The end of the run of binary digits that starts at `i`.
pub open spec fn bin_end(s: Seq<u8>, i: int) -> int
    decreases s.len() - i,
{
    if 0 <= i < s.len() && is_bin_digit(s[i]) {
        bin_end(s, i + 1)
    } else {
        i
    }
}

/// The end of the run of identifier bytes that starts at `i`.
pub open spec fn ident_end(s: Seq<u8>, i: int) -> int
    decreases s.len() - i,
{
    if 0 <= i < s.len() && is_ident_cont(s[i]) {
        ident_end(s, i + 1)
    } else {
        i
    }
}

/// The end of an exponent part standing at `j`, or `j` itself where no
/// well-formed exponent follows: `e` or `E`, an optional sign, then at
/// least one digit.
pub open spec fn exp_end(s: Seq<u8>, j: int) -> int {
    if 0 <= j < s.len() && (s[j] == 101 || s[j] == 69) {
        let k = if j + 1 < s.len() && (s[j + 1] == 43 || s[j + 1] == 45) {
            j + 2
        } else {
            j + 1
        };
        if k < s.len() && is_digit(s[k]) {
            digits_end(s, k)
        } else {
            j
        }
    } else {
        j
    }
}

pub proof fn lemma_digits_end(s: Seq<u8>, i: int)
    requires
        0 <= i <= s.len(),
    ensures
        i <= digits_end(s, i) <= s.len(),
    decreases s.len() - i,
{
    if i < s.len() && is_digit(s[i]) {
        lemma_digits_end(s, i + 1);
    }
}

pub proof fn lemma_hex_end(s: Seq<u8>, i: int)
    requires
        0 <= i <= s.len(),
    ensures
        i <= hex_end(s, i) <= s.len(),
    decreases s.len() - i,
{
    if i < s.len() && is_hex_digit(s[i]) {
        lemma_hex_end(s, i + 1);
    }
}

pub proof fn lemma_bin_end(s: Seq<u8>, i: int)
    requires
        0 <= i <= s.len(),
    ensures
        i <= bin_end(s, i) <= s.len(),
    decreases s.len() - i,
{
    if i < s.len() && is_bin_digit(s[i]) {
        lemma_bin_end(s, i + 1);
    }
}

pub proof fn lemma_ident_end(s: Seq<u8>, i: int)
    requires
        0 <= i <= s.len(),
    ensures
        i <= ident_end(s, i) <= s.len(),
    decreases s.len() - i,
{
    if i < s.len() && is_ident_cont(s[i]) {
        lemma_ident_end(s, i + 1);
    }
}

pub proof fn lemma_exp_end(s: Seq<u8>, j: int)
    requires
        0 <= j <= s.len(),
    ensures
        j <= exp_end(s, j) <= s.len(),
{
    if 0 <= j < s.len() && (s[j] == 101 || s[j] == 69) {
        let k = if j + 1 < s.len() && (s[j + 1] == 43 || s[j + 1] == 45) {
            j + 2
        } else {
            j + 1
        };
        if k < s.len() && is_digit(s[k]) {
            lemma_digits_end(s, k);
        }
    }
}

/// Whether the byte at `i` opens a hexadecimal literal.
pub open spec fn at_hex(s: Seq<u8>, i: int) -> bool {
    s[i] == 48 && i + 2 < s.len() && s[i + 1] == 120 && is_hex_digit(s[i + 2])
}

/// Whether the byte at `i` opens a binary literal.
pub open spec fn at_bin(s: Seq<u8>, i: int) -> bool {
    s[i] == 48 && i + 2 < s.len() && s[i + 1] == 98 && is_bin_digit(s[i + 2])
}

/// The token standing at position `i`, which must hold neither whitespace
/// nor the end, and the position after it.
pub open spec fn token_at(s: Seq<u8>, i: int) -> (TokV, int) {
    let b = s[i];
    if b == 43 {
        (TokV::Plus, i + 1)
    } else if b == 45 {
        (TokV::Minus, i + 1)
    } else if b == 42 {
        (TokV::Multiply, i + 1)
    } else if b == 47 {
        (TokV::Divide, i + 1)
    } else if b == 94 {
        (TokV::Power, i + 1)
    } else if b == 33 {
        (TokV::Factorial, i + 1)
    } else if b == 37 {
        (TokV::Percent, i + 1)
    } else if b == 40 {
        (TokV::LParen, i + 1)
    } else if b == 41 {
        (TokV::RParen, i + 1)
    } else if b == 44 {
        (TokV::Comma, i + 1)
    } else if b == 61 {
        (TokV::Equals, i + 1)
    } else if is_digit(b) {
        if at_hex(s, i) {
            let he = hex_end(s, i + 2);
            (TokV::Integer { i: digits_val(s.subrange(i + 2, he), 16) }, he)
        } else if at_bin(s, i) {
            let be = bin_end(s, i + 2);
            (TokV::Integer { i: digits_val(s.subrange(i + 2, be), 2) }, be)
        } else {
            let de = digits_end(s, i);
            if de < s.len() && s[de] == 46 {
                let m = digits_end(s, de + 1);
                let fe = exp_end(s, m);
                (float_tok(s.subrange(i, fe)), fe)
            } else if de < s.len() && (s[de] == 101 || s[de] == 69) {
                let fe = exp_end(s, de);
                if fe > de {
                    (float_tok(s.subrange(i, fe)), fe)
                } else {
                    (TokV::Integer { i: digits_val(s.subrange(i, de), 10) }, de)
                }
            } else {
                (TokV::Integer { i: digits_val(s.subrange(i, de), 10) }, de)
            }
        }
    } else if is_alpha(b) {
        let ie = ident_end(s, i + 1);
        (TokV::Identifier { name: s.subrange(i, ie) }, ie)
    } else {
        (TokV::Error, i + 1)
    }
}

/// A float literal's token: parsing can fail only by producing an error
/// token.
pub open spec fn float_tok(lit: Seq<u8>) -> TokV {
    if f_dec_ok(lit) {
        TokV::Float { b: f_of_dec(lit) }
    } else {
        TokV::Error
    }
}

/// The position after the token at `i`, never behind `i` and never past the
/// end; in fact `token_at` always advances, as `lemma_token_at` shows.
pub open spec fn tok_adv(s: Seq<u8>, i: int) -> int {
    let j = token_at(s, i).1;
    if j <= i {
        i + 1
    } else if j > s.len() {
        s.len() as int
    } else {
        j
    }
}

/// The token boundary always moves strictly forward and stays in range, so
/// `tok_adv` equals the position that `token_at` gives.
pub proof fn lemma_token_at(s: Seq<u8>, i: int)
    requires
        0 <= i < s.len(),
    ensures
        i < token_at(s, i).1 <= s.len(),
        tok_adv(s, i) == token_at(s, i).1,
{
    let b = s[i];
    if is_digit(b) && !(b == 43 || b == 45 || b == 42 || b == 47 || b == 94 || b == 33 || b == 37
        || b == 40 || b == 41 || b == 44 || b == 61) {
        if at_hex(s, i) {
            lemma_hex_end(s, i + 3);
            assert(hex_end(s, i + 2) == hex_end(s, i + 3));
        } else if at_bin(s, i) {
            lemma_bin_end(s, i + 3);
            assert(bin_end(s, i + 2) == bin_end(s, i + 3));
        } else {
            lemma_digits_end(s, i + 1);
            assert(digits_end(s, i) == digits_end(s, i + 1));
            let de = digits_end(s, i);
            if de < s.len() && s[de] == 46 {
                lemma_digits_end(s, de + 1);
                lemma_exp_end(s, digits_end(s, de + 1));
            } else if de < s.len() && (s[de] == 101 || s[de] == 69) {
                lemma_exp_end(s, de);
            }
        }
    } else if is_alpha(b) {
        lemma_ident_end(s, i + 1);
    }
}

/// The token sequence of the bytes from position `i` on: whitespace is
/// skipped and each token is taken by `token_at`.
pub open spec fn lex_from(s: Seq<u8>, i: int) -> Seq<TokV>
    decreases s.len() - i,
{
    if i < 0 || i >= s.len() {
        Seq::empty()
    } else if is_ws(s[i]) {
        lex_from(s, i + 1)
    } else {
        seq![token_at(s, i).0] + lex_from(s, tok_adv(s, i))
    }
}

/// The views of a token sequence.
pub open spec fn toks_v(ts: Seq<Token>) -> Seq<TokV> {
    ts.map_values(|t: Token| t@)
}

fn ws_x(b: u8) -> (r: bool)
    ensures
        r == is_ws(b),
{
    b == 32 || b == 9 || b == 10 || b == 12
}

fn digit_x(b: u8) -> (r: bool)
    ensures
        r == is_digit(b),
{
    48 <= b && b <= 57
}

fn hex_digit_x(b: u8) -> (r: bool)
    ensures
        r == is_hex_digit(b),
{
    (48 <= b && b <= 57) || (97 <= b && b <= 102) || (65 <= b && b <= 70)
}

fn bin_digit_x(b: u8) -> (r: bool)
    ensures
        r == is_bin_digit(b),
{
    b == 48 || b == 49
}

fn alpha_x(b: u8) -> (r: bool)
    ensures
        r == is_alpha(b),
{
    (65 <= b && b <= 90) || (97 <= b && b <= 122)
}

fn ident_cont_x(b: u8) -> (r: bool)
    ensures
        r == is_ident_cont(b),
{
    alpha_x(b) || digit_x(b) || b == 95
}

fn digits_end_x(s: &Vec<u8>, i: usize) -> (j: usize)
    requires
        i <= s@.len(),
    ensures
        j as int == digits_end(s@, i as int),
        i <= j <= s@.len(),
{
    let mut j = i;
    while j < s.len() && digit_x(s[j])
        invariant
            i <= j <= s@.len(),
            digits_end(s@, i as int) == digits_end(s@, j as int),
        decreases s@.len() - j,
    {
        j = j + 1;
    }
    j
}

fn hex_end_x(s: &Vec<u8>, i: usize) -> (j: usize)
    requires
        i <= s@.len(),
    ensures
        j as int == hex_end(s@, i as int),
        i <= j <= s@.len(),
{
    let mut j = i;
    while j < s.len() && hex_digit_x(s[j])
        invariant
            i <= j <= s@.len(),
            hex_end(s@, i as int) == hex_end(s@, j as int),
        decreases s@.len() - j,
    {
        j = j + 1;
    }
    j
}

fn bin_end_x(s: &Vec<u8>, i: usize) -> (j: usize)
    requires
        i <= s@.len(),
    ensures
        j as int == bin_end(s@, i as int),
        i <= j <= s@.len(),
{
    let mut j = i;
    while j < s.len() && bin_digit_x(s[j])
        invariant
            i <= j <= s@.len(),
            bin_end(s@, i as int) == bin_end(s@, j as int),
        decreases s@.len() - j,
    {
        j = j + 1;
    }
    j
}

fn ident_end_x(s: &Vec<u8>, i: usize) -> (j: usize)
    requires
        i <= s@.len(),
    ensures
        j as int == ident_end(s@, i as int),
        i <= j <= s@.len(),
        forall|k: int| i <= k < j ==> is_ident_cont(#[trigger] s@[k]),
{
    let mut j = i;
    while j < s.len() && ident_cont_x(s[j])
        invariant
            i <= j <= s@.len(),
            ident_end(s@, i as int) == ident_end(s@, j as int),
            forall|k: int| i <= k < j ==> is_ident_cont(#[trigger] s@[k]),
        decreases s@.len() - j,
    {
        j = j + 1;
    }
    j
}

fn exp_end_x(s: &Vec<u8>, j: usize) -> (r: usize)
    requires
        j <= s@.len(),
    ensures
        r as int == exp_end(s@, j as int),
        j <= r <= s@.len(),
{
    if j < s.len() && (s[j] == 101 || s[j] == 69) {
        let k = if j + 1 < s.len() && (s[j + 1] == 43 || s[j + 1] == 45) {
            j + 2
        } else {
            j + 1
        };
        if k < s.len() && digit_x(s[k]) {
            digits_end_x(s, k)
        } else {
            j
        }
    } else {
        j
    }
}

fn digit_val_x(b: u8) -> (d: u64)
    ensures
        d as int == digit_val(b),
{
    if 48 <= b && b <= 57 {
        (b - 48) as u64
    } else if 97 <= b && b <= 102 {
        (b - 87) as u64
    } else if 65 <= b && b <= 70 {
        (b - 55) as u64
    } else {
        0
    }
}

/// The exact integer that the digit bytes in `[from, to)` spell in the
/// given base.
fn parse_digits(s: &Vec<u8>, from: usize, to: usize, base: u64) -> (r: num_bigint::BigInt)
    requires
        from <= to <= s@.len(),
    ensures
        int_of(r) == digits_val(s@.subrange(from as int, to as int), base as int),
{
    let b = crate::bigint::int_from_u64(base);
    let mut acc = crate::bigint::int_from_u64(0);
    let mut i = from;
    proof {
        assert(s@.subrange(from as int, from as int) =~= Seq::<u8>::empty());
    }
    while i < to
        invariant
            from <= i <= to <= s@.len(),
            int_of(b) == base,
            int_of(acc) == digits_val(s@.subrange(from as int, i as int), base as int),
        decreases to - i,
    {
        let ghost pre = s@.subrange(from as int, i as int);
        let d = digit_val_x(s[i]);
        acc = crate::bigint::int_add(&crate::bigint::int_mul(&acc, &b), &crate::bigint::int_from_u64(d));
        proof {
            let post = s@.subrange(from as int, i + 1 as int);
            assert(post.drop_last() =~= pre);
            assert(post.last() == s@[i as int]);
        }
        i = i + 1;
    }
    acc
}

/// The token standing at a non-whitespace position, and the position after
/// it.
fn next_token(text: &str, s: &Vec<u8>, pos: usize) -> (r: (Token, usize))
    requires
        text.is_ascii(),
        s@ == vstd::string::StringSliceAdditionalSpecFns::spec_bytes(text),
        pos < s@.len(),
        !is_ws(s@[pos as int]),
    ensures
        (r.0@, r.1 as int) == token_at(s@, pos as int),
        r.0.wf(),
        pos < r.1 <= s@.len(),
{
    proof {
        lemma_token_at(s@, pos as int);
    }
    let n = s.len();
    let b = s[pos];
    if b == 43 {
        (Token::Plus, pos + 1)
    } else if b == 45 {
        (Token::Minus, pos + 1)
    } else if b == 42 {
        (Token::Multiply, pos + 1)
    } else if b == 47 {
        (Token::Divide, pos + 1)
    } else if b == 94 {
        (Token::Power, pos + 1)
    } else if b == 33 {
        (Token::Factorial, pos + 1)
    } else if b == 37 {
        (Token::Percent, pos + 1)
    } else if b == 40 {
        (Token::LParen, pos + 1)
    } else if b == 41 {
        (Token::RParen, pos + 1)
    } else if b == 44 {
        (Token::Comma, pos + 1)
    } else if b == 61 {
        (Token::Equals, pos + 1)
    } else if digit_x(b) {
        if b == 48 && n - pos > 2 && s[pos + 1] == 120 && hex_digit_x(s[pos + 2]) {
            let he = hex_end_x(s, pos + 2);
            (Token::Integer(parse_digits(s, pos + 2, he, 16)), he)
        } else if b == 48 && n - pos > 2 && s[pos + 1] == 98 && bin_digit_x(s[pos + 2]) {
            let be = bin_end_x(s, pos + 2);
            (Token::Integer(parse_digits(s, pos + 2, be, 2)), be)
        } else {
            let de = digits_end_x(s, pos);
            if de < s.len() && s[de] == 46 {
                let m = digits_end_x(s, de + 1);
                let fe = exp_end_x(s, m);
                (float_token(text, s, pos, fe), fe)
            } else if de < s.len() && (s[de] == 101 || s[de] == 69) {
                let fe = exp_end_x(s, de);
                if fe > de {
                    (float_token(text, s, pos, fe), fe)
                } else {
                    (Token::Integer(parse_digits(s, pos, de, 10)), de)
                }
            } else {
                (Token::Integer(parse_digits(s, pos, de, 10)), de)
            }
        }
    } else if alpha_x(b) {
        let ie = ident_end_x(s, pos + 1);
        let mut name: Vec<u8> = Vec::new();
        name.push(b);
        let mut k = pos + 1;
        proof {
            assert(name@ =~= s@.subrange(pos as int, pos + 1 as int));
        }
        while k < ie
            invariant
                pos + 1 <= k <= ie <= s@.len(),
                name@ =~= s@.subrange(pos as int, k as int),
                forall|q: int| pos + 1 <= q < ie ==> is_ident_cont(#[trigger] s@[q]),
                is_alpha(s@[pos as int]),
            decreases ie - k,
        {
            name.push(s[k]);
            proof {
                assert(name@ =~= s@.subrange(pos as int, k + 1 as int));
            }
            k = k + 1;
        }
        (Token::Identifier(name), ie)
    } else {
        (Token::Error, pos + 1)
    }
}

/// A float literal's token, parsed from the text between the two byte
/// positions.
fn float_token(text: &str, s: &Vec<u8>, from: usize, to: usize) -> (t: Token)
    requires
        text.is_ascii(),
        s@ == vstd::string::StringSliceAdditionalSpecFns::spec_bytes(text),
        from <= to <= s@.len(),
    ensures
        t@ == float_tok(s@.subrange(from as int, to as int)),
        t.wf(),
{
    proof {
        broadcast use vstd::string::is_ascii_spec_bytes;

        assert(text@.len() == s@.len());
    }
    let lit = vstd::string::StrSliceExecFns::substring_ascii(text, from, to);
    proof {
        broadcast use vstd::string::is_ascii_spec_bytes;

        assert(vstd::string::StringSliceAdditionalSpecFns::spec_bytes(lit) =~= s@.subrange(
            from as int,
            to as int,
        ));
    }
    match crate::floats::f_lit(lit) {
        Some(c) => Token::Float(c),
        None => Token::Error,
    }
}

/// The token sequence of an ASCII expression.
pub fn lex(text: &str) -> (r: Vec<Token>)
    requires
        text.is_ascii(),
    ensures
        toks_v(r@) == lex_from(vstd::string::StringSliceAdditionalSpecFns::spec_bytes(text), 0),
        forall|k: int| 0 <= k < r@.len() ==> (#[trigger] r@[k]).wf(),
{
    let s = vstd::string::StrSliceExecFns::as_bytes_vec(text);
    let mut toks: Vec<Token> = Vec::new();
    let mut pos: usize = 0;
    proof {
        assert(toks_v(toks@) =~= Seq::<TokV>::empty());
    }
    while pos < s.len()
        invariant
            text.is_ascii(),
            s@ == vstd::string::StringSliceAdditionalSpecFns::spec_bytes(text),
            pos <= s@.len(),
            lex_from(s@, 0) == toks_v(toks@) + lex_from(s@, pos as int),
            forall|k: int| 0 <= k < toks@.len() ==> (#[trigger] toks@[k]).wf(),
        decreases s@.len() - pos,
    {
        if ws_x(s[pos]) {
            pos = pos + 1;
        } else {
            let (t, np) = next_token(text, &s, pos);
            proof {
                lemma_token_at(s@, pos as int);
                assert(lex_from(s@, pos as int) == seq![t@] + lex_from(s@, np as int));
                assert(toks_v(toks@.push(t)) =~= toks_v(toks@) + seq![t@]);
                assert((toks_v(toks@) + seq![t@]) + lex_from(s@, np as int) =~= toks_v(toks@) + (
                seq![t@] + lex_from(s@, np as int)));
            }
            toks.push(t);
            pos = np;
        }
    }
    proof {
        assert(toks_v(toks@) + lex_from(s@, pos as int) =~= toks_v(toks@));
    }
    toks
}

} // verus!

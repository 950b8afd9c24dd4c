//! Small input-mapping helpers for calculator front ends.

use vstd::prelude::*;
use vstd::string::StringSliceAdditionalSpecFns;
use vstd::string::StrSliceExecFns;
use crate::context::bytes_eq;
use crate::registry::bname;

verus! {

/// The replacement of one keypad token, by its UTF-8 bytes: the division,
/// multiplication and minus signs and the pi and root symbols map to their
/// ASCII forms, and everything else stays itself.
pub open spec fn map_input_spec(b: Seq<u8>) -> Seq<u8> {
    if b == seq![0xC3u8, 0xB7u8] {
        bname("/"@)
    } else if b == seq![0xC3u8, 0x97u8] {
        bname("*"@)
    } else if b == seq![0xE2u8, 0x88u8, 0x92u8] {
        bname("-"@)
    } else if b == seq![0xCFu8, 0x80u8] {
        bname("pi"@)
    } else if b == seq![0xE2u8, 0x88u8, 0x9Au8] {
        bname("sqrt("@)
    } else {
        b
    }
}

/// Maps one keypad token to the expression text it stands for.
pub fn map_input_token(text: &str) -> (r: &str)
    ensures
        r.spec_bytes() == map_input_spec(text.spec_bytes()),
{
    proof {
        reveal_strlit("/");
        reveal_strlit("*");
        reveal_strlit("-");
        reveal_strlit("pi");
        reveal_strlit("sqrt(");
    }
    let b = StrSliceExecFns::as_bytes_vec(text);
    let mut div_sign: Vec<u8> = Vec::new();
    div_sign.push(0xC3);
    div_sign.push(0xB7);
    let mut mul_sign: Vec<u8> = Vec::new();
    mul_sign.push(0xC3);
    mul_sign.push(0x97);
    let mut minus_sign: Vec<u8> = Vec::new();
    minus_sign.push(0xE2);
    minus_sign.push(0x88);
    minus_sign.push(0x92);
    let mut pi_sign: Vec<u8> = Vec::new();
    pi_sign.push(0xCF);
    pi_sign.push(0x80);
    let mut root_sign: Vec<u8> = Vec::new();
    root_sign.push(0xE2);
    root_sign.push(0x88);
    root_sign.push(0x9A);
    proof {
        assert(div_sign@ =~= seq![0xC3u8, 0xB7u8]);
        assert(mul_sign@ =~= seq![0xC3u8, 0x97u8]);
        assert(minus_sign@ =~= seq![0xE2u8, 0x88u8, 0x92u8]);
        assert(pi_sign@ =~= seq![0xCFu8, 0x80u8]);
        assert(root_sign@ =~= seq![0xE2u8, 0x88u8, 0x9Au8]);
    }
    if bytes_eq(&b, &div_sign) {
        let r = "/";
        proof {
            lemma_ascii_word(r);
        }
        r
    } else if bytes_eq(&b, &mul_sign) {
        let r = "*";
        proof {
            lemma_ascii_word(r);
        }
        r
    } else if bytes_eq(&b, &minus_sign) {
        let r = "-";
        proof {
            lemma_ascii_word(r);
        }
        r
    } else if bytes_eq(&b, &pi_sign) {
        let r = "pi";
        proof {
            lemma_ascii_word(r);
        }
        r
    } else if bytes_eq(&b, &root_sign) {
        let r = "sqrt(";
        proof {
            lemma_ascii_word(r);
        }
        r
    } else {
        text
    }
}

/// An ASCII literal's bytes are its characters.
pub proof fn lemma_ascii_word(s: &str)
    requires
        vstd::string::is_ascii(s),
    ensures
        s.spec_bytes() == bname(s@),
{
    broadcast use vstd::string::is_ascii_spec_bytes;

    assert(s.spec_bytes() =~= bname(s@));
}

/// The function names a front end closes a parenthesis for.
pub open spec fn auto_paren_spec(b: Seq<u8>) -> bool {
    ||| b == bname("sin"@)
    ||| b == bname("cos"@)
    ||| b == bname("tan"@)
    ||| b == bname("asin"@)
    ||| b == bname("acos"@)
    ||| b == bname("atan"@)
    ||| b == bname("sinh"@)
    ||| b == bname("cosh"@)
    ||| b == bname("tanh"@)
    ||| b == bname("log"@)
    ||| b == bname("ln"@)
    ||| b == bname("sqrt"@)
    ||| b == bname("abs"@)
}

/// Whether a typed token is a function name that should open a
/// parenthesis.
pub fn should_auto_paren(token: &str) -> (r: bool)
    ensures
        r == auto_paren_spec(token.spec_bytes()),
{
    proof {
        reveal_strlit("sin");
        reveal_strlit("cos");
        reveal_strlit("tan");
        reveal_strlit("asin");
        reveal_strlit("acos");
        reveal_strlit("atan");
        reveal_strlit("sinh");
        reveal_strlit("cosh");
        reveal_strlit("tanh");
        reveal_strlit("log");
        reveal_strlit("ln");
        reveal_strlit("sqrt");
        reveal_strlit("abs");
    }
    let b = StrSliceExecFns::as_bytes_vec(token);
    let mut hit = bytes_eq(&b, &ascii_word("sin"));
    hit = hit || bytes_eq(&b, &ascii_word("cos"));
    hit = hit || bytes_eq(&b, &ascii_word("tan"));
    hit = hit || bytes_eq(&b, &ascii_word("asin"));
    hit = hit || bytes_eq(&b, &ascii_word("acos"));
    hit = hit || bytes_eq(&b, &ascii_word("atan"));
    hit = hit || bytes_eq(&b, &ascii_word("sinh"));
    hit = hit || bytes_eq(&b, &ascii_word("cosh"));
    hit = hit || bytes_eq(&b, &ascii_word("tanh"));
    hit = hit || bytes_eq(&b, &ascii_word("log"));
    hit = hit || bytes_eq(&b, &ascii_word("ln"));
    hit = hit || bytes_eq(&b, &ascii_word("sqrt"));
    hit = hit || bytes_eq(&b, &ascii_word("abs"));
    hit
}

/// The byte word of an ASCII literal.
fn ascii_word(s: &str) -> (r: Vec<u8>)
    requires
        vstd::string::is_ascii(s),
    ensures
        r@ == bname(s@),
{
    let r = StrSliceExecFns::as_bytes_vec(s);
    proof {
        lemma_ascii_word(s);
    }
    r
}

} // verus!

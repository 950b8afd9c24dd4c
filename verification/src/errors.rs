//! The engine's error kinds and their mathematical view.

use vstd::prelude::*;

verus! {

/// Everything that can go wrong while parsing or evaluating.
#[derive(Debug, Clone)]
pub enum EngineError {
    DivisionByZero,
    UndefinedVariable(String),
    ArgumentMismatch(String, usize),
    UnknownFunction(String),
    TypeMismatch(String, String),
    ParserError(String),
    DomainError(String),
    Generic(String),
}

/// The view of an error: the same shape over character sequences.
pub enum ErrV {
    DivisionByZero,
    UndefinedVariable { name: Seq<char> },
    ArgumentMismatch { name: Seq<char>, expected: int },
    UnknownFunction { name: Seq<char> },
    TypeMismatch { expected: Seq<char>, actual: Seq<char> },
    ParserError { msg: Seq<char> },
    DomainError { msg: Seq<char> },
    Generic { msg: Seq<char> },
}

impl View for EngineError {
    type V = ErrV;

    open spec fn view(&self) -> ErrV {
        match self {
            EngineError::DivisionByZero => ErrV::DivisionByZero,
            EngineError::UndefinedVariable(s) => ErrV::UndefinedVariable { name: s@ },
            EngineError::ArgumentMismatch(s, n) => ErrV::ArgumentMismatch {
                name: s@,
                expected: *n as int,
            },
            EngineError::UnknownFunction(s) => ErrV::UnknownFunction { name: s@ },
            EngineError::TypeMismatch(s, t) => ErrV::TypeMismatch { expected: s@, actual: t@ },
            EngineError::ParserError(s) => ErrV::ParserError { msg: s@ },
            EngineError::DomainError(s) => ErrV::DomainError { msg: s@ },
            EngineError::Generic(s) => ErrV::Generic { msg: s@ },
        }
    }
}

/// An owned copy of a message literal.
pub fn msg(s: &str) -> (r: String)
    ensures
        r@ == s@,
{
    <String as vstd::string::StringExecFns>::from_str(s)
}

/// The characters that a sequence of ASCII bytes spells.
pub open spec fn chars_of(b: Seq<u8>) -> Seq<char> {
    b.map_values(|x: u8| x as char)
}

/// Relies on `String::from_utf8`: ASCII bytes are valid UTF-8 and decode to
/// the same characters.
#[verifier::external_body]
pub(crate) fn bytes_to_string(b: &Vec<u8>) -> (r: String)
    requires
        forall|i: int| 0 <= i < b@.len() ==> b@[i] < 128,
    ensures
        r@ == chars_of(b@),
{
    String::from_utf8(b.clone()).unwrap_or_default()
}

} // verus!

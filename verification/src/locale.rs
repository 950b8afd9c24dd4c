//! Localization of user-facing messages.
//!
//! The catalog is a plain value: the matched locale is data, not process
//! state, so a session owns its locale and hands it to each lookup. A key
//! without a translation falls back to English, and an unknown key is
//! returned as it is.

use vstd::prelude::*;
use vstd::string::StringSliceAdditionalSpecFns;
use vstd::string::StrSliceExecFns;
use crate::context::bytes_eq;
use crate::registry::bname;

verus! {

/// A supported locale; English is the default and the fallback.
#[derive(Debug, Clone, Copy, PartialEq, Eq, Structural)]
pub enum Locale {
    EnUs,
    PtBr,
    Fr,
    It,
}

/// Which locale a tag's first two bytes select; everything unknown falls
/// back to English.
pub open spec fn locale_of(b: Seq<u8>) -> Locale {
    if b.len() >= 2 && b[0] == 112 && b[1] == 116 {
        Locale::PtBr
    } else if b.len() >= 2 && b[0] == 102 && b[1] == 114 {
        Locale::Fr
    } else if b.len() >= 2 && b[0] == 105 && b[1] == 116 {
        Locale::It
    } else {
        Locale::EnUs
    }
}

/// Matches a locale tag such as `"pt-BR"` or `"pt_BR"` against the
/// supported locales, by language prefix, falling back to English.
pub fn init_locale(locale: &str) -> (r: Locale)
    ensures
        r == locale_of(locale.spec_bytes()),
{
    let b = StrSliceExecFns::as_bytes_vec(locale);
    if b.len() >= 2 && b[0] == 112 && b[1] == 116 {
        Locale::PtBr
    } else if b.len() >= 2 && b[0] == 102 && b[1] == 114 {
        Locale::Fr
    } else if b.len() >= 2 && b[0] == 105 && b[1] == 116 {
        Locale::It
    } else {
        Locale::EnUs
    }
}

/// The divide-by-zero message of each locale.
pub open spec fn msg_div_zero(loc: Locale) -> Seq<char> {
    match loc {
        Locale::EnUs => "Cannot divide by zero"@,
        Locale::PtBr => "N\u{e3}o \u{e9} poss\u{ed}vel dividir por zero"@,
        Locale::Fr => "Division par z\u{e9}ro impossible"@,
        Locale::It => "Impossibile dividere per zero"@,
    }
}

/// The localized message of a key in a given locale: the known keys are
/// translated, and an unknown key is returned as it is.
pub fn t_in(loc: Locale, key: &str) -> (r: String)
    ensures
        key.spec_bytes() == bname("error-division-by-zero"@) ==> r@ == msg_div_zero(loc),
        key.spec_bytes() != bname("error-division-by-zero"@) ==> r@ == key@,
{
    proof {
        reveal_strlit("error-division-by-zero");
    }
    let b = StrSliceExecFns::as_bytes_vec(key);
    let probe = {
        let w = "error-division-by-zero";
        proof {
            crate::utils::lemma_ascii_word(w);
        }
        StrSliceExecFns::as_bytes_vec(w)
    };
    if bytes_eq(&b, &probe) {
        match loc {
            Locale::EnUs => crate::errors::msg("Cannot divide by zero"),
            Locale::PtBr => crate::errors::msg(
                "N\u{e3}o \u{e9} poss\u{ed}vel dividir por zero",
            ),
            Locale::Fr => crate::errors::msg("Division par z\u{e9}ro impossible"),
            Locale::It => crate::errors::msg("Impossibile dividere per zero"),
        }
    } else {
        <String as vstd::string::StringExecFns>::from_str(key)
    }
}

/// The localized message of a key in the default locale.
pub fn t(key: &str) -> (r: String)
    ensures
        key.spec_bytes() == bname("error-division-by-zero"@) ==> r@ == msg_div_zero(Locale::EnUs),
        key.spec_bytes() != bname("error-division-by-zero"@) ==> r@ == key@,
{
    t_in(Locale::EnUs, key)
}

} // verus!

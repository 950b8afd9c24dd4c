//! Trusted boundary to `num_bigint`: arbitrary-precision integers.
//!
//! A `BigInt` is opaque to the verifier; `int_of` gives the mathematical
//! integer it holds, and each wrapper states what the called operation does
//! to that value.

use vstd::prelude::*;
use vstd::arithmetic::power::pow;

verus! {

#[verifier::external_type_specification]
#[verifier::external_body]
pub struct ExBigInt(num_bigint::BigInt);

/// The mathematical integer that a `num_bigint::BigInt` holds.
pub uninterp spec fn int_of(i: num_bigint::BigInt) -> int;

/// What bitwise AND returns on two's-complement arbitrary-precision integers.
pub uninterp spec fn and_of(a: int, b: int) -> int;

/// What bitwise OR returns on two's-complement arbitrary-precision integers.
pub uninterp spec fn or_of(a: int, b: int) -> int;

/// What bitwise XOR returns on two's-complement arbitrary-precision integers.
pub uninterp spec fn xor_of(a: int, b: int) -> int;

/// What `i64::rotate_left` returns, as a function of value and distance.
pub uninterp spec fn rol_of(v: i64, n: u32) -> i64;

/// What `i64::rotate_right` returns, as a function of value and distance.
pub uninterp spec fn ror_of(v: i64, n: u32) -> i64;

/// The decimal rendering of a mathematical integer, as `Display` writes it:
/// a minus sign for negative values, then the digits, most significant first,
/// with no leading zero except for zero itself.
pub open spec fn dec_of(n: int) -> Seq<char>
    decreases abs_int(n), (if n < 0 { 1int } else { 0int }),
{
    if n < 0 {
        seq!['-'].add(dec_of(-n))
    } else if n < 10 {
        seq![digit_char(n)]
    } else {
        dec_of(n / 10).push(digit_char(n % 10))
    }
}

pub open spec fn digit_char(d: int) -> char {
    if d == 0 { '0' }
    else if d == 1 { '1' }
    else if d == 2 { '2' }
    else if d == 3 { '3' }
    else if d == 4 { '4' }
    else if d == 5 { '5' }
    else if d == 6 { '6' }
    else if d == 7 { '7' }
    else if d == 8 { '8' }
    else { '9' }
}

pub open spec fn abs_int(a: int) -> int {
    if a >= 0 {
        a
    } else {
        -a
    }
}

/// Truncated division, as `Rust` integer division behaves: the quotient is
/// rounded toward zero.
pub open spec fn t_div(a: int, b: int) -> int {
    if (a >= 0) == (b >= 0) {
        abs_int(a) / abs_int(b)
    } else {
        -(abs_int(a) / abs_int(b))
    }
}

/// Truncated remainder, `a - b * t_div(a, b)`: it keeps the sign of the
/// dividend, as `%` behaves on Rust integers and on `BigInt`.
pub open spec fn t_rem(a: int, b: int) -> int {
    a - b * t_div(a, b)
}

/// Relies on `BigInt: From<u64>`: builds the integer with that value.
#[verifier::external_body]
pub(crate) fn int_from_u64(x: u64) -> (r: num_bigint::BigInt)
    ensures
        int_of(r) == x as int,
{
    num_bigint::BigInt::from(x)
}

/// Relies on `BigInt: From<i64>`: builds the integer with that value.
#[verifier::external_body]
pub(crate) fn int_from_i64(x: i64) -> (r: num_bigint::BigInt)
    ensures
        int_of(r) == x as int,
{
    num_bigint::BigInt::from(x)
}

/// Relies on `BigInt: Clone`: the copy holds the same value.
pub assume_specification[ <num_bigint::BigInt as Clone>::clone ](a: &num_bigint::BigInt) -> (r:
    num_bigint::BigInt)
    ensures
        int_of(r) == int_of(*a),
;

/// An owned copy with the same value.
pub(crate) fn int_clone(a: &num_bigint::BigInt) -> (r: num_bigint::BigInt)
    ensures
        int_of(r) == int_of(*a),
{
    a.clone()
}

/// Relies on `BigInt: Add`: exact arbitrary-precision addition.
#[verifier::external_body]
pub(crate) fn int_add(a: &num_bigint::BigInt, b: &num_bigint::BigInt) -> (r: num_bigint::BigInt)
    ensures
        int_of(r) == int_of(*a) + int_of(*b),
{
    a + b
}

/// Relies on `BigInt: Sub`: exact arbitrary-precision subtraction.
#[verifier::external_body]
pub(crate) fn int_sub(a: &num_bigint::BigInt, b: &num_bigint::BigInt) -> (r: num_bigint::BigInt)
    ensures
        int_of(r) == int_of(*a) - int_of(*b),
{
    a - b
}

/// Relies on `BigInt: Mul`: exact arbitrary-precision multiplication.
#[verifier::external_body]
pub(crate) fn int_mul(a: &num_bigint::BigInt, b: &num_bigint::BigInt) -> (r: num_bigint::BigInt)
    ensures
        int_of(r) == int_of(*a) * int_of(*b),
{
    a * b
}

/// Relies on `BigInt: Rem`: truncated remainder, as `%` on Rust integers.
/// The divisor must not be zero, for `BigInt`'s `%` panics on it.
#[verifier::external_body]
pub(crate) fn int_trem(a: &num_bigint::BigInt, b: &num_bigint::BigInt) -> (r: num_bigint::BigInt)
    requires
        int_of(*b) != 0,
    ensures
        int_of(r) == t_rem(int_of(*a), int_of(*b)),
{
    a % b
}

/// Relies on `BigInt: Neg`: exact negation.
#[verifier::external_body]
pub(crate) fn int_neg(a: &num_bigint::BigInt) -> (r: num_bigint::BigInt)
    ensures
        int_of(r) == -int_of(*a),
{
    -a
}

/// Relies on `Signed::abs` for `BigInt`: the absolute value.
#[verifier::external_body]
pub(crate) fn int_abs(a: &num_bigint::BigInt) -> (r: num_bigint::BigInt)
    ensures
        int_of(r) == abs_int(int_of(*a)),
{
    num_traits::Signed::abs(a)
}

/// Relies on `BigInt: PartialEq`: equality of the held values.
#[verifier::external_body]
pub(crate) fn int_eq(a: &num_bigint::BigInt, b: &num_bigint::BigInt) -> (r: bool)
    ensures
        r == (int_of(*a) == int_of(*b)),
{
    a == b
}

/// Relies on `BigInt: Ord`: ordering of the held values.
#[verifier::external_body]
pub(crate) fn int_le(a: &num_bigint::BigInt, b: &num_bigint::BigInt) -> (r: bool)
    ensures
        r == (int_of(*a) <= int_of(*b)),
{
    a <= b
}

/// Relies on `ToPrimitive::to_u32` for `BigInt`: succeeds exactly on values
/// in `u32`'s range, returning that value.
#[verifier::external_body]
pub(crate) fn int_to_u32(a: &num_bigint::BigInt) -> (r: Option<u32>)
    ensures
        r is Some <==> 0 <= int_of(*a) <= u32::MAX,
        r matches Some(v) ==> v as int == int_of(*a),
{
    num_traits::ToPrimitive::to_u32(a)
}

/// Relies on `ToPrimitive::to_i64` for `BigInt`: succeeds exactly on values
/// in `i64`'s range, returning that value.
#[verifier::external_body]
pub(crate) fn int_to_i64(a: &num_bigint::BigInt) -> (r: Option<i64>)
    ensures
        r is Some <==> i64::MIN <= int_of(*a) <= i64::MAX,
        r matches Some(v) ==> v as int == int_of(*a),
{
    num_traits::ToPrimitive::to_i64(a)
}

/// Relies on `ToPrimitive::to_usize` for `BigInt`: succeeds exactly on
/// values in `usize`'s range, returning that value.
#[verifier::external_body]
pub(crate) fn int_to_usize(a: &num_bigint::BigInt) -> (r: Option<usize>)
    ensures
        r is Some <==> 0 <= int_of(*a) <= usize::MAX,
        r matches Some(v) ==> v as int == int_of(*a),
{
    num_traits::ToPrimitive::to_usize(a)
}

/// Relies on `BigInt::pow(u32)`: exact integer exponentiation.
#[verifier::external_body]
pub(crate) fn int_pow_u32(a: &num_bigint::BigInt, e: u32) -> (r: num_bigint::BigInt)
    ensures
        int_of(r) == pow(int_of(*a), e as nat),
{
    num_traits::Pow::pow(a, e)
}

/// Relies on `BigInt: BitAnd`, two's-complement AND on sign-magnitude values.
#[verifier::external_body]
pub(crate) fn int_and(a: &num_bigint::BigInt, b: &num_bigint::BigInt) -> (r: num_bigint::BigInt)
    ensures
        int_of(r) == and_of(int_of(*a), int_of(*b)),
{
    a & b
}

/// Relies on `BigInt: BitOr`, two's-complement OR on sign-magnitude values.
#[verifier::external_body]
pub(crate) fn int_or(a: &num_bigint::BigInt, b: &num_bigint::BigInt) -> (r: num_bigint::BigInt)
    ensures
        int_of(r) == or_of(int_of(*a), int_of(*b)),
{
    a | b
}

/// Relies on `BigInt: BitXor`, two's-complement XOR on sign-magnitude values.
#[verifier::external_body]
pub(crate) fn int_xor(a: &num_bigint::BigInt, b: &num_bigint::BigInt) -> (r: num_bigint::BigInt)
    ensures
        int_of(r) == xor_of(int_of(*a), int_of(*b)),
{
    a ^ b
}

/// Relies on `BigInt: Not`, the two's-complement identity `!a == -a - 1`.
#[verifier::external_body]
pub(crate) fn int_not(a: &num_bigint::BigInt) -> (r: num_bigint::BigInt)
    ensures
        int_of(r) == -int_of(*a) - 1,
{
    !a
}

/// Relies on `BigInt: Shl<usize>`: an exact multiplication by a power of two.
#[verifier::external_body]
pub(crate) fn int_shl(a: &num_bigint::BigInt, s: usize) -> (r: num_bigint::BigInt)
    ensures
        int_of(r) == int_of(*a) * pow(2, s as nat),
{
    a << s
}

/// Relies on `BigInt: Shr<usize>`: an arithmetic shift that rounds toward
/// negative infinity, that is, a flooring division by a power of two.
#[verifier::external_body]
pub(crate) fn int_shr(a: &num_bigint::BigInt, s: usize) -> (r: num_bigint::BigInt)
    ensures
        int_of(r) == int_of(*a) / pow(2, s as nat),
{
    a >> s
}

/// Relies on `i64::rotate_left`: a function of value and distance alone.
#[verifier::external_body]
pub(crate) fn i64_rotate_left(v: i64, n: u32) -> (r: i64)
    ensures
        r == rol_of(v, n),
{
    v.rotate_left(n)
}

/// Relies on `i64::rotate_right`: a function of value and distance alone.
#[verifier::external_body]
pub(crate) fn i64_rotate_right(v: i64, n: u32) -> (r: i64)
    ensures
        r == ror_of(v, n),
{
    v.rotate_right(n)
}

/// Relies on `Display` for `BigInt`: writes the decimal digits, with a
/// leading minus sign for negative values.
#[verifier::external_body]
pub(crate) fn int_to_string(a: &num_bigint::BigInt) -> (r: String)
    ensures
        r@ == dec_of(int_of(*a)),
{
    a.to_string()
}

} // verus!

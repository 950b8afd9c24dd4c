//! Trusted boundary to `num_rational`: exact fractions of `BigInt`s.
//!
//! A `BigRational` is opaque to the verifier; `rat_num` and `rat_den` give
//! the numerator and denominator it holds. The crate keeps every value it
//! constructs in canonical form: the denominator positive and the fraction
//! fully reduced, which `norm_q` describes.

use vstd::prelude::*;
use crate::bigint::{abs_int, t_rem, int_of};

verus! {

#[verifier::external_type_specification]
#[verifier::external_body]
#[verifier::reject_recursive_types(T)]
pub struct ExRatio<T>(num_rational::Ratio<T>);

/// The numerator that a `BigRational` holds.
pub uninterp spec fn rat_num(r: num_rational::BigRational) -> int;

/// The denominator that a `BigRational` holds.
pub uninterp spec fn rat_den(r: num_rational::BigRational) -> int;

/// Euclid's greatest common divisor on non-negative arguments.
pub open spec fn gcd(a: int, b: int) -> int
    decreases b,
{
    if b <= 0 {
        a
    } else {
        gcd(b, (a % b))
    }
}

/// The canonical form of the fraction `n / d`: the sign moved to the
/// numerator and both parts divided by their greatest common divisor, as
/// `num_rational` keeps every `Ratio` it constructs.
pub open spec fn norm_q(n: int, d: int) -> (int, int) {
    let n1 = if d < 0 { -n } else { n };
    let d1 = abs_int(d);
    if n1 == 0 {
        (0, 1)
    } else {
        let g = gcd(abs_int(n1), d1);
        (n1 / g, d1 / g)
    }
}

/// Euclid's algorithm stays positive and never exceeds a positive second
/// argument.
pub proof fn lemma_gcd_props(a: int, b: int)
    requires
        a >= 0,
        b >= 0,
    ensures
        gcd(a, b) >= 0,
        b == 0 ==> gcd(a, b) == a,
        b > 0 ==> 0 < gcd(a, b) <= b,
    decreases b,
{
    if b > 0 {
        vstd::arithmetic::div_mod::lemma_mod_bound(a, b);
        lemma_gcd_props(b, a % b);
    }
}

/// The denominators that the arithmetic wrappers build are products of
/// non-zero factors, so their canonical forms keep a positive denominator.
pub proof fn lemma_norm_den_pos_mul(n: int, a: int, b: int)
    requires
        a != 0,
        b != 0,
    ensures
        norm_q(n, a * b).1 > 0,
{
    assert(a * b != 0) by (nonlinear_arith)
        requires
            a != 0,
            b != 0,
    ;
    lemma_norm_den_pos(n, a * b);
}

/// A canonical fraction keeps a positive denominator.
pub proof fn lemma_norm_den_pos(n: int, d: int)
    requires
        d != 0,
    ensures
        norm_q(n, d).1 > 0,
{
    let n1 = if d < 0 {
        -n
    } else {
        n
    };
    let d1 = abs_int(d);
    if n1 != 0 {
        let g = gcd(abs_int(n1), d1);
        lemma_gcd_props(abs_int(n1), d1);
        vstd::arithmetic::div_mod::lemma_fundamental_div_mod(d1, g);
        vstd::arithmetic::div_mod::lemma_mod_bound(d1, g);
        if d1 / g <= 0 {
            assert(g * (d1 / g) <= 0) by (nonlinear_arith)
                requires
                    g > 0,
                    d1 / g <= 0,
            ;
            assert(false);
        }
    }
}

/// Relies on `BigRational::new`: reduces the fraction, moves the sign to
/// the numerator, and panics on a zero denominator, which `requires` rules
/// out.
#[verifier::external_body]
pub(crate) fn rq_new(n: num_bigint::BigInt, d: num_bigint::BigInt) -> (r: num_rational::BigRational)
    requires
        int_of(d) != 0,
    ensures
        (rat_num(r), rat_den(r)) == norm_q(int_of(n), int_of(d)),
{
    num_rational::BigRational::new(n, d)
}

/// Relies on `BigRational::from_integer`: the fraction `n / 1`.
#[verifier::external_body]
pub(crate) fn rq_from_int(n: num_bigint::BigInt) -> (r: num_rational::BigRational)
    ensures
        rat_num(r) == int_of(n),
        rat_den(r) == 1,
{
    num_rational::BigRational::from_integer(n)
}

/// Relies on `Ratio<T>: Clone`: the generic signature says nothing, so the
/// contracted copy below goes through the fraction's own wrapper.
pub assume_specification<T: Clone>[ <num_rational::Ratio<T> as Clone>::clone ](
    a: &num_rational::Ratio<T>,
) -> num_rational::Ratio<T>
;

/// Relies on `BigRational: Clone`: the copy holds the same fraction.
#[verifier::external_body]
pub(crate) fn rq_clone(a: &num_rational::BigRational) -> (r: num_rational::BigRational)
    ensures
        rat_num(r) == rat_num(*a),
        rat_den(r) == rat_den(*a),
{
    a.clone()
}

/// Relies on `BigRational: Add`: the reduced form of the exact sum.
#[verifier::external_body]
pub(crate) fn rq_add(a: &num_rational::BigRational, b: &num_rational::BigRational) -> (r:
    num_rational::BigRational)
    ensures
        (rat_num(r), rat_den(r)) == norm_q(
            rat_num(*a) * rat_den(*b) + rat_num(*b) * rat_den(*a),
            rat_den(*a) * rat_den(*b),
        ),
{
    a + b
}

/// Relies on `BigRational: Sub`: the reduced form of the exact difference.
#[verifier::external_body]
pub(crate) fn rq_sub(a: &num_rational::BigRational, b: &num_rational::BigRational) -> (r:
    num_rational::BigRational)
    ensures
        (rat_num(r), rat_den(r)) == norm_q(
            rat_num(*a) * rat_den(*b) - rat_num(*b) * rat_den(*a),
            rat_den(*a) * rat_den(*b),
        ),
{
    a - b
}

/// Relies on `BigRational: Mul`: the reduced form of the exact product.
#[verifier::external_body]
pub(crate) fn rq_mul(a: &num_rational::BigRational, b: &num_rational::BigRational) -> (r:
    num_rational::BigRational)
    ensures
        (rat_num(r), rat_den(r)) == norm_q(
            rat_num(*a) * rat_num(*b),
            rat_den(*a) * rat_den(*b),
        ),
{
    a * b
}

/// Relies on `BigRational: Div`: the reduced form of the exact quotient.
/// The divisor must not be zero, for the division panics on it.
#[verifier::external_body]
pub(crate) fn rq_div(a: &num_rational::BigRational, b: &num_rational::BigRational) -> (r:
    num_rational::BigRational)
    requires
        rat_num(*b) != 0,
    ensures
        (rat_num(r), rat_den(r)) == norm_q(
            rat_num(*a) * rat_den(*b),
            rat_den(*a) * rat_num(*b),
        ),
{
    a / b
}

/// Relies on `BigRational: Rem`: the remainder after truncated division,
/// lifted to fractions over the common denominator. The divisor must not be
/// zero, for the remainder panics on it.
#[verifier::external_body]
pub(crate) fn rq_rem(a: &num_rational::BigRational, b: &num_rational::BigRational) -> (r:
    num_rational::BigRational)
    requires
        rat_num(*b) != 0,
    ensures
        (rat_num(r), rat_den(r)) == norm_q(
            t_rem(rat_num(*a) * rat_den(*b), rat_num(*b) * rat_den(*a)),
            rat_den(*a) * rat_den(*b),
        ),
{
    a % b
}

/// Relies on `BigRational: Neg`: negates the numerator of a canonical value
/// and keeps it canonical.
#[verifier::external_body]
pub(crate) fn rq_neg(a: &num_rational::BigRational) -> (r: num_rational::BigRational)
    ensures
        rat_num(r) == -rat_num(*a),
        rat_den(r) == rat_den(*a),
{
    -a
}

/// Relies on `Signed::abs` for `BigRational`: the numerator's absolute
/// value over the same denominator. The denominator must be positive, as
/// every value this crate constructs keeps it; on a raw value with a
/// non-positive denominator the call would not behave this way.
#[verifier::external_body]
pub(crate) fn rq_abs(a: &num_rational::BigRational) -> (r: num_rational::BigRational)
    requires
        rat_den(*a) > 0,
    ensures
        rat_num(r) == abs_int(rat_num(*a)),
        rat_den(r) == rat_den(*a),
{
    num_traits::Signed::abs(a)
}

/// Relies on `BigRational::numer`: the stored numerator.
#[verifier::external_body]
pub(crate) fn rq_numer(a: &num_rational::BigRational) -> (r: num_bigint::BigInt)
    ensures
        int_of(r) == rat_num(*a),
{
    a.numer().clone()
}

/// Relies on `BigRational::denom`: the stored denominator.
#[verifier::external_body]
pub(crate) fn rq_denom(a: &num_rational::BigRational) -> (r: num_bigint::BigInt)
    ensures
        int_of(r) == rat_den(*a),
{
    a.denom().clone()
}

/// Relies on `BigRational::is_integer`: whether the stored denominator is
/// one.
#[verifier::external_body]
pub(crate) fn rq_is_integer(a: &num_rational::BigRational) -> (r: bool)
    ensures
        r == (rat_den(*a) == 1),
{
    a.is_integer()
}

} // verus!

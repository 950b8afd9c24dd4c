//! The numeric tower: a closed domain of four kinds ordered by promotion,
//! Integer < Rational < Float < Complex, with exact arbitrary-precision
//! arithmetic on the first two and IEEE double arithmetic on the last two.

use vstd::prelude::*;
use vstd::arithmetic::power::pow as int_exp;
use crate::bigint::{
    abs_int, dec_of, int_add, int_clone, int_eq, int_from_u64, int_le, int_mul, int_neg, int_of,
    int_pow_u32, int_sub, int_to_u32, int_trem, t_rem,
};
use crate::errors::{EngineError, ErrV};
use crate::floats::{
    add_bits, big_to_f, c_dup, cadd_bits, cdiv_bits, cmul_bits, cpow_bits, csub_bits, cx_add,
    cx_div, cx_mul, cx_neg, cx_powc, cx_sub, div_bits, eq_bits, f_of_int, f_of_rat, f_zero, fl_add,
    fl_div, fl_eq, fl_lt, fl_mul, fl_neg, fl_powf, fl_rem, fl_sub, im_bits, inf_bits, lt_bits,
    mul_bits, pow_bits, re_bits, rem_bits, sign_mask, sub_bits,
};
use crate::rational::{
    norm_q, rat_den, rat_num, rq_add, rq_clone, rq_denom, rq_div, rq_from_int, rq_mul, rq_neg,
    rq_new, rq_numer, rq_rem, rq_sub,
};

verus! {

/// The mathematical view of a `Number`: an exact integer, an exact
/// fraction, or the IEEE-754 bit patterns of a double or of a complex pair.
pub enum NumV {
    Int { i: int },
    Rat { n: int, d: int },
    Fl { b: u64 },
    Cx { re: u64, im: u64 },
}

/// A value of the numeric tower.
#[derive(Debug, Clone)]
pub enum Number {
    Integer(num_bigint::BigInt),
    Rational(num_rational::BigRational),
    Float(num_complex::Complex64),
    Complex(num_complex::Complex64),
}

impl View for Number {
    type V = NumV;

    open spec fn view(&self) -> NumV {
        match self {
            Number::Integer(i) => NumV::Int { i: int_of(*i) },
            Number::Rational(q) => NumV::Rat { n: rat_num(*q), d: rat_den(*q) },
            Number::Float(c) => NumV::Fl { b: re_bits(*c) },
            Number::Complex(c) => NumV::Cx { re: re_bits(*c), im: im_bits(*c) },
        }
    }
}

impl Number {
    /// A stored rational keeps its denominator positive, and a stored float
    /// keeps its imaginary component at positive zero.
    pub open spec fn wf(&self) -> bool {
        match self {
            Number::Rational(q) => rat_den(*q) > 0,
            Number::Float(c) => im_bits(*c) == 0,
            _ => true,
        }
    }
}

/// The height of a value in the promotion order.
pub open spec fn lvl(v: NumV) -> int {
    match v {
        NumV::Int { .. } => 0,
        NumV::Rat { .. } => 1,
        NumV::Fl { .. } => 2,
        NumV::Cx { .. } => 3,
    }
}

/// The bit pattern a value takes when promoted to the float kind.
pub open spec fn fl_part(v: NumV) -> u64 {
    match v {
        NumV::Int { i } => f_of_int(i),
        NumV::Rat { n, d } => f_of_rat(n, d),
        NumV::Fl { b } => b,
        NumV::Cx { re, .. } => re,
    }
}

/// The component bit patterns a value takes when promoted to the complex
/// kind.
pub open spec fn cx_parts(v: NumV) -> (u64, u64) {
    match v {
        NumV::Cx { re, im } => (re, im),
        _ => (fl_part(v), 0),
    }
}

pub open spec fn rat_v(p: (int, int)) -> NumV {
    NumV::Rat { n: p.0, d: p.1 }
}

pub open spec fn cx_v(p: (u64, u64)) -> NumV {
    NumV::Cx { re: p.0, im: p.1 }
}

/// A value raised to the kind of height `l`; it is unchanged when already
/// at or above that height.
pub open spec fn to_lvl(v: NumV, l: int) -> NumV {
    if l <= lvl(v) {
        v
    } else if l == 1 {
        match v {
            NumV::Int { i } => NumV::Rat { n: i, d: 1 },
            _ => v,
        }
    } else if l == 2 {
        NumV::Fl { b: fl_part(v) }
    } else {
        cx_v(cx_parts(v))
    }
}

/// The pairwise promotion rule: both operands rise to the higher kind.
pub open spec fn promote_spec(a: NumV, b: NumV) -> (NumV, NumV) {
    let l = if lvl(a) >= lvl(b) {
        lvl(a)
    } else {
        lvl(b)
    };
    (to_lvl(a, l), to_lvl(b, l))
}

/// Exact addition on integers and rationals; IEEE addition above them.
pub open spec fn add_spec(a: NumV, b: NumV) -> NumV {
    let (x, y) = promote_spec(a, b);
    match (x, y) {
        (NumV::Int { i: i1 }, NumV::Int { i: i2 }) => NumV::Int { i: i1 + i2 },
        (NumV::Rat { n: n1, d: d1 }, NumV::Rat { n: n2, d: d2 }) => rat_v(
            norm_q(n1 * d2 + n2 * d1, d1 * d2),
        ),
        (NumV::Fl { b: b1 }, NumV::Fl { b: b2 }) => NumV::Fl { b: add_bits(b1, b2) },
        (NumV::Cx { re: r1, im: m1 }, NumV::Cx { re: r2, im: m2 }) => cx_v(
            cadd_bits(r1, m1, r2, m2),
        ),
        _ => arbitrary(),
    }
}

/// Exact subtraction on integers and rationals; IEEE subtraction above.
pub open spec fn sub_spec(a: NumV, b: NumV) -> NumV {
    let (x, y) = promote_spec(a, b);
    match (x, y) {
        (NumV::Int { i: i1 }, NumV::Int { i: i2 }) => NumV::Int { i: i1 - i2 },
        (NumV::Rat { n: n1, d: d1 }, NumV::Rat { n: n2, d: d2 }) => rat_v(
            norm_q(n1 * d2 - n2 * d1, d1 * d2),
        ),
        (NumV::Fl { b: b1 }, NumV::Fl { b: b2 }) => NumV::Fl { b: sub_bits(b1, b2) },
        (NumV::Cx { re: r1, im: m1 }, NumV::Cx { re: r2, im: m2 }) => cx_v(
            csub_bits(r1, m1, r2, m2),
        ),
        _ => arbitrary(),
    }
}

/// Exact multiplication on integers and rationals; IEEE multiplication
/// above.
pub open spec fn mul_spec(a: NumV, b: NumV) -> NumV {
    let (x, y) = promote_spec(a, b);
    match (x, y) {
        (NumV::Int { i: i1 }, NumV::Int { i: i2 }) => NumV::Int { i: i1 * i2 },
        (NumV::Rat { n: n1, d: d1 }, NumV::Rat { n: n2, d: d2 }) => rat_v(
            norm_q(n1 * n2, d1 * d2),
        ),
        (NumV::Fl { b: b1 }, NumV::Fl { b: b2 }) => NumV::Fl { b: mul_bits(b1, b2) },
        (NumV::Cx { re: r1, im: m1 }, NumV::Cx { re: r2, im: m2 }) => cx_v(
            cmul_bits(r1, m1, r2, m2),
        ),
        _ => arbitrary(),
    }
}

/// Division. Integer by integer gives an exact rational, except that a zero
/// divisor gives the float that IEEE division by positive zero gives; the
/// same policy holds for rationals. Floats and complexes divide by IEEE
/// rules.
pub open spec fn div_spec(a: NumV, b: NumV) -> NumV {
    match (a, b) {
        (NumV::Int { i: i1 }, NumV::Int { i: i2 }) => if i2 == 0 {
            NumV::Fl { b: div_bits(f_of_int(i1), 0) }
        } else {
            rat_v(norm_q(i1, i2))
        },
        _ => {
            let (x, y) = promote_spec(a, b);
            match (x, y) {
                (NumV::Rat { n: n1, d: d1 }, NumV::Rat { n: n2, d: d2 }) => if n2 == 0 {
                    NumV::Fl { b: div_bits(f_of_rat(n1, d1), 0) }
                } else {
                    rat_v(norm_q(n1 * d2, d1 * n2))
                },
                (NumV::Fl { b: b1 }, NumV::Fl { b: b2 }) => NumV::Fl { b: div_bits(b1, b2) },
                (NumV::Cx { re: r1, im: m1 }, NumV::Cx { re: r2, im: m2 }) => cx_v(
                    cdiv_bits(r1, m1, r2, m2),
                ),
                _ => arbitrary(),
            }
        },
    }
}

/// Remainder, under the same promotion rule. A zero divisor follows the
/// division policy and gives the float that IEEE remainder by zero gives,
/// and the remainder of two complexes is the float NaN that zero divided by
/// zero gives.
pub open spec fn rem_spec(a: NumV, b: NumV) -> NumV {
    let (x, y) = promote_spec(a, b);
    match (x, y) {
        (NumV::Int { i: i1 }, NumV::Int { i: i2 }) => if i2 == 0 {
            NumV::Fl { b: rem_bits(f_of_int(i1), 0) }
        } else {
            NumV::Int { i: t_rem(i1, i2) }
        },
        (NumV::Rat { n: n1, d: d1 }, NumV::Rat { n: n2, d: d2 }) => if n2 == 0 {
            NumV::Fl { b: rem_bits(f_of_rat(n1, d1), 0) }
        } else {
            rat_v(norm_q(t_rem(n1 * d2, n2 * d1), d1 * d2))
        },
        (NumV::Fl { b: b1 }, NumV::Fl { b: b2 }) => NumV::Fl { b: rem_bits(b1, b2) },
        (NumV::Cx { .. }, NumV::Cx { .. }) => NumV::Fl { b: div_bits(0, 0) },
        _ => arbitrary(),
    }
}

/// Negation is kind-preserving; on floats and complexes it flips the IEEE
/// sign bits exactly.
pub open spec fn neg_spec(a: NumV) -> NumV {
    match a {
        NumV::Int { i } => NumV::Int { i: -i },
        NumV::Rat { n, d } => NumV::Rat { n: -n, d },
        NumV::Fl { b } => NumV::Fl { b: b ^ sign_mask() },
        NumV::Cx { re, im } => NumV::Cx { re: re ^ sign_mask(), im: im ^ sign_mask() },
    }
}

/// Power. Integer bases with integer exponents in `u32` range are exact:
/// non-negative exponents give integers, negative ones give the exact
/// reciprocal, with a zero base giving the IEEE infinity. Exponents beyond
/// that range fall back to `powf`, and every other pairing promotes both
/// operands to complex and uses complex power.
pub open spec fn pow_spec(a: NumV, b: NumV) -> NumV {
    match (a, b) {
        (NumV::Int { i: base }, NumV::Int { i: e }) => if e >= 0 {
            if e <= u32::MAX {
                NumV::Int { i: int_exp(base, e as nat) }
            } else {
                NumV::Fl { b: pow_bits(f_of_int(base), f_of_int(e)) }
            }
        } else {
            if -e <= u32::MAX {
                let den = int_exp(base, (-e) as nat);
                if den == 0 {
                    NumV::Fl { b: inf_bits() }
                } else {
                    rat_v(norm_q(1, den))
                }
            } else {
                NumV::Fl { b: pow_bits(f_of_int(base), f_of_int(e)) }
            }
        },
        _ => {
            let p = cx_parts(a);
            let q = cx_parts(b);
            cx_v(cpow_bits(p.0, p.1, q.0, q.1))
        },
    }
}

/// The factorial of a non-negative integer.
pub open spec fn fact(n: int) -> int
    decreases n,
{
    if n <= 0 {
        1
    } else {
        n * fact(n - 1)
    }
}

/// Factorial is defined on non-negative integers alone; everything else is
/// a domain error.
pub open spec fn factorial_spec(v: NumV) -> Result<NumV, ErrV> {
    match v {
        NumV::Int { i } => if i >= 0 {
            Ok(NumV::Int { i: fact(i) })
        } else {
            Err(ErrV::DomainError { msg: "Factorial of negative integer"@ })
        },
        _ => Err(ErrV::DomainError { msg: "Factorial only implemented for Integers currently"@ }),
    }
}

/// Comparison after promotion: exact on integers and rationals, IEEE on
/// floats, and undefined as soon as a complex is involved.
pub open spec fn cmp_spec(a: NumV, b: NumV) -> Option<core::cmp::Ordering> {
    let (x, y) = promote_spec(a, b);
    match (x, y) {
        (NumV::Int { i: i1 }, NumV::Int { i: i2 }) => if i1 < i2 {
            Some(core::cmp::Ordering::Less)
        } else if i1 == i2 {
            Some(core::cmp::Ordering::Equal)
        } else {
            Some(core::cmp::Ordering::Greater)
        },
        (NumV::Rat { n: n1, d: d1 }, NumV::Rat { n: n2, d: d2 }) => if n1 * d2 < n2 * d1 {
            Some(core::cmp::Ordering::Less)
        } else if n1 * d2 == n2 * d1 {
            Some(core::cmp::Ordering::Equal)
        } else {
            Some(core::cmp::Ordering::Greater)
        },
        (NumV::Fl { b: b1 }, NumV::Fl { b: b2 }) => if lt_bits(b1, b2) {
            Some(core::cmp::Ordering::Less)
        } else if lt_bits(b2, b1) {
            Some(core::cmp::Ordering::Greater)
        } else if eq_bits(b1, b2) {
            Some(core::cmp::Ordering::Equal)
        } else {
            None
        },
        (NumV::Cx { .. }, NumV::Cx { .. }) => None,
        _ => arbitrary(),
    }
}

/// Whether a value counts as true: zero of any kind is false, everything
/// else, NaN included, is true.
pub open spec fn truthy(v: NumV) -> bool {
    match v {
        NumV::Int { i } => i != 0,
        NumV::Rat { n, .. } => n != 0,
        NumV::Fl { b } => !crate::floats::is_zero_bits(b),
        NumV::Cx { re, im } => !(crate::floats::is_zero_bits(re) && crate::floats::is_zero_bits(
            im,
        )),
    }
}

/// Promotion keeps well-formedness and lands exactly at the requested
/// height.
pub proof fn lemma_to_lvl(v: NumV, l: int)
    requires
        v_wf(v),
        lvl(v) <= l <= 3,
    ensures
        lvl(to_lvl(v, l)) == l,
        v_wf(to_lvl(v, l)),
{
}

/// Well-formedness of a view: a rational's denominator is positive.
pub open spec fn v_wf(v: NumV) -> bool {
    match v {
        NumV::Rat { d, .. } => d > 0,
        _ => true,
    }
}

impl Number {
    pub open spec fn lvl_of(&self) -> int {
        lvl(self@)
    }

    /// The height of this value in the promotion order.
    pub fn level(&self) -> (l: u8)
        ensures
            l as int == lvl(self@),
    {
        match self {
            Number::Integer(_) => 0,
            Number::Rational(_) => 1,
            Number::Float(_) => 2,
            Number::Complex(_) => 3,
        }
    }

    /// An owned copy with the same value.
    pub fn dup(&self) -> (r: Number)
        ensures
            r@ == self@,
            self.wf() ==> r.wf(),
    {
        match self {
            Number::Integer(i) => Number::Integer(int_clone(i)),
            Number::Rational(q) => Number::Rational(rq_clone(q)),
            Number::Float(c) => Number::Float(c_dup(c)),
            Number::Complex(c) => Number::Complex(c_dup(c)),
        }
    }

    /// The complex payload this value promotes to.
    pub fn to_complex(&self) -> (r: num_complex::Complex64)
        requires
            self.wf(),
        ensures
            (re_bits(r), im_bits(r)) == cx_parts(self@),
    {
        match self {
            Number::Integer(i) => big_to_f(i),
            Number::Rational(q) => crate::floats::rat_to_f(q),
            Number::Float(c) => c_dup(c),
            Number::Complex(c) => c_dup(c),
        }
    }
}

/// A value raised to the kind of height `l`.
fn raise(v: Number, l: u8) -> (r: Number)
    requires
        v.wf(),
        lvl(v@) <= l <= 3,
    ensures
        r@ == to_lvl(v@, l as int),
        r.wf(),
{
    if l == v.level() {
        v
    } else {
        match v {
            Number::Integer(i) => {
                if l == 1 {
                    Number::Rational(rq_from_int(i))
                } else if l == 2 {
                    Number::Float(big_to_f(&i))
                } else {
                    Number::Complex(big_to_f(&i))
                }
            },
            Number::Rational(q) => {
                if l == 2 {
                    Number::Float(crate::floats::rat_to_f(&q))
                } else {
                    Number::Complex(crate::floats::rat_to_f(&q))
                }
            },
            Number::Float(c) => Number::Complex(c_dup(&c)),
            Number::Complex(c) => Number::Complex(c),
        }
    }
}

/// Both operands raised to the higher of their two kinds.
pub fn promote_pair(a: Number, b: Number) -> (r: (Number, Number))
    requires
        a.wf(),
        b.wf(),
    ensures
        (r.0@, r.1@) == promote_spec(a@, b@),
        r.0.wf(),
        r.1.wf(),
        lvl(r.0@) == lvl(r.1@),
{
    let la = a.level();
    let lb = b.level();
    let m = if la >= lb {
        la
    } else {
        lb
    };
    proof {
        lemma_to_lvl(a@, m as int);
        lemma_to_lvl(b@, m as int);
    }
    (raise(a, m), raise(b, m))
}

impl Number {
    /// Addition under promotion: exact below the float kind.
    pub fn add(self, rhs: Number) -> (r: Number)
        requires
            self.wf(),
            rhs.wf(),
        ensures
            r@ == add_spec(self@, rhs@),
            r.wf(),
    {
        let ghost av = self@;
        let ghost bv = rhs@;
        let (x, y) = promote_pair(self, rhs);
        match (x, y) {
            (Number::Integer(a), Number::Integer(b)) => Number::Integer(int_add(&a, &b)),
            (Number::Rational(a), Number::Rational(b)) => {
                proof {
                    crate::rational::lemma_norm_den_pos_mul(
                        rat_num(a) * rat_den(b) + rat_num(b) * rat_den(a),
                        rat_den(a),
                        rat_den(b),
                    );
                }
                Number::Rational(rq_add(&a, &b))
            },
            (Number::Float(a), Number::Float(b)) => Number::Float(fl_add(&a, &b)),
            (Number::Complex(a), Number::Complex(b)) => Number::Complex(cx_add(&a, &b)),
            _ => {
                proof {
                    assert(false);
                }
                vstd::pervasive::unreached()
            },
        }
    }

    /// Subtraction under promotion: exact below the float kind.
    pub fn sub(self, rhs: Number) -> (r: Number)
        requires
            self.wf(),
            rhs.wf(),
        ensures
            r@ == sub_spec(self@, rhs@),
            r.wf(),
    {
        let (x, y) = promote_pair(self, rhs);
        match (x, y) {
            (Number::Integer(a), Number::Integer(b)) => Number::Integer(int_sub(&a, &b)),
            (Number::Rational(a), Number::Rational(b)) => {
                proof {
                    crate::rational::lemma_norm_den_pos_mul(
                        rat_num(a) * rat_den(b) - rat_num(b) * rat_den(a),
                        rat_den(a),
                        rat_den(b),
                    );
                }
                Number::Rational(rq_sub(&a, &b))
            },
            (Number::Float(a), Number::Float(b)) => Number::Float(fl_sub(&a, &b)),
            (Number::Complex(a), Number::Complex(b)) => Number::Complex(cx_sub(&a, &b)),
            _ => {
                proof {
                    assert(false);
                }
                vstd::pervasive::unreached()
            },
        }
    }

    /// Multiplication under promotion: exact below the float kind.
    pub fn mul(self, rhs: Number) -> (r: Number)
        requires
            self.wf(),
            rhs.wf(),
        ensures
            r@ == mul_spec(self@, rhs@),
            r.wf(),
    {
        let (x, y) = promote_pair(self, rhs);
        match (x, y) {
            (Number::Integer(a), Number::Integer(b)) => Number::Integer(int_mul(&a, &b)),
            (Number::Rational(a), Number::Rational(b)) => {
                proof {
                    crate::rational::lemma_norm_den_pos_mul(
                        rat_num(a) * rat_num(b),
                        rat_den(a),
                        rat_den(b),
                    );
                }
                Number::Rational(rq_mul(&a, &b))
            },
            (Number::Float(a), Number::Float(b)) => Number::Float(fl_mul(&a, &b)),
            (Number::Complex(a), Number::Complex(b)) => Number::Complex(cx_mul(&a, &b)),
            _ => {
                proof {
                    assert(false);
                }
                vstd::pervasive::unreached()
            },
        }
    }

    /// Division. Integer by integer yields an exact rational; a zero divisor
    /// yields the float of IEEE division by zero instead of an error.
    pub fn div(self, rhs: Number) -> (r: Number)
        requires
            self.wf(),
            rhs.wf(),
        ensures
            r@ == div_spec(self@, rhs@),
            r.wf(),
    {
        match (self, rhs) {
            (Number::Integer(a), Number::Integer(b)) => {
                let zero = int_from_u64(0);
                if int_eq(&b, &zero) {
                    Number::Float(fl_div(&big_to_f(&a), &f_zero()))
                } else {
                    proof {
                        crate::rational::lemma_norm_den_pos(int_of(a), int_of(b));
                    }
                    Number::Rational(rq_new(a, b))
                }
            },
            (s, t) => {
                let (x, y) = promote_pair(s, t);
                match (x, y) {
                    (Number::Rational(a), Number::Rational(b)) => {
                        let zero = int_from_u64(0);
                        let bn = rq_numer(&b);
                        if int_eq(&bn, &zero) {
                            Number::Float(fl_div(&crate::floats::rat_to_f(&a), &f_zero()))
                        } else {
                            proof {
                                crate::rational::lemma_norm_den_pos_mul(
                                    rat_num(a) * rat_den(b),
                                    rat_den(a),
                                    rat_num(b),
                                );
                            }
                            Number::Rational(rq_div(&a, &b))
                        }
                    },
                    (Number::Float(a), Number::Float(b)) => Number::Float(fl_div(&a, &b)),
                    (Number::Complex(a), Number::Complex(b)) => Number::Complex(cx_div(&a, &b)),
                    _ => {
                        proof {
                            assert(false);
                        }
                        vstd::pervasive::unreached()
                    },
                }
            },
        }
    }

    /// Remainder under promotion. A zero divisor follows the division
    /// policy and yields an IEEE float; two complexes yield a float NaN.
    pub fn rem(self, rhs: Number) -> (r: Number)
        requires
            self.wf(),
            rhs.wf(),
        ensures
            r@ == rem_spec(self@, rhs@),
            r.wf(),
    {
        let (x, y) = promote_pair(self, rhs);
        match (x, y) {
            (Number::Integer(a), Number::Integer(b)) => {
                let zero = int_from_u64(0);
                if int_eq(&b, &zero) {
                    Number::Float(fl_rem(&big_to_f(&a), &f_zero()))
                } else {
                    Number::Integer(int_trem(&a, &b))
                }
            },
            (Number::Rational(a), Number::Rational(b)) => {
                let zero = int_from_u64(0);
                let bn = rq_numer(&b);
                if int_eq(&bn, &zero) {
                    Number::Float(fl_rem(&crate::floats::rat_to_f(&a), &f_zero()))
                } else {
                    proof {
                        crate::rational::lemma_norm_den_pos_mul(
                            t_rem(rat_num(a) * rat_den(b), rat_num(b) * rat_den(a)),
                            rat_den(a),
                            rat_den(b),
                        );
                    }
                    Number::Rational(rq_rem(&a, &b))
                }
            },
            (Number::Float(a), Number::Float(b)) => Number::Float(fl_rem(&a, &b)),
            (Number::Complex(_), Number::Complex(_)) => Number::Float(
                fl_div(&f_zero(), &f_zero()),
            ),
            _ => {
                proof {
                    assert(false);
                }
                vstd::pervasive::unreached()
            },
        }
    }

    /// Negation, kind-preserving.
    pub fn neg(self) -> (r: Number)
        requires
            self.wf(),
        ensures
            r@ == neg_spec(self@),
            r.wf(),
    {
        match self {
            Number::Integer(i) => Number::Integer(int_neg(&i)),
            Number::Rational(q) => Number::Rational(rq_neg(&q)),
            Number::Float(c) => Number::Float(fl_neg(&c)),
            Number::Complex(c) => Number::Complex(cx_neg(&c)),
        }
    }

    /// Comparison after promotion; complex values are incomparable.
    pub fn partial_cmp(&self, other: &Number) -> (r: Option<core::cmp::Ordering>)
        requires
            self.wf(),
            other.wf(),
        ensures
            r == cmp_spec(self@, other@),
    {
        let (x, y) = promote_pair(self.dup(), other.dup());
        match (x, y) {
            (Number::Integer(a), Number::Integer(b)) => {
                if int_eq(&a, &b) {
                    Some(core::cmp::Ordering::Equal)
                } else if int_le(&a, &b) {
                    Some(core::cmp::Ordering::Less)
                } else {
                    Some(core::cmp::Ordering::Greater)
                }
            },
            (Number::Rational(a), Number::Rational(b)) => {
                let lhs = int_mul(&rq_numer(&a), &rq_denom(&b));
                let rhs = int_mul(&rq_numer(&b), &rq_denom(&a));
                if int_eq(&lhs, &rhs) {
                    Some(core::cmp::Ordering::Equal)
                } else if int_le(&lhs, &rhs) {
                    Some(core::cmp::Ordering::Less)
                } else {
                    Some(core::cmp::Ordering::Greater)
                }
            },
            (Number::Float(a), Number::Float(b)) => {
                if fl_lt(&a, &b) {
                    Some(core::cmp::Ordering::Less)
                } else if fl_lt(&b, &a) {
                    Some(core::cmp::Ordering::Greater)
                } else if fl_eq(&a, &b) {
                    Some(core::cmp::Ordering::Equal)
                } else {
                    None
                }
            },
            (Number::Complex(_), Number::Complex(_)) => None,
            _ => {
                proof {
                    assert(false);
                }
                vstd::pervasive::unreached()
            },
        }
    }
}

/// Power over the numeric tower; see `pow_spec` for the exact cases.
pub fn pow(base: Number, exp: Number) -> (r: Number)
    requires
        base.wf(),
        exp.wf(),
    ensures
        r@ == pow_spec(base@, exp@),
        r.wf(),
{
    match (base, exp) {
        (Number::Integer(b), Number::Integer(e)) => {
            let zero = int_from_u64(0);
            if int_le(&zero, &e) {
                match int_to_u32(&e) {
                    Some(e32) => Number::Integer(int_pow_u32(&b, e32)),
                    None => Number::Float(fl_powf(&big_to_f(&b), &big_to_f(&e))),
                }
            } else {
                let ne = int_neg(&e);
                match int_to_u32(&ne) {
                    Some(e32) => {
                        let den = int_pow_u32(&b, e32);
                        if int_eq(&den, &zero) {
                            Number::Float(crate::floats::f_inf())
                        } else {
                            proof {
                                crate::rational::lemma_norm_den_pos(1, int_of(den));
                            }
                            Number::Rational(rq_new(int_from_u64(1), den))
                        }
                    },
                    None => Number::Float(fl_powf(&big_to_f(&b), &big_to_f(&e))),
                }
            }
        },
        (b, e) => Number::Complex(cx_powc(&b.to_complex(), &e.to_complex())),
    }
}

/// Factorial by iterated multiplication; exact at any magnitude, and a
/// domain error on negative integers and on every non-integer kind.
pub fn factorial(n: Number) -> (r: Result<Number, EngineError>)
    requires
        n.wf(),
    ensures
        match (r, factorial_spec(n@)) {
            (Ok(v), Ok(s)) => v@ == s && v.wf(),
            (Err(e), Err(s)) => e@ == s,
            _ => false,
        },
{
    match n {
        Number::Integer(i) => {
            let zero = int_from_u64(0);
            if int_le(&zero, &i) {
                let mut acc = int_from_u64(1);
                let mut k = int_from_u64(1);
                while int_le(&k, &i)
                    invariant
                        1 <= int_of(k) <= int_of(i) + 1,
                        int_of(acc) == fact(int_of(k) - 1),
                    decreases int_of(i) + 1 - int_of(k),
                {
                    let ghost ik = int_of(k);
                    acc = int_mul(&acc, &k);
                    proof {
                        assert(fact(ik) == ik * fact(ik - 1));
                    }
                    k = int_add(&k, &int_from_u64(1));
                }
                Ok(Number::Integer(acc))
            } else {
                Err(EngineError::DomainError(crate::errors::msg("Factorial of negative integer")))
            }
        },
        _ => Err(
            EngineError::DomainError(
                crate::errors::msg("Factorial only implemented for Integers currently"),
            ),
        ),
    }
}

} // verus!

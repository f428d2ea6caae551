//! The mathematical model of a monetary value: a fraction of two integers.

use vstd::prelude::*;

verus! {

/// A fraction `num / den`. Two fractions may stand for the same number:
/// compare them with [`Rational::eqv`], not with `==`.
pub struct Rational {
    pub num: int,
    pub den: int,
}

impl Rational {
    /// The denominator is positive.
    pub open spec fn wf(self) -> bool {
        self.den > 0
    }

    pub open spec fn zero() -> Rational {
        Rational { num: 0, den: 1 }
    }

    /// The two fractions stand for the same number.
    pub open spec fn eqv(self, other: Rational) -> bool {
        self.num * other.den == other.num * self.den
    }

    /// `self <= other` as numbers.
    pub open spec fn le(self, other: Rational) -> bool {
        self.num * other.den <= other.num * self.den
    }

    /// `self < other` as numbers.
    pub open spec fn lt(self, other: Rational) -> bool {
        self.num * other.den < other.num * self.den
    }

    pub open spec fn plus(self, other: Rational) -> Rational {
        Rational { num: self.num * other.den + other.num * self.den, den: self.den * other.den }
    }

    pub open spec fn minus(self, other: Rational) -> Rational {
        Rational { num: self.num * other.den - other.num * self.den, den: self.den * other.den }
    }
}

/// A product of two positive integers is positive.
pub proof fn lemma_den_positive(a: int, b: int)
    requires
        a > 0,
        b > 0,
    ensures
        a * b > 0,
{
    assert(a * b > 0) by (nonlinear_arith)
        requires
            a > 0,
            b > 0,
    ;
}

/// From `x * d <= y * d` with `d > 0` follows `x <= y`.
pub proof fn lemma_cancel_le(x: int, y: int, d: int)
    requires
        d > 0,
        x * d <= y * d,
    ensures
        x <= y,
{
    assert(x <= y) by (nonlinear_arith)
        requires
            d > 0,
            x * d <= y * d,
    ;
}

/// Two ways to regroup a product of four integers.
pub proof fn lemma_regroup(p: int, q: int, r: int, s: int)
    ensures
        (p * q) * (r * s) == (p * r) * (q * s),
        (p * q) * (r * s) == (p * s) * (q * r),
{
    assert((p * q) * (r * s) == (p * r) * (q * s)) by (nonlinear_arith);
    assert((p * q) * (r * s) == (p * s) * (q * r)) by (nonlinear_arith);
}

/// Multiplying both sides by a positive integer keeps `<=`.
pub proof fn lemma_scale_le(x: int, y: int, k: int)
    requires
        x <= y,
        k > 0,
    ensures
        x * k <= y * k,
{
    assert(x * k <= y * k) by (nonlinear_arith)
        requires
            x <= y,
            k > 0,
    ;
}

/// `le` does not tell fractions of one number apart: if `a <= b`, `a` is the
/// same number as `a2` and `b` the same as `b2`, then `a2 <= b2`.
pub proof fn lemma_le_congruent(a: Rational, b: Rational, a2: Rational, b2: Rational)
    requires
        a.wf(),
        b.wf(),
        a2.wf(),
        b2.wf(),
        a.eqv(a2),
        b.eqv(b2),
        a.le(b),
    ensures
        a2.le(b2),
{
    let k = a2.den * b2.den;
    let d = a.den * b.den;
    lemma_den_positive(a2.den, b2.den);
    lemma_den_positive(a.den, b.den);
    lemma_scale_le(a.num * b.den, b.num * a.den, k);
    lemma_regroup(a.num, b.den, a2.den, b2.den);
    lemma_regroup(a2.num, a.den, b.den, b2.den);
    assert((a.num * b.den) * k == (a2.num * b2.den) * (a.den * b.den));
    lemma_regroup(b.num, a.den, a2.den, b2.den);
    lemma_regroup(b2.num, b.den, a.den, a2.den);
    assert(b.den * a.den == a.den * b.den) by (nonlinear_arith);
    assert((b.num * a.den) * k == (b2.num * a2.den) * (a.den * b.den));
    lemma_cancel_le(a2.num * b2.den, b2.num * a2.den, d);
}

/// `a <= b` and `b <= c` give `a <= c`.
pub proof fn lemma_le_transitive(a: Rational, b: Rational, c: Rational)
    requires
        a.wf(),
        b.wf(),
        c.wf(),
        a.le(b),
        b.le(c),
    ensures
        a.le(c),
{
    lemma_scale_le(a.num * b.den, b.num * a.den, c.den);
    lemma_scale_le(b.num * c.den, c.num * b.den, a.den);
    assert((a.num * b.den) * c.den == (a.num * c.den) * b.den) by (nonlinear_arith);
    assert((b.num * a.den) * c.den == (b.num * c.den) * a.den) by (nonlinear_arith);
    assert((c.num * b.den) * a.den == (c.num * a.den) * b.den) by (nonlinear_arith);
    lemma_cancel_le(a.num * c.den, c.num * a.den, b.den);
}

/// Multiplication distributes over a sum and over a difference.
pub proof fn lemma_distribute(x: int, y: int, z: int)
    ensures
        (x + y) * z == x * z + y * z,
        (x - y) * z == x * z - y * z,
{
    assert((x + y) * z == x * z + y * z) by (nonlinear_arith);
    assert((x - y) * z == x * z - y * z) by (nonlinear_arith);
}

/// Adding the same fraction on both sides keeps `<=`; so does taking it away.
pub proof fn lemma_le_shift(a: Rational, b: Rational, c: Rational)
    requires
        a.wf(),
        b.wf(),
        c.wf(),
        a.le(b),
    ensures
        a.plus(c).le(b.plus(c)),
        a.minus(c).le(b.minus(c)),
{
    let (an, ad, bn, bd, cn, cd) = (a.num, a.den, b.num, b.den, c.num, c.den);
    lemma_den_positive(cd, cd);
    lemma_scale_le(an * bd, bn * ad, cd * cd);
    lemma_distribute(an * cd, cn * ad, bd * cd);
    lemma_distribute(bn * cd, cn * bd, ad * cd);
    lemma_regroup(an, cd, bd, cd);
    lemma_regroup(bn, cd, ad, cd);
    lemma_regroup(cn, ad, bd, cd);
    lemma_regroup(cn, bd, ad, cd);
    assert((cn * bd) * (ad * cd) == (cn * ad) * (bd * cd));
}

/// Adding a fraction that is not below zero does not make a number smaller;
/// taking it away does not make it larger.
pub proof fn lemma_non_negative_step(a: Rational, c: Rational)
    requires
        a.wf(),
        c.wf(),
        !c.lt(Rational::zero()),
    ensures
        a.le(a.plus(c)),
        a.minus(c).le(a),
{
    let (an, ad, cn, cd) = (a.num, a.den, c.num, c.den);
    assert(cn >= 0);
    lemma_den_positive(ad, ad);
    assert(cn * (ad * ad) >= 0) by (nonlinear_arith)
        requires
            cn >= 0,
            ad * ad > 0,
    ;
    lemma_distribute(an * cd, cn * ad, ad);
    assert((an * cd) * ad == an * (ad * cd)) by (nonlinear_arith);
    assert((cn * ad) * ad == cn * (ad * ad)) by (nonlinear_arith);
}

/// `a <= t - h` says the same as `h <= t - a`.
pub proof fn lemma_swap_sides(t: Rational, h: Rational, a: Rational)
    requires
        t.wf(),
        h.wf(),
        a.wf(),
        a.le(t.minus(h)),
    ensures
        h.le(t.minus(a)),
{
    let (tn, td, hn, hd, an, ad) = (t.num, t.den, h.num, h.den, a.num, a.den);
    lemma_distribute(tn * hd, hn * td, ad);
    lemma_distribute(tn * ad, an * td, hd);
    assert(an * (td * hd) == (an * td) * hd) by (nonlinear_arith);
    assert(hn * (td * ad) == (hn * td) * ad) by (nonlinear_arith);
    assert((tn * hd) * ad == (tn * ad) * hd) by (nonlinear_arith);
}

/// From `x * d == y * d` with `d > 0` follows `x == y`.
pub proof fn lemma_cancel_eq(x: int, y: int, d: int)
    requires
        d > 0,
        x * d == y * d,
    ensures
        x == y,
{
    lemma_cancel_le(x, y, d);
    lemma_cancel_le(y, x, d);
}

/// Fractions that are the same number as a third are the same number.
pub proof fn lemma_eqv_transitive(a: Rational, b: Rational, c: Rational)
    requires
        b.wf(),
        a.eqv(b),
        b.eqv(c),
    ensures
        a.eqv(c),
{
    assert((a.num * c.den) * b.den == (a.num * b.den) * c.den) by (nonlinear_arith);
    assert((b.num * a.den) * c.den == (b.num * c.den) * a.den) by (nonlinear_arith);
    assert((c.num * b.den) * a.den == (c.num * a.den) * b.den) by (nonlinear_arith);
    lemma_cancel_eq(a.num * c.den, c.num * a.den, b.den);
}

/// Sums and differences do not tell fractions of one number apart.
pub proof fn lemma_sum_congruent(a: Rational, b: Rational, a2: Rational, b2: Rational)
    requires
        a.eqv(a2),
        b.eqv(b2),
    ensures
        a.plus(b).eqv(a2.plus(b2)),
        a.minus(b).eqv(a2.minus(b2)),
{
    lemma_distribute(a.num * b.den, b.num * a.den, a2.den * b2.den);
    lemma_distribute(a2.num * b2.den, b2.num * a2.den, a.den * b.den);
    lemma_regroup(a.num, b.den, a2.den, b2.den);
    lemma_regroup(a2.num, a.den, b.den, b2.den);
    lemma_regroup(b.num, a.den, a2.den, b2.den);
    lemma_regroup(b2.num, b.den, a.den, a2.den);
    assert(b.den * a.den == a.den * b.den) by (nonlinear_arith);
    assert((a.num * b.den) * (a2.den * b2.den) == (a2.num * b2.den) * (a.den * b.den));
    assert((b.num * a.den) * (a2.den * b2.den) == (b2.num * a2.den) * (a.den * b.den));
}

/// Adding `c` and taking it away again gives the same number, and so does
/// taking it away and adding it again.
pub proof fn lemma_sum_undone(a: Rational, c: Rational)
    ensures
        a.plus(c).minus(c).eqv(a),
        a.minus(c).plus(c).eqv(a),
{
    let (an, ad, cn, cd) = (a.num, a.den, c.num, c.den);
    lemma_distribute(an * cd, cn * ad, cd);
    assert((cn * ad) * cd == cn * (ad * cd)) by (nonlinear_arith);
    assert(((an * cd) * cd) * ad == an * ((ad * cd) * cd)) by (nonlinear_arith);
}

/// Sums and differences of fractions are fractions.
pub proof fn lemma_wf_closed(a: Rational, b: Rational)
    requires
        a.wf(),
        b.wf(),
    ensures
        a.plus(b).wf(),
        a.minus(b).wf(),
{
    lemma_den_positive(a.den, b.den);
}

} // verus!

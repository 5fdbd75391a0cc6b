//! Exact rational scalars.
//!
//! Coordinates, directions and intensities are rationals `num / den` held in
//! `i128` fields with a positive denominator.  Arithmetic is exact; an
//! operation whose exact result does not fit in `i128` reports `None` instead
//! of rounding, and the geometric code treats that as a degenerate outcome.
//!
//! The mathematical model of a scalar is [`Frac`], a pair of unbounded
//! integers; [`Rational::view`] maps an executable scalar to its model.

use vstd::prelude::*;

verus! {

/// Mathematical model of a rational number: `num / den` over unbounded
/// integers.  Meaningful only when well formed (`den > 0`).
pub ghost struct Frac {
    pub num: int,
    pub den: int,
}

impl Frac {
    /// A model scalar is well formed when its denominator is positive.
    pub open spec fn wf(self) -> bool {
        self.den > 0
    }

    /// The rational from an integer.
    pub open spec fn from_int(n: int) -> Frac {
        Frac { num: n, den: 1 }
    }

    /// Two fractions denote the same rational number.
    pub open spec fn eq(self, other: Frac) -> bool {
        self.num * other.den == other.num * self.den
    }

    /// `self < other`, read on well-formed fractions.
    pub open spec fn lt(self, other: Frac) -> bool {
        self.num * other.den < other.num * self.den
    }

    /// `self <= other`, read on well-formed fractions.
    pub open spec fn le(self, other: Frac) -> bool {
        self.num * other.den <= other.num * self.den
    }

    /// The denoted rational is zero.
    pub open spec fn is_zero(self) -> bool {
        self.num == 0
    }

    pub open spec fn add(self, other: Frac) -> Frac {
        Frac { num: self.num * other.den + other.num * self.den, den: self.den * other.den }
    }

    pub open spec fn sub(self, other: Frac) -> Frac {
        Frac { num: self.num * other.den - other.num * self.den, den: self.den * other.den }
    }

    pub open spec fn mul(self, other: Frac) -> Frac {
        Frac { num: self.num * other.num, den: self.den * other.den }
    }

    pub open spec fn neg(self) -> Frac {
        Frac { num: -self.num, den: self.den }
    }

    /// Exact division; meaningful only when `other` is nonzero.  The sign of
    /// the divisor's numerator is folded into the result's numerator so that
    /// the denominator stays positive.
    pub open spec fn div(self, other: Frac) -> Frac {
        if other.num < 0 {
            Frac { num: -(self.num * other.den), den: -(self.den * other.num) }
        } else {
            Frac { num: self.num * other.den, den: self.den * other.num }
        }
    }
}

/// An integer fits in `i128`.
pub open spec fn in_i128(x: int) -> bool {
    i128::MIN <= x <= i128::MAX
}

/// The exact sum of two fractions fits in `i128` fields.
pub open spec fn add_fits(a: Frac, b: Frac) -> bool {
    &&& in_i128(a.num * b.den)
    &&& in_i128(b.num * a.den)
    &&& in_i128(a.num * b.den + b.num * a.den)
    &&& in_i128(a.den * b.den)
}

/// The exact difference of two fractions fits in `i128` fields.
pub open spec fn sub_fits(a: Frac, b: Frac) -> bool {
    &&& in_i128(a.num * b.den)
    &&& in_i128(b.num * a.den)
    &&& in_i128(a.num * b.den - b.num * a.den)
    &&& in_i128(a.den * b.den)
}

/// The exact product of two fractions fits in `i128` fields.
pub open spec fn mul_fits(a: Frac, b: Frac) -> bool {
    &&& in_i128(a.num * b.num)
    &&& in_i128(a.den * b.den)
}

/// The exact quotient of two fractions fits in `i128` fields.
pub open spec fn div_fits(a: Frac, b: Frac) -> bool {
    &&& in_i128(a.num * b.den)
    &&& in_i128(-(a.num * b.den))
    &&& in_i128(a.den * b.num)
    &&& in_i128(-(a.den * b.num))
}

/// The cross products used to compare two fractions fit in `i128`.
pub open spec fn cmp_fits(a: Frac, b: Frac) -> bool {
    &&& in_i128(a.num * b.den)
    &&& in_i128(b.num * a.den)
}

/// The product of two positive integers is positive.
pub proof fn lemma_pos_mul_pos(a: int, b: int)
    by (nonlinear_arith)
    requires
        a > 0,
        b > 0,
    ensures
        a * b > 0,
{
}

/// The product of a positive and a negative integer is negative.
pub proof fn lemma_pos_mul_neg(a: int, b: int)
    by (nonlinear_arith)
    requires
        a > 0,
        b < 0,
    ensures
        a * b < 0,
{
}

/// Strict order composes with non-strict order on well-formed fractions.
pub proof fn lemma_lt_le_trans(a: Frac, b: Frac, c: Frac)
    by (nonlinear_arith)
    requires
        a.wf(),
        b.wf(),
        c.wf(),
        a.lt(b),
        b.le(c),
    ensures
        a.lt(c),
{
}

/// Addition of well-formed fractions is well formed.
pub proof fn lemma_add_wf(a: Frac, b: Frac)
    requires
        a.wf(),
        b.wf(),
    ensures
        a.add(b).wf(),
{
    lemma_pos_mul_pos(a.den, b.den);
}

/// Subtraction of well-formed fractions is well formed.
pub proof fn lemma_sub_wf(a: Frac, b: Frac)
    requires
        a.wf(),
        b.wf(),
    ensures
        a.sub(b).wf(),
{
    lemma_pos_mul_pos(a.den, b.den);
}

/// Multiplication of well-formed fractions is well formed.
pub proof fn lemma_mul_wf(a: Frac, b: Frac)
    requires
        a.wf(),
        b.wf(),
    ensures
        a.mul(b).wf(),
{
    lemma_pos_mul_pos(a.den, b.den);
}

/// Division of a well-formed fraction by a nonzero well-formed fraction is
/// well formed.
pub proof fn lemma_div_wf(a: Frac, b: Frac)
    requires
        a.wf(),
        b.wf(),
        !b.is_zero(),
    ensures
        a.div(b).wf(),
{
    if b.num < 0 {
        lemma_pos_mul_neg(a.den, b.num);
    } else {
        lemma_pos_mul_pos(a.den, b.num);
    }
}

/// Multiplying a difference distributes, as one small step.
pub proof fn lemma_sub_mul(x: int, y: int, z: int)
    by (nonlinear_arith)
    ensures
        (x - y) * z == x * z - y * z,
{
}

/// Multiplying a sum distributes, as one small step.
pub proof fn lemma_add_mul(x: int, y: int, z: int)
    by (nonlinear_arith)
    ensures
        (x + y) * z == x * z + y * z,
        z * (x + y) == z * x + z * y,
{
}

/// Denotational equality is transitive on well-formed fractions.
pub proof fn lemma_eq_trans(a: Frac, b: Frac, c: Frac)
    by (nonlinear_arith)
    requires
        a.wf(),
        b.wf(),
        c.wf(),
        a.eq(b),
        b.eq(c),
    ensures
        a.eq(c),
{
}

/// Addition respects denotational equality.
pub proof fn lemma_add_cong(a: Frac, b: Frac, a2: Frac, b2: Frac)
    by (nonlinear_arith)
    requires
        a.wf(),
        b.wf(),
        a2.wf(),
        b2.wf(),
        a.eq(a2),
        b.eq(b2),
    ensures
        a.add(b).eq(a2.add(b2)),
{
}

/// Subtraction respects denotational equality.
pub proof fn lemma_sub_cong(a: Frac, b: Frac, a2: Frac, b2: Frac)
    by (nonlinear_arith)
    requires
        a.wf(),
        b.wf(),
        a2.wf(),
        b2.wf(),
        a.eq(a2),
        b.eq(b2),
    ensures
        a.sub(b).eq(a2.sub(b2)),
{
}

/// Multiplication respects denotational equality.
pub proof fn lemma_mul_cong(a: Frac, b: Frac, a2: Frac, b2: Frac)
    by (nonlinear_arith)
    requires
        a.wf(),
        b.wf(),
        a2.wf(),
        b2.wf(),
        a.eq(a2),
        b.eq(b2),
    ensures
        a.mul(b).eq(a2.mul(b2)),
{
}

/// Division by one nonzero fraction respects denotational equality of the
/// dividends.
pub proof fn lemma_div_cong_num(x: Frac, y: Frac, s: Frac)
    requires
        x.wf(),
        y.wf(),
        s.wf(),
        x.eq(y),
        !s.is_zero(),
    ensures
        x.div(s).eq(y.div(s)),
{
    let xn = x.num;
    let xd = x.den;
    let yn = y.num;
    let yd = y.den;
    let sn = s.num;
    let sd = s.den;
    assert((xn * sd) * (yd * sn) == (xn * yd) * (sd * sn)) by (nonlinear_arith);
    assert((yn * xd) * (sd * sn) == (yn * sd) * (xd * sn)) by (nonlinear_arith);
    if s.num < 0 {
        assert((-(xn * sd)) * (-(yd * sn)) == (xn * sd) * (yd * sn)) by (nonlinear_arith);
        assert((-(yn * sd)) * (-(xd * sn)) == (yn * sd) * (xd * sn)) by (nonlinear_arith);
    }
}

/// Negation respects denotational equality.
pub proof fn lemma_neg_cong(x: Frac, y: Frac)
    requires
        x.eq(y),
    ensures
        x.neg().eq(y.neg()),
{
    assert((-x.num) * y.den == -(x.num * y.den)) by (nonlinear_arith);
    assert((-y.num) * x.den == -(y.num * x.den)) by (nonlinear_arith);
}

/// Double negation is the identity, exactly as represented.
pub proof fn lemma_neg_neg(a: Frac)
    ensures
        a.neg().neg() == a,
{
}

/// Dividing and multiplying back by the same nonzero fraction is neutral.
pub proof fn lemma_mul_div_cancel(a: Frac, b: Frac)
    by (nonlinear_arith)
    requires
        a.wf(),
        b.wf(),
        !b.is_zero(),
    ensures
        a.div(b).mul(b).eq(a),
        b.mul(a.div(b)).eq(a),
{
}

/// Subtracting and adding back the same fraction is neutral.
pub proof fn lemma_add_sub_cancel(a: Frac, b: Frac)
    by (nonlinear_arith)
    requires
        a.wf(),
        b.wf(),
    ensures
        a.sub(b).add(b).eq(a),
        b.add(a.sub(b)).eq(a),
{
}

/// Multiplication distributes over subtraction.
#[verifier::rlimit(100)]
pub proof fn lemma_mul_sub_distrib(a: Frac, b: Frac, c: Frac)
    requires
        a.wf(),
        b.wf(),
        c.wf(),
    ensures
        a.sub(b).mul(c).eq(a.mul(c).sub(b.mul(c))),
{
    let an = a.num;
    let ad = a.den;
    let bn = b.num;
    let bd = b.den;
    let cn = c.num;
    let cd = c.den;
    lemma_sub_mul(an * bd, bn * ad, cn);
    lemma_sub_mul((an * bd) * cn, (bn * ad) * cn, (ad * cd) * (bd * cd));
    lemma_sub_mul((an * cn) * (bd * cd), (bn * cn) * (ad * cd), (ad * bd) * cd);
    assert(((an * bd) * cn) * ((ad * cd) * (bd * cd)) == ((an * cn) * (bd * cd)) * ((ad * bd)
        * cd)) by (nonlinear_arith);
    assert(((bn * ad) * cn) * ((ad * cd) * (bd * cd)) == ((bn * cn) * (ad * cd)) * ((ad * bd)
        * cd)) by (nonlinear_arith);
}

/// Multiplication distributes over addition.
#[verifier::rlimit(100)]
pub proof fn lemma_mul_add_distrib(c: Frac, a: Frac, b: Frac)
    requires
        a.wf(),
        b.wf(),
        c.wf(),
    ensures
        c.mul(a.add(b)).eq(c.mul(a).add(c.mul(b))),
{
    let an = a.num;
    let ad = a.den;
    let bn = b.num;
    let bd = b.den;
    let cn = c.num;
    let cd = c.den;
    lemma_add_mul(an * bd, bn * ad, cn);
    lemma_add_mul(cn * (an * bd), cn * (bn * ad), (cd * ad) * (cd * bd));
    lemma_add_mul((cn * an) * (cd * bd), (cn * bn) * (cd * ad), cd * (ad * bd));
    assert((cn * (an * bd)) * ((cd * ad) * (cd * bd)) == ((cn * an) * (cd * bd)) * (cd * (ad
        * bd))) by (nonlinear_arith);
    assert((cn * (bn * ad)) * ((cd * ad) * (cd * bd)) == ((cn * bn) * (cd * ad)) * (cd * (ad
        * bd))) by (nonlinear_arith);
}

/// Sums of differences regroup.
#[verifier::rlimit(100)]
pub proof fn lemma_add_sub_swap(a: Frac, b: Frac, c: Frac, d: Frac)
    requires
        a.wf(),
        b.wf(),
        c.wf(),
        d.wf(),
    ensures
        a.sub(b).add(c.sub(d)).eq(a.add(c).sub(b.add(d))),
{
    let an = a.num;
    let ad = a.den;
    let bn = b.num;
    let bd = b.den;
    let cn = c.num;
    let cd = c.den;
    let dn = d.num;
    let dd = d.den;
    let yden = (ad * cd) * (bd * dd);
    let lden = (ad * bd) * (cd * dd);
    lemma_sub_mul(an * bd, bn * ad, cd * dd);
    lemma_sub_mul(cn * dd, dn * cd, ad * bd);
    lemma_add_mul((an * bd) * (cd * dd) - (bn * ad) * (cd * dd), (cn * dd) * (ad * bd) - (dn * cd)
        * (ad * bd), yden);
    lemma_sub_mul((an * bd) * (cd * dd), (bn * ad) * (cd * dd), yden);
    lemma_sub_mul((cn * dd) * (ad * bd), (dn * cd) * (ad * bd), yden);
    lemma_add_mul(an * cd, cn * ad, bd * dd);
    lemma_add_mul(bn * dd, dn * bd, ad * cd);
    lemma_sub_mul((an * cd) * (bd * dd) + (cn * ad) * (bd * dd), (bn * dd) * (ad * cd) + (dn * bd)
        * (ad * cd), lden);
    lemma_add_mul((an * cd) * (bd * dd), (cn * ad) * (bd * dd), lden);
    lemma_add_mul((bn * dd) * (ad * cd), (dn * bd) * (ad * cd), lden);
    assert(((an * bd) * (cd * dd)) * ((ad * cd) * (bd * dd)) == ((an * cd) * (bd * dd)) * ((ad
        * bd) * (cd * dd))) by (nonlinear_arith);
    assert(((bn * ad) * (cd * dd)) * ((ad * cd) * (bd * dd)) == ((bn * dd) * (ad * cd)) * ((ad
        * bd) * (cd * dd))) by (nonlinear_arith);
    assert(((cn * dd) * (ad * bd)) * ((ad * cd) * (bd * dd)) == ((cn * ad) * (bd * dd)) * ((ad
        * bd) * (cd * dd))) by (nonlinear_arith);
    assert(((dn * cd) * (ad * bd)) * ((ad * cd) * (bd * dd)) == ((dn * bd) * (ad * cd)) * ((ad
        * bd) * (cd * dd))) by (nonlinear_arith);
}

/// `(a*b)*a` regroups to `b*(a*a)`, exactly as represented.
pub proof fn lemma_mul_rotate(a: Frac, b: Frac)
    by (nonlinear_arith)
    ensures
        a.mul(b).mul(a) == b.mul(a.mul(a)),
{
}

/// Negation moves out of a product, exactly as represented.
pub proof fn lemma_mul_neg(a: Frac, b: Frac)
    by (nonlinear_arith)
    ensures
        a.mul(b.neg()) == a.mul(b).neg(),
        a.neg().mul(b) == a.mul(b).neg(),
{
}

/// Negation moves out of a dividend, exactly as represented.
pub proof fn lemma_neg_div(a: Frac, b: Frac)
    by (nonlinear_arith)
    requires
        !b.is_zero(),
    ensures
        a.neg().div(b) == a.div(b).neg(),
{
}

/// A factor denoting zero makes the product denote zero.
pub proof fn lemma_zero_mul(a: Frac, b: Frac)
    requires
        a.num == 0,
    ensures
        a.mul(b).eq(Frac::from_int(0)),
{
    assert(a.mul(b).num == 0) by (nonlinear_arith)
        requires
            a.num == 0,
    ;
}

/// A factor denoting one leaves the other factor's denotation unchanged.
pub proof fn lemma_one_mul(a: Frac, b: Frac)
    requires
        a.eq(Frac::from_int(1)),
    ensures
        a.mul(b).eq(b),
{
    assert(a.num == a.den);
    assert((a.num * b.num) * b.den == b.num * (a.den * b.den)) by (nonlinear_arith)
        requires
            a.num == a.den,
    ;
}

/// Negations add to the negated sum, exactly as represented.
pub proof fn lemma_neg_add(x: Frac, y: Frac)
    ensures
        x.neg().add(y.neg()) == x.add(y).neg(),
{
    assert((-x.num) * y.den == -(x.num * y.den)) by (nonlinear_arith);
    assert((-y.num) * x.den == -(y.num * x.den)) by (nonlinear_arith);
}

/// Two negations cancel in a product, exactly as represented.
pub proof fn lemma_neg_mul_neg(x: Frac, y: Frac)
    ensures
        x.neg().mul(y.neg()) == x.mul(y),
{
    assert((-x.num) * (-y.num) == x.num * y.num) by (nonlinear_arith);
}

/// Subtracting a negation is adding, exactly as represented.
pub proof fn lemma_sub_neg_is_add(a: Frac, b: Frac)
    by (nonlinear_arith)
    ensures
        a.sub(b.neg()) == a.add(b),
{
}

/// `a - 2*a` denotes `-a`.
pub proof fn lemma_sub_twice_self(a: Frac)
    by (nonlinear_arith)
    requires
        a.wf(),
    ensures
        a.sub(Frac::from_int(2).mul(a)).eq(a.neg()),
{
}

/// Doubling a negation is negating the double, exactly as represented.
pub proof fn lemma_two_mul_neg(a: Frac)
    ensures
        Frac::from_int(2).mul(a.neg()) == Frac::from_int(2).mul(a).neg(),
{
}

/// An exact rational scalar: `num / den` with `den > 0`.
#[derive(Clone, Copy, Debug)]
pub struct Rational {
    pub num: i128,
    pub den: i128,
}

impl View for Rational {
    type V = Frac;

    open spec fn view(&self) -> Frac {
        Frac { num: self.num as int, den: self.den as int }
    }
}

impl Rational {
    /// Build a scalar from an integer numerator and denominator; the sign is
    /// normalised onto the numerator.
    pub fn new(num: i64, den: i64) -> (r: Rational)
        requires
            den != 0,
        ensures
            r@.wf(),
            r@.eq(Frac { num: num as int, den: den as int }) || r@.eq(
                Frac { num: -(num as int), den: -(den as int) },
            ),
            den > 0 ==> r@ == (Frac { num: num as int, den: den as int }),
    {
        if den > 0 {
            Rational { num: num as i128, den: den as i128 }
        } else {
            Rational { num: -(num as i128), den: -(den as i128) }
        }
    }

    /// The scalar denoting an integer.
    pub fn from_int(n: i64) -> (r: Rational)
        ensures
            r@.wf(),
            r@ == Frac::from_int(n as int),
    {
        Rational { num: n as i128, den: 1 }
    }

    /// Exact addition; `None` when the exact result does not fit.
    pub fn add(self, other: Rational) -> (r: Option<Rational>)
        requires
            self@.wf(),
            other@.wf(),
        ensures
            r matches Some(c) ==> c@ == self@.add(other@) && c@.wf(),
            add_fits(self@, other@) ==> r is Some,
    {
        let l = self.num.checked_mul(other.den)?;
        let rr = other.num.checked_mul(self.den)?;
        let num = l.checked_add(rr)?;
        let den = self.den.checked_mul(other.den)?;
        proof {
            lemma_pos_mul_pos(self.den as int, other.den as int);
        }
        Some(Rational { num, den })
    }

    /// Exact subtraction; `None` when the exact result does not fit.
    pub fn sub(self, other: Rational) -> (r: Option<Rational>)
        requires
            self@.wf(),
            other@.wf(),
        ensures
            r matches Some(c) ==> c@ == self@.sub(other@) && c@.wf(),
            sub_fits(self@, other@) ==> r is Some,
    {
        let l = self.num.checked_mul(other.den)?;
        let rr = other.num.checked_mul(self.den)?;
        let num = l.checked_sub(rr)?;
        let den = self.den.checked_mul(other.den)?;
        proof {
            lemma_pos_mul_pos(self.den as int, other.den as int);
        }
        Some(Rational { num, den })
    }

    /// Exact multiplication; `None` when the exact result does not fit.
    pub fn mul(self, other: Rational) -> (r: Option<Rational>)
        requires
            self@.wf(),
            other@.wf(),
        ensures
            r matches Some(c) ==> c@ == self@.mul(other@) && c@.wf(),
            mul_fits(self@, other@) ==> r is Some,
    {
        let num = self.num.checked_mul(other.num)?;
        let den = self.den.checked_mul(other.den)?;
        proof {
            lemma_pos_mul_pos(self.den as int, other.den as int);
        }
        Some(Rational { num, den })
    }

    /// Exact division by a nonzero scalar; `None` when the result does not fit.
    pub fn div(self, other: Rational) -> (r: Option<Rational>)
        requires
            self@.wf(),
            other@.wf(),
            !other@.is_zero(),
        ensures
            r matches Some(c) ==> c@ == self@.div(other@) && c@.wf(),
            div_fits(self@, other@) ==> r is Some,
    {
        let num = self.num.checked_mul(other.den)?;
        let den = self.den.checked_mul(other.num)?;
        if other.num < 0 {
            proof {
                lemma_pos_mul_neg(self.den as int, other.num as int);
            }
            let num = (0i128).checked_sub(num)?;
            let den = (0i128).checked_sub(den)?;
            Some(Rational { num, den })
        } else {
            proof {
                lemma_pos_mul_pos(self.den as int, other.num as int);
            }
            Some(Rational { num, den })
        }
    }

    /// Exact negation; `None` only on the single non-negatable value.
    pub fn neg(self) -> (r: Option<Rational>)
        requires
            self@.wf(),
        ensures
            r matches Some(c) ==> c@ == self@.neg() && c@.wf(),
            in_i128(-self@.num) ==> r is Some,
    {
        let num = (0i128).checked_sub(self.num)?;
        Some(Rational { num, den: self.den })
    }

    /// Exact comparison `self < other`; `None` when the cross products
    /// overflow.
    pub fn lt(self, other: Rational) -> (r: Option<bool>)
        requires
            self@.wf(),
            other@.wf(),
        ensures
            r matches Some(b) ==> b == self@.lt(other@),
            cmp_fits(self@, other@) ==> r is Some,
    {
        let l = self.num.checked_mul(other.den)?;
        let rr = other.num.checked_mul(self.den)?;
        Some(l < rr)
    }

    /// Exact comparison `self <= other`; `None` when the cross products
    /// overflow.
    pub fn le(self, other: Rational) -> (r: Option<bool>)
        requires
            self@.wf(),
            other@.wf(),
        ensures
            r matches Some(b) ==> b == self@.le(other@),
            cmp_fits(self@, other@) ==> r is Some,
    {
        let l = self.num.checked_mul(other.den)?;
        let rr = other.num.checked_mul(self.den)?;
        Some(l <= rr)
    }

    /// Exact equality of the denoted rationals; `None` when the cross
    /// products overflow.
    pub fn eq_rat(self, other: Rational) -> (r: Option<bool>)
        requires
            self@.wf(),
            other@.wf(),
        ensures
            r matches Some(b) ==> b == self@.eq(other@),
            cmp_fits(self@, other@) ==> r is Some,
    {
        let l = self.num.checked_mul(other.den)?;
        let rr = other.num.checked_mul(self.den)?;
        Some(l == rr)
    }

    /// The denoted rational is zero.
    pub fn is_zero(self) -> (r: bool)
        requires
            self@.wf(),
        ensures
            r == self@.is_zero(),
    {
        self.num == 0
    }

    /// The same rational in a smaller representation: numerator and
    /// denominator divided by their greatest common divisor.  Exact
    /// computations grow the representation with every operation; reducing
    /// values that flow into further computations keeps them in range.
    pub fn reduced(self) -> (r: Rational)
        requires
            self@.wf(),
        ensures
            r@.eq(self@),
            r@.wf(),
    {
        if self.num == i128::MIN {
            return self;
        }
        let m = if self.num < 0 {
            -self.num
        } else {
            self.num
        };
        let g = gcd(m, self.den);
        if g <= 1 {
            return self;
        }
        let mg = m / g;
        let dg = self.den / g;
        if dg <= 0 {
            return self;
        }
        let back_m = mg.checked_mul(g);
        let back_d = dg.checked_mul(g);
        match (back_m, back_d) {
            (Some(bm), Some(bd)) => {
                if bm == m && bd == self.den {
                    proof {
                        assert(mg >= 0) by (nonlinear_arith)
                            requires
                                mg * g == m,
                                m >= 0,
                                g >= 2,
                        ;
                        assert(mg * (dg * g) == (mg * g) * dg) by (nonlinear_arith);
                        assert((-mg) * (dg * g) == (-(mg * g)) * dg) by (nonlinear_arith);
                    }
                    let num = if self.num < 0 {
                        -mg
                    } else {
                        mg
                    };
                    Rational { num, den: dg }
                } else {
                    self
                }
            },
            _ => self,
        }
    }
}

/// Greatest common divisor of two nonnegative values by Euclid's algorithm.
fn gcd(a0: i128, b0: i128) -> (r: i128)
    requires
        0 <= a0,
        0 <= b0,
    ensures
        r >= 0,
{
    let mut a = a0;
    let mut b = b0;
    while b > 0
        invariant
            0 <= a,
            0 <= b,
        decreases b,
    {
        let t = a % b;
        a = b;
        b = t;
    }
    a
}

} // verus!

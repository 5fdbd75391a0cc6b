//! 2D points and free vectors over exact rational coordinates.

use vstd::prelude::*;

use crate::rational::add_fits;
use crate::rational::div_fits;
use crate::rational::mul_fits;
use crate::rational::sub_fits;
use crate::rational::lemma_pos_mul_pos;
use crate::rational::Frac;
use crate::rational::Rational;

verus! {

/// Mathematical model of a 2D point or free vector.
pub ghost struct FVec {
    pub x: Frac,
    pub y: Frac,
}

impl FVec {
    pub open spec fn wf(self) -> bool {
        self.x.wf() && self.y.wf()
    }

    /// The zero vector.
    pub open spec fn is_zero(self) -> bool {
        self.x.is_zero() && self.y.is_zero()
    }

    /// Both coordinates denote the same rationals.
    pub open spec fn eq(self, other: FVec) -> bool {
        self.x.eq(other.x) && self.y.eq(other.y)
    }

    pub open spec fn add(self, other: FVec) -> FVec {
        FVec { x: self.x.add(other.x), y: self.y.add(other.y) }
    }

    pub open spec fn sub(self, other: FVec) -> FVec {
        FVec { x: self.x.sub(other.x), y: self.y.sub(other.y) }
    }

    /// Scaling by a scalar factor.
    pub open spec fn scale(self, k: Frac) -> FVec {
        FVec { x: self.x.mul(k), y: self.y.mul(k) }
    }

    pub open spec fn neg(self) -> FVec {
        FVec { x: self.x.neg(), y: self.y.neg() }
    }

    /// Dot product.
    pub open spec fn dot(self, other: FVec) -> Frac {
        self.x.mul(other.x).add(self.y.mul(other.y))
    }

    /// Squared Euclidean norm; the norm itself is irrational in general, and
    /// every use in the simulation only ever compares squared lengths.
    pub open spec fn norm_sq(self) -> Frac {
        self.dot(self)
    }

    /// Reflection of `self` about the (not necessarily unit) normal `n`:
    /// `self - n * (2 * dot(self, n) / norm_sq(n))`.  Meaningful only when
    /// `n` is nonzero.
    pub open spec fn reflect(self, n: FVec) -> FVec {
        self.sub(n.scale(Frac::from_int(2).mul(self.dot(n)).div(n.norm_sq())))
    }
}

/// Squared Euclidean distance between two points.
pub open spec fn spec_dist_sq(a: FVec, b: FVec) -> Frac {
    a.sub(b).norm_sq()
}

/// The exact dot product of two vectors fits in `i128` fields.
pub open spec fn dot_fits(a: FVec, b: FVec) -> bool {
    &&& mul_fits(a.x, b.x)
    &&& mul_fits(a.y, b.y)
    &&& add_fits(a.x.mul(b.x), a.y.mul(b.y))
}

/// The exact reflection of `v` about `n` fits in `i128` fields.
pub open spec fn reflect_fits(v: FVec, n: FVec) -> bool {
    let factor = Frac::from_int(2).mul(v.dot(n)).div(n.norm_sq());
    &&& dot_fits(n, n)
    &&& dot_fits(v, n)
    &&& mul_fits(Frac::from_int(2), v.dot(n))
    &&& div_fits(Frac::from_int(2).mul(v.dot(n)), n.norm_sq())
    &&& mul_fits(n.x, factor)
    &&& mul_fits(n.y, factor)
    &&& sub_fits(v.x, n.x.mul(factor))
    &&& sub_fits(v.y, n.y.mul(factor))
}

/// The squared distance between `a` and `b` fits in `i128` fields.
pub open spec fn dist_sq_fits(a: FVec, b: FVec) -> bool {
    &&& sub_fits(a.x, b.x)
    &&& sub_fits(a.y, b.y)
    &&& dot_fits(a.sub(b), a.sub(b))
}

/// A nonzero well-formed vector has a strictly positive squared norm; in
/// particular the squared norm is a nonzero divisor.
pub proof fn lemma_norm_sq_pos(n: FVec)
    requires
        n.wf(),
        !n.is_zero(),
    ensures
        n.norm_sq().num > 0,
        !n.norm_sq().is_zero(),
        n.norm_sq().wf(),
{
    let xn = n.x.num;
    let xd = n.x.den;
    let yn = n.y.num;
    let yd = n.y.den;
    assert(n.norm_sq().num == xn * xn * (yd * yd) + yn * yn * (xd * xd));
    assert(xn * xn * (yd * yd) + yn * yn * (xd * xd) > 0) by (nonlinear_arith)
        requires
            xd > 0,
            yd > 0,
            !(xn == 0 && yn == 0),
    ;
    lemma_pos_mul_pos(xd, xd);
    lemma_pos_mul_pos(yd, yd);
    lemma_pos_mul_pos(xd * xd, yd * yd);
}

/// Reflecting about the negated normal is the same reflection: the normal's
/// sign cancels out of the reflection formula.
pub proof fn lemma_reflect_neg_normal(v: FVec, n: FVec)
    requires
        v.wf(),
        n.wf(),
        !n.is_zero(),
    ensures
        v.reflect(n.neg()) == v.reflect(n),
{
    let m = n.neg();
    let s = n.norm_sq();
    let a = v.dot(n);
    let f = Frac::from_int(2).mul(a).div(s);
    lemma_norm_sq_pos(n);
    crate::rational::lemma_neg_mul_neg(n.x, n.x);
    crate::rational::lemma_neg_mul_neg(n.y, n.y);
    assert(m.norm_sq() == s);
    crate::rational::lemma_mul_neg(v.x, n.x);
    crate::rational::lemma_mul_neg(v.y, n.y);
    crate::rational::lemma_neg_add(v.x.mul(n.x), v.y.mul(n.y));
    assert(v.dot(m) == a.neg());
    crate::rational::lemma_two_mul_neg(a);
    crate::rational::lemma_neg_div(Frac::from_int(2).mul(a), s);
    assert(Frac::from_int(2).mul(v.dot(m)).div(m.norm_sq()) == f.neg());
    crate::rational::lemma_neg_mul_neg(n.x, f);
    crate::rational::lemma_neg_mul_neg(n.y, f);
    assert(m.scale(f.neg()) == n.scale(f));
}

/// Reflecting twice about the same nonzero normal gives back the original
/// vector.
pub proof fn lemma_reflect_reflect_same(v: FVec, n: FVec)
    requires
        v.wf(),
        n.wf(),
        !n.is_zero(),
    ensures
        v.reflect(n).reflect(n).eq(v),
{
    let two = Frac::from_int(2);
    let s = n.norm_sq();
    let a = v.dot(n);
    let f = two.mul(a).div(s);
    let w = v.reflect(n);
    lemma_norm_sq_pos(n);
    lemma_vec_dot_wf(v, n);
    lemma_vec_dot_wf(n, n);
    crate::rational::lemma_mul_wf(two, a);
    crate::rational::lemma_div_wf(two.mul(a), s);
    crate::rational::lemma_mul_wf(n.x, f);
    crate::rational::lemma_mul_wf(n.y, f);
    crate::rational::lemma_sub_wf(v.x, n.x.mul(f));
    crate::rational::lemma_sub_wf(v.y, n.y.mul(f));
    let xx = n.x.mul(n.x);
    let yy = n.y.mul(n.y);
    crate::rational::lemma_mul_wf(v.x, n.x);
    crate::rational::lemma_mul_wf(v.y, n.y);
    crate::rational::lemma_mul_wf(n.x, xx);
    crate::rational::lemma_mul_wf(f, xx);
    crate::rational::lemma_mul_wf(f, yy);
    crate::rational::lemma_mul_wf(xx, yy);
    // dot(w, n) equals a - f*s, which denotes -a.
    crate::rational::lemma_mul_sub_distrib(v.x, n.x.mul(f), n.x);
    crate::rational::lemma_mul_rotate(n.x, f);
    crate::rational::lemma_mul_sub_distrib(v.y, n.y.mul(f), n.y);
    crate::rational::lemma_mul_rotate(n.y, f);
    assert(w.x.mul(n.x).eq(v.x.mul(n.x).sub(f.mul(xx))));
    assert(w.y.mul(n.y).eq(v.y.mul(n.y).sub(f.mul(yy))));
    crate::rational::lemma_mul_wf(w.x, n.x);
    crate::rational::lemma_mul_wf(w.y, n.y);
    crate::rational::lemma_sub_wf(v.x.mul(n.x), f.mul(xx));
    crate::rational::lemma_sub_wf(v.y.mul(n.y), f.mul(yy));
    crate::rational::lemma_add_cong(
        w.x.mul(n.x),
        w.y.mul(n.y),
        v.x.mul(n.x).sub(f.mul(xx)),
        v.y.mul(n.y).sub(f.mul(yy)),
    );
    crate::rational::lemma_add_sub_swap(v.x.mul(n.x), f.mul(xx), v.y.mul(n.y), f.mul(yy));
    crate::rational::lemma_add_wf(v.x.mul(n.x).sub(f.mul(xx)), v.y.mul(n.y).sub(f.mul(yy)));
    crate::rational::lemma_add_wf(v.x.mul(n.x), v.y.mul(n.y));
    crate::rational::lemma_add_wf(f.mul(xx), f.mul(yy));
    crate::rational::lemma_sub_wf(a, f.mul(xx).add(f.mul(yy)));
    lemma_vec_dot_wf(w, n);
    crate::rational::lemma_eq_trans(
        w.dot(n),
        v.x.mul(n.x).sub(f.mul(xx)).add(v.y.mul(n.y).sub(f.mul(yy))),
        a.sub(f.mul(xx).add(f.mul(yy))),
    );
    crate::rational::lemma_mul_add_distrib(f, xx, yy);
    crate::rational::lemma_mul_wf(f, s);
    crate::rational::lemma_sub_cong(a, f.mul(xx).add(f.mul(yy)), a, f.mul(s));
    crate::rational::lemma_sub_wf(a, f.mul(s));
    crate::rational::lemma_eq_trans(w.dot(n), a.sub(f.mul(xx).add(f.mul(yy))), a.sub(f.mul(s)));
    // f * s cancels the division, so dot(w, n) denotes a - 2a = -a.
    crate::rational::lemma_mul_div_cancel(two.mul(a), s);
    crate::rational::lemma_sub_cong(a, f.mul(s), a, two.mul(a));
    crate::rational::lemma_sub_wf(a, two.mul(a));
    crate::rational::lemma_eq_trans(w.dot(n), a.sub(f.mul(s)), a.sub(two.mul(a)));
    crate::rational::lemma_sub_twice_self(a);
    crate::rational::lemma_eq_trans(w.dot(n), a.sub(two.mul(a)), a.neg());
    // Hence the second reflection factor denotes -f.
    let f2 = two.mul(w.dot(n)).div(s);
    crate::rational::lemma_mul_cong(two, w.dot(n), two, a.neg());
    crate::rational::lemma_mul_wf(two, w.dot(n));
    crate::rational::lemma_mul_wf(two, a.neg());
    crate::rational::lemma_two_mul_neg(a);
    crate::rational::lemma_eq_trans(two.mul(w.dot(n)), two.mul(a.neg()), two.mul(a).neg());
    crate::rational::lemma_div_cong_num(two.mul(w.dot(n)), two.mul(a).neg(), s);
    crate::rational::lemma_neg_div(two.mul(a), s);
    crate::rational::lemma_div_wf(two.mul(a).neg(), s);
    crate::rational::lemma_div_wf(two.mul(w.dot(n)), s);
    crate::rational::lemma_eq_trans(f2, two.mul(a).neg().div(s), f.neg());
    // The second reflection therefore adds back what the first took away.
    crate::rational::lemma_mul_cong(n.x, f2, n.x, f.neg());
    crate::rational::lemma_mul_cong(n.y, f2, n.y, f.neg());
    crate::rational::lemma_mul_neg(n.x, f);
    crate::rational::lemma_mul_neg(n.y, f);
    crate::rational::lemma_mul_wf(n.x, f2);
    crate::rational::lemma_mul_wf(n.y, f2);
    crate::rational::lemma_sub_cong(w.x, n.x.mul(f2), w.x, n.x.mul(f).neg());
    crate::rational::lemma_sub_cong(w.y, n.y.mul(f2), w.y, n.y.mul(f).neg());
    crate::rational::lemma_sub_neg_is_add(w.x, n.x.mul(f));
    crate::rational::lemma_sub_neg_is_add(w.y, n.y.mul(f));
    crate::rational::lemma_add_sub_cancel(v.x, n.x.mul(f));
    crate::rational::lemma_add_sub_cancel(v.y, n.y.mul(f));
    crate::rational::lemma_sub_wf(w.x, n.x.mul(f2));
    crate::rational::lemma_sub_wf(w.y, n.y.mul(f2));
    crate::rational::lemma_add_wf(w.x, n.x.mul(f));
    crate::rational::lemma_add_wf(w.y, n.y.mul(f));
    crate::rational::lemma_eq_trans(w.reflect(n).x, w.x.add(n.x.mul(f)), v.x);
    crate::rational::lemma_eq_trans(w.reflect(n).y, w.y.add(n.y.mul(f)), v.y);
}

/// Reflecting about a nonzero normal and then about its negation gives back
/// the original vector: the bounce of a bounce undoes itself.
pub proof fn lemma_double_reflect_opposite(v: FVec, n: FVec)
    requires
        v.wf(),
        n.wf(),
        !n.is_zero(),
    ensures
        v.reflect(n).reflect(n.neg()).eq(v),
{
    let w = v.reflect(n);
    lemma_norm_sq_pos(n);
    lemma_vec_dot_wf(v, n);
    lemma_vec_dot_wf(n, n);
    crate::rational::lemma_mul_wf(Frac::from_int(2), v.dot(n));
    crate::rational::lemma_div_wf(Frac::from_int(2).mul(v.dot(n)), n.norm_sq());
    crate::rational::lemma_mul_wf(n.x, Frac::from_int(2).mul(v.dot(n)).div(n.norm_sq()));
    crate::rational::lemma_mul_wf(n.y, Frac::from_int(2).mul(v.dot(n)).div(n.norm_sq()));
    crate::rational::lemma_sub_wf(v.x, n.x.mul(Frac::from_int(2).mul(v.dot(n)).div(n.norm_sq())));
    crate::rational::lemma_sub_wf(v.y, n.y.mul(Frac::from_int(2).mul(v.dot(n)).div(n.norm_sq())));
    lemma_reflect_neg_normal(w, n);
    lemma_reflect_reflect_same(v, n);
}

/// Subtraction of well-formed vectors is well formed.
pub proof fn lemma_vec_sub_wf(a: FVec, b: FVec)
    requires
        a.wf(),
        b.wf(),
    ensures
        a.sub(b).wf(),
{
    crate::rational::lemma_sub_wf(a.x, b.x);
    crate::rational::lemma_sub_wf(a.y, b.y);
}

/// The dot product of well-formed vectors is well formed.
pub proof fn lemma_vec_dot_wf(a: FVec, b: FVec)
    requires
        a.wf(),
        b.wf(),
    ensures
        a.dot(b).wf(),
{
    crate::rational::lemma_mul_wf(a.x, b.x);
    crate::rational::lemma_mul_wf(a.y, b.y);
    crate::rational::lemma_add_wf(a.x.mul(b.x), a.y.mul(b.y));
}

/// The squared distance between well-formed points is well formed.
pub proof fn lemma_dist_sq_wf(a: FVec, b: FVec)
    requires
        a.wf(),
        b.wf(),
    ensures
        spec_dist_sq(a, b).wf(),
{
    lemma_vec_sub_wf(a, b);
    lemma_vec_dot_wf(a.sub(b), a.sub(b));
}

/// A 2D point or free vector with exact rational coordinates.
#[derive(Clone, Copy, Debug)]
pub struct Vector2 {
    pub x: Rational,
    pub y: Rational,
}

impl View for Vector2 {
    type V = FVec;

    open spec fn view(&self) -> FVec {
        FVec { x: self.x@, y: self.y@ }
    }
}

impl Vector2 {
    pub fn new(x: Rational, y: Rational) -> (r: Vector2)
        ensures
            r@ == (FVec { x: x@, y: y@ }),
    {
        Vector2 { x, y }
    }

    /// The point with integer coordinates `(x, y)`.
    pub fn from_ints(x: i64, y: i64) -> (r: Vector2)
        ensures
            r@ == (FVec { x: Frac::from_int(x as int), y: Frac::from_int(y as int) }),
            r@.wf(),
    {
        Vector2 { x: Rational::from_int(x), y: Rational::from_int(y) }
    }

    /// Exact vector addition; `None` when the result does not fit.
    pub fn add(self, other: Vector2) -> (r: Option<Vector2>)
        requires
            self@.wf(),
            other@.wf(),
        ensures
            r matches Some(v) ==> v@ == self@.add(other@) && v@.wf(),
            add_fits(self@.x, other@.x) && add_fits(self@.y, other@.y) ==> r is Some,
    {
        let x = self.x.add(other.x)?;
        let y = self.y.add(other.y)?;
        Some(Vector2 { x, y })
    }

    /// Exact vector subtraction; `None` when the result does not fit.
    pub fn sub(self, other: Vector2) -> (r: Option<Vector2>)
        requires
            self@.wf(),
            other@.wf(),
        ensures
            r matches Some(v) ==> v@ == self@.sub(other@) && v@.wf(),
            sub_fits(self@.x, other@.x) && sub_fits(self@.y, other@.y) ==> r is Some,
    {
        let x = self.x.sub(other.x)?;
        let y = self.y.sub(other.y)?;
        Some(Vector2 { x, y })
    }

    /// Exact scaling; `None` when the result does not fit.
    pub fn scale(self, k: Rational) -> (r: Option<Vector2>)
        requires
            self@.wf(),
            k@.wf(),
        ensures
            r matches Some(v) ==> v@ == self@.scale(k@) && v@.wf(),
            mul_fits(self@.x, k@) && mul_fits(self@.y, k@) ==> r is Some,
    {
        let x = self.x.mul(k)?;
        let y = self.y.mul(k)?;
        Some(Vector2 { x, y })
    }

    /// Exact dot product; `None` when the result does not fit.
    pub fn dot(self, other: Vector2) -> (r: Option<Rational>)
        requires
            self@.wf(),
            other@.wf(),
        ensures
            r matches Some(d) ==> d@ == self@.dot(other@) && d@.wf(),
            dot_fits(self@, other@) ==> r is Some,
    {
        let xx = self.x.mul(other.x)?;
        let yy = self.y.mul(other.y)?;
        xx.add(yy)
    }

    /// Exact squared norm; `None` when the result does not fit.
    pub fn norm_sq(self) -> (r: Option<Rational>)
        requires
            self@.wf(),
        ensures
            r matches Some(d) ==> d@ == self@.norm_sq() && d@.wf(),
            dot_fits(self@, self@) ==> r is Some,
    {
        self.dot(self)
    }

    /// The vector is exactly zero.
    pub fn is_zero(self) -> (r: bool)
        requires
            self@.wf(),
        ensures
            r == self@.is_zero(),
    {
        self.x.is_zero() && self.y.is_zero()
    }

    /// Exact reflection of `self` about the nonzero normal `n`; `None` when
    /// an intermediate value does not fit.
    pub fn reflect(self, n: Vector2) -> (r: Option<Vector2>)
        requires
            self@.wf(),
            n@.wf(),
            !n@.is_zero(),
        ensures
            r matches Some(v) ==> v@ == self@.reflect(n@) && v@.wf(),
            reflect_fits(self@, n@) ==> r is Some,
    {
        proof {
            lemma_norm_sq_pos(n@);
        }
        let norm_sq = n.norm_sq()?;
        let d = self.dot(n)?;
        let factor = Rational::from_int(2).mul(d)?.div(norm_sq)?;
        let x = self.x.sub(n.x.mul(factor)?)?;
        let y = self.y.sub(n.y.mul(factor)?)?;
        Some(Vector2 { x, y })
    }

    /// The same point or vector with both coordinates in lowest terms.
    pub fn reduced(self) -> (r: Vector2)
        requires
            self@.wf(),
        ensures
            r@.eq(self@),
            r@.wf(),
    {
        Vector2 { x: self.x.reduced(), y: self.y.reduced() }
    }

    /// Exact squared distance between the points `self` and `other`; `None`
    /// when an intermediate value does not fit.
    pub fn dist_sq(self, other: Vector2) -> (r: Option<Rational>)
        requires
            self@.wf(),
            other@.wf(),
        ensures
            r matches Some(d) ==> d@ == spec_dist_sq(self@, other@) && d@.wf(),
            dist_sq_fits(self@, other@) ==> r is Some,
    {
        let d = self.sub(other)?;
        d.norm_sq()
    }
}

} // verus!

//! Mirrors: directed line segments with an absorption factor, and the
//! ray/segment intersection test.

use vstd::prelude::*;

use crate::rational::add_fits;
use crate::rational::cmp_fits;
use crate::rational::div_fits;
use crate::rational::in_i128;
use crate::rational::mul_fits;
use crate::rational::sub_fits;
use crate::rational::Frac;
use crate::rational::Rational;
use crate::ray::FRay;
use crate::ray::Ray;
use crate::vector::FVec;
use crate::vector::Vector2;

verus! {

/// Mathematical model of a mirror segment.
pub ghost struct FMirror {
    pub start_pos: FVec,
    pub end_pos: FVec,
    pub absorption_factor: Frac,
}

impl FMirror {
    pub open spec fn wf(self) -> bool {
        self.start_pos.wf() && self.end_pos.wf() && self.absorption_factor.wf()
    }

    /// The segment has two distinct endpoints.
    pub open spec fn nondegenerate(self) -> bool {
        !(self.start_pos.x.eq(self.end_pos.x) && self.start_pos.y.eq(self.end_pos.y))
    }

    /// The absorption factor lies in `[0, 1]`.
    pub open spec fn absorption_in_range(self) -> bool {
        Frac::from_int(0).le(self.absorption_factor) && self.absorption_factor.le(
            Frac::from_int(1),
        )
    }
}

/// The common denominator of the two parametric solutions: zero exactly when
/// the ray is parallel to the mirror's line (or the segment is degenerate).
pub open spec fn inter_denom(m: FMirror, r: FRay) -> Frac {
    let ab = m.end_pos.sub(m.start_pos);
    r.vector.y.mul(ab.x).sub(r.vector.x.mul(ab.y))
}

/// Numerator of the position of the intersection along the ray.
pub open spec fn inter_ray_num(m: FMirror, r: FRay) -> Frac {
    let ab = m.end_pos.sub(m.start_pos);
    let pa = r.start_pos.sub(m.start_pos);
    ab.y.mul(pa.x).sub(ab.x.mul(pa.y))
}

/// Numerator of the position of the intersection along the segment.
pub open spec fn inter_seg_num(m: FMirror, r: FRay) -> Frac {
    let pa = r.start_pos.sub(m.start_pos);
    r.vector.y.mul(pa.x).sub(r.vector.x.mul(pa.y))
}

/// Position of the intersection along the ray: the `t` of `P + t*V`.
pub open spec fn inter_ray_t(m: FMirror, r: FRay) -> Frac {
    inter_ray_num(m, r).div(inter_denom(m, r))
}

/// Position of the intersection along the segment: the `t` of `A + t*(B-A)`.
pub open spec fn inter_seg_t(m: FMirror, r: FRay) -> Frac {
    inter_seg_num(m, r).div(inter_denom(m, r))
}

/// The ray genuinely strikes the mirror: the lines are not parallel, the
/// intersection lies strictly inside the segment (excluding both endpoints)
/// and strictly ahead of the ray's origin.
pub open spec fn spec_hits(m: FMirror, r: FRay) -> bool {
    &&& !inter_denom(m, r).is_zero()
    &&& Frac::from_int(0).lt(inter_seg_t(m, r))
    &&& inter_seg_t(m, r).lt(Frac::from_int(1))
    &&& Frac::from_int(0).lt(inter_ray_t(m, r))
}

/// The intersection point `A + t*(B-A)` at the segment parameter.
pub open spec fn spec_hit_point(m: FMirror, r: FRay) -> FVec {
    let ab = m.end_pos.sub(m.start_pos);
    m.start_pos.add(ab.scale(inter_seg_t(m, r)))
}

/// Every intermediate value of the intersection computation fits in `i128`
/// fields, so the outcome is decided by the geometry alone.
pub open spec fn intersect_fits(m: FMirror, r: FRay) -> bool {
    let ab = m.end_pos.sub(m.start_pos);
    let pa = r.start_pos.sub(m.start_pos);
    let denom = inter_denom(m, r);
    let ray_num = inter_ray_num(m, r);
    let seg_num = inter_seg_num(m, r);
    let ray_t = inter_ray_t(m, r);
    let seg_t = inter_seg_t(m, r);
    let zero = Frac::from_int(0);
    let one = Frac::from_int(1);
    &&& sub_fits(m.end_pos.x, m.start_pos.x)
    &&& sub_fits(m.end_pos.y, m.start_pos.y)
    &&& sub_fits(r.start_pos.x, m.start_pos.x)
    &&& sub_fits(r.start_pos.y, m.start_pos.y)
    &&& mul_fits(r.vector.y, ab.x)
    &&& mul_fits(r.vector.x, ab.y)
    &&& sub_fits(r.vector.y.mul(ab.x), r.vector.x.mul(ab.y))
    &&& mul_fits(ab.y, pa.x)
    &&& mul_fits(ab.x, pa.y)
    &&& sub_fits(ab.y.mul(pa.x), ab.x.mul(pa.y))
    &&& mul_fits(r.vector.y, pa.x)
    &&& mul_fits(r.vector.x, pa.y)
    &&& sub_fits(r.vector.y.mul(pa.x), r.vector.x.mul(pa.y))
    &&& div_fits(ray_num, denom)
    &&& div_fits(seg_num, denom)
    &&& cmp_fits(zero, seg_t)
    &&& cmp_fits(seg_t, one)
    &&& cmp_fits(zero, ray_t)
    &&& mul_fits(ab.x, seg_t)
    &&& mul_fits(ab.y, seg_t)
    &&& add_fits(m.start_pos.x, ab.x.mul(seg_t))
    &&& add_fits(m.start_pos.y, ab.y.mul(seg_t))
}

/// Outcome of testing one ray against one mirror.
#[derive(Clone, Copy, Debug)]
pub enum IntersectionOutcome {
    /// The ray strikes the mirror at this point.
    Hit(Vector2),
    /// No intersection: parallel lines, an out-of-range parameter, or an
    /// exact value that does not fit in `i128` fields.
    Miss,
}

/// A mirror: a directed line segment from `start_pos` to `end_pos` with an
/// absorption factor (`0` = perfect reflector, `1` = fully absorbing).
#[derive(Clone, Copy, Debug)]
pub struct Mirror {
    pub start_pos: Vector2,
    pub end_pos: Vector2,
    pub absorption_factor: Rational,
}

impl View for Mirror {
    type V = FMirror;

    open spec fn view(&self) -> FMirror {
        FMirror {
            start_pos: self.start_pos@,
            end_pos: self.end_pos@,
            absorption_factor: self.absorption_factor@,
        }
    }
}

impl Mirror {
    pub fn new(start_pos: Vector2, end_pos: Vector2, absorption_factor: Rational) -> (r: Mirror)
        ensures
            r@ == (FMirror {
                start_pos: start_pos@,
                end_pos: end_pos@,
                absorption_factor: absorption_factor@,
            }),
    {
        Mirror { start_pos, end_pos, absorption_factor }
    }

    /// The intersection point when the computation succeeds exactly.
    fn intersect_point(&self, ray: &Ray) -> (r: Option<Vector2>)
        requires
            self@.wf(),
            ray@.wf(),
        ensures
            r matches Some(p) ==> spec_hits(self@, ray@) && p@ == spec_hit_point(self@, ray@)
                && p@.wf(),
            intersect_fits(self@, ray@) && spec_hits(self@, ray@) ==> r is Some,
    {
        let ab = self.end_pos.sub(self.start_pos)?;
        let pa = ray.start_pos.sub(self.start_pos)?;
        let denom = ray.vector.y.mul(ab.x)?.sub(ray.vector.x.mul(ab.y)?)?;
        if denom.is_zero() {
            return None;
        }
        let ray_num = ab.y.mul(pa.x)?.sub(ab.x.mul(pa.y)?)?;
        let seg_num = ray.vector.y.mul(pa.x)?.sub(ray.vector.x.mul(pa.y)?)?;
        let ray_t = ray_num.div(denom)?;
        let seg_t = seg_num.div(denom)?;
        let zero = Rational::from_int(0);
        let one = Rational::from_int(1);
        let seg_low = zero.lt(seg_t)?;
        if !seg_low {
            return None;
        }
        let seg_high = seg_t.lt(one)?;
        if !seg_high {
            return None;
        }
        let ray_fwd = zero.lt(ray_t)?;
        if !ray_fwd {
            return None;
        }
        let point = self.start_pos.add(ab.scale(seg_t)?)?;
        Some(point)
    }

    /// Tests this mirror against `ray`, solving the 2x2 parametric system of
    /// the ray's line and the segment's line exactly.
    pub fn intersect(&self, ray: &Ray) -> (r: IntersectionOutcome)
        requires
            self@.wf(),
            ray@.wf(),
        ensures
            r matches IntersectionOutcome::Hit(p) ==> spec_hits(self@, ray@) && p@
                == spec_hit_point(self@, ray@) && p@.wf(),
            intersect_fits(self@, ray@) && spec_hits(self@, ray@) ==> r is Hit,
    {
        match self.intersect_point(ray) {
            Some(p) => IntersectionOutcome::Hit(p),
            None => IntersectionOutcome::Miss,
        }
    }

    /// A vector perpendicular to the segment, built from the endpoint deltas
    /// `(dx, dy)` as `(-dy, dx)`; it is not normalised, which reflection does
    /// not require.  `None` when the exact deltas do not fit.
    pub fn normal(&self) -> (r: Option<Vector2>)
        requires
            self@.wf(),
        ensures
            r matches Some(n) ==> n@ == spec_normal(self@) && n@.wf(),
            normal_fits(self@) ==> r is Some,
    {
        let ab = self.end_pos.sub(self.start_pos)?;
        let nx = ab.y.neg()?;
        Some(Vector2 { x: nx, y: ab.x })
    }
}

/// The normal vector `(-dy, dx)` of the segment's delta `(dx, dy)`.
pub open spec fn spec_normal(m: FMirror) -> FVec {
    let ab = m.end_pos.sub(m.start_pos);
    FVec { x: ab.y.neg(), y: ab.x }
}

/// The exact normal computation fits in `i128` fields.
pub open spec fn normal_fits(m: FMirror) -> bool {
    let ab = m.end_pos.sub(m.start_pos);
    &&& sub_fits(m.end_pos.x, m.start_pos.x)
    &&& sub_fits(m.end_pos.y, m.start_pos.y)
    &&& in_i128(-ab.y.num)
}

/// The normal is perpendicular to the segment: its dot product with the
/// endpoint delta is zero.
pub proof fn lemma_normal_perpendicular(m: FMirror)
    requires
        m.wf(),
    ensures
        spec_normal(m).dot(m.end_pos.sub(m.start_pos)).is_zero(),
{
    let ab = m.end_pos.sub(m.start_pos);
    let n = spec_normal(m);
    let a = ab.x.num;
    let b = ab.x.den;
    let c = ab.y.num;
    let d = ab.y.den;
    assert(n.dot(ab).num == ((-c) * a) * (b * d) + (a * c) * (d * b));
    assert(((-c) * a) * (b * d) + (a * c) * (d * b) == 0) by (nonlinear_arith);
}

/// When the lines are not parallel, the segment parameter and the hit point
/// are well formed.
pub proof fn lemma_hit_point_wf(m: FMirror, r: FRay)
    requires
        m.wf(),
        r.wf(),
        !inter_denom(m, r).is_zero(),
    ensures
        inter_seg_t(m, r).wf(),
        spec_hit_point(m, r).wf(),
{
    let ab = m.end_pos.sub(m.start_pos);
    let pa = r.start_pos.sub(m.start_pos);
    crate::vector::lemma_vec_sub_wf(m.end_pos, m.start_pos);
    crate::vector::lemma_vec_sub_wf(r.start_pos, m.start_pos);
    crate::rational::lemma_mul_wf(r.vector.y, ab.x);
    crate::rational::lemma_mul_wf(r.vector.x, ab.y);
    crate::rational::lemma_sub_wf(r.vector.y.mul(ab.x), r.vector.x.mul(ab.y));
    crate::rational::lemma_mul_wf(r.vector.y, pa.x);
    crate::rational::lemma_mul_wf(r.vector.x, pa.y);
    crate::rational::lemma_sub_wf(r.vector.y.mul(pa.x), r.vector.x.mul(pa.y));
    crate::rational::lemma_div_wf(inter_seg_num(m, r), inter_denom(m, r));
    crate::rational::lemma_mul_wf(ab.x, inter_seg_t(m, r));
    crate::rational::lemma_mul_wf(ab.y, inter_seg_t(m, r));
    crate::rational::lemma_add_wf(m.start_pos.x, ab.x.mul(inter_seg_t(m, r)));
    crate::rational::lemma_add_wf(m.start_pos.y, ab.y.mul(inter_seg_t(m, r)));
}

/// A ray shot along the positive x axis into a vertical mirror hits it at
/// its own height: the intersection point's y coordinate equals the ray
/// origin's y coordinate.
pub proof fn lemma_axis_aligned_hit(m: FMirror, r: FRay)
    requires
        m.wf(),
        r.wf(),
        r.vector.x.eq(Frac::from_int(1)),
        r.vector.y.eq(Frac::from_int(0)),
        m.start_pos.x.eq(m.end_pos.x),
        spec_hits(m, r),
    ensures
        spec_hit_point(m, r).y.eq(r.start_pos.y),
{
    let zero = Frac::from_int(0);
    let one = Frac::from_int(1);
    let ab = m.end_pos.sub(m.start_pos);
    let pa = r.start_pos.sub(m.start_pos);
    let vx = r.vector.x;
    let vy = r.vector.y;
    let denom = inter_denom(m, r);
    let seg_num = inter_seg_num(m, r);
    let seg_t = inter_seg_t(m, r);
    crate::vector::lemma_vec_sub_wf(m.end_pos, m.start_pos);
    crate::vector::lemma_vec_sub_wf(r.start_pos, m.start_pos);
    crate::rational::lemma_mul_wf(vy, ab.x);
    crate::rational::lemma_mul_wf(vx, ab.y);
    crate::rational::lemma_mul_wf(vy, pa.x);
    crate::rational::lemma_mul_wf(vx, pa.y);
    crate::rational::lemma_sub_wf(vy.mul(ab.x), vx.mul(ab.y));
    crate::rational::lemma_sub_wf(vy.mul(pa.x), vx.mul(pa.y));
    crate::rational::lemma_sub_wf(zero, ab.y);
    crate::rational::lemma_sub_wf(zero, pa.y);
    lemma_hit_point_wf(m, r);
    // The denominator denotes -dy and the segment numerator denotes -pa.y.
    assert(vy.num == 0);
    crate::rational::lemma_zero_mul(vy, ab.x);
    crate::rational::lemma_one_mul(vx, ab.y);
    crate::rational::lemma_sub_cong(vy.mul(ab.x), vx.mul(ab.y), zero, ab.y);
    assert(zero.sub(ab.y) == ab.y.neg());
    crate::rational::lemma_zero_mul(vy, pa.x);
    crate::rational::lemma_one_mul(vx, pa.y);
    crate::rational::lemma_sub_cong(vy.mul(pa.x), vx.mul(pa.y), zero, pa.y);
    assert(zero.sub(pa.y) == pa.y.neg());
    assert(denom.eq(ab.y.neg()));
    assert(seg_num.eq(pa.y.neg()));
    // dy * seg_t denotes seg_num back-multiplied and negated, hence pa.y.
    crate::rational::lemma_neg_cong(denom, ab.y.neg());
    crate::rational::lemma_neg_neg(ab.y);
    assert(ab.y.eq(denom.neg()));
    crate::rational::lemma_mul_cong(ab.y, seg_t, denom.neg(), seg_t);
    crate::rational::lemma_mul_neg(denom, seg_t);
    crate::rational::lemma_mul_div_cancel(seg_num, denom);
    crate::rational::lemma_mul_wf(denom, seg_t);
    crate::rational::lemma_neg_cong(denom.mul(seg_t), seg_num);
    crate::rational::lemma_neg_cong(seg_num, pa.y.neg());
    crate::rational::lemma_neg_neg(pa.y);
    crate::rational::lemma_mul_wf(ab.y, seg_t);
    crate::rational::lemma_eq_trans(ab.y.mul(seg_t), denom.neg().mul(seg_t), seg_num.neg());
    crate::rational::lemma_eq_trans(ab.y.mul(seg_t), seg_num.neg(), pa.y);
    // The hit point's height is the origin's height.
    crate::rational::lemma_add_cong(m.start_pos.y, ab.y.mul(seg_t), m.start_pos.y, pa.y);
    crate::rational::lemma_add_sub_cancel(r.start_pos.y, m.start_pos.y);
    crate::rational::lemma_add_wf(m.start_pos.y, ab.y.mul(seg_t));
    crate::rational::lemma_add_wf(m.start_pos.y, pa.y);
    crate::rational::lemma_eq_trans(
        spec_hit_point(m, r).y,
        m.start_pos.y.add(pa.y),
        r.start_pos.y,
    );
}

/// A struck mirror has a nonzero normal: a hit needs a nonzero denominator,
/// which needs a nonzero endpoint delta.
pub proof fn lemma_hit_normal_nonzero(m: FMirror, r: FRay)
    requires
        m.wf(),
        r.wf(),
        !inter_denom(m, r).is_zero(),
    ensures
        !spec_normal(m).is_zero(),
{
    let ab = m.end_pos.sub(m.start_pos);
    if spec_normal(m).is_zero() {
        assert(ab.y.num == 0 && ab.x.num == 0);
        assert(inter_denom(m, r).num == r.vector.y.num * ab.x.num * (r.vector.x.den * ab.y.den)
            - r.vector.x.num * ab.y.num * (r.vector.y.den * ab.x.den));
        assert(r.vector.y.num * 0 * (r.vector.x.den * ab.y.den) == 0) by (nonlinear_arith);
        assert(r.vector.x.num * 0 * (r.vector.y.den * ab.x.den) == 0) by (nonlinear_arith);
    }
}

} // verus!

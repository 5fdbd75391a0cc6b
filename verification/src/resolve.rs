//! Closest-hit resolution: one ray against the whole mirror set.

use vstd::prelude::*;

use crate::mirror::intersect_fits;
use crate::mirror::spec_hit_point;
use crate::mirror::spec_hits;
use crate::mirror::IntersectionOutcome;
use crate::mirror::Mirror;
use crate::rational::cmp_fits;
use crate::rational::Frac;
use crate::rational::Rational;
use crate::ray::FRay;
use crate::ray::Ray;
use crate::vector::dist_sq_fits;
use crate::vector::spec_dist_sq;
use crate::vector::Vector2;

verus! {

/// Squared self-hit suppression threshold: a candidate hit is accepted only
/// when its squared distance from the ray's origin exceeds the square of
/// `1e-10`, which discards the floating residue of a previous bounce point
/// without discarding any genuine hit.
pub open spec fn spec_eps_sq() -> Frac {
    Frac { num: 1, den: 100_000_000_000_000_000_000 }
}

/// The executable value of [`spec_eps_sq`].
pub fn epsilon_sq() -> (r: Rational)
    ensures
        r@ == spec_eps_sq(),
        r@.wf(),
{
    Rational { num: 1, den: 100_000_000_000_000_000_000i128 }
}

/// Every mirror of the set is well formed.
pub open spec fn mirrors_wf(mirrors: Seq<Mirror>) -> bool {
    forall|j: int| 0 <= j < mirrors.len() ==> (#[trigger] mirrors[j])@.wf()
}

/// Squared distance from the ray's origin to the candidate hit point on `m`.
pub open spec fn cand_dist(m: crate::mirror::FMirror, r: FRay) -> Frac {
    spec_dist_sq(r.start_pos, spec_hit_point(m, r))
}

/// The mirror is a valid candidate for the closest hit: the ray strikes it
/// beyond the self-hit suppression threshold.
pub open spec fn valid_candidate(m: crate::mirror::FMirror, r: FRay) -> bool {
    spec_hits(m, r) && spec_eps_sq().lt(cand_dist(m, r))
}

/// Index of the closest valid candidate among the first `k` mirrors, ties
/// broken in favour of the first seen, or `None` when there is none.
pub open spec fn spec_resolve_upto(r: FRay, mirrors: Seq<Mirror>, k: int) -> Option<int>
    decreases k,
{
    if k <= 0 {
        None
    } else {
        let prev = spec_resolve_upto(r, mirrors, k - 1);
        let j = k - 1;
        if valid_candidate(mirrors[j]@, r) && (match prev {
            Option::None => true,
            Option::Some(i) => cand_dist(mirrors[j]@, r).lt(cand_dist(mirrors[i]@, r)),
        }) {
            Some(j)
        } else {
            prev
        }
    }
}

/// Index of the closest valid candidate over the whole mirror set.
pub open spec fn spec_resolve(r: FRay, mirrors: Seq<Mirror>) -> Option<int> {
    spec_resolve_upto(r, mirrors, mirrors.len() as int)
}

/// Every intermediate value of closest-hit resolution fits in `i128` fields,
/// so the outcome is decided by the geometry alone.
pub open spec fn resolve_fits(r: FRay, mirrors: Seq<Mirror>) -> bool {
    &&& forall|j: int|
        0 <= j < mirrors.len() ==> intersect_fits((#[trigger] mirrors[j])@, r)
    &&& forall|j: int|
        0 <= j < mirrors.len() && spec_hits((#[trigger] mirrors[j])@, r) ==> dist_sq_fits(
            r.start_pos,
            spec_hit_point(mirrors[j]@, r),
        ) && cmp_fits(spec_eps_sq(), cand_dist(mirrors[j]@, r))
    &&& forall|i: int, j: int|
        0 <= i < mirrors.len() && 0 <= j < mirrors.len() && spec_hits(#[trigger] mirrors[i]@, r)
            && spec_hits(#[trigger] mirrors[j]@, r) ==> cmp_fits(
            cand_dist(mirrors[i]@, r),
            cand_dist(mirrors[j]@, r),
        )
}

/// The squared distance to a valid candidate's hit point is well formed.
pub proof fn lemma_cand_dist_wf(m: crate::mirror::FMirror, r: FRay)
    requires
        m.wf(),
        r.wf(),
        spec_hits(m, r),
    ensures
        cand_dist(m, r).wf(),
{
    crate::mirror::lemma_hit_point_wf(m, r);
    crate::vector::lemma_dist_sq_wf(r.start_pos, spec_hit_point(m, r));
}

/// The resolver picks the closest valid candidate among the first `k`
/// mirrors: no other valid candidate is strictly closer, and every valid
/// candidate seen earlier is strictly farther (ties keep the first seen).
/// When it picks none, no mirror among the first `k` is a valid candidate.
pub proof fn lemma_resolve_upto_closest(r: FRay, mirrors: Seq<Mirror>, k: int)
    requires
        r.wf(),
        mirrors_wf(mirrors),
        0 <= k <= mirrors.len(),
    ensures
        match spec_resolve_upto(r, mirrors, k) {
            Option::None => forall|j: int|
                0 <= j < k ==> !valid_candidate((#[trigger] mirrors[j])@, r),
            Option::Some(i) => {
                &&& 0 <= i < k
                &&& valid_candidate(mirrors[i]@, r)
                &&& forall|j: int|
                    0 <= j < k && valid_candidate((#[trigger] mirrors[j])@, r) ==> cand_dist(
                        mirrors[i]@,
                        r,
                    ).le(cand_dist(mirrors[j]@, r))
                &&& forall|j: int|
                    0 <= j < i && valid_candidate((#[trigger] mirrors[j])@, r) ==> cand_dist(
                        mirrors[i]@,
                        r,
                    ).lt(cand_dist(mirrors[j]@, r))
            },
        },
    decreases k,
{
    if k > 0 {
        lemma_resolve_upto_closest(r, mirrors, k - 1);
        let prev = spec_resolve_upto(r, mirrors, k - 1);
        let j = k - 1;
        if valid_candidate(mirrors[j]@, r) {
            lemma_cand_dist_wf(mirrors[j]@, r);
            match prev {
                Option::None => {},
                Option::Some(i) => {
                    lemma_cand_dist_wf(mirrors[i]@, r);
                    if cand_dist(mirrors[j]@, r).lt(cand_dist(mirrors[i]@, r)) {
                        // The newcomer wins: it is strictly closer than the
                        // previous best, hence than every earlier candidate.
                        assert forall|l: int|
                            0 <= l < k && valid_candidate(
                                (#[trigger] mirrors[l])@,
                                r,
                            ) implies cand_dist(mirrors[j]@, r).le(cand_dist(mirrors[l]@, r)) by {
                            if l < j {
                                lemma_cand_dist_wf(mirrors[l]@, r);
                                crate::rational::lemma_lt_le_trans(
                                    cand_dist(mirrors[j]@, r),
                                    cand_dist(mirrors[i]@, r),
                                    cand_dist(mirrors[l]@, r),
                                );
                            }
                        }
                        assert forall|l: int|
                            0 <= l < j && valid_candidate(
                                (#[trigger] mirrors[l])@,
                                r,
                            ) implies cand_dist(mirrors[j]@, r).lt(cand_dist(mirrors[l]@, r)) by {
                            lemma_cand_dist_wf(mirrors[l]@, r);
                            crate::rational::lemma_lt_le_trans(
                                cand_dist(mirrors[j]@, r),
                                cand_dist(mirrors[i]@, r),
                                cand_dist(mirrors[l]@, r),
                            );
                        }
                    }
                },
            }
        }
    }
}

/// The resolver over the whole set picks the closest valid candidate, or
/// reports that there is none.
pub proof fn lemma_resolve_closest(r: FRay, mirrors: Seq<Mirror>)
    requires
        r.wf(),
        mirrors_wf(mirrors),
    ensures
        match spec_resolve(r, mirrors) {
            Option::None => forall|j: int|
                0 <= j < mirrors.len() ==> !valid_candidate((#[trigger] mirrors[j])@, r),
            Option::Some(i) => {
                &&& 0 <= i < mirrors.len()
                &&& valid_candidate(mirrors[i]@, r)
                &&& forall|j: int|
                    0 <= j < mirrors.len() && valid_candidate((#[trigger] mirrors[j])@, r)
                        ==> cand_dist(mirrors[i]@, r).le(cand_dist(mirrors[j]@, r))
                &&& forall|j: int|
                    0 <= j < i && valid_candidate((#[trigger] mirrors[j])@, r) ==> cand_dist(
                        mirrors[i]@,
                        r,
                    ).lt(cand_dist(mirrors[j]@, r))
            },
        },
{
    lemma_resolve_upto_closest(r, mirrors, mirrors.len() as int);
}

/// Outcome of resolving one ray against the whole mirror set.
#[derive(Clone, Copy, Debug)]
pub enum BounceOutcome {
    /// The nearest valid hit: its point and the index of the struck mirror.
    Hit { point: Vector2, mirror: usize },
    /// No mirror yields a valid intersection beyond the threshold.
    Miss,
}

/// Finds the nearest valid forward intersection of `ray` with any mirror,
/// ranking candidates by squared Euclidean distance from the ray's origin and
/// suppressing near-zero-distance self-hits.
pub fn find_closest_mirror(ray: &Ray, mirrors: &Vec<Mirror>) -> (r: BounceOutcome)
    requires
        ray@.wf(),
        mirrors_wf(mirrors@),
    ensures
        mirrors@.len() == 0 ==> r is Miss,
        r matches BounceOutcome::Hit { point, mirror } ==> mirror < mirrors@.len()
            && valid_candidate(mirrors@[mirror as int]@, ray@) && point@ == spec_hit_point(
            mirrors@[mirror as int]@,
            ray@,
        ) && point@.wf(),
        resolve_fits(ray@, mirrors@) ==> (match r {
            BounceOutcome::Miss => spec_resolve(ray@, mirrors@) is None,
            BounceOutcome::Hit { point, mirror } => spec_resolve(ray@, mirrors@) == Some(
                mirror as int,
            ),
        }),
{
    let eps = epsilon_sq();
    let mut best: Option<(usize, Vector2, Rational)> = None;
    let mut j: usize = 0;
    while j < mirrors.len()
        invariant
            ray@.wf(),
            mirrors_wf(mirrors@),
            j <= mirrors@.len(),
            eps@ == spec_eps_sq(),
            eps@.wf(),
            best matches Some((i, p, d)) ==> i < j && valid_candidate(mirrors@[i as int]@, ray@)
                && p@ == spec_hit_point(mirrors@[i as int]@, ray@) && p@.wf() && d@ == cand_dist(
                mirrors@[i as int]@,
                ray@,
            ) && d@.wf(),
            resolve_fits(ray@, mirrors@) ==> (match best {
                Option::None => spec_resolve_upto(ray@, mirrors@, j as int) is None,
                Option::Some((i, p, d)) => spec_resolve_upto(ray@, mirrors@, j as int) == Some(
                    i as int,
                ),
            }),
        decreases mirrors@.len() - j,
    {
        match mirrors[j].intersect(ray) {
            IntersectionOutcome::Miss => {},
            IntersectionOutcome::Hit(point) => {
                match ray.distance_sq(&point) {
                    Option::None => {},
                    Option::Some(d) => {
                        match eps.lt(d) {
                            Option::None => {},
                            Option::Some(false) => {},
                            Option::Some(true) => {
                                match best {
                                    Option::None => { best = Some((j, point, d)) },
                                    Option::Some((_bi, _bp, bd)) => {
                                        match d.lt(bd) {
                                            Option::None => {},
                                            Option::Some(false) => {},
                                            Option::Some(true) => { best = Some((j, point, d)) },
                                        }
                                    },
                                }
                            },
                        }
                    },
                }
            },
        }
        j += 1;
    }
    match best {
        Option::None => BounceOutcome::Miss,
        Option::Some((i, p, _d)) => BounceOutcome::Hit { point: p, mirror: i },
    }
}

} // verus!

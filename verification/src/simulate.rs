//! The per-generation bounce step: every ray of the current generation is
//! resolved against the whole mirror set; each hit contributes one drawable
//! segment and, when the reflected ray stays alive, one ray of the next
//! generation.
//!
//! Intensity policy: a bounce attenuates continuously, multiplying the ray's
//! intensity by `1 - absorption_factor`; a ray stays alive exactly when its
//! intensity is at least the liveness threshold of `1/10`.
//!
//! The step works on whatever exact representations it is handed; a driver
//! that feeds one generation's rays into the next should reduce them to
//! lowest terms ([`crate::ray::Ray::reduced`]) so the exact values stay
//! within `i128` range over long bounce chains.

use vstd::prelude::*;

use crate::mirror::normal_fits;
use crate::mirror::spec_hit_point;
use crate::mirror::spec_normal;
use crate::mirror::FMirror;
use crate::mirror::Mirror;
use crate::rational::cmp_fits;
use crate::rational::mul_fits;
use crate::rational::sub_fits;
use crate::rational::Frac;
use crate::rational::Rational;
use crate::ray::FRay;
use crate::ray::Ray;
use crate::resolve::find_closest_mirror;
use crate::resolve::mirrors_wf;
use crate::resolve::resolve_fits;
use crate::resolve::spec_resolve;
use crate::resolve::BounceOutcome;
use crate::vector::reflect_fits;
use crate::vector::FVec;
use crate::vector::Vector2;

verus! {

/// Liveness threshold: a ray whose intensity drops below `1/10` is dead and
/// leaves the simulation.
pub open spec fn spec_threshold() -> Frac {
    Frac { num: 1, den: 10 }
}

/// The executable value of [`spec_threshold`].
pub fn threshold() -> (r: Rational)
    ensures
        r@ == spec_threshold(),
        r@.wf(),
{
    Rational { num: 1, den: 10 }
}

/// Every ray of the set is well formed.
pub open spec fn rays_wf(rays: Seq<Ray>) -> bool {
    forall|k: int| 0 <= k < rays.len() ==> (#[trigger] rays[k])@.wf()
}

/// Mathematical model of a drawable segment.
pub ghost struct FSegment {
    pub from: FVec,
    pub to: FVec,
}

/// The visible trace of one ray for one bounce, consumed by a renderer.
#[derive(Clone, Copy, Debug)]
pub struct DrawSegment {
    pub from: Vector2,
    pub to: Vector2,
}

impl View for DrawSegment {
    type V = FSegment;

    open spec fn view(&self) -> FSegment {
        FSegment { from: self.from@, to: self.to@ }
    }
}

/// One generation step's output: the segments to draw for this bounce and the
/// rays of the next generation.
#[derive(Clone, Debug)]
pub struct ReflectionHandlerResult {
    pub draw_line: Vec<DrawSegment>,
    pub reflected_rays: Vec<Ray>,
}

/// The intensity carried by the ray reflected off `m`: the incoming intensity
/// attenuated by the mirror's absorption factor.
pub open spec fn spec_bounced_intensity(r: FRay, m: FMirror) -> Frac {
    r.intensity.mul(Frac::from_int(1).sub(m.absorption_factor))
}

/// The ray of the next generation produced by `r`, if any: the reflection at
/// the closest valid hit, kept only while its intensity stays at or above the
/// liveness threshold.
pub open spec fn spec_next_ray(r: FRay, mirrors: Seq<Mirror>) -> Option<FRay> {
    match spec_resolve(r, mirrors) {
        Option::None => None,
        Option::Some(i) => {
            let m = mirrors[i]@;
            let intensity = spec_bounced_intensity(r, m);
            if spec_threshold().le(intensity) {
                Some(
                    FRay {
                        start_pos: spec_hit_point(m, r),
                        vector: r.vector.reflect(spec_normal(m)),
                        intensity,
                    },
                )
            } else {
                None
            }
        },
    }
}

/// The drawable segment produced by `r`, if any: from its origin to the
/// closest valid hit point.
pub open spec fn spec_segment(r: FRay, mirrors: Seq<Mirror>) -> Option<FSegment> {
    match spec_resolve(r, mirrors) {
        Option::None => None,
        Option::Some(i) => Some(
            FSegment { from: r.start_pos, to: spec_hit_point(mirrors[i]@, r) },
        ),
    }
}

/// Every intermediate value of one ray's bounce step fits in `i128` fields.
pub open spec fn ray_step_fits(r: FRay, mirrors: Seq<Mirror>) -> bool {
    &&& resolve_fits(r, mirrors)
    &&& match spec_resolve(r, mirrors) {
        Option::None => true,
        Option::Some(i) => {
            let m = mirrors[i]@;
            &&& normal_fits(m)
            &&& sub_fits(Frac::from_int(1), m.absorption_factor)
            &&& mul_fits(r.intensity, Frac::from_int(1).sub(m.absorption_factor))
            &&& cmp_fits(spec_threshold(), spec_bounced_intensity(r, m))
            &&& reflect_fits(r.vector, spec_normal(m))
        },
    }
}

/// Every intermediate value of a whole generation step fits in `i128` fields.
pub open spec fn step_fits(rays: Seq<Ray>, mirrors: Seq<Mirror>) -> bool {
    forall|k: int| 0 <= k < rays.len() ==> ray_step_fits((#[trigger] rays[k])@, mirrors)
}

/// The models of a sequence of rays.
pub open spec fn rays_view(rays: Seq<Ray>) -> Seq<FRay> {
    Seq::new(rays.len(), |k: int| rays[k]@)
}

/// The models of a sequence of segments.
pub open spec fn segs_view(segs: Seq<DrawSegment>) -> Seq<FSegment> {
    Seq::new(segs.len(), |k: int| segs[k]@)
}

/// The models of an optional ray.
pub open spec fn opt_ray_view(o: Option<Ray>) -> Option<FRay> {
    match o {
        Option::None => None,
        Option::Some(r) => Some(r@),
    }
}

/// The models of an optional segment.
pub open spec fn opt_seg_view(o: Option<DrawSegment>) -> Option<FSegment> {
    match o {
        Option::None => None,
        Option::Some(s) => Some(s@),
    }
}

/// The next-generation rays contributed by the rays from index `idx` on, in
/// input order.
pub open spec fn spec_next_rays_from(rays: Seq<Ray>, mirrors: Seq<Mirror>, idx: int) -> Seq<FRay>
    decreases rays.len() - idx,
{
    if idx < 0 || idx >= rays.len() {
        Seq::empty()
    } else {
        let tail = spec_next_rays_from(rays, mirrors, idx + 1);
        match spec_next_ray(rays[idx]@, mirrors) {
            Option::None => tail,
            Option::Some(fr) => seq![fr] + tail,
        }
    }
}

/// The drawable segments contributed by the rays from index `idx` on, in
/// input order.
pub open spec fn spec_segments_from(rays: Seq<Ray>, mirrors: Seq<Mirror>, idx: int) -> Seq<
    FSegment,
>
    decreases rays.len() - idx,
{
    if idx < 0 || idx >= rays.len() {
        Seq::empty()
    } else {
        let tail = spec_segments_from(rays, mirrors, idx + 1);
        match spec_segment(rays[idx]@, mirrors) {
            Option::None => tail,
            Option::Some(s) => seq![s] + tail,
        }
    }
}

/// One ray's bounce step: the ray of the next generation, if it survives, and
/// the drawable segment, if the ray hits anything.
fn step_ray(ray: &Ray, mirrors: &Vec<Mirror>) -> (r: (Option<Ray>, Option<DrawSegment>))
    requires
        ray@.wf(),
        mirrors_wf(mirrors@),
    ensures
        r.0 matches Some(nr) ==> nr@.wf(),
        ray_step_fits(ray@, mirrors@) ==> opt_ray_view(r.0) == spec_next_ray(ray@, mirrors@)
            && opt_seg_view(r.1) == spec_segment(ray@, mirrors@),
{
    match find_closest_mirror(ray, mirrors) {
        BounceOutcome::Miss => (None, None),
        BounceOutcome::Hit { point, mirror } => {
            let seg = DrawSegment { from: ray.start_pos, to: point };
            let m = mirrors[mirror];
            proof {
                crate::mirror::lemma_hit_normal_nonzero(m@, ray@);
            }
            let next = match m.normal() {
                Option::None => None,
                Option::Some(n) => {
                    match Rational::from_int(1).sub(m.absorption_factor) {
                        Option::None => None,
                        Option::Some(keep) => {
                            match ray.intensity.mul(keep) {
                                Option::None => None,
                                Option::Some(intensity) => {
                                    match ray.reflect(point, n, intensity) {
                                        Option::None => None,
                                        Option::Some(new_ray) => {
                                            match threshold().le(intensity) {
                                                Option::None => None,
                                                Option::Some(false) => None,
                                                Option::Some(true) => Some(new_ray),
                                            }
                                        },
                                    }
                                },
                            }
                        },
                    }
                },
            };
            (next, Some(seg))
        },
    }
}

/// One generation step: resolves every ray of `rays` independently against
/// the whole mirror set, in order, and returns the segments to draw for this
/// bounce together with the rays of the next generation.
pub fn find_closest_mirror_reflections(rays: &Vec<Ray>, mirrors: &Vec<Mirror>) -> (r:
    ReflectionHandlerResult)
    requires
        rays_wf(rays@),
        mirrors_wf(mirrors@),
    ensures
        r.reflected_rays@.len() <= rays@.len(),
        r.draw_line@.len() <= rays@.len(),
        rays_wf(r.reflected_rays@),
        step_fits(rays@, mirrors@) ==> rays_view(r.reflected_rays@) == spec_next_rays_from(
            rays@,
            mirrors@,
            0,
        ) && segs_view(r.draw_line@) == spec_segments_from(rays@, mirrors@, 0),
{
    let mut reflected_rays: Vec<Ray> = Vec::new();
    let mut draw_line: Vec<DrawSegment> = Vec::new();
    let mut j: usize = 0;
    proof {
        assert(rays_view(reflected_rays@) + spec_next_rays_from(rays@, mirrors@, 0)
            =~= spec_next_rays_from(rays@, mirrors@, 0));
        assert(segs_view(draw_line@) + spec_segments_from(rays@, mirrors@, 0)
            =~= spec_segments_from(rays@, mirrors@, 0));
    }
    while j < rays.len()
        invariant
            rays_wf(rays@),
            mirrors_wf(mirrors@),
            j <= rays@.len(),
            reflected_rays@.len() <= j,
            draw_line@.len() <= j,
            rays_wf(reflected_rays@),
            step_fits(rays@, mirrors@) ==> rays_view(reflected_rays@) + spec_next_rays_from(
                rays@,
                mirrors@,
                j as int,
            ) == spec_next_rays_from(rays@, mirrors@, 0) && segs_view(draw_line@)
                + spec_segments_from(rays@, mirrors@, j as int) == spec_segments_from(
                rays@,
                mirrors@,
                0,
            ),
        decreases rays@.len() - j,
    {
        let ghost old_rays = reflected_rays@;
        let ghost old_segs = draw_line@;
        let (next, seg) = step_ray(&rays[j], mirrors);
        match next {
            Option::None => {},
            Option::Some(nr) => {
                reflected_rays.push(nr);
                proof {
                    assert(rays_view(reflected_rays@) =~= rays_view(old_rays).push(nr@));
                }
            },
        }
        match seg {
            Option::None => {},
            Option::Some(s) => {
                draw_line.push(s);
                proof {
                    assert(segs_view(draw_line@) =~= segs_view(old_segs).push(s@));
                }
            },
        }
        proof {
            if step_fits(rays@, mirrors@) {
                assert(ray_step_fits(rays@[j as int]@, mirrors@));
                assert(rays_view(reflected_rays@) + spec_next_rays_from(
                    rays@,
                    mirrors@,
                    j + 1,
                ) =~= rays_view(old_rays) + spec_next_rays_from(rays@, mirrors@, j as int));
                assert(segs_view(draw_line@) + spec_segments_from(rays@, mirrors@, j + 1)
                    =~= segs_view(old_segs) + spec_segments_from(rays@, mirrors@, j as int));
            }
        }
        j += 1;
    }
    proof {
        if step_fits(rays@, mirrors@) {
            assert(rays_view(reflected_rays@) + spec_next_rays_from(rays@, mirrors@, j as int)
                =~= rays_view(reflected_rays@));
            assert(segs_view(draw_line@) + spec_segments_from(rays@, mirrors@, j as int)
                =~= segs_view(draw_line@));
        }
    }
    ReflectionHandlerResult { draw_line, reflected_rays }
}

} // verus!

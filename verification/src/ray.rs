//! Emission rays: an origin, a direction and a remaining intensity.

use vstd::prelude::*;

use crate::rational::Frac;
use crate::rational::Rational;
use crate::vector::dist_sq_fits;
use crate::vector::reflect_fits;
use crate::vector::spec_dist_sq;
use crate::vector::FVec;
use crate::vector::Vector2;

verus! {

/// Mathematical model of a ray.
pub ghost struct FRay {
    pub start_pos: FVec,
    pub vector: FVec,
    pub intensity: Frac,
}

impl FRay {
    pub open spec fn wf(self) -> bool {
        self.start_pos.wf() && self.vector.wf() && self.intensity.wf()
    }

    /// Two ray models denote the same ray: origin, direction and intensity
    /// all denote the same rationals.
    pub open spec fn equiv(self, other: FRay) -> bool {
        self.start_pos.eq(other.start_pos) && self.vector.eq(other.vector) && self.intensity.eq(
            other.intensity,
        )
    }
}

/// A ray: `start_pos` is its origin, `vector` its direction (not necessarily
/// of unit length) and `intensity` its remaining liveness.  Rays are
/// immutable; a bounce produces a new ray.
#[derive(Clone, Copy, Debug)]
pub struct Ray {
    pub start_pos: Vector2,
    pub vector: Vector2,
    pub intensity: Rational,
}

impl View for Ray {
    type V = FRay;

    open spec fn view(&self) -> FRay {
        FRay { start_pos: self.start_pos@, vector: self.vector@, intensity: self.intensity@ }
    }
}

impl Ray {
    pub fn new(start_pos: Vector2, vector: Vector2, intensity: Rational) -> (r: Ray)
        ensures
            r@ == (FRay { start_pos: start_pos@, vector: vector@, intensity: intensity@ }),
    {
        Ray { start_pos, vector, intensity }
    }

    /// The same ray with every component in lowest terms.  Exact arithmetic
    /// grows representations at each bounce; reducing each generation's rays
    /// before the next resolution step keeps the values in range.
    pub fn reduced(&self) -> (r: Ray)
        requires
            self@.wf(),
        ensures
            r@.equiv(self@),
            r@.wf(),
    {
        Ray {
            start_pos: self.start_pos.reduced(),
            vector: self.vector.reduced(),
            intensity: self.intensity.reduced(),
        }
    }

    /// Exact squared distance from the ray's origin to `point`; `None` when
    /// an intermediate value does not fit.  Hit candidates are ranked by this
    /// quantity, which orders them exactly as the Euclidean distance does.
    pub fn distance_sq(&self, point: &Vector2) -> (r: Option<Rational>)
        requires
            self@.wf(),
            point@.wf(),
        ensures
            r matches Some(d) ==> d@ == spec_dist_sq(self@.start_pos, point@) && d@.wf(),
            dist_sq_fits(self@.start_pos, point@) ==> r is Some,
    {
        self.start_pos.dist_sq(*point)
    }

    /// The ray that leaves `position` after bouncing off a surface with the
    /// nonzero normal `normal`, carrying `intensity`; `None` when an
    /// intermediate value does not fit.
    pub fn reflect(&self, position: Vector2, normal: Vector2, intensity: Rational) -> (r: Option<
        Ray,
    >)
        requires
            self@.wf(),
            position@.wf(),
            normal@.wf(),
            intensity@.wf(),
            !normal@.is_zero(),
        ensures
            r matches Some(nr) ==> nr@ == (FRay {
                start_pos: position@,
                vector: self@.vector.reflect(normal@),
                intensity: intensity@,
            }) && nr@.wf(),
            reflect_fits(self@.vector, normal@) ==> r is Some,
    {
        let vector = self.vector.reflect(normal)?;
        Some(Ray { start_pos: position, vector, intensity })
    }
}

} // verus!

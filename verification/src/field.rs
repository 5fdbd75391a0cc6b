//! Ray-field generation: `count` rays fanned out from one origin, with
//! directions evenly spaced around the circle.
//!
//! The direction at the fraction `i/count` of a full turn is computed with an
//! exact rational approximation of sine (Bhaskara I's formula,
//! `sin(pi*y) ~ 16*y*(1-y) / (5 - 4*y*(1-y))` for `y` in `[0, 1]`, accurate
//! to about `2e-3` and exact at multiples of a quarter turn), so that the
//! generated field is deterministic and every coordinate has a precise value
//! that the contracts state.

use vstd::prelude::*;

use vstd::arithmetic::div_mod::lemma_mod_bound;

use crate::rational::Frac;
use crate::rational::Rational;
use crate::ray::FRay;
use crate::ray::Ray;
use crate::vector::FVec;
use crate::vector::Vector2;

verus! {

/// Bhaskara's sine approximation of `sin(pi * a / b)` for `0 <= a <= b`, as
/// one exact fraction.
pub open spec fn spec_half_sin(a: int, b: int) -> Frac {
    Frac { num: 16 * (a * (b - a)), den: 5 * (b * b) - 4 * (a * (b - a)) }
}

/// Approximate sine of the fraction `p/q` of a full turn, for `0 <= p < q`:
/// the first half-turn is nonnegative, the second is the negated mirror.
pub open spec fn spec_sin_turn(p: int, q: int) -> Frac {
    if 2 * p <= q {
        spec_half_sin(2 * p, q)
    } else {
        spec_half_sin(2 * p - q, q).neg()
    }
}

/// Approximate cosine of the fraction `p/q` of a full turn: the sine a
/// quarter turn ahead.
pub open spec fn spec_cos_turn(p: int, q: int) -> Frac {
    spec_sin_turn((4 * p + q) % (4 * q), 4 * q)
}

/// Direction of the `i`-th of `n` rays: the unit-circle point at the angle
/// `2*pi*i/n`, under the rational sine approximation.
pub open spec fn spec_circle_dir(i: int, n: int) -> FVec {
    FVec { x: spec_cos_turn(i, n), y: spec_sin_turn(i, n) }
}

/// Executable Bhaskara step, exact over `i128`.
fn half_sin(a: i128, b: i128) -> (r: Rational)
    requires
        0 <= a <= b,
        0 < b <= 0x2000_0000_0000,
    ensures
        r@ == spec_half_sin(a as int, b as int),
        r@.wf(),
        0 <= r@.num,
{
    proof {
        assert(0 <= a * (b - a) <= b * b && b * b <= 0x2000_0000_0000 * 0x2000_0000_0000) by (nonlinear_arith)
            requires
                0 <= a <= b,
                0 < b <= 0x2000_0000_0000,
        ;
        assert(5 * (b * b) - 4 * (a * (b - a)) >= b * b) by (nonlinear_arith)
            requires
                0 <= a * (b - a) <= b * b,
        ;
        assert(b * b > 0) by (nonlinear_arith)
            requires
                b > 0,
        ;
    }
    let prod = a * (b - a);
    let num = 16 * prod;
    let den = 5 * (b * b) - 4 * prod;
    Rational { num, den }
}

/// Executable sine of the fraction `p/q` of a full turn.
fn sin_turn(p: i128, q: i128) -> (r: Rational)
    requires
        0 <= p < q,
        0 < q <= 0x2000_0000_0000,
    ensures
        r@ == spec_sin_turn(p as int, q as int),
        r@.wf(),
{
    if 2 * p <= q {
        half_sin(2 * p, q)
    } else {
        let pos = half_sin(2 * p - q, q);
        Rational { num: -pos.num, den: pos.den }
    }
}

/// Executable direction of the `i`-th of `n` rays.
fn circle_dir(i: i128, n: i128) -> (r: Vector2)
    requires
        0 <= i < n,
        0 < n <= 0x100_0000_0000,
    ensures
        r@ == spec_circle_dir(i as int, n as int),
        r@.wf(),
{
    let y = sin_turn(i, n);
    proof {
        lemma_mod_bound((4 * i + n) as int, (4 * n) as int);
    }
    let p4 = (4 * i + n) % (4 * n);
    let x = sin_turn(p4, 4 * n);
    Vector2 { x, y }
}

/// Fans `ray_count` rays out of `start`, the `k`-th pointing at the angle
/// `2*pi*k/ray_count` (under the documented rational sine approximation), all
/// at full intensity.  Deterministic in its arguments.
pub fn generate_rays(start: Vector2, ray_count: i32) -> (r: Vec<Ray>)
    requires
        start@.wf(),
        1 <= ray_count <= 1_000_000,
    ensures
        r@.len() == ray_count,
        forall|k: int|
            0 <= k < ray_count ==> {
                &&& (#[trigger] r@[k])@.start_pos == start@
                &&& r@[k]@.vector == spec_circle_dir(k, ray_count as int)
                &&& r@[k]@.intensity == Frac::from_int(1)
                &&& r@[k]@.wf()
            },
{
    let mut rays: Vec<Ray> = Vec::new();
    let n = ray_count as i128;
    let one = Rational::from_int(1);
    let mut k: i32 = 0;
    while k < ray_count
        invariant
            start@.wf(),
            1 <= ray_count <= 1_000_000,
            n == ray_count as i128,
            one@ == Frac::from_int(1),
            0 <= k <= ray_count,
            rays@.len() == k,
            forall|j: int|
                0 <= j < k ==> {
                    &&& (#[trigger] rays@[j])@.start_pos == start@
                    &&& rays@[j]@.vector == spec_circle_dir(j, ray_count as int)
                    &&& rays@[j]@.intensity == Frac::from_int(1)
                    &&& rays@[j]@.wf()
                },
        decreases ray_count - k,
    {
        let dir = circle_dir(k as i128, n);
        rays.push(Ray { start_pos: start, vector: dir, intensity: one });
        k += 1;
    }
    rays
}

} // verus!

//! Random mirror generation: a set of mirrors with endpoints drawn uniformly
//! from a fixed scene region.

use vstd::prelude::*;

use crate::mirror::Mirror;
use crate::rational::Rational;
use crate::vector::Vector2;

verus! {

/// Smallest coordinate a generated mirror endpoint can take.
pub const MIRROR_COORD_MIN: i64 = 10;

/// Largest coordinate a generated mirror endpoint can take.
pub const MIRROR_COORD_MAX: i64 = 1100;

/// Relies on `rand::random_range` over the inclusive integer range
/// `lo..=hi`: it panics only on an empty range and otherwise returns a
/// uniform sample, which always lies within the range.  Nothing more is
/// assumed of the sample: callers must hold for every value in the range.
#[verifier::external_body]
fn random_in_range(lo: i64, hi: i64) -> (r: i64)
    requires
        lo <= hi,
    ensures
        lo <= r <= hi,
{
    rand::random_range(lo..=hi)
}

/// Draws up to `mirror_count` mirrors with random integer endpoints in the
/// scene region and absorption factor zero (perfect reflectors).  A draw
/// whose two endpoints coincide would be a degenerate segment and is
/// discarded, so fewer than `mirror_count` mirrors may come back.
pub fn generate_mirrors(mirror_count: i32) -> (r: Vec<Mirror>)
    requires
        0 <= mirror_count,
    ensures
        r@.len() <= mirror_count,
        forall|j: int|
            0 <= j < r@.len() ==> {
                &&& (#[trigger] r@[j])@.wf()
                &&& r@[j]@.nondegenerate()
                &&& r@[j]@.absorption_in_range()
                &&& r@[j]@.start_pos.x.den == 1 && MIRROR_COORD_MIN <= r@[j]@.start_pos.x.num
                    <= MIRROR_COORD_MAX
                &&& r@[j]@.start_pos.y.den == 1 && MIRROR_COORD_MIN <= r@[j]@.start_pos.y.num
                    <= MIRROR_COORD_MAX
                &&& r@[j]@.end_pos.x.den == 1 && MIRROR_COORD_MIN <= r@[j]@.end_pos.x.num
                    <= MIRROR_COORD_MAX
                &&& r@[j]@.end_pos.y.den == 1 && MIRROR_COORD_MIN <= r@[j]@.end_pos.y.num
                    <= MIRROR_COORD_MAX
            },
{
    let mut mirrors: Vec<Mirror> = Vec::new();
    let mut n: i32 = 0;
    while n < mirror_count
        invariant
            0 <= n <= mirror_count,
            mirrors@.len() <= n,
            forall|j: int|
                0 <= j < mirrors@.len() ==> {
                    &&& (#[trigger] mirrors@[j])@.wf()
                    &&& mirrors@[j]@.nondegenerate()
                    &&& mirrors@[j]@.absorption_in_range()
                    &&& mirrors@[j]@.start_pos.x.den == 1 && MIRROR_COORD_MIN
                        <= mirrors@[j]@.start_pos.x.num <= MIRROR_COORD_MAX
                    &&& mirrors@[j]@.start_pos.y.den == 1 && MIRROR_COORD_MIN
                        <= mirrors@[j]@.start_pos.y.num <= MIRROR_COORD_MAX
                    &&& mirrors@[j]@.end_pos.x.den == 1 && MIRROR_COORD_MIN
                        <= mirrors@[j]@.end_pos.x.num <= MIRROR_COORD_MAX
                    &&& mirrors@[j]@.end_pos.y.den == 1 && MIRROR_COORD_MIN
                        <= mirrors@[j]@.end_pos.y.num <= MIRROR_COORD_MAX
                },
        decreases mirror_count - n,
    {
        let x1 = random_in_range(MIRROR_COORD_MIN, MIRROR_COORD_MAX);
        let y1 = random_in_range(MIRROR_COORD_MIN, MIRROR_COORD_MAX);
        let x2 = random_in_range(MIRROR_COORD_MIN, MIRROR_COORD_MAX);
        let y2 = random_in_range(MIRROR_COORD_MIN, MIRROR_COORD_MAX);
        if !(x1 == x2 && y1 == y2) {
            let mirror = Mirror {
                start_pos: Vector2::from_ints(x1, y1),
                end_pos: Vector2::from_ints(x2, y2),
                absorption_factor: Rational::from_int(0),
            };
            proof {
                assert(mirror@.wf());
                assert(mirror@.nondegenerate());
                assert(mirror@.absorption_in_range());
            }
            mirrors.push(mirror);
        }
        n += 1;
    }
    mirrors
}

} // verus!

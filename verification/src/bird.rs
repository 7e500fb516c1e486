//! One simulated agent: a bird with a position, a velocity and a
//! transient per-step acceleration, all fixed-point `Vec3`s. New birds
//! start at an independently drawn random position in the start cube and
//! with a random velocity, with zero acceleration.

use vstd::prelude::*;
use rand::Rng;
use crate::params::UNIT;
use crate::vec3::{v3_bounded, v3_zero, Vec3};

verus! {

/// Half-width of the cube in which new birds are placed.
pub const START_POS_RANGE: i64 = 5 * UNIT;

/// Half-width of the per-axis interval from which a new bird's velocity
/// is drawn.
pub const START_VEL_RANGE: i64 = UNIT;

#[derive(Clone, Copy, PartialEq, Eq, Structural, Debug)]
pub struct Bird {
    pub position: Vec3,
    pub velocity: Vec3,
    pub acceleration: Vec3,
}

/// Relies on rand::Rng::random_range over an `i64` half-open range: a
/// uniform sample in `[lo, hi)`, which panics only on an empty range.
#[verifier::external_body]
fn sample_range(lo: i64, hi: i64) -> (r: i64)
    requires
        lo < hi,
    ensures
        lo <= r < hi,
{
    rand::rng().random_range(lo..hi)
}

impl Bird {
    /// A new bird at an independently drawn random position in the start
    /// cube, with a random velocity and zero acceleration.
    pub fn new() -> (r: Bird)
        ensures
            v3_bounded(r.position@, START_POS_RANGE as int),
            v3_bounded(r.velocity@, START_VEL_RANGE as int),
            r.acceleration@ == v3_zero(),
    {
        Bird {
            position: Vec3 {
                x: sample_range(-START_POS_RANGE, START_POS_RANGE),
                y: sample_range(-START_POS_RANGE, START_POS_RANGE),
                z: sample_range(-START_POS_RANGE, START_POS_RANGE),
            },
            velocity: Vec3 {
                x: sample_range(-START_VEL_RANGE, START_VEL_RANGE),
                y: sample_range(-START_VEL_RANGE, START_VEL_RANGE),
                z: sample_range(-START_VEL_RANGE, START_VEL_RANGE),
            },
            acceleration: Vec3 { x: 0, y: 0, z: 0 },
        }
    }

    /// A bird with the given state and zero acceleration.
    pub fn at(position: Vec3, velocity: Vec3) -> (r: Bird)
        ensures
            r.position == position,
            r.velocity == velocity,
            r.acceleration@ == v3_zero(),
    {
        Bird { position, velocity, acceleration: Vec3 { x: 0, y: 0, z: 0 } }
    }
}

} // verus!

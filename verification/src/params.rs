//! The tunable parameters of a run: the three steering weights, the
//! perception radius, the speed and force caps, and the extent of the
//! periodic domain. All are fixed-point values scaled by `UNIT` and fixed
//! for the whole run.

use vstd::prelude::*;
use crate::domain::v3_in_range;
use crate::vec3::Vec3;

verus! {

/// Fixed-point scale: an `i64` value of `UNIT` stands for one world unit.
pub const UNIT: i64 = 1000;

/// Cap on the magnitude of a domain bound and of `max_speed`.
pub const COORD_LIMIT: i64 = 16384;

/// Cap on a steering weight.
pub const WEIGHT_LIMIT: i64 = 1048576;

/// Cap on the perception radius.
pub const RADIUS_LIMIT: i64 = 0x4000_0000;

/// Cap on the steering-force clamp `max_force`.
pub const FORCE_LIMIT: i64 = 0x4000_0000;

/// Cap on the population size.
pub const MAX_POPULATION: usize = 65536;

/// The tunable parameters, fixed at construction for the whole run.
#[derive(Clone, Copy, PartialEq, Eq, Structural, Debug)]
pub struct Params {
    pub separation_weight: i64,
    pub alignment_weight: i64,
    pub cohesion_weight: i64,
    pub perception_radius: i64,
    pub max_speed: i64,
    pub max_force: i64,
    pub space_min: i64,
    pub space_max: i64,
}

impl Params {
    /// Every parameter is non-negative and within its cap, and the domain
    /// is a non-empty cube. The caps keep every intermediate value of a
    /// step representable in an `i64`.
    pub open spec fn wf(&self) -> bool {
        &&& 0 <= self.separation_weight <= WEIGHT_LIMIT
        &&& 0 <= self.alignment_weight <= WEIGHT_LIMIT
        &&& 0 <= self.cohesion_weight <= WEIGHT_LIMIT
        &&& 0 <= self.perception_radius <= RADIUS_LIMIT
        &&& 0 <= self.max_speed <= COORD_LIMIT
        &&& 0 <= self.max_force <= FORCE_LIMIT
        &&& -COORD_LIMIT <= self.space_min
        &&& self.space_min < self.space_max
        &&& self.space_max <= COORD_LIMIT
    }

    /// Validate and build a parameter set; `None` exactly when some value
    /// is out of its cap or the domain is empty or inverted.
    pub fn new(
        separation_weight: i64,
        alignment_weight: i64,
        cohesion_weight: i64,
        perception_radius: i64,
        max_speed: i64,
        max_force: i64,
        space_min: i64,
        space_max: i64,
    ) -> (r: Option<Params>)
        ensures
            ({
                let p = Params {
                    separation_weight,
                    alignment_weight,
                    cohesion_weight,
                    perception_radius,
                    max_speed,
                    max_force,
                    space_min,
                    space_max,
                };
                match r {
                    Some(q) => q == p && p.wf(),
                    None => !p.wf(),
                }
            }),
    {
        let p = Params {
            separation_weight,
            alignment_weight,
            cohesion_weight,
            perception_radius,
            max_speed,
            max_force,
            space_min,
            space_max,
        };
        if 0 <= p.separation_weight && p.separation_weight <= WEIGHT_LIMIT && 0
            <= p.alignment_weight && p.alignment_weight <= WEIGHT_LIMIT && 0 <= p.cohesion_weight
            && p.cohesion_weight <= WEIGHT_LIMIT && 0 <= p.perception_radius && p.perception_radius
            <= RADIUS_LIMIT && 0 <= p.max_speed && p.max_speed <= COORD_LIMIT && 0 <= p.max_force
            && p.max_force <= FORCE_LIMIT && -COORD_LIMIT <= p.space_min && p.space_min
            < p.space_max && p.space_max <= COORD_LIMIT {
            Some(p)
        } else {
            None
        }
    }

    /// True exactly when `v` lies inside the simulation domain.
    pub fn contains(&self, v: &Vec3) -> (r: bool)
        ensures
            r == v3_in_range(v@, self.space_min as int, self.space_max as int),
    {
        self.space_min <= v.x && v.x <= self.space_max && self.space_min <= v.y && v.y
            <= self.space_max && self.space_min <= v.z && v.z <= self.space_max
    }
}

} // verus!

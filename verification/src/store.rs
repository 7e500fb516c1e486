//! The authoritative, index-stable population of agents.
//!
//! The store owns the live sequence of birds. A step first takes a deep
//! snapshot, computes every agent's update against it (each a pure
//! function of the snapshot and that agent's own prior state), and only
//! then commits the results — so readers of the snapshot never observe
//! an in-progress mutation, and the order in which agents are computed
//! cannot matter.

use vstd::prelude::*;
use crate::bird::{Bird, START_POS_RANGE, START_VEL_RANGE};
use crate::domain::v3_in_range;
use crate::engine::{bird_in_bounds, flock_in_bounds, spec_update, step_range};
use crate::params::{Params, COORD_LIMIT, MAX_POPULATION};
use crate::vec3::{v3_bounded, v3_norm_sq, v3_zero, Vec3};

verus! {

/// The live population. Index identity is agent identity: no agent is
/// ever added, removed or reordered after construction.
pub struct AgentStore {
    birds: Vec<Bird>,
}

impl View for AgentStore {
    type V = Seq<Bird>;

    closed spec fn view(&self) -> Seq<Bird> {
        self.birds@
    }
}

impl AgentStore {
    /// The population is within the cap and every agent is in bounds.
    pub open spec fn wf(&self, p: Params) -> bool {
        &&& self@.len() <= MAX_POPULATION
        &&& flock_in_bounds(self@, p)
    }

    /// A population of `n` birds, each at an independently drawn random
    /// position with a random velocity. The domain must contain the
    /// start cube.
    pub fn new(n: usize, p: &Params) -> (r: AgentStore)
        requires
            p.wf(),
            n <= MAX_POPULATION,
            p.space_min <= -START_POS_RANGE,
            START_POS_RANGE <= p.space_max,
        ensures
            r.wf(*p),
            r@.len() == n,
            forall|i: int|
                0 <= i < n ==> ({
                    let b = #[trigger] r@[i];
                    &&& v3_bounded(b.position@, START_POS_RANGE as int)
                    &&& v3_bounded(b.velocity@, START_VEL_RANGE as int)
                    &&& b.acceleration@ == v3_zero()
                }),
    {
        let mut birds: Vec<Bird> = Vec::new();
        let mut i: usize = 0;
        while i < n
            invariant
                i <= n,
                n <= MAX_POPULATION,
                p.wf(),
                p.space_min <= -START_POS_RANGE,
                START_POS_RANGE <= p.space_max,
                birds@.len() == i,
                forall|k: int|
                    0 <= k < i ==> ({
                        let b = #[trigger] birds@[k];
                        &&& v3_bounded(b.position@, START_POS_RANGE as int)
                        &&& v3_bounded(b.velocity@, START_VEL_RANGE as int)
                        &&& b.acceleration@ == v3_zero()
                    }),
                forall|k: int| 0 <= k < i ==> bird_in_bounds(#[trigger] birds@[k], *p),
            decreases n - i,
        {
            let b = Bird::new();
            birds.push(b);
            i = i + 1;
        }
        AgentStore { birds }
    }

    /// Adopt a caller-built population; `None` exactly when it is over
    /// the population cap or some bird is out of bounds.
    pub fn from_birds(birds: Vec<Bird>, p: &Params) -> (r: Option<AgentStore>)
        requires
            p.wf(),
        ensures
            match r {
                Some(s) => s@ == birds@ && s.wf(*p),
                None => !(birds@.len() <= MAX_POPULATION && flock_in_bounds(birds@, *p)),
            },
    {
        if birds.len() > MAX_POPULATION {
            return None;
        }
        let mut i: usize = 0;
        while i < birds.len()
            invariant
                i <= birds@.len(),
                p.wf(),
                forall|k: int| 0 <= k < i ==> bird_in_bounds(#[trigger] birds@[k], *p),
            decreases birds@.len() - i,
        {
            let b = &birds[i];
            let vel_ok = -COORD_LIMIT <= b.velocity.x && b.velocity.x <= COORD_LIMIT
                && -COORD_LIMIT <= b.velocity.y && b.velocity.y <= COORD_LIMIT && -COORD_LIMIT
                <= b.velocity.z && b.velocity.z <= COORD_LIMIT;
            if !(p.contains(&b.position) && vel_ok) {
                assert(!bird_in_bounds(birds@[i as int], *p));
                return None;
            }
            i = i + 1;
        }
        Some(AgentStore { birds })
    }

    pub fn len(&self) -> (r: usize)
        ensures
            r == self@.len(),
    {
        self.birds.len()
    }

    /// One agent's current state.
    pub fn bird(&self, i: usize) -> (r: Bird)
        requires
            i < self@.len(),
        ensures
            r == self@[i as int],
    {
        self.birds[i]
    }

    /// The live sequence, for reading.
    pub fn birds(&self) -> (r: &Vec<Bird>)
        ensures
            r@ == self@,
    {
        &self.birds
    }

    /// A deep, independent copy of the live population, to be used as
    /// the read source of one step.
    pub fn snapshot(&self) -> (r: Vec<Bird>)
        ensures
            r@ == self@,
    {
        let mut copy: Vec<Bird> = Vec::new();
        let mut i: usize = 0;
        while i < self.birds.len()
            invariant
                i <= self@.len(),
                copy@ == self@.take(i as int),
            decreases self@.len() - i,
        {
            copy.push(self.birds[i]);
            proof {
                assert(self@.take(i as int + 1) =~= self@.take(i as int).push(self@[i as int]));
            }
            i = i + 1;
        }
        proof {
            assert(self@.take(self@.len() as int) =~= self@);
        }
        copy
    }

    /// Write one step's results back into the live store: agent `i` gets
    /// the `i`-th `(position, velocity)` pair and a zeroed acceleration.
    pub fn commit(&mut self, updates: &Vec<(Vec3, Vec3)>, p: &Params)
        requires
            p.wf(),
            old(self).wf(*p),
            updates@.len() == old(self)@.len(),
            forall|k: int|
                0 <= k < updates@.len() ==> ({
                    let u = #[trigger] updates@[k];
                    &&& v3_in_range(u.0@, p.space_min as int, p.space_max as int)
                    &&& v3_bounded(u.1@, COORD_LIMIT as int)
                }),
        ensures
            final(self).wf(*p),
            final(self)@.len() == old(self)@.len(),
            forall|k: int|
                0 <= k < final(self)@.len() ==> ({
                    let b = #[trigger] final(self)@[k];
                    &&& b.position == updates@[k].0
                    &&& b.velocity == updates@[k].1
                    &&& b.acceleration@ == v3_zero()
                }),
    {
        let n = self.birds.len();
        let mut i: usize = 0;
        while i < n
            invariant
                n == self@.len(),
                i <= n,
                n <= MAX_POPULATION,
                p.wf(),
                updates@.len() == n,
                forall|k: int|
                    0 <= k < updates@.len() ==> ({
                        let u = #[trigger] updates@[k];
                        &&& v3_in_range(u.0@, p.space_min as int, p.space_max as int)
                        &&& v3_bounded(u.1@, COORD_LIMIT as int)
                    }),
                forall|k: int|
                    0 <= k < i ==> ({
                        let b = #[trigger] self@[k];
                        &&& b.position == updates@[k].0
                        &&& b.velocity == updates@[k].1
                        &&& b.acceleration@ == v3_zero()
                    }),
                forall|k: int| 0 <= k < i ==> bird_in_bounds(#[trigger] self@[k], *p),
            decreases n - i,
        {
            let u = updates[i];
            self.birds.set(i, Bird::at(u.0, u.1));
            i = i + 1;
        }
    }

    /// Advance the whole population by one step: snapshot, compute every
    /// agent's update against the snapshot, commit. Afterwards every
    /// agent's state is the pure per-agent update of the old store, its
    /// speed is within `max_speed`, and its position inside the domain.
    pub fn step(&mut self, p: &Params)
        requires
            p.wf(),
            old(self).wf(*p),
        ensures
            final(self).wf(*p),
            final(self)@.len() == old(self)@.len(),
            forall|i: int|
                0 <= i < final(self)@.len() ==> ({
                    let b = #[trigger] final(self)@[i];
                    &&& b.position@ == spec_update(old(self)@, old(self)@[i], *p).0
                    &&& b.velocity@ == spec_update(old(self)@, old(self)@[i], *p).1
                    &&& b.acceleration@ == v3_zero()
                    &&& v3_norm_sq(b.velocity@) <= p.max_speed * p.max_speed
                    &&& v3_in_range(b.position@, p.space_min as int, p.space_max as int)
                }),
    {
        let snap = self.snapshot();
        let n = self.birds.len();
        let updates = step_range(&snap, p, 0, n);
        self.commit(&updates, p);
    }
}

} // verus!

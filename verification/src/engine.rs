//! The per-step flocking update engine.
//!
//! For one agent, a step scans the whole snapshot for neighbours
//! (brute force, strictly within the perception radius, excluding
//! distance zero), accumulates the separation, alignment and cohesion
//! contributions, turns each into a steering force, combines them by the
//! configured weights, integrates velocity and position, clamps the
//! speed, and wraps the position back into the periodic domain.
//!
//! Every exec function is proved equal to the corresponding spec
//! function, so an agent's update is a pure function of the snapshot and
//! its own prior state — which is what makes the update safe to compute
//! in parallel over any partition of the population.

use vstd::prelude::*;
use crate::bird::Bird;
use crate::domain::{v3_in_range, wrap_spec, wraparound};
use crate::math::{
    lemma_mul_abs_le, lemma_sdiv_abs_le, lemma_sdiv_scale_bound, lemma_sqrt_floor_monotonic,
    lemma_sqrt_floor_square, lemma_square_le, isqrt64, sqrt_floor,
};
use crate::params::{Params, COORD_LIMIT, FORCE_LIMIT, MAX_POPULATION, RADIUS_LIMIT, UNIT,
    WEIGHT_LIMIT};
use crate::vec3::{
    limit_vec, scale_to, v3_add, v3_bounded, v3_div, v3_limit, v3_norm_sq, v3_scale_to, v3_sdiv,
    v3_sub, v3_zero, Vec3, V3,
};

verus! {

/// Another agent is a neighbour when its distance is strictly positive
/// (an agent is never its own neighbour, nor is one at the exact same
/// point) and strictly below the perception radius.
pub open spec fn is_neighbor(me: V3, other: V3, radius: int) -> bool {
    let dsq = v3_norm_sq(v3_sub(me, other));
    0 < dsq && dsq < radius * radius
}

/// The separation contribution of one neighbour: the offset away from
/// it, divided by the distance (so magnitude about one world unit).
pub open spec fn separation_term(me: V3, other: V3) -> V3 {
    let diff = v3_sub(me, other);
    v3_sdiv(diff, UNIT as int, sqrt_floor(v3_norm_sq(diff) as nat) as int)
}

/// The running sums of one neighbour scan.
pub ghost struct AccumV {
    pub separation: V3,
    pub alignment: V3,
    pub cohesion: V3,
    pub count: int,
}

pub open spec fn accum_empty() -> AccumV {
    AccumV { separation: v3_zero(), alignment: v3_zero(), cohesion: v3_zero(), count: 0 }
}

pub open spec fn accum_step(a: AccumV, me: V3, other: Bird, radius: int) -> AccumV {
    if is_neighbor(me, other.position@, radius) {
        AccumV {
            separation: v3_add(a.separation, separation_term(me, other.position@)),
            alignment: v3_add(a.alignment, other.velocity@),
            cohesion: v3_add(a.cohesion, other.position@),
            count: a.count + 1,
        }
    } else {
        a
    }
}

/// The neighbour scan over a snapshot, in index order.
pub open spec fn spec_accum(snap: Seq<Bird>, me: V3, radius: int) -> AccumV
    decreases snap.len(),
{
    if snap.len() == 0 {
        accum_empty()
    } else {
        accum_step(spec_accum(snap.drop_last(), me, radius), me, snap.last(), radius)
    }
}

/// A steering force: rescale the desired direction to full speed,
/// subtract the current velocity, and clamp the magnitude to
/// `max_force`. A zero desired direction steers not at all.
pub open spec fn steer_spec(desired: V3, vel: V3, max_speed: int, max_force: int) -> V3 {
    if v3_norm_sq(desired) == 0 {
        v3_zero()
    } else {
        v3_limit(v3_sub(v3_scale_to(desired, max_speed), vel), max_force)
    }
}

/// A force scaled by a fixed-point weight.
pub open spec fn weighted(f: V3, w: int) -> V3 {
    v3_sdiv(f, w, UNIT as int)
}

/// The acceleration of one agent: the three steering forces of the
/// averaged neighbour sums, combined by the configured weights; zero
/// when there is no neighbour.
pub open spec fn spec_acceleration(snap: Seq<Bird>, me: Bird, p: Params) -> V3 {
    let a = spec_accum(snap, me.position@, p.perception_radius as int);
    if a.count > 0 {
        let sep = steer_spec(
            v3_div(a.separation, a.count),
            me.velocity@,
            p.max_speed as int,
            p.max_force as int,
        );
        let ali = steer_spec(
            v3_div(a.alignment, a.count),
            me.velocity@,
            p.max_speed as int,
            p.max_force as int,
        );
        let coh = steer_spec(
            v3_sub(v3_div(a.cohesion, a.count), me.position@),
            me.velocity@,
            p.max_speed as int,
            p.max_force as int,
        );
        v3_add(
            v3_add(weighted(sep, p.separation_weight as int), weighted(ali, p.alignment_weight as int)),
            weighted(coh, p.cohesion_weight as int),
        )
    } else {
        v3_zero()
    }
}

/// One agent's whole update: integrate the acceleration into the
/// velocity, clamp the speed, advance the position, and wrap it into the
/// domain. Returns `(position, velocity)`.
pub open spec fn spec_update(snap: Seq<Bird>, me: Bird, p: Params) -> (V3, V3) {
    let acc = spec_acceleration(snap, me, p);
    let vel = v3_limit(v3_add(me.velocity@, acc), p.max_speed as int);
    let pos = wrap_spec(v3_add(me.position@, vel), p.space_min as int, p.space_max as int);
    (pos, vel)
}

/// An agent whose position lies in the domain and whose velocity
/// components are within the coordinate cap.
pub open spec fn bird_in_bounds(b: Bird, p: Params) -> bool {
    &&& v3_in_range(b.position@, p.space_min as int, p.space_max as int)
    &&& v3_bounded(b.velocity@, COORD_LIMIT as int)
}

pub open spec fn flock_in_bounds(s: Seq<Bird>, p: Params) -> bool {
    forall|i: int| 0 <= i < s.len() ==> bird_in_bounds(#[trigger] s[i], p)
}

/// A component's square never exceeds the squared norm.
proof fn lemma_component_sq_le_norm(v: V3)
    ensures
        v.x * v.x <= v3_norm_sq(v),
        v.y * v.y <= v3_norm_sq(v),
        v.z * v.z <= v3_norm_sq(v),
{
    assert(v.x * v.x >= 0 && v.y * v.y >= 0 && v.z * v.z >= 0) by (nonlinear_arith);
}

/// A component's magnitude never exceeds the floor square root of the
/// squared norm.
proof fn lemma_component_le_dist(dc: int, dsq: int, dist: int)
    requires
        dc * dc <= dsq,
        0 <= dsq,
        dist == sqrt_floor(dsq as nat),
    ensures
        -dist <= dc <= dist,
{
    let a = if dc >= 0 {
        dc
    } else {
        -dc
    };
    assert(a * a == dc * dc) by (nonlinear_arith)
        requires
            a == dc || a == -dc,
    ;
    assert((a as nat) * (a as nat) == (a * a) as nat);
    lemma_sqrt_floor_square(a as nat);
    lemma_sqrt_floor_monotonic((a * a) as nat, dsq as nat);
}

/// Rescale `desired` to full speed, steer from the current velocity
/// toward it, and clamp to `max_force`.
pub fn steer_force(desired: Vec3, velocity: Vec3, max_speed: i64, max_force: i64) -> (r: Vec3)
    requires
        v3_bounded(desired@, 0x4100_0000),
        v3_bounded(velocity@, COORD_LIMIT as int),
        0 <= max_speed <= COORD_LIMIT,
        0 <= max_force <= FORCE_LIMIT,
    ensures
        r@ == steer_spec(desired@, velocity@, max_speed as int, max_force as int),
        v3_bounded(r@, 2 * (COORD_LIMIT as int)),
{
    let nsq = desired.norm_sq();
    if nsq == 0 {
        Vec3::zero()
    } else {
        let d = scale_to(desired, max_speed);
        let s = d.sub(velocity);
        limit_vec(s, max_force)
    }
}

/// One agent's flocking update against a snapshot of the whole
/// population: the returned pair is the agent's new `(position,
/// velocity)`. The new speed is within `max_speed` and the new position
/// inside the domain.
pub fn calculate_bird_update(bird: &Bird, snapshot: &Vec<Bird>, p: &Params) -> (r: (Vec3, Vec3))
    requires
        p.wf(),
        snapshot@.len() <= MAX_POPULATION,
        flock_in_bounds(snapshot@, *p),
        bird_in_bounds(*bird, *p),
    ensures
        r.0@ == spec_update(snapshot@, *bird, *p).0,
        r.1@ == spec_update(snapshot@, *bird, *p).1,
        v3_norm_sq(r.1@) <= p.max_speed * p.max_speed,
        v3_bounded(r.1@, p.max_speed as int),
        v3_in_range(r.0@, p.space_min as int, p.space_max as int),
{
    let mut separation = Vec3::zero();
    let mut alignment = Vec3::zero();
    let mut cohesion = Vec3::zero();
    let mut total: usize = 0;
    let n = snapshot.len();
    let rad = p.perception_radius;
    proof {
        lemma_square_le(rad as int, RADIUS_LIMIT as int);
        assert((RADIUS_LIMIT as int) * (RADIUS_LIMIT as int) <= 0x7fff_ffff_ffff_ffff)
            by (nonlinear_arith);
        assert((rad as int) * (rad as int) >= 0) by (nonlinear_arith);
    }
    let radius_sq = rad * rad;
    let mut j: usize = 0;
    while j < n
        invariant
            n == snapshot@.len(),
            j <= n,
            n <= MAX_POPULATION,
            p.wf(),
            flock_in_bounds(snapshot@, *p),
            bird_in_bounds(*bird, *p),
            rad == p.perception_radius,
            radius_sq == (rad as int) * (rad as int),
            total <= j,
            ({
                let a = spec_accum(snapshot@.take(j as int), bird.position@, rad as int);
                &&& separation@ == a.separation
                &&& alignment@ == a.alignment
                &&& cohesion@ == a.cohesion
                &&& a.count == total as int
            }),
            v3_bounded(separation@, (total as int) * (UNIT as int)),
            v3_bounded(alignment@, (total as int) * (COORD_LIMIT as int)),
            v3_bounded(cohesion@, (total as int) * (COORD_LIMIT as int)),
        decreases n - j,
    {
        let other = snapshot[j];
        proof {
            assert(bird_in_bounds(snapshot@[j as int], *p));
        }
        let diff = bird.position.sub(other.position);
        let dsq = diff.norm_sq();
        if dsq > 0 && dsq < radius_sq {
            let dist = isqrt64(dsq as u64) as i64;
            proof {
                lemma_component_sq_le_norm(diff@);
                lemma_component_le_dist(diff@.x, dsq as int, dist as int);
                lemma_component_le_dist(diff@.y, dsq as int, dist as int);
                lemma_component_le_dist(diff@.z, dsq as int, dist as int);
                lemma_mul_abs_le(diff@.x, UNIT as int, 2 * (COORD_LIMIT as int), UNIT as int);
                lemma_mul_abs_le(diff@.y, UNIT as int, 2 * (COORD_LIMIT as int), UNIT as int);
                lemma_mul_abs_le(diff@.z, UNIT as int, 2 * (COORD_LIMIT as int), UNIT as int);
                assert(2 * (COORD_LIMIT as int) * (UNIT as int) <= 0x7fff_ffff_ffff_ffff)
                    by (nonlinear_arith);
                lemma_sdiv_scale_bound(diff@.x, UNIT as int, dist as int);
                lemma_sdiv_scale_bound(diff@.y, UNIT as int, dist as int);
                lemma_sdiv_scale_bound(diff@.z, UNIT as int, dist as int);
            }
            let term = diff.scale_div(UNIT, dist);
            separation = separation.add(term);
            alignment = alignment.add(other.velocity);
            cohesion = cohesion.add(other.position);
            total = total + 1;
        }
        proof {
            let pre = snapshot@.take(j as int);
            let post = snapshot@.take(j as int + 1);
            assert(post.drop_last() =~= pre);
            assert(post.last() == snapshot@[j as int]);
        }
        j = j + 1;
    }
    proof {
        assert(snapshot@.take(n as int) =~= snapshot@);
    }
    let accel: Vec3;
    if total > 0 {
        let t = total as i64;
        let sep_avg = separation.div_by(t);
        let ali_avg = alignment.div_by(t);
        let coh_avg = cohesion.div_by(t);
        let coh_dir = coh_avg.sub(bird.position);
        let sep_f = steer_force(sep_avg, bird.velocity, p.max_speed, p.max_force);
        let ali_f = steer_force(ali_avg, bird.velocity, p.max_speed, p.max_force);
        let coh_f = steer_force(coh_dir, bird.velocity, p.max_speed, p.max_force);
        proof {
            lemma_weight_fits(sep_f@, p.separation_weight as int);
            lemma_weight_fits(ali_f@, p.alignment_weight as int);
            lemma_weight_fits(coh_f@, p.cohesion_weight as int);
        }
        let ws = sep_f.scale_div(p.separation_weight, UNIT);
        let wa = ali_f.scale_div(p.alignment_weight, UNIT);
        let wc = coh_f.scale_div(p.cohesion_weight, UNIT);
        accel = ws.add(wa).add(wc);
    } else {
        accel = Vec3::zero();
    }
    let vel1 = bird.velocity.add(accel);
    let vel = limit_vec(vel1, p.max_speed);
    let pos1 = bird.position.add(vel);
    let pos = wraparound(pos1, p.space_min, p.space_max);
    (pos, vel)
}

/// A steering force times a weight fits comfortably in an `i64`, with a
/// component bound small enough to sum three of them.
proof fn lemma_weight_fits(f: V3, w: int)
    requires
        v3_bounded(f, 2 * (COORD_LIMIT as int)),
        0 <= w <= WEIGHT_LIMIT as int,
    ensures
        -0x7fff_ffff_ffff_ffff <= f.x * w <= 0x7fff_ffff_ffff_ffff,
        -0x7fff_ffff_ffff_ffff <= f.y * w <= 0x7fff_ffff_ffff_ffff,
        -0x7fff_ffff_ffff_ffff <= f.z * w <= 0x7fff_ffff_ffff_ffff,
        v3_bounded(weighted(f, w), 0x0400_0000),
{
    lemma_mul_abs_le(f.x, w, 32768, 1048576);
    lemma_mul_abs_le(f.y, w, 32768, 1048576);
    lemma_mul_abs_le(f.z, w, 32768, 1048576);
    assert(32768int * 1048576int == 34359738368int) by (nonlinear_arith);
    lemma_sdiv_abs_le(f.x * w, UNIT as int, 34359738368int);
    lemma_sdiv_abs_le(f.y * w, UNIT as int, 34359738368int);
    lemma_sdiv_abs_le(f.z * w, UNIT as int, 34359738368int);
    assert(34359738368int / (UNIT as int) <= 0x0400_0000);
}

/// The per-agent results for the index range `[lo, hi)`, each a pure
/// function of the snapshot and that agent's own prior state.
pub open spec fn spec_step_range(snap: Seq<Bird>, p: Params, lo: int, hi: int) -> Seq<(V3, V3)> {
    Seq::new((hi - lo) as nat, |k: int| spec_update(snap, snap[lo + k], p))
}

/// Compute the updates of the agents with indices in `[lo, hi)` against
/// the snapshot. Workers may each take a disjoint range; the results do
/// not depend on the partition.
pub fn step_range(snapshot: &Vec<Bird>, p: &Params, lo: usize, hi: usize) -> (r: Vec<(Vec3, Vec3)>)
    requires
        p.wf(),
        lo <= hi,
        hi <= snapshot@.len(),
        snapshot@.len() <= MAX_POPULATION,
        flock_in_bounds(snapshot@, *p),
    ensures
        r@.len() == hi - lo,
        forall|k: int|
            0 <= k < r@.len() ==> ({
                let u = #[trigger] r@[k];
                &&& u.0@ == spec_update(snapshot@, snapshot@[lo + k], *p).0
                &&& u.1@ == spec_update(snapshot@, snapshot@[lo + k], *p).1
                &&& v3_norm_sq(u.1@) <= p.max_speed * p.max_speed
                &&& v3_in_range(u.0@, p.space_min as int, p.space_max as int)
                &&& v3_bounded(u.1@, COORD_LIMIT as int)
            }),
{
    let mut r: Vec<(Vec3, Vec3)> = Vec::new();
    let mut i: usize = lo;
    while i < hi
        invariant
            lo <= i <= hi,
            hi <= snapshot@.len(),
            snapshot@.len() <= MAX_POPULATION,
            p.wf(),
            flock_in_bounds(snapshot@, *p),
            r@.len() == i - lo,
            forall|k: int|
                0 <= k < r@.len() ==> ({
                    let u = #[trigger] r@[k];
                    &&& u.0@ == spec_update(snapshot@, snapshot@[lo + k], *p).0
                    &&& u.1@ == spec_update(snapshot@, snapshot@[lo + k], *p).1
                    &&& v3_norm_sq(u.1@) <= p.max_speed * p.max_speed
                    &&& v3_in_range(u.0@, p.space_min as int, p.space_max as int)
                    &&& v3_bounded(u.1@, COORD_LIMIT as int)
                }),
        decreases hi - i,
    {
        proof {
            assert(bird_in_bounds(snapshot@[i as int], *p));
        }
        let b = snapshot[i];
        let u = calculate_bird_update(&b, snapshot, p);
        r.push(u);
        i = i + 1;
    }
    r
}

/// Law (determinism under re-partitioning): computing a step over two
/// adjacent index ranges and concatenating the results equals computing
/// it over the whole range — each agent's update depends only on the
/// snapshot and its own prior state, never on the chunking.
pub proof fn lemma_step_partition(snap: Seq<Bird>, p: Params, lo: int, mid: int, hi: int)
    requires
        lo <= mid <= hi,
    ensures
        spec_step_range(snap, p, lo, mid) + spec_step_range(snap, p, mid, hi) == spec_step_range(
            snap,
            p,
            lo,
            hi,
        ),
{
    let a = spec_step_range(snap, p, lo, mid);
    let b = spec_step_range(snap, p, mid, hi);
    let c = spec_step_range(snap, p, lo, hi);
    assert forall|k: int| 0 <= k < c.len() implies (a + b)[k] == c[k] by {
        if k < a.len() {
            assert((a + b)[k] == a[k]);
        } else {
            assert((a + b)[k] == b[k - a.len()]);
            assert(mid + (k - (mid - lo)) == lo + k);
        }
    }
    assert(a + b =~= c);
}

/// With no agent within the perception radius the scan accumulates
/// nothing.
proof fn lemma_accum_no_neighbors(snap: Seq<Bird>, me: V3, radius: int)
    requires
        forall|j: int|
            0 <= j < snap.len() ==> !is_neighbor(me, (#[trigger] snap[j]).position@, radius),
    ensures
        spec_accum(snap, me, radius) == accum_empty(),
    decreases snap.len(),
{
    if snap.len() == 0 {
    } else {
        assert(forall|j: int|
            0 <= j < snap.len() - 1 ==> snap.drop_last()[j] == snap[j]);
        lemma_accum_no_neighbors(snap.drop_last(), me, radius);
        assert(snap.last() == snap[snap.len() - 1]);
    }
}

/// Law: a zero perception radius admits no neighbour at any distance.
pub proof fn lemma_zero_radius_excludes(me: V3, other: V3)
    ensures
        !is_neighbor(me, other, 0),
{
    assert((0 as int) * (0 as int) == 0) by (nonlinear_arith);
}

/// Law (no neighbours ⇒ inertial motion): when no agent of the snapshot
/// is a neighbour, the acceleration is exactly zero, the new velocity is
/// the old one merely clamped to `max_speed`, and — if the old speed was
/// already within the cap — the update is pure inertial motion plus
/// wraparound.
pub proof fn lemma_no_neighbors_inertial(snap: Seq<Bird>, me: Bird, p: Params)
    requires
        forall|j: int|
            0 <= j < snap.len() ==> !is_neighbor(
                me.position@,
                (#[trigger] snap[j]).position@,
                p.perception_radius as int,
            ),
    ensures
        spec_acceleration(snap, me, p) == v3_zero(),
        spec_update(snap, me, p).1 == v3_limit(me.velocity@, p.max_speed as int),
        v3_norm_sq(me.velocity@) <= (p.max_speed as int) * (p.max_speed as int) ==> spec_update(
            snap,
            me,
            p,
        ) == (
            wrap_spec(
                v3_add(me.position@, me.velocity@),
                p.space_min as int,
                p.space_max as int,
            ),
            me.velocity@,
        ),
{
    lemma_accum_no_neighbors(snap, me.position@, p.perception_radius as int);
    assert(v3_add(me.velocity@, v3_zero()) == me.velocity@);
}

/// Law: with a zero perception radius every agent's acceleration is
/// exactly zero and its update degenerates to inertial motion plus
/// wraparound.
pub proof fn lemma_zero_radius_inertial(snap: Seq<Bird>, me: Bird, p: Params)
    requires
        p.perception_radius == 0,
    ensures
        spec_acceleration(snap, me, p) == v3_zero(),
        spec_update(snap, me, p).1 == v3_limit(me.velocity@, p.max_speed as int),
        v3_norm_sq(me.velocity@) <= (p.max_speed as int) * (p.max_speed as int) ==> spec_update(
            snap,
            me,
            p,
        ) == (
            wrap_spec(
                v3_add(me.position@, me.velocity@),
                p.space_min as int,
                p.space_max as int,
            ),
            me.velocity@,
        ),
{
    assert forall|j: int| 0 <= j < snap.len() implies !is_neighbor(
        me.position@,
        (#[trigger] snap[j]).position@,
        p.perception_radius as int,
    ) by {
        lemma_zero_radius_excludes(me.position@, snap[j].position@);
    }
    lemma_no_neighbors_inertial(snap, me, p);
}

} // verus!

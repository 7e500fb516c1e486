//! End-to-end stepping scenarios: symmetric two-agent cancellation,
//! single-agent inertial motion, speed and domain bounds after steps,
//! and determinism under re-partitioning.

use flocking::engine::{steer_force, step_range};
use flocking::params::{Params, FORCE_LIMIT};
use flocking::store::AgentStore;
use flocking::bird::Bird;
use flocking::vec3::Vec3;

fn v(x: i64, y: i64, z: i64) -> Vec3 {
    Vec3 { x, y, z }
}

/// Two agents one unit apart on the x-axis, zero velocity, radius 2.0,
/// all weights 1, max speed 0.3, force cap effectively unbounded: the
/// separation force points away from the other, cohesion toward it,
/// alignment is zero, and with equal weights the net acceleration
/// cancels exactly — nobody moves, and wraparound leaves both positions
/// untouched.
#[test]
fn two_agents_cancel_exactly() {
    let p = Params::new(1000, 1000, 1000, 2000, 300, FORCE_LIMIT, -10_000, 10_000).unwrap();
    let birds = vec![
        Bird::at(v(0, 0, 0), v(0, 0, 0)),
        Bird::at(v(1000, 0, 0), v(0, 0, 0)),
    ];
    let mut store = AgentStore::from_birds(birds, &p).unwrap();
    store.step(&p);
    assert_eq!(store.bird(0).position, v(0, 0, 0));
    assert_eq!(store.bird(0).velocity, v(0, 0, 0));
    assert_eq!(store.bird(1).position, v(1000, 0, 0));
    assert_eq!(store.bird(1).velocity, v(0, 0, 0));
}

/// The component forces of the symmetric pair: for the agent at the
/// origin the separation direction (away from the other) steers along
/// -x at full speed, and the cohesion direction (toward the other)
/// steers along +x at full speed.
#[test]
fn steering_forces_point_along_the_axis() {
    let away = steer_force(v(-1000, 0, 0), v(0, 0, 0), 300, FORCE_LIMIT);
    assert_eq!(away, v(-300, 0, 0));
    let toward = steer_force(v(1000, 0, 0), v(0, 0, 0), 300, FORCE_LIMIT);
    assert_eq!(toward, v(300, 0, 0));
    // A zero desired direction steers not at all.
    assert_eq!(steer_force(v(0, 0, 0), v(123, 0, 0), 300, FORCE_LIMIT), v(0, 0, 0));
}

/// A single agent never has a neighbour (distance zero to itself is
/// excluded), so it advances by its constant velocity each step,
/// modulo wraparound.
#[test]
fn single_agent_moves_inertially() {
    let p = Params::new(1500, 2000, 1500, 1900, 300, 30, -10_000, 10_000).unwrap();
    let birds = vec![Bird::at(v(9900, 0, 0), v(200, -100, 0))];
    let mut store = AgentStore::from_birds(birds, &p).unwrap();

    store.step(&p);
    assert_eq!(store.bird(0).position, v(-9900, -100, 0));
    assert_eq!(store.bird(0).velocity, v(200, -100, 0));

    store.step(&p);
    assert_eq!(store.bird(0).position, v(-9700, -200, 0));
    assert_eq!(store.bird(0).velocity, v(200, -100, 0));

    store.step(&p);
    assert_eq!(store.bird(0).position, v(-9500, -300, 0));
    assert_eq!(store.bird(0).velocity, v(200, -100, 0));
}

/// With a zero perception radius every agent is neighbourless whatever
/// the crowding: motion is purely inertial (after the initial clamp).
#[test]
fn zero_radius_means_inertial_motion() {
    let p = Params::new(1500, 2000, 1500, 0, 300, 30, -10_000, 10_000).unwrap();
    let birds = vec![
        Bird::at(v(0, 0, 0), v(100, 0, 0)),
        Bird::at(v(10, 0, 0), v(-100, 0, 0)),
    ];
    let mut store = AgentStore::from_birds(birds, &p).unwrap();
    store.step(&p);
    assert_eq!(store.bird(0).position, v(100, 0, 0));
    assert_eq!(store.bird(0).velocity, v(100, 0, 0));
    assert_eq!(store.bird(1).position, v(-90, 0, 0));
    assert_eq!(store.bird(1).velocity, v(-100, 0, 0));
}

/// After every step each agent's squared speed is within the cap and
/// each position coordinate inside the domain — even starting from
/// velocities far over the cap.
#[test]
fn speed_and_position_bounded_after_steps() {
    let p = Params::new(1500, 2000, 1500, 1900, 125, 30, -7500, 7500).unwrap();
    let birds = vec![
        Bird::at(v(0, 0, 0), v(16_384, 16_384, 16_384)),
        Bird::at(v(500, 0, 0), v(-16_384, 0, 16_384)),
        Bird::at(v(0, 500, 0), v(0, -16_384, 0)),
        Bird::at(v(0, 0, 500), v(1, 2, 3)),
    ];
    let mut store = AgentStore::from_birds(birds, &p).unwrap();
    for _ in 0..3 {
        store.step(&p);
        for i in 0..store.len() {
            let b = store.bird(i);
            let speed_sq = b.velocity.x * b.velocity.x + b.velocity.y * b.velocity.y
                + b.velocity.z * b.velocity.z;
            assert!(speed_sq <= 125 * 125);
            for c in [b.position.x, b.position.y, b.position.z] {
                assert!((-7500..=7500).contains(&c));
            }
            assert_eq!(b.acceleration, v(0, 0, 0));
        }
    }
}

/// Determinism under re-partitioning: for a fixed snapshot, computing
/// the updates in one range or in several adjacent chunks gives
/// identical results, and the store's own step agrees with them.
#[test]
fn chunked_step_equals_whole_step() {
    let p = Params::new(1500, 2000, 1500, 1900, 125, 30, -7500, 7500).unwrap();
    let birds = vec![
        Bird::at(v(0, 0, 0), v(50, 0, 0)),
        Bird::at(v(400, 100, 0), v(0, 50, 0)),
        Bird::at(v(-300, 200, 100), v(0, 0, 50)),
        Bird::at(v(0, -500, 300), v(-50, 0, 0)),
        Bird::at(v(7000, 7000, 7000), v(25, 25, 25)),
    ];
    let mut store = AgentStore::from_birds(birds, &p).unwrap();
    let snapshot = store.snapshot();

    let whole = step_range(&snapshot, &p, 0, 5);
    let mut parts = step_range(&snapshot, &p, 0, 2);
    parts.extend(step_range(&snapshot, &p, 2, 5));
    assert_eq!(whole, parts);

    let mut tiny = Vec::new();
    for i in 0..5 {
        tiny.extend(step_range(&snapshot, &p, i, i + 1));
    }
    assert_eq!(whole, tiny);

    store.step(&p);
    for (i, (pos, vel)) in whole.iter().enumerate() {
        assert_eq!(store.bird(i).position, *pos);
        assert_eq!(store.bird(i).velocity, *vel);
    }
}

/// The snapshot is a deep copy: stepping the live store afterwards does
/// not change it.
#[test]
fn snapshot_is_independent_of_later_steps() {
    let p = Params::new(1500, 2000, 1500, 1900, 125, 30, -7500, 7500).unwrap();
    let birds = vec![
        Bird::at(v(0, 0, 0), v(100, 0, 0)),
        Bird::at(v(100, 0, 0), v(0, 100, 0)),
    ];
    let mut store = AgentStore::from_birds(birds, &p).unwrap();
    let snapshot = store.snapshot();
    store.step(&p);
    assert_eq!(snapshot[0].position, v(0, 0, 0));
    assert_eq!(snapshot[0].velocity, v(100, 0, 0));
    assert_eq!(snapshot[1].position, v(100, 0, 0));
    assert_eq!(snapshot[1].velocity, v(0, 100, 0));
}

//! Tests for parameter validation and population construction.

use flocking::bird::Bird;
use flocking::params::{Params, COORD_LIMIT, FORCE_LIMIT, RADIUS_LIMIT, WEIGHT_LIMIT};
use flocking::store::AgentStore;
use flocking::vec3::Vec3;

fn v(x: i64, y: i64, z: i64) -> Vec3 {
    Vec3 { x, y, z }
}

#[test]
fn params_accepts_the_usual_run() {
    // Weights 1.5 / 2.0 / 1.5, radius 1.9, max speed 0.125, max force
    // 0.03, domain [-7.5, 7.5] — all scaled by 1000.
    let p = Params::new(1500, 2000, 1500, 1900, 125, 30, -7500, 7500).unwrap();
    assert_eq!(p.separation_weight, 1500);
    assert_eq!(p.alignment_weight, 2000);
    assert_eq!(p.cohesion_weight, 1500);
    assert_eq!(p.perception_radius, 1900);
    assert_eq!(p.max_speed, 125);
    assert_eq!(p.max_force, 30);
    assert_eq!(p.space_min, -7500);
    assert_eq!(p.space_max, 7500);
}

#[test]
fn params_rejects_negative_values() {
    assert!(Params::new(-1, 2000, 1500, 1900, 125, 30, -7500, 7500).is_none());
    assert!(Params::new(1500, 2000, 1500, -1900, 125, 30, -7500, 7500).is_none());
    assert!(Params::new(1500, 2000, 1500, 1900, -125, 30, -7500, 7500).is_none());
    assert!(Params::new(1500, 2000, 1500, 1900, 125, -30, -7500, 7500).is_none());
}

#[test]
fn params_rejects_empty_or_inverted_domain() {
    assert!(Params::new(1500, 2000, 1500, 1900, 125, 30, 7500, -7500).is_none());
    assert!(Params::new(1500, 2000, 1500, 1900, 125, 30, 0, 0).is_none());
}

#[test]
fn params_rejects_values_over_the_caps() {
    assert!(Params::new(WEIGHT_LIMIT + 1, 0, 0, 0, 0, 0, -7500, 7500).is_none());
    assert!(Params::new(0, 0, 0, RADIUS_LIMIT + 1, 0, 0, -7500, 7500).is_none());
    assert!(Params::new(0, 0, 0, 0, COORD_LIMIT + 1, 0, -7500, 7500).is_none());
    assert!(Params::new(0, 0, 0, 0, 0, FORCE_LIMIT + 1, -7500, 7500).is_none());
    assert!(Params::new(0, 0, 0, 0, 0, 0, -(COORD_LIMIT + 1), 7500).is_none());
    assert!(Params::new(0, 0, 0, 0, 0, 0, -7500, COORD_LIMIT + 1).is_none());
}

#[test]
fn params_contains_checks_the_domain() {
    let p = Params::new(1500, 2000, 1500, 1900, 125, 30, -7500, 7500).unwrap();
    assert!(p.contains(&v(0, 0, 0)));
    assert!(p.contains(&v(-7500, 7500, 0)));
    assert!(!p.contains(&v(-7501, 0, 0)));
    assert!(!p.contains(&v(0, 0, 7501)));
}

#[test]
fn from_birds_rejects_out_of_domain_positions() {
    let p = Params::new(1500, 2000, 1500, 1900, 125, 30, -7500, 7500).unwrap();
    let birds = vec![Bird::at(v(8000, 0, 0), v(0, 0, 0))];
    assert!(AgentStore::from_birds(birds, &p).is_none());
}

#[test]
fn from_birds_rejects_huge_velocities() {
    let p = Params::new(1500, 2000, 1500, 1900, 125, 30, -7500, 7500).unwrap();
    let birds = vec![Bird::at(v(0, 0, 0), v(COORD_LIMIT + 1, 0, 0))];
    assert!(AgentStore::from_birds(birds, &p).is_none());
}

#[test]
fn from_birds_keeps_the_given_population() {
    let p = Params::new(1500, 2000, 1500, 1900, 125, 30, -7500, 7500).unwrap();
    let birds = vec![
        Bird::at(v(1, 2, 3), v(4, 5, 6)),
        Bird::at(v(-1, -2, -3), v(-4, -5, -6)),
    ];
    let store = AgentStore::from_birds(birds, &p).unwrap();
    assert_eq!(store.len(), 2);
    assert_eq!(store.bird(0).position, v(1, 2, 3));
    assert_eq!(store.bird(1).velocity, v(-4, -5, -6));
}

#[test]
fn random_population_starts_inside_the_start_cube() {
    let p = Params::new(1500, 2000, 1500, 1900, 125, 30, -7500, 7500).unwrap();
    let store = AgentStore::new(25, &p);
    assert_eq!(store.len(), 25);
    for i in 0..store.len() {
        let b = store.bird(i);
        for c in [b.position.x, b.position.y, b.position.z] {
            assert!((-5000..=5000).contains(&c));
        }
        for c in [b.velocity.x, b.velocity.y, b.velocity.z] {
            assert!((-1000..=1000).contains(&c));
        }
        assert_eq!(b.acceleration, v(0, 0, 0));
    }
}

#[test]
fn new_bird_draws_position_and_velocity() {
    let b = Bird::new();
    for c in [b.position.x, b.position.y, b.position.z] {
        assert!((-5000..5000).contains(&c));
    }
    for c in [b.velocity.x, b.velocity.y, b.velocity.z] {
        assert!((-1000..1000).contains(&c));
    }
    assert_eq!(b.acceleration, v(0, 0, 0));
}

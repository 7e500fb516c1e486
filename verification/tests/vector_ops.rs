//! Unit tests for the scalar and vector building blocks: integer square
//! roots, the periodic wraparound, and the magnitude clamp.

use flocking::domain::{wrap_axis, wraparound};
use flocking::math::{isqrt64, isqrt64_ceil};
use flocking::vec3::{limit_vec, scale_to, Vec3};

#[test]
fn isqrt_exact_values() {
    assert_eq!(isqrt64(0), 0);
    assert_eq!(isqrt64(1), 1);
    assert_eq!(isqrt64(2), 1);
    assert_eq!(isqrt64(3), 1);
    assert_eq!(isqrt64(4), 2);
    assert_eq!(isqrt64(999_999), 999);
    assert_eq!(isqrt64(1_000_000), 1000);
    assert_eq!(isqrt64(u64::MAX), 4_294_967_295);
}

#[test]
fn isqrt_ceil_exact_values() {
    assert_eq!(isqrt64_ceil(0), 0);
    assert_eq!(isqrt64_ceil(1), 1);
    assert_eq!(isqrt64_ceil(2), 2);
    assert_eq!(isqrt64_ceil(4), 2);
    assert_eq!(isqrt64_ceil(25_000_000), 5000);
    assert_eq!(isqrt64_ceil(25_000_001), 5001);
}

#[test]
fn wrap_axis_identity_inside_domain() {
    // A value already inside the domain comes back unchanged.
    assert_eq!(wrap_axis(0, -10_000, 10_000), 0);
    assert_eq!(wrap_axis(-10_000, -10_000, 10_000), -10_000);
    assert_eq!(wrap_axis(10_000, -10_000, 10_000), 10_000);
    assert_eq!(wrap_axis(4321, -10_000, 10_000), 4321);
}

#[test]
fn wrap_axis_idempotent() {
    let wrapped = wrap_axis(73_456, -10_000, 10_000);
    assert_eq!(wrap_axis(wrapped, -10_000, 10_000), wrapped);
}

#[test]
fn wrap_axis_small_overshoot() {
    // Just past the high edge re-enters from the low side and vice versa.
    assert_eq!(wrap_axis(10_100, -10_000, 10_000), -9_900);
    assert_eq!(wrap_axis(-10_100, -10_000, 10_000), 9_900);
}

#[test]
fn wrap_axis_many_widths_overshoot() {
    // space_max + 3 widths + 0.1 units maps to the modular position,
    // not to a clamped edge: 10000 + 3*20000 + 100 -> -9900.
    assert_eq!(wrap_axis(70_100, -10_000, 10_000), -9_900);
    assert_eq!(wrap_axis(-70_100, -10_000, 10_000), 9_900);
}

#[test]
fn wraparound_acts_per_axis() {
    let v = Vec3 { x: 70_100, y: -70_100, z: 123 };
    let w = wraparound(v, -10_000, 10_000);
    assert_eq!(w, Vec3 { x: -9_900, y: 9_900, z: 123 });
}

#[test]
fn limit_under_cap_is_identity() {
    let v = Vec3 { x: 100, y: 200, z: -300 };
    assert_eq!(limit_vec(v, 1000), v);
    // Exactly at the cap is also unchanged (the clamp is strict).
    let w = Vec3 { x: 300, y: 400, z: 0 };
    assert_eq!(limit_vec(w, 500), w);
}

#[test]
fn limit_over_cap_rescales_exactly() {
    // A 3-4-5 vector of length 5000 clamped to 2500 halves exactly.
    let v = Vec3 { x: 3000, y: 4000, z: 0 };
    let r = limit_vec(v, 2500);
    assert_eq!(r, Vec3 { x: 1500, y: 2000, z: 0 });
    assert_eq!(r.x * r.x + r.y * r.y + r.z * r.z, 2500 * 2500);
}

#[test]
fn limit_over_cap_negative_components_keep_sign() {
    let v = Vec3 { x: -3000, y: 4000, z: 0 };
    let r = limit_vec(v, 2500);
    assert_eq!(r, Vec3 { x: -1500, y: 2000, z: 0 });
}

#[test]
fn limit_zero_vector_stays_zero() {
    let v = Vec3 { x: 0, y: 0, z: 0 };
    assert_eq!(limit_vec(v, 125), v);
}

#[test]
fn scale_to_sets_magnitude() {
    let v = Vec3 { x: 3000, y: 4000, z: 0 };
    let r = scale_to(v, 1000);
    assert_eq!(r, Vec3 { x: 600, y: 800, z: 0 });
    assert_eq!(r.x * r.x + r.y * r.y + r.z * r.z, 1000 * 1000);
    // The zero vector cannot be given a direction.
    let z = Vec3 { x: 0, y: 0, z: 0 };
    assert_eq!(scale_to(z, 1000), z);
}

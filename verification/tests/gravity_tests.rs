//! Tests of the two-body quantities against known real-world values, and of
//! the exact identities between them.

use physics_validator::escape_speed_squared;
use physics_validator::escape_velocity;
use physics_validator::gravitational_acceleration;
use physics_validator::gravitational_force;
use physics_validator::orbital_period;
use physics_validator::orbital_speed_squared;
use physics_validator::orbital_velocity;
use physics_validator::EARTH_MASS_KG;
use physics_validator::EARTH_RADIUS_M;

const TOLERANCE: f64 = 1e-6;

fn relative_error(actual: f64, expected: f64) -> f64 {
    ((actual - expected) / expected).abs()
}

#[test]
fn test_orbital_velocity_leo() {
    // Low Earth Orbit at 400 km altitude
    let altitude: u128 = 400_000;
    let orbital_radius: u128 = EARTH_RADIUS_M + altitude;
    let velocity: f64 = orbital_velocity(EARTH_MASS_KG, orbital_radius) as f64;

    // Expected: approximately 7670 m/s
    let expected: f64 = 7670.0;
    let error: f64 = relative_error(velocity, expected);

    assert!(
        error < 0.01,
        "LEO orbital velocity mismatch: got {} m/s, expected {} m/s (error: {:.6})",
        velocity,
        expected,
        error
    );
}

#[test]
fn test_orbital_period_geo() {
    // Geostationary orbit
    let altitude: u128 = 35_786_000;
    let orbital_radius: u128 = EARTH_RADIUS_M + altitude;
    let period: f64 = orbital_period(EARTH_MASS_KG, orbital_radius) as f64;

    // Expected: 24 hours = 86400 seconds
    let expected: f64 = 86400.0;
    let error: f64 = relative_error(period, expected);

    assert!(
        error < 0.01,
        "GEO orbital period mismatch: got {} s, expected {} s (error: {:.6})",
        period,
        expected,
        error
    );
}

#[test]
fn test_escape_velocity_earth() {
    let v_esc: f64 = escape_velocity(EARTH_MASS_KG, EARTH_RADIUS_M) as f64;

    // Expected: approximately 11186 m/s
    let expected: f64 = 11186.0;
    let error: f64 = relative_error(v_esc, expected);

    assert!(
        error < 0.01,
        "Earth escape velocity mismatch: got {} m/s, expected {} m/s (error: {:.6})",
        v_esc,
        expected,
        error
    );
}

#[test]
fn test_gravitational_force() {
    let human_mass: u128 = 70;
    let force = gravitational_force(EARTH_MASS_KG, human_mass, EARTH_RADIUS_M);
    let force_newtons: f64 = force.num as f64 / force.den as f64;

    // Expected: approximately 686 N
    let expected: f64 = 686.0;
    let error: f64 = relative_error(force_newtons, expected);

    assert!(
        error < 0.01,
        "Gravitational force mismatch: got {} N, expected {} N (error: {:.6})",
        force_newtons,
        expected,
        error
    );
}

#[test]
fn test_gravitational_acceleration() {
    let accel = gravitational_acceleration(EARTH_MASS_KG, EARTH_RADIUS_M);
    let accel_mps2: f64 = accel.num as f64 / accel.den as f64;

    // Expected: approximately 9.81 m/s²
    let expected: f64 = 9.81;
    let error: f64 = relative_error(accel_mps2, expected);

    assert!(
        error < 0.01,
        "Earth surface gravity mismatch: got {} m/s², expected {} m/s² (error: {:.6})",
        accel_mps2,
        expected,
        error
    );
}

#[test]
fn test_escape_velocity_is_sqrt2_times_orbital() {
    // At any radius, escape velocity should be sqrt(2) times orbital
    // velocity: the squared speeds stand in the exact ratio 2.
    let test_radius: u128 = EARTH_RADIUS_M * 2;
    let orbital_sq = orbital_speed_squared(EARTH_MASS_KG, test_radius);
    let escape_sq = escape_speed_squared(EARTH_MASS_KG, test_radius);

    assert_eq!(escape_sq.num, 2 * orbital_sq.num);
    assert_eq!(escape_sq.den, orbital_sq.den);

    let v_orbit: f64 = (orbital_sq.num as f64 / orbital_sq.den as f64).sqrt();
    let v_escape: f64 = (escape_sq.num as f64 / escape_sq.den as f64).sqrt();
    let ratio: f64 = v_escape / v_orbit;
    let expected_ratio: f64 = 2.0_f64.sqrt();
    let error: f64 = relative_error(ratio, expected_ratio);

    assert!(
        error < TOLERANCE,
        "Escape/orbital velocity ratio mismatch: got {}, expected {} (error: {:.9})",
        ratio,
        expected_ratio,
        error
    );
}

#[test]
fn test_force_acceleration_relationship() {
    // F = m * a, so a = F / m
    let test_mass: u128 = 100;
    let distance: u128 = EARTH_RADIUS_M;

    let force = gravitational_force(EARTH_MASS_KG, test_mass, distance);
    let accel = gravitational_acceleration(EARTH_MASS_KG, distance);

    // Exactly: F = 100 * a as fractions over the same denominator.
    assert_eq!(force.num, test_mass * accel.num);
    assert_eq!(force.den, accel.den);

    let derived_accel: f64 = (force.num as f64 / force.den as f64) / test_mass as f64;
    let accel_mps2: f64 = accel.num as f64 / accel.den as f64;
    let error: f64 = relative_error(derived_accel, accel_mps2);

    assert!(
        error < TOLERANCE,
        "Force/acceleration relationship mismatch: F/m = {} m/s², a = {} m/s² (error: {:.9})",
        derived_accel,
        accel_mps2,
        error
    );
}

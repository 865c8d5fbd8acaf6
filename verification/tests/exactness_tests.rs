//! Tests pinning the exact integer results: the integer square root on its
//! edge cases, the floored velocities and periods on known orbits, and the
//! exact fractions digit for digit.

use physics_validator::escape_velocity;
use physics_validator::gravitational_acceleration;
use physics_validator::gravitational_force;
use physics_validator::isqrt_u128;
use physics_validator::kepler_ratio;
use physics_validator::orbital_period;
use physics_validator::orbital_velocity;
use physics_validator::EARTH_MASS_KG;
use physics_validator::EARTH_RADIUS_M;
use physics_validator::G_NUM;

#[test]
fn test_isqrt_small_values() {
    assert_eq!(isqrt_u128(0), 0);
    assert_eq!(isqrt_u128(1), 1);
    assert_eq!(isqrt_u128(2), 1);
    assert_eq!(isqrt_u128(3), 1);
    assert_eq!(isqrt_u128(4), 2);
    assert_eq!(isqrt_u128(15), 3);
    assert_eq!(isqrt_u128(16), 4);
    assert_eq!(isqrt_u128(99), 9);
    assert_eq!(isqrt_u128(100), 10);
}

#[test]
fn test_isqrt_largest_inputs() {
    let top: u128 = u64::MAX as u128;
    assert_eq!(isqrt_u128(u128::MAX), u64::MAX);
    assert_eq!(isqrt_u128(top * top), u64::MAX);
    assert_eq!(isqrt_u128(top * top - 1), u64::MAX - 1);
}

#[test]
fn test_mul_wide_limbs() {
    assert_eq!(physics_validator::wide::mul_wide(0, 0), (0, 0));
    assert_eq!(physics_validator::wide::mul_wide(3, 5), (0, 15));
    // (2^128 - 1)^2 = (2^128 - 2) * 2^128 + 1
    assert_eq!(
        physics_validator::wide::mul_wide(u128::MAX, u128::MAX),
        (u128::MAX - 1, 1)
    );
    assert_eq!(physics_validator::wide::mul_wide(u128::MAX, 2), (1, u128::MAX - 1));
}

#[test]
fn test_orbital_velocity_exact_floor() {
    // Floor of the exact orbital velocity, in whole m/s.
    assert_eq!(orbital_velocity(EARTH_MASS_KG, EARTH_RADIUS_M + 400_000), 7672);
    assert_eq!(orbital_velocity(EARTH_MASS_KG, EARTH_RADIUS_M + 408_000), 7667);
    assert_eq!(orbital_velocity(EARTH_MASS_KG, 384_400_000), 1018);
    // A one-kilogram central body pulls so weakly that the floor is zero.
    assert_eq!(orbital_velocity(1, 1), 0);
}

#[test]
fn test_escape_velocity_exact_floor() {
    assert_eq!(escape_velocity(EARTH_MASS_KG, EARTH_RADIUS_M), 11185);
}

#[test]
fn test_orbital_period_exact_floor() {
    // Narrow and wide orbits alike get the full-precision floor: a low
    // orbit, a geostationary orbit, and the Moon's orbit.
    assert_eq!(orbital_period(EARTH_MASS_KG, EARTH_RADIUS_M + 408_000), 5554);
    assert_eq!(orbital_period(EARTH_MASS_KG, EARTH_RADIUS_M + 35_786_000), 86143);
    assert_eq!(orbital_period(EARTH_MASS_KG, 384_400_000), 2_371_877);
    assert_eq!(orbital_period(EARTH_MASS_KG, EARTH_RADIUS_M), 5060);
}

#[test]
fn test_orbital_period_wide_orbit() {
    // The widest admitted orbit around a one-tonne body: the 256-bit
    // radicand is far beyond u128 range, the period still comes out exact.
    assert_eq!(orbital_period(1_000_000, 2_000_000_000), 68_789_475_802_491_380);
}

#[test]
fn test_orbital_period_heaviest_mass() {
    // The heaviest admitted central mass at the widest admitted radius: the
    // quotient under the square root is small, yet no precision is lost.
    assert_eq!(orbital_period(u128::MAX / G_NUM, 2_000_000_000), 963);
}

#[test]
fn test_orbital_period_monotone_in_radius() {
    // A slightly wider orbit never gets a shorter period, also where the
    // radicand crosses a power-of-two limb boundary.
    let close = orbital_period(EARTH_MASS_KG, 20_503_000);
    let wide = orbital_period(EARTH_MASS_KG, 20_503_800);
    assert_eq!(close, 29_217);
    assert_eq!(wide, 29_219);
    assert!(close <= wide);
}

#[test]
fn test_orbital_velocity_largest_mass() {
    // The heaviest central mass the overflow bound admits.
    let mass: u128 = u128::MAX / G_NUM;
    assert_eq!(orbital_velocity(mass, 1), 583_337_266_871);
}

#[test]
fn test_gravitational_force_exact_fraction() {
    let force = gravitational_force(EARTH_MASS_KG, 70, EARTH_RADIUS_M);
    assert_eq!(force.num, 27_901_243_720_000_000_000_000_000_000_000);
    assert_eq!(force.den, 40_589_641_000_000_000_000_000_000_000);
}

#[test]
fn test_gravitational_acceleration_exact_fraction() {
    let accel = gravitational_acceleration(EARTH_MASS_KG, EARTH_RADIUS_M);
    assert_eq!(accel.num, 398_589_196_000_000_000_000_000_000_000);
    assert_eq!(accel.den, 40_589_641_000_000_000_000_000_000_000);
}

#[test]
fn test_kepler_ratio_exact_fraction() {
    // T²/r³ = 4π²/(G · mass): the same fraction at every radius.
    let near = kepler_ratio(EARTH_MASS_KG, EARTH_RADIUS_M);
    let far = kepler_ratio(EARTH_MASS_KG, 384_400_000);
    assert_eq!(near.num, 39_478_417_600_000_000);
    assert_eq!(near.den, 398_589_196_000_000_000_000_000_000_000);
    assert_eq!(far.num, near.num);
    assert_eq!(far.den, near.den);
}

//! The classical identities between the two-body quantities, proved once
//! and for all over the rational model.

use vstd::arithmetic::div_mod::lemma_fundamental_div_mod;
use vstd::arithmetic::div_mod::lemma_mod_bound;
use vstd::prelude::*;

use crate::gravity::accel_rat;
use crate::gravity::orbital_period_floor_spec;
use crate::isqrt::lemma_sqrt_floor_monotone;
use crate::gravity::escape_speed_sq_rat;
use crate::gravity::force_rat;
use crate::gravity::g_rat;
use crate::gravity::orbital_speed_sq_rat;
use crate::gravity::period_sq_rat;
use crate::rational::rat;
use crate::rational::rat_div;
use crate::rational::rat_eqv;
use crate::rational::rat_half;

verus! {

/// The escape velocity is `sqrt(2)` times the orbital velocity at the same
/// radius: the squared ratio of the two is exactly 2.
pub proof fn lemma_escape_orbital_ratio(mass: int, radius: int)
    requires
        1 <= mass,
        1 <= radius,
    ensures
        rat_eqv(
            rat_div(escape_speed_sq_rat(mass, radius), orbital_speed_sq_rat(mass, radius)),
            rat(2, 1),
        ),
{
    let m = mass;
    let r = radius;
    assert(((2 * 66_743 * m) * (1_000_000_000_000_000 * r)) * 1 == 2 * ((1_000_000_000_000_000 * r)
        * (66_743 * m))) by (nonlinear_arith);
}

/// The gravitational force on a test mass, divided by that mass, is the
/// gravitational acceleration at the same distance.
pub proof fn lemma_force_per_mass_is_acceleration(mass1: int, mass2: int, distance: int)
    requires
        1 <= mass2,
        1 <= distance,
    ensures
        rat_eqv(
            rat_div(force_rat(mass1, mass2, distance), rat(mass2, 1)),
            accel_rat(mass1, distance),
        ),
{
    let m1 = mass1;
    let m2 = mass2;
    let d = distance;
    assert(((66_743 * m1 * m2) * 1) * (1_000_000_000_000_000 * d * d) == (66_743 * m1) * ((
    1_000_000_000_000_000 * d * d) * m2)) by (nonlinear_arith);
}

/// With unit masses at unit distance, the gravitational force equals the
/// gravitational constant itself.
pub proof fn lemma_unit_force_is_g()
    ensures
        rat_eqv(force_rat(1, 1, 1), g_rat()),
{
}

/// Kepler's third law: around one central mass, the ratio of the squared
/// period to the cubed radius is the same for every circular orbit.
pub proof fn lemma_kepler_third_law(mass: int, r1: int, r2: int)
    requires
        1 <= mass,
        1 <= r1,
        1 <= r2,
    ensures
        rat_eqv(
            rat_div(period_sq_rat(mass, r1), rat(r1 * r1 * r1, 1)),
            rat_div(period_sq_rat(mass, r2), rat(r2 * r2 * r2, 1)),
        ),
{
    let m = mass;
    assert(((394_784_176 * r1 * r1 * r1 * 1_000_000_000_000_000) * 1) * ((10_000_000 * 66_743 * m)
        * (r2 * r2 * r2)) == ((394_784_176 * r2 * r2 * r2 * 1_000_000_000_000_000) * 1) * ((
    10_000_000 * 66_743 * m) * (r1 * r1 * r1))) by (nonlinear_arith);
}

/// The inverse-square law: doubling the distance divides the gravitational
/// acceleration by exactly 4.
pub proof fn lemma_inverse_square_law(mass: int, distance: int)
    requires
        1 <= mass,
        1 <= distance,
    ensures
        rat_eqv(
            rat_div(accel_rat(mass, distance), accel_rat(mass, 2 * distance)),
            rat(4, 1),
        ),
{
    let m = mass;
    let d = distance;
    assert(((66_743 * m) * (1_000_000_000_000_000 * (2 * d) * (2 * d))) * 1 == 4 * ((
    1_000_000_000_000_000 * d * d) * (66_743 * m))) by (nonlinear_arith);
}

/// The orbital period grows with the radius: around a fixed central mass, a
/// wider circular orbit never has a shorter (floored) period.
pub proof fn lemma_orbital_period_monotone_in_radius(mass: int, r1: int, r2: int)
    requires
        1 <= mass,
        1 <= r1,
        r1 <= r2,
    ensures
        orbital_period_floor_spec(mass, r1) <= orbital_period_floor_spec(mass, r2),
{
    let n1: int = 394_784_176 * (r1 * r1 * r1) * 100_000_000;
    let n2: int = 394_784_176 * (r2 * r2 * r2) * 100_000_000;
    let d: int = 66_743 * mass;
    assert(0 <= n1 && n1 <= n2) by (nonlinear_arith)
        requires
            n1 == 394_784_176 * (r1 * r1 * r1) * 100_000_000,
            n2 == 394_784_176 * (r2 * r2 * r2) * 100_000_000,
            1 <= r1,
            r1 <= r2,
    ;
    lemma_fundamental_div_mod(n1, d);
    lemma_mod_bound(n1, d);
    lemma_fundamental_div_mod(n2, d);
    lemma_mod_bound(n2, d);
    assert(0 <= n1 / d && n1 / d <= n2 / d) by (nonlinear_arith)
        requires
            0 <= n1,
            n1 <= n2,
            n1 == d * (n1 / d) + n1 % d,
            n2 == d * (n2 / d) + n2 % d,
            0 <= n1 % d < d,
            0 <= n2 % d < d,
            0 < d,
    ;
    lemma_sqrt_floor_monotone(n1 / d, n2 / d);
}

/// Energy balance of a circular orbit: the kinetic energy per unit mass,
/// `v^2 / 2`, is half the gravitational potential magnitude `G * mass / r`.
pub proof fn lemma_circular_orbit_energy_balance(mass: int, radius: int)
    requires
        1 <= mass,
        1 <= radius,
    ensures
        rat_eqv(
            rat_half(orbital_speed_sq_rat(mass, radius)),
            rat_div(rat(66_743 * mass, 1_000_000_000_000_000 * radius), rat(2, 1)),
        ),
{
    let m = mass;
    let r = radius;
    assert((66_743 * m) * ((1_000_000_000_000_000 * r) * 2) == ((66_743 * m) * 1) * (2 * (
    1_000_000_000_000_000 * r))) by (nonlinear_arith);
}

} // verus!

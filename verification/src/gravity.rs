//! The closed-form two-body quantities, computed exactly over integers.
//!
//! Masses are in kilograms, distances in meters. The gravitational constant
//! and 4*pi^2 are held as exact fractions, so every quantity that needs no
//! square root comes out as an exact `Frac`, and the velocities and the
//! period come out as the integer floor of the exact value, characterized by
//! `sqrt_floor`.

use vstd::arithmetic::div_mod::lemma_fundamental_div_mod;
use vstd::arithmetic::div_mod::lemma_mod_bound;
use vstd::prelude::*;

use crate::isqrt::is_sqrt_floor;
use crate::isqrt::isqrt_u128;
use crate::isqrt::lemma_sqrt_floor_is;
use crate::isqrt::sqrt_floor;
use crate::isqrt::SQRT_LIMIT;
use crate::wide::mul_wide;
use crate::wide::wide_val;
use crate::rational::rat;
use crate::rational::rat_div;
use crate::rational::rat_eqv;
use crate::rational::Frac;
use crate::rational::Rat;

verus! {

/// Numerator of the gravitational constant: `G = G_NUM / G_DEN` in SI units
/// (m^3 kg^-1 s^-2), exactly 6.67430e-11.
pub const G_NUM: u128 = 66_743;

/// Denominator of the gravitational constant, 10^15.
pub const G_DEN: u128 = 1_000_000_000_000_000;

/// Earth's mass in kilograms, 5.972e24.
pub const EARTH_MASS_KG: u128 = 5_972_000_000_000_000_000_000_000;

/// Earth's mean radius in meters, 6.371e6.
pub const EARTH_RADIUS_M: u128 = 6_371_000;

/// Numerator of the exact fraction standing for 4*pi^2:
/// `FOUR_PI_SQUARED_NUM / FOUR_PI_SQUARED_DEN` = 39.4784176.
pub const FOUR_PI_SQUARED_NUM: u128 = 394_784_176;

/// Denominator of the fraction standing for 4*pi^2, 10^7.
pub const FOUR_PI_SQUARED_DEN: u128 = 10_000_000;

/// The gravitational constant as a rational.
pub open spec fn g_rat() -> Rat {
    rat(G_NUM as int, G_DEN as int)
}

/// The square of the circular orbital velocity, `G * mass / radius`, as a
/// rational in (m/s)^2.
pub open spec fn orbital_speed_sq_rat(mass: int, radius: int) -> Rat {
    rat((G_NUM as int) * mass, (G_DEN as int) * radius)
}

/// The square of the escape velocity, `2 * G * mass / radius`, as a rational
/// in (m/s)^2.
pub open spec fn escape_speed_sq_rat(mass: int, radius: int) -> Rat {
    rat(2 * (G_NUM as int) * mass, (G_DEN as int) * radius)
}

/// The gravitational force `G * mass1 * mass2 / distance^2`, as a rational
/// in newtons.
pub open spec fn force_rat(mass1: int, mass2: int, distance: int) -> Rat {
    rat((G_NUM as int) * mass1 * mass2, (G_DEN as int) * distance * distance)
}

/// The gravitational acceleration `G * mass / distance^2`, as a rational in
/// m/s^2.
pub open spec fn accel_rat(mass: int, distance: int) -> Rat {
    rat((G_NUM as int) * mass, (G_DEN as int) * distance * distance)
}

/// The square of the orbital period, `4 * pi^2 * radius^3 / (G * mass)`, as
/// a rational in s^2 (with 4*pi^2 taken as its exact stand-in fraction).
pub open spec fn period_sq_rat(mass: int, radius: int) -> Rat {
    rat(
        (FOUR_PI_SQUARED_NUM as int) * radius * radius * radius * (G_DEN as int),
        (FOUR_PI_SQUARED_DEN as int) * (G_NUM as int) * mass,
    )
}

/// From the integer square root of a floored quotient, exact brackets on the
/// dividend: `v = sqrt_floor(num / den)` squeezes `num / den` between `v^2`
/// and `(v + 1)^2`.
proof fn lemma_sqrt_of_div_brackets(num: int, den: int, v: int)
    requires
        0 <= num,
        0 < den,
        is_sqrt_floor(num / den, v),
    ensures
        v * v * den <= num,
        num < (v + 1) * (v + 1) * den,
{
    let q = num / den;
    lemma_fundamental_div_mod(num, den);
    lemma_mod_bound(num, den);
    assert(den * q <= num);
    assert(num < den * q + den);
    assert(v * v * den <= q * den) by (nonlinear_arith)
        requires
            v * v <= q,
            0 < den,
    ;
    assert(q * den == den * q) by (nonlinear_arith);
    assert(den * q + den <= (v + 1) * (v + 1) * den) by (nonlinear_arith)
        requires
            q + 1 <= (v + 1) * (v + 1),
            0 < den,
    ;
}

/// The converse direction: exact rational brackets on the dividend put `v`
/// at the integer square root of the floored quotient.
proof fn lemma_brackets_to_sqrt_of_div(num: int, den: int, v: int)
    requires
        0 <= num,
        0 < den,
        0 <= v,
        v * v * den <= num,
        num < (v + 1) * (v + 1) * den,
    ensures
        is_sqrt_floor(num / den, v),
{
    let q = num / den;
    lemma_fundamental_div_mod(num, den);
    lemma_mod_bound(num, den);
    assert(v * v <= q) by (nonlinear_arith)
        requires
            v * v * den <= num,
            num < den * q + den,
            0 < den,
    ;
    assert(q < (v + 1) * (v + 1)) by (nonlinear_arith)
        requires
            den * q <= num,
            num < (v + 1) * (v + 1) * den,
            0 < den,
    ;
}

/// The value computed by `orbital_period`: the integer square root of the
/// floored quotient `4 * pi^2 * radius^3 * 10^8 / (G_NUM * mass)`.
pub open spec fn orbital_period_floor_spec(mass: int, radius: int) -> int {
    // 4*pi^2 / G = (FOUR_PI_SQUARED_NUM * 10^8) / G_NUM, since
    // G_DEN / FOUR_PI_SQUARED_DEN = 10^8.
    sqrt_floor(
        (FOUR_PI_SQUARED_NUM as int) * (radius * radius * radius) * 100_000_000 / ((
        G_NUM as int) * mass),
    )
}

/// Floor of the orbital period `2 * pi * sqrt(radius^3 / (G * mass))` of a
/// circular orbit, in seconds (with 4 * pi^2 taken as its exact stand-in
/// fraction).
///
/// The radicand `4 * pi^2 * radius^3 / (G * mass)` overflows a `u128` for
/// wide orbits, so it is carried as a 256-bit numerator over `G_NUM * mass`
/// and the root is found by binary search directly against that numerator:
/// full precision at every admitted input, and in particular a wider orbit
/// never gets a shorter period. The last precondition admits exactly the
/// inputs whose period fits in a `u64`; the square of the result brackets
/// the exact rational with slack 1 on the root.
pub fn orbital_period(mass: u128, radius: u128) -> (t: u64)
    requires
        1 <= mass,
        1 <= radius,
        radius <= 2_000_000_000,
        G_NUM * mass <= u128::MAX,
        FOUR_PI_SQUARED_NUM * (radius * radius * radius) * 100_000_000 / (G_NUM * mass)
            <= u128::MAX,
    ensures
        t == orbital_period_floor_spec(mass as int, radius as int),
        t * t * (G_NUM * mass) <= FOUR_PI_SQUARED_NUM * (radius * radius * radius) * 100_000_000,
        FOUR_PI_SQUARED_NUM * (radius * radius * radius) * 100_000_000 < (t + 1) * (t + 1) * (
        G_NUM * mass),
{
    proof {
        assert(radius * radius <= 4_000_000_000_000_000_000int) by (nonlinear_arith)
            requires
                radius <= 2_000_000_000int,
        ;
        assert(radius * radius * radius <= 8_000_000_000_000_000_000_000_000_000int)
            by (nonlinear_arith)
            requires
                radius <= 2_000_000_000int,
        ;
    }
    let r2: u128 = radius * radius;
    let r3: u128 = r2 * radius;
    let p: u128 = FOUR_PI_SQUARED_NUM * r3;
    let den: u128 = G_NUM * mass;
    let wide = mul_wide(p, 100_000_000);
    let nh: u128 = wide.0;
    let nl: u128 = wide.1;
    proof {
        let n: int = wide_val(nh, nl);
        let d: int = den as int;
        lemma_fundamental_div_mod(n, d);
        lemma_mod_bound(n, d);
        assert(n < 0x1_0000_0000_0000_0000_0000_0000_0000_0000int * d) by (nonlinear_arith)
            requires
                n == d * (n / d) + n % d,
                0 <= n % d < d,
                n / d <= 0xffff_ffff_ffff_ffff_ffff_ffff_ffff_ffffint,
                0 < d,
        ;
        assert(wide_val(nh, nl) < (SQRT_LIMIT * SQRT_LIMIT) * den) by (nonlinear_arith)
            requires
                wide_val(nh, nl) < 0x1_0000_0000_0000_0000_0000_0000_0000_0000int * den,
                SQRT_LIMIT == 0x1_0000_0000_0000_0000int,
        ;
    }
    let mut lo_t: u128 = 0;
    let mut hi_t: u128 = SQRT_LIMIT;
    while lo_t + 1 < hi_t
        invariant
            lo_t < hi_t,
            hi_t <= SQRT_LIMIT,
            0 < den,
            lo_t * lo_t * den <= wide_val(nh, nl),
            wide_val(nh, nl) < hi_t * hi_t * den,
        decreases hi_t - lo_t,
    {
        let mid: u128 = lo_t + (hi_t - lo_t) / 2;
        proof {
            assert(mid * mid < 0x1_0000_0000_0000_0000_0000_0000_0000_0000int) by (nonlinear_arith)
                requires
                    0 <= mid < 0x1_0000_0000_0000_0000int,
            ;
        }
        let m2: u128 = mid * mid;
        let prod = mul_wide(m2, den);
        if prod.0 < nh || (prod.0 == nh && prod.1 <= nl) {
            lo_t = mid;
        } else {
            hi_t = mid;
        }
    }
    let t: u64 = lo_t as u64;
    proof {
        lemma_brackets_to_sqrt_of_div(wide_val(nh, nl), den as int, t as int);
        lemma_sqrt_floor_is(wide_val(nh, nl) / (den as int), t as int);
    }
    t
}

/// Floor of the circular orbital velocity `sqrt(G * mass / radius)`, in m/s.
///
/// The result is pinned down twice over: it is the integer square root of
/// the floored quotient `(G_NUM * mass) / (G_DEN * radius)`, and its square
/// brackets the exact rational `G * mass / radius`.
pub fn orbital_velocity(mass: u128, radius: u128) -> (v: u64)
    requires
        1 <= radius,
        G_NUM * mass <= u128::MAX,
        G_DEN * radius <= u128::MAX,
    ensures
        v as int == sqrt_floor((G_NUM * mass) / (G_DEN * radius)),
        v * v * (G_DEN * radius) <= G_NUM * mass,
        G_NUM * mass < (v + 1) * (v + 1) * (G_DEN * radius),
{
    let num: u128 = G_NUM * mass;
    let den: u128 = G_DEN * radius;
    let q: u128 = num / den;
    let v = isqrt_u128(q);
    proof {
        lemma_sqrt_of_div_brackets(num as int, den as int, v as int);
    }
    v
}

/// Floor of the escape velocity `sqrt(2 * G * mass / radius)`, in m/s.
///
/// As with `orbital_velocity`, the result is the integer square root of the
/// floored quotient, and its square brackets the exact rational
/// `2 * G * mass / radius`.
pub fn escape_velocity(mass: u128, radius: u128) -> (v: u64)
    requires
        1 <= radius,
        2 * G_NUM * mass <= u128::MAX,
        G_DEN * radius <= u128::MAX,
    ensures
        v as int == sqrt_floor((2 * G_NUM * mass) / (G_DEN * radius)),
        v * v * (G_DEN * radius) <= 2 * G_NUM * mass,
        2 * G_NUM * mass < (v + 1) * (v + 1) * (G_DEN * radius),
{
    let num: u128 = 2 * G_NUM * mass;
    let den: u128 = G_DEN * radius;
    let q: u128 = num / den;
    let v = isqrt_u128(q);
    proof {
        lemma_sqrt_of_div_brackets(num as int, den as int, v as int);
    }
    v
}

/// The gravitational force `G * mass1 * mass2 / distance^2` between two
/// bodies, in newtons, as an exact fraction.
pub fn gravitational_force(mass1: u128, mass2: u128, distance: u128) -> (f: Frac)
    requires
        1 <= distance,
        G_NUM * mass1 <= u128::MAX,
        G_NUM * mass1 * mass2 <= u128::MAX,
        G_DEN * distance <= u128::MAX,
        G_DEN * distance * distance <= u128::MAX,
    ensures
        f.wf(),
        f.as_rat() == force_rat(mass1 as int, mass2 as int, distance as int),
{
    let f = Frac { num: G_NUM * mass1 * mass2, den: G_DEN * distance * distance };
    proof {
        assert(1_000_000_000_000_000 * distance * distance >= 1) by (nonlinear_arith)
            requires
                1 <= distance,
        ;
    }
    f
}

/// The gravitational acceleration `G * mass / distance^2` imparted at a
/// distance, in m/s^2, as an exact fraction.
pub fn gravitational_acceleration(mass: u128, distance: u128) -> (a: Frac)
    requires
        1 <= distance,
        G_NUM * mass <= u128::MAX,
        G_DEN * distance <= u128::MAX,
        G_DEN * distance * distance <= u128::MAX,
    ensures
        a.wf(),
        a.as_rat() == accel_rat(mass as int, distance as int),
{
    let a = Frac { num: G_NUM * mass, den: G_DEN * distance * distance };
    proof {
        assert(1_000_000_000_000_000 * distance * distance >= 1) by (nonlinear_arith)
            requires
                1 <= distance,
        ;
    }
    a
}

/// The square of the circular orbital velocity, `G * mass / radius`, in
/// (m/s)^2, as an exact fraction.
pub fn orbital_speed_squared(mass: u128, radius: u128) -> (s: Frac)
    requires
        1 <= radius,
        G_NUM * mass <= u128::MAX,
        G_DEN * radius <= u128::MAX,
    ensures
        s.wf(),
        s.as_rat() == orbital_speed_sq_rat(mass as int, radius as int),
{
    Frac { num: G_NUM * mass, den: G_DEN * radius }
}

/// The square of the escape velocity, `2 * G * mass / radius`, in (m/s)^2,
/// as an exact fraction.
pub fn escape_speed_squared(mass: u128, radius: u128) -> (s: Frac)
    requires
        1 <= radius,
        2 * G_NUM * mass <= u128::MAX,
        G_DEN * radius <= u128::MAX,
    ensures
        s.wf(),
        s.as_rat() == escape_speed_sq_rat(mass as int, radius as int),
{
    Frac { num: 2 * G_NUM * mass, den: G_DEN * radius }
}

/// The Kepler ratio `T^2 / radius^3` for a circular orbit of period `T`
/// around a central mass, as an exact fraction in s^2/m^3.
///
/// The returned fraction does not depend on the radius: that independence is
/// Kepler's third law, and the `ensures` states it against the rational
/// model of `T^2`.
pub fn kepler_ratio(mass: u128, radius: u128) -> (k: Frac)
    requires
        1 <= mass,
        1 <= radius,
        G_NUM * mass <= u128::MAX,
    ensures
        k.wf(),
        k.num == FOUR_PI_SQUARED_NUM * 100_000_000,
        k.den == G_NUM * mass,
        rat_eqv(
            k.as_rat(),
            rat_div(
                period_sq_rat(mass as int, radius as int),
                rat((radius * radius * radius) as int, 1),
            ),
        ),
{
    // T^2 / r^3 = 4*pi^2 / (G * mass), and 4*pi^2 / G is the fraction
    // (FOUR_PI_SQUARED_NUM * 10^8) / G_NUM, since
    // G_DEN / FOUR_PI_SQUARED_DEN = 10^8.
    let k = Frac { num: FOUR_PI_SQUARED_NUM * 100_000_000, den: G_NUM * mass };
    proof {
        let m = mass as int;
        let r = radius as int;
        assert((394_784_176 * 100_000_000) * ((10_000_000 * 66_743 * m) * (r * r * r))
            == (394_784_176 * r * r * r * 1_000_000_000_000_000) * (66_743 * m))
            by (nonlinear_arith);
    }
    k
}

} // verus!

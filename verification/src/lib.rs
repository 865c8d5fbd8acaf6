//! Exact two-body orbital mechanics.
//!
//! The classical closed-form quantities of circular two-body Newtonian
//! gravity (orbital velocity, orbital period, escape velocity, gravitational
//! force, gravitational acceleration) computed exactly over integers and
//! unreduced fractions, with the classical algebraic identities between them
//! proved once and for all in `laws`.

pub mod gravity;
pub mod isqrt;
pub mod laws;
pub mod rational;
pub mod wide;

pub use gravity::EARTH_MASS_KG;
pub use gravity::EARTH_RADIUS_M;
pub use gravity::G_DEN;
pub use gravity::G_NUM;
pub use gravity::escape_speed_squared;
pub use gravity::escape_velocity;
pub use gravity::gravitational_acceleration;
pub use gravity::gravitational_force;
pub use gravity::kepler_ratio;
pub use gravity::orbital_period;
pub use gravity::orbital_speed_squared;
pub use gravity::orbital_velocity;
pub use isqrt::isqrt_u128;
pub use rational::Frac;

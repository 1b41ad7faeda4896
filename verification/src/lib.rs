//! A two-player space-artillery game library.
//!
//! The heart of the crate is a missile-trajectory simulator: a step-wise
//! integrator that flies a missile under the gravity of a set of planets
//! and reports why the flight ended (out of range, out of fuel, hit a
//! planet, or hit the enemy ship).
//!
//! All geometry is carried in fixed-point coordinates: an `i64` holds a
//! scene value multiplied by [`fixp::FX_SCALE`], so the arithmetic is exact,
//! saturating and fully specified.

pub mod fixp;
pub mod vec2;
pub mod sim;
pub mod laws;

//! A real-time 2D particle simulator on a fixed-point integer grid.
//!
//! Positions, velocities, accelerations, masses and radii are carried in
//! milli-units (one thousandth of a world unit) as 64-bit integers, so that
//! every arithmetic step of the engine has an exact, machine-checked
//! contract. All intermediate products are taken in 128-bit arithmetic and
//! the results saturate at a fixed magnitude bound, which doubles as the
//! numeric-stability guard the force and velocity clamps call for.

pub mod fixed;
pub mod force;
pub mod interaction;
pub mod particle;
pub mod renderer;
pub mod simulation;
pub mod vec2;

pub use fixed::SCALE;

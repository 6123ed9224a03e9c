//! A verified 2D kinematic character controller.
//!
//! The library works in fixed-point arithmetic: every length is an `i64`
//! counted in milli-units (one thousandth of a world unit), so the geometry
//! and the collide-and-slide resolver are exact integer computations with
//! machine-checked contracts.

pub mod controller;
pub mod laws;
pub mod geometry;
pub mod math;
pub mod resolver;

//! Terminal Mandelbrot renderer core.
//!
//! Coordinates on the complex plane are fixed-point numbers: an `i64` raw
//! value counts units of `1 / SCALE`, so the plane value `2.0` is stored as
//! `2 * SCALE`. All arithmetic is exact integer arithmetic with truncated
//! (toward zero) division, so every result is a deterministic function of
//! its inputs.

pub mod fixed;
pub mod escape;
pub mod glyph;
pub mod render;
pub mod driver;

use vstd::prelude::*;

verus! {

/// Number of raw fixed-point units per plane unit.
pub const SCALE: i64 = 1_000_000;

} // verus!

//! A verified core for a 2D segment raycaster.
//!
//! World coordinates are fixed-point numbers: a world unit is stored
//! multiplied by [`SCALE`]. All geometric decisions (segment intersection,
//! nearest-hit selection, clip tests) are made with exact integer
//! arithmetic; square roots and divisions round toward zero and the
//! contracts state that rounding precisely.

pub mod caster;
pub mod fixed;
pub mod geometry;
pub mod lighting;
pub mod observer;
pub mod project;


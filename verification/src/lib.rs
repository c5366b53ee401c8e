//! Verified core of a small 2D arcade prototype: fixed-point vector
//! arithmetic, per-frame input state, the ship and its particles, the
//! starfield, and the render-job queue with its replay.
//!
//! Every quantity that a renderer would hold as a real number is held here as
//! a fixed-point integer (see [`units::fixed`]), so that each formula has an
//! exact statement.

pub mod entities;
pub mod input;
pub mod render;
pub mod square;
pub mod units;

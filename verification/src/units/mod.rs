//! Units of measure shared by the whole crate.

pub mod drawing;
pub mod fixed;
pub mod linear;
pub mod physics;

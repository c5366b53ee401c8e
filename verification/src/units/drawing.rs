//! What is handed to the graphics hardware: colours and vertices.

use vstd::prelude::*;

verus! {

/// One pixel: red, green, blue and opacity, a byte each.
pub type RGBA = (u8, u8, u8, u8);

/// A vertex of a textured triangle: a position in clip space and the point
/// of the texture that lands on it. All five are scalars.
#[derive(Copy, Clone, Debug, PartialEq, Eq, Structural)]
pub struct V3 {
    pub x: i64,
    pub y: i64,
    pub z: i64,
    pub u: i64,
    pub v: i64,
}

} // verus!

//! What lives in the world: the ship, the stars behind it, and a box that
//! scrolls.

pub mod map;
pub mod scrolly_box;
pub mod sprite;

//! A textured square whose texture can be slid about, one hundredth of its
//! side at a time.

use vstd::prelude::*;
use crate::render::{checkerboard, is_checkerboard};
use crate::units::drawing::{RGBA, V3};
use crate::units::fixed::ONE;
use crate::units::linear::V2;

verus! {

/// How far one call moves the texture: a hundredth.
pub const SQUARE_STEP: i64 = 10_000_000;

/// Half a unit: how far the square reaches from its centre.
pub const HALF: i64 = 500_000_000;

/// The square: all there is to it is how far its texture is shifted along
/// each axis, from zero to one.
pub struct Square {
    ofs: V2,
}

/// A shift moved up by one step, starting again at zero once it reaches one.
pub open spec fn stepped_up(a: i64) -> i64 {
    if a + SQUARE_STEP >= ONE {
        0
    } else {
        (a + SQUARE_STEP) as i64
    }
}

/// A shift moved down by one step, starting again at one once it reaches
/// zero.
pub open spec fn stepped_down(a: i64) -> i64 {
    if a - SQUARE_STEP <= 0 {
        ONE
    } else {
        (a - SQUARE_STEP) as i64
    }
}

impl Square {
    /// The shift of the texture.
    pub closed spec fn ofs(&self) -> V2 {
        self.ofs
    }

    /// The shift lies between zero and one on both axes.
    #[verifier::type_invariant]
    pub closed spec fn wf(&self) -> bool {
        0 <= self.ofs.x <= ONE && 0 <= self.ofs.y <= ONE
    }

    /// A square whose texture is not shifted.
    pub fn new() -> (s: Square)
        ensures
            s.wf(),
            s.ofs() == V2::zero(),
    {
        Square { ofs: V2 { x: 0, y: 0 } }
    }

    /// The shift of the texture.
    pub fn offset(&self) -> (o: V2)
        ensures
            o == self.ofs(),
            0 <= o.x <= ONE,
            0 <= o.y <= ONE,
    {
        proof {
            use_type_invariant(self);
        }
        self.ofs
    }

    /// Shifts the texture up by a step.
    pub fn up(&mut self)
        ensures
            final(self).wf(),
            final(self).ofs() == (V2 { x: old(self).ofs().x, y: stepped_up(old(self).ofs().y) }),
    {
        proof {
            use_type_invariant(&*self);
        }
        let y = self.ofs.y + SQUARE_STEP;
        self.ofs = V2 { x: self.ofs.x, y: if y >= ONE { 0 } else { y } };
    }

    /// Shifts the texture right by a step.
    pub fn right(&mut self)
        ensures
            final(self).wf(),
            final(self).ofs() == (V2 { x: stepped_up(old(self).ofs().x), y: old(self).ofs().y }),
    {
        proof {
            use_type_invariant(&*self);
        }
        let x = self.ofs.x + SQUARE_STEP;
        self.ofs = V2 { x: if x >= ONE { 0 } else { x }, y: self.ofs.y };
    }

    /// Shifts the texture down by a step.
    pub fn down(&mut self)
        ensures
            final(self).wf(),
            final(self).ofs() == (V2 { x: old(self).ofs().x, y: stepped_down(old(self).ofs().y) }),
    {
        proof {
            use_type_invariant(&*self);
        }
        let y = self.ofs.y - SQUARE_STEP;
        self.ofs = V2 { x: self.ofs.x, y: if y <= 0 { ONE } else { y } };
    }

    /// Shifts the texture left by a step.
    pub fn left(&mut self)
        ensures
            final(self).wf(),
            final(self).ofs() == (V2 { x: stepped_down(old(self).ofs().x), y: old(self).ofs().y }),
    {
        proof {
            use_type_invariant(&*self);
        }
        let x = self.ofs.x - SQUARE_STEP;
        self.ofs = V2 { x: if x <= 0 { ONE } else { x }, y: self.ofs.y };
    }

    /// The texture of the square: a red and black checkerboard.
    pub fn texture() -> (buf: Vec<Vec<RGBA>>)
        ensures
            is_checkerboard(buf@, (255u8, 0u8, 0u8, 255u8), (0u8, 0u8, 0u8, 255u8)),
    {
        checkerboard((255, 0, 0, 255), (0, 0, 0, 255))
    }

    /// The place `k` (from 0 to 5) of the square's two triangles. The square
    /// is centred on the origin and one unit wide; the texture's top edge is
    /// the square's upper edge.
    pub open spec fn mesh_vertex(k: int) -> V3 {
        if k == 0 || k == 3 {
            V3 { x: (-HALF) as i64, y: HALF, z: 0, u: 0, v: 0 }
        } else if k == 1 {
            V3 { x: (-HALF) as i64, y: (-HALF) as i64, z: 0, u: 0, v: ONE }
        } else if k == 4 {
            V3 { x: HALF, y: HALF, z: 0, u: ONE, v: 0 }
        } else {
            V3 { x: HALF, y: (-HALF) as i64, z: 0, u: ONE, v: ONE }
        }
    }

    /// The two triangles of the square, three vertices each.
    pub fn mesh() -> (m: Vec<V3>)
        ensures
            m@.len() == 6,
            forall|k: int| 0 <= k < 6 ==> #[trigger] m@[k] == Self::mesh_vertex(k),
    {
        let q_a = V3 { x: -HALF, y: -HALF, z: 0, u: 0, v: ONE };
        let q_b = V3 { x: HALF, y: -HALF, z: 0, u: ONE, v: ONE };
        let q_c = V3 { x: -HALF, y: HALF, z: 0, u: 0, v: 0 };
        let q_d = V3 { x: HALF, y: HALF, z: 0, u: ONE, v: 0 };
        let mut m: Vec<V3> = Vec::with_capacity(6);
        m.push(q_c);
        m.push(q_a);
        m.push(q_b);
        m.push(q_c);
        m.push(q_d);
        m.push(q_b);
        m
    }
}

} // verus!

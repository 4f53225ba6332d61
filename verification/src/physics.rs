//! Prototypes for the 2D simulation layer: a physics context sized to a
//! viewport, and the 2D transform placeholder. Neither is built out yet;
//! they reserve the shape of the 2D side of the runtime.

use vstd::prelude::*;

verus! {

/// A 2D transform component; carries no fields yet.
pub struct Transform2d {}

/// The 2D physics context: the viewport it simulates within.
pub struct Physics2DProto {
    pub w: i32,
    pub h: i32,
}

impl Physics2DProto {
    pub fn new(w: i32, h: i32) -> (px: Physics2DProto)
        ensures
            px.w == w,
            px.h == h,
    {
        Physics2DProto { w, h }
    }
}

} // verus!




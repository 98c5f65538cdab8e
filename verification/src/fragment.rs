//! The fragment: one covered pixel of one primitive.

use vstd::prelude::*;
use crate::color::Color;
use crate::fixed::Fixed;

verus! {

/// A pixel coordinate with the color and depth that a primitive gives it.
#[derive(Clone, Copy, Debug, PartialEq, Eq, Structural)]
pub struct Fragment {
    pub x: i32,
    pub y: i32,
    pub color: Color,
    pub depth: Fixed,
}

impl Fragment {
    /// The fragment at pixel `(x, y)`.
    pub fn new(x: i32, y: i32, color: Color, depth: Fixed) -> (f: Fragment)
        ensures
            f == (Fragment { x, y, color, depth }),
    {
        Fragment { x, y, color, depth }
    }
}

} // verus!

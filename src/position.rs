//! Positions in the buffer and the directions the cursor moves in.
use vstd::prelude::*;

verus! {

/// A location in the buffer: line `y` and character column `x`, both from zero.
#[derive(Clone, Copy, Debug, Default, PartialEq, Eq, Structural)]
pub struct Position {
    pub x: u16,
    pub y: u16,
}

/// One step of cursor motion.
#[derive(Clone, Copy, Debug, PartialEq, Eq, Structural)]
pub enum CursorDirection {
    Up,
    Down,
    Left,
    Right,
}

} // verus!

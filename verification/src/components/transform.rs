//! Where a widget stands within its parent, and how large it is.

use vstd::prelude::*;

verus! {

/// A point relative to the parent's origin; a coordinate may be negative.
#[derive(Copy, Clone, Eq, PartialEq, Debug, Structural)]
pub struct Position {
    pub x: i32,
    pub y: i32,
}

/// A width and a height.
#[derive(Copy, Clone, Eq, PartialEq, Debug, Structural)]
pub struct Size {
    pub x: u32,
    pub y: u32,
}

/// The position and the size of a widget within its parent.
#[derive(Copy, Clone, Eq, PartialEq, Debug, Structural)]
pub struct Transform {
    pub pos: Position,
    pub size: Size,
}

impl Transform {
    pub fn new(pos: &Position, size: &Size) -> (transform: Self)
        ensures
            transform.pos == *pos,
            transform.size == *size,
    {
        Self { pos: *pos, size: *size }
    }
}

impl Default for Transform {
    /// The empty transform at the origin.
    fn default() -> (transform: Self)
        ensures
            transform == (Transform { pos: Position { x: 0, y: 0 }, size: Size { x: 0, y: 0 } }),
    {
        Self { pos: Position { x: 0, y: 0 }, size: Size { x: 0, y: 0 } }
    }
}

} // verus!

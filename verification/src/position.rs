//! Grid coordinates.
//!
//! A `Position` names a cell of a field, or a translation between cells.
//! `x` grows to the right and `y` grows upward; the bottom-left cell of a
//! field is `(0, 0)`.

use vstd::prelude::*;

verus! {

#[derive(Debug, Clone, Copy, PartialEq, Eq, Structural)]
pub struct Position {
    pub x: i8,
    pub y: i8,
}

impl Position {
    pub fn new(x: i8, y: i8) -> (r: Position)
        ensures
            r.x == x,
            r.y == y,
    {
        Position { x, y }
    }

    /// Componentwise sum, used to move a piece's anchor by a delta.
    pub fn plus(self, rhs: Position) -> (r: Position)
        requires
            i8::MIN <= self.x + rhs.x <= i8::MAX,
            i8::MIN <= self.y + rhs.y <= i8::MAX,
        ensures
            r.x == self.x + rhs.x,
            r.y == self.y + rhs.y,
    {
        Position { x: self.x + rhs.x, y: self.y + rhs.y }
    }
}

} // verus!

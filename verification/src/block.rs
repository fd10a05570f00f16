//! A single cell of the field.

use vstd::prelude::*;
use crate::shape::Shape;

verus! {

/// One cell of the grid: empty, a garbage cell, or a cell left behind by a
/// locked piece of the given shape.
#[derive(Debug, Clone, Copy, PartialEq, Eq, Structural)]
pub enum Block {
    Empty,
    Garbage,
    I,
    O,
    T,
    S,
    Z,
    J,
    L,
}

impl Default for Block {
    fn default() -> (r: Self)
        ensures
            r == Block::Empty,
    {
        Block::Empty
    }
}

/// The cell colour a locked piece of this shape leaves behind.
pub open spec fn spec_block_of(shape: Shape) -> Block {
    match shape {
        Shape::I => Block::I,
        Shape::J => Block::J,
        Shape::L => Block::L,
        Shape::O => Block::O,
        Shape::S => Block::S,
        Shape::T => Block::T,
        Shape::Z => Block::Z,
    }
}

impl Block {
    pub fn is_empty(&self) -> (r: bool)
        ensures
            r == (*self == Block::Empty),
    {
        matches!(self, Block::Empty)
    }

    pub fn is_filled(&self) -> (r: bool)
        ensures
            r == (*self != Block::Empty),
    {
        !self.is_empty()
    }

    pub fn from_shape(shape: Shape) -> (r: Block)
        ensures
            r == spec_block_of(shape),
    {
        match shape {
            Shape::I => Block::I,
            Shape::J => Block::J,
            Shape::L => Block::L,
            Shape::O => Block::O,
            Shape::S => Block::S,
            Shape::T => Block::T,
            Shape::Z => Block::Z,
        }
    }
}

} // verus!

//! Piece geometry: the seven tetromino shapes and their rotation tables.
//!
//! Each shape has a 4-cell footprint inside a `size`-by-`size` bounding box,
//! given here at angle 0; the footprints at the other angles are derived by
//! rotating the box a quarter turn at a time. Cells use the grid convention
//! of `position`: `x` right, `y` up.

use vstd::prelude::*;
use crate::mino::Angle;
use crate::position::Position;

verus! {

pub const SHAPE_COUNT: usize = 7;

#[derive(Debug, Clone, Copy, PartialEq, Eq, Hash, Structural)]
pub enum Shape {
    I,
    J,
    L,
    O,
    S,
    T,
    Z,
}

/// Side of the shape's bounding box.
pub open spec fn spec_size(shape: Shape) -> int {
    match shape {
        Shape::I => 4,
        Shape::O => 2,
        _ => 3,
    }
}

/// The shape's 4 footprint cells at angle 0, as `(x, y)` pairs.
pub open spec fn base_cell(shape: Shape, i: int) -> (int, int) {
    match shape {
        Shape::I => {
            if i == 0 { (0, 2) } else if i == 1 { (1, 2) } else if i == 2 { (2, 2) } else { (3, 2) }
        },
        Shape::J => {
            if i == 0 { (0, 2) } else if i == 1 { (0, 1) } else if i == 2 { (1, 1) } else { (2, 1) }
        },
        Shape::L => {
            if i == 0 { (2, 2) } else if i == 1 { (0, 1) } else if i == 2 { (1, 1) } else { (2, 1) }
        },
        Shape::O => {
            if i == 0 { (0, 0) } else if i == 1 { (1, 0) } else if i == 2 { (0, 1) } else { (1, 1) }
        },
        Shape::S => {
            if i == 0 { (1, 2) } else if i == 1 { (2, 2) } else if i == 2 { (0, 1) } else { (1, 1) }
        },
        Shape::T => {
            if i == 0 { (1, 2) } else if i == 1 { (0, 1) } else if i == 2 { (1, 1) } else { (2, 1) }
        },
        Shape::Z => {
            if i == 0 { (0, 2) } else if i == 1 { (1, 2) } else if i == 2 { (1, 1) } else { (2, 1) }
        },
    }
}

/// One quarter turn clockwise of a cell inside a box of side `s`.
pub open spec fn spec_rot90(s: int, c: (int, int)) -> (int, int) {
    (c.1, s - 1 - c.0)
}

/// A cell of the angle-0 footprint carried to the given angle.
pub open spec fn rotate_cell(shape: Shape, angle: Angle, c: (int, int)) -> (int, int) {
    let s = spec_size(shape);
    match angle {
        Angle::Deg0 => c,
        Angle::Deg90 => spec_rot90(s, c),
        Angle::Deg180 => spec_rot90(s, spec_rot90(s, c)),
        Angle::Deg270 => spec_rot90(s, spec_rot90(s, spec_rot90(s, c))),
    }
}

/// The shape's 4 footprint cells at the given angle.
pub open spec fn spec_cells(shape: Shape, angle: Angle) -> Seq<(int, int)> {
    Seq::new(4, |i: int| rotate_cell(shape, angle, base_cell(shape, i)))
}

impl Shape {
    /// Side of the bounding box.
    pub fn size(&self) -> (r: i8)
        ensures
            r == spec_size(*self),
    {
        match self {
            Shape::I => 4,
            Shape::O => 2,
            _ => 3,
        }
    }

    /// Width of the footprint at angle 0, used to centre a spawned piece.
    pub fn width(&self) -> (r: i8)
        ensures
            r == spec_size(*self),
    {
        self.size()
    }

    /// Vertical spawn offset: with the anchor at row `FIELD_HEIGHT - probe -
    /// offset_y`, the lowest footprint cell lands on row
    /// `FIELD_HEIGHT - probe + 1`.
    pub fn offset_y(&self) -> (r: i8)
        ensures
            r == spec_offset_y(*self),
    {
        match self {
            Shape::I => 1,
            Shape::O => -1,
            _ => 0,
        }
    }

    /// The footprint cells at the given angle, relative to the anchor.
    pub fn blocks(&self, angle: Angle) -> (r: Vec<Position>)
        ensures
            r@.len() == 4,
            forall|i: int|
                0 <= i < 4 ==> (#[trigger] r@[i]).x == spec_cells(*self, angle)[i].0 && r@[i].y
                    == spec_cells(*self, angle)[i].1,
    {
        let s = self.size();
        let base = self.base_blocks();
        let mut out: Vec<Position> = Vec::new();
        let mut i: usize = 0;
        while i < 4
            invariant
                base@.len() == 4,
                s == spec_size(*self),
                forall|j: int|
                    0 <= j < 4 ==> (#[trigger] base@[j]).x == base_cell(*self, j).0 && base@[j].y
                        == base_cell(*self, j).1,
                out@.len() == i,
                i <= 4,
                forall|j: int|
                    0 <= j < i ==> (#[trigger] out@[j]).x == spec_cells(*self, angle)[j].0
                        && out@[j].y == spec_cells(*self, angle)[j].1,
            decreases 4 - i,
        {
            let c = base[i];
            proof {
                lemma_base_cell_in_box(*self, i as int);
            }
            let r = match angle {
                Angle::Deg0 => c,
                Angle::Deg90 => Position::new(c.y, s - 1 - c.x),
                Angle::Deg180 => Position::new(s - 1 - c.x, s - 1 - c.y),
                Angle::Deg270 => Position::new(s - 1 - c.y, c.x),
            };
            out.push(r);
            i += 1;
        }
        out
    }

    /// The footprint cells at angle 0.
    fn base_blocks(&self) -> (r: Vec<Position>)
        ensures
            r@.len() == 4,
            forall|j: int|
                0 <= j < 4 ==> (#[trigger] r@[j]).x == base_cell(*self, j).0 && r@[j].y
                    == base_cell(*self, j).1,
    {
        match self {
            Shape::I => vec![
                Position::new(0, 2),
                Position::new(1, 2),
                Position::new(2, 2),
                Position::new(3, 2),
            ],
            Shape::J => vec![
                Position::new(0, 2),
                Position::new(0, 1),
                Position::new(1, 1),
                Position::new(2, 1),
            ],
            Shape::L => vec![
                Position::new(2, 2),
                Position::new(0, 1),
                Position::new(1, 1),
                Position::new(2, 1),
            ],
            Shape::O => vec![
                Position::new(0, 0),
                Position::new(1, 0),
                Position::new(0, 1),
                Position::new(1, 1),
            ],
            Shape::S => vec![
                Position::new(1, 2),
                Position::new(2, 2),
                Position::new(0, 1),
                Position::new(1, 1),
            ],
            Shape::T => vec![
                Position::new(1, 2),
                Position::new(0, 1),
                Position::new(1, 1),
                Position::new(2, 1),
            ],
            Shape::Z => vec![
                Position::new(0, 2),
                Position::new(1, 2),
                Position::new(1, 1),
                Position::new(2, 1),
            ],
        }
    }
}

pub open spec fn spec_offset_y(shape: Shape) -> int {
    match shape {
        Shape::I => 1,
        Shape::O => -1,
        _ => 0,
    }
}

/// Every angle-0 footprint cell lies inside the shape's bounding box.
pub proof fn lemma_base_cell_in_box(shape: Shape, i: int)
    requires
        0 <= i < 4,
    ensures
        0 <= base_cell(shape, i).0 < spec_size(shape),
        0 <= base_cell(shape, i).1 < spec_size(shape),
{
}

/// Footprint cells stay inside the bounding box at every angle.
pub proof fn lemma_cells_in_box(shape: Shape, angle: Angle)
    ensures
        forall|i: int|
            0 <= i < 4 ==> {
                let c = #[trigger] spec_cells(shape, angle)[i];
                0 <= c.0 < spec_size(shape) && 0 <= c.1 < spec_size(shape)
            },
{
    assert forall|i: int| 0 <= i < 4 implies {
        let c = #[trigger] spec_cells(shape, angle)[i];
        0 <= c.0 < spec_size(shape) && 0 <= c.1 < spec_size(shape)
    } by {
        lemma_base_cell_in_box(shape, i);
    }
}

/// Every shape's footprint holds exactly 4 pairwise distinct cells, at every
/// angle.
pub proof fn lemma_cells_distinct(shape: Shape, angle: Angle)
    ensures
        spec_cells(shape, angle).len() == 4,
        forall|i: int, j: int|
            0 <= i < 4 && 0 <= j < 4 && i != j ==> #[trigger] spec_cells(shape, angle)[i]
                != #[trigger] spec_cells(shape, angle)[j],
{
}

/// A quarter turn applied four times returns every cell exactly.
pub proof fn lemma_rot90_closure(s: int, c: (int, int))
    ensures
        spec_rot90(s, spec_rot90(s, spec_rot90(s, spec_rot90(s, c)))) == c,
{
}

/// Four successive quarter turns of a footprint return the original cell
/// list exactly.
pub proof fn lemma_rotation_closure(shape: Shape, angle: Angle)
    ensures
        spec_cells(shape, angle) =~= Seq::new(
            4,
            |i: int|
                {
                    let s = spec_size(shape);
                    let c = spec_cells(shape, angle)[i];
                    spec_rot90(s, spec_rot90(s, spec_rot90(s, spec_rot90(s, c))))
                },
        ),
{
}

/// Stepping the angle one quarter turn clockwise rotates every footprint
/// cell by one quarter turn inside the box.
pub proof fn lemma_cells_step_cw(shape: Shape, angle: Angle)
    ensures
        spec_cells(shape, spec_rotated_cw(angle)) =~= spec_cells(shape, angle).map_values(
            |c: (int, int)| spec_rot90(spec_size(shape), c),
        ),
{
}

/// The next angle one quarter turn clockwise.
pub open spec fn spec_rotated_cw(angle: Angle) -> Angle {
    match angle {
        Angle::Deg0 => Angle::Deg90,
        Angle::Deg90 => Angle::Deg180,
        Angle::Deg180 => Angle::Deg270,
        Angle::Deg270 => Angle::Deg0,
    }
}

} // verus!

//! T-spin classification.
//!
//! Evaluated right after a successful rotation of the T piece; any
//! successful translation clears the classification back to `NoSpin`.

use vstd::prelude::*;
use crate::block::Block;
use crate::blocks::{lemma_can_place_bounds, spec_can_place, spec_in_bounds};
use crate::field::Field;
use crate::mino::{Angle, Mino};
use crate::position::Position;
use crate::shape::Shape;

verus! {

#[derive(Debug, Clone, Copy, PartialEq, Eq, Structural)]
pub enum TSpin {
    NoSpin,
    Mini,
    Full,
}

impl Default for TSpin {
    fn default() -> (r: Self)
        ensures
            r == TSpin::NoSpin,
    {
        TSpin::NoSpin
    }
}

/// The four diagonal corners of the T piece's 3-by-3 bounding box.
pub open spec fn spec_corner(i: int) -> (int, int) {
    if i == 0 {
        (0, 0)
    } else if i == 1 {
        (2, 0)
    } else if i == 2 {
        (0, 2)
    } else {
        (2, 2)
    }
}

/// The two corners on the pointing side of the T, per angle.
pub open spec fn spec_mini_corner(angle: Angle, j: int) -> (int, int) {
    match angle {
        Angle::Deg0 => if j == 0 {
            (0, 2)
        } else {
            (2, 2)
        },
        Angle::Deg90 => if j == 0 {
            (2, 2)
        } else {
            (2, 0)
        },
        Angle::Deg180 => if j == 0 {
            (2, 0)
        } else {
            (0, 0)
        },
        Angle::Deg270 => if j == 0 {
            (0, 0)
        } else {
            (0, 2)
        },
    }
}

/// A corner counts as filled when it lies outside the grid or on an
/// occupied cell: walls and floor block a T-spin slot like blocks do.
pub open spec fn corner_filled(g: Seq<Seq<Block>>, pos: Position, c: (int, int)) -> bool {
    !spec_in_bounds(pos.x + c.0, pos.y + c.1) || g[pos.y + c.1][pos.x + c.0] != Block::Empty
}

/// How many of the first `k` diagonal corners are filled.
pub open spec fn corner_count(g: Seq<Seq<Block>>, pos: Position, k: int) -> int
    decreases k,
{
    if k <= 0 {
        0
    } else {
        corner_count(g, pos, k - 1) + if corner_filled(g, pos, spec_corner(k - 1)) {
            1int
        } else {
            0int
        }
    }
}

/// A T piece with at least 3 of its 4 diagonal corners filled is a T-spin.
pub open spec fn spec_is_t_spin(g: Seq<Seq<Block>>, mino: Mino) -> bool {
    mino.shape == Shape::T && corner_count(g, mino.pos, 4) >= 3
}

/// A T-spin is Mini unless the last kick moved the piece by (1, 2) in
/// magnitude or both pointing-side corners are filled.
pub open spec fn spec_is_t_spin_mini(g: Seq<Seq<Block>>, mino: Mino, delta: Position) -> bool {
    if (delta.x == 1 || delta.x == -1) && (delta.y == 2 || delta.y == -2) {
        false
    } else {
        !(corner_filled(g, mino.pos, spec_mini_corner(mino.angle, 0)) && corner_filled(
            g,
            mino.pos,
            spec_mini_corner(mino.angle, 1),
        ))
    }
}

/// The classification of a freshly rotated piece whose last kick was `delta`.
pub open spec fn spec_classify(g: Seq<Seq<Block>>, mino: Mino, delta: Position) -> TSpin {
    if spec_is_t_spin(g, mino) {
        if spec_is_t_spin_mini(g, mino, delta) {
            TSpin::Mini
        } else {
            TSpin::Full
        }
    } else {
        TSpin::NoSpin
    }
}

/// True iff the corner at offset `c` from `pos` is out of bounds or occupied.
fn corner_filled_at(field: &Field, pos: Position, dx: i8, dy: i8) -> (r: bool)
    requires
        field.wf(),
        -100 <= pos.x + dx <= 100,
        -100 <= pos.y + dy <= 100,
    ensures
        r == corner_filled(field.blocks@, pos, (dx as int, dy as int)),
{
    match field.blocks.get(Position::new(pos.x + dx, pos.y + dy)) {
        Option::Some(b) => b.is_filled(),
        Option::None => true,
    }
}

impl TSpin {
    /// Re-evaluates the classification after a rotation whose applied kick
    /// was `delta`.
    pub fn update(&mut self, mino: &Mino, field: &Field, delta: Position)
        requires
            field.wf(),
            spec_can_place(field.blocks@, mino.shape, mino.angle, mino.pos),
        ensures
            *final(self) == spec_classify(field.blocks@, *mino, delta),
    {
        proof {
            lemma_can_place_bounds(field.blocks@, mino.shape, mino.angle, mino.pos);
        }
        *self = if Self::is_t_spin(mino, field) {
            if Self::is_t_spin_mini(mino, field, delta) {
                TSpin::Mini
            } else {
                TSpin::Full
            }
        } else {
            TSpin::NoSpin
        };
    }

    fn is_t_spin(mino: &Mino, field: &Field) -> (r: bool)
        requires
            field.wf(),
            -50 <= mino.pos.x <= 50,
            -50 <= mino.pos.y <= 50,
        ensures
            r == spec_is_t_spin(field.blocks@, *mino),
    {
        if !matches!(mino.shape, Shape::T) {
            return false;
        }
        let mut filled: u8 = 0;
        let mut i: usize = 0;
        while i < 4
            invariant
                field.wf(),
                -50 <= mino.pos.x <= 50,
                -50 <= mino.pos.y <= 50,
                i <= 4,
                filled <= i,
                filled == corner_count(field.blocks@, mino.pos, i as int),
            decreases 4 - i,
        {
            let (dx, dy): (i8, i8) = if i == 0 {
                (0, 0)
            } else if i == 1 {
                (2, 0)
            } else if i == 2 {
                (0, 2)
            } else {
                (2, 2)
            };
            if corner_filled_at(field, mino.pos, dx, dy) {
                filled += 1;
            }
            i += 1;
        }
        filled >= 3
    }

    fn is_t_spin_mini(mino: &Mino, field: &Field, delta: Position) -> (r: bool)
        requires
            field.wf(),
            -50 <= mino.pos.x <= 50,
            -50 <= mino.pos.y <= 50,
        ensures
            r == spec_is_t_spin_mini(field.blocks@, *mino, delta),
    {
        let abs_x_one = delta.x == 1 || delta.x == -1;
        let abs_y_two = delta.y == 2 || delta.y == -2;
        if abs_x_one && abs_y_two {
            false
        } else {
            let (c0, c1): ((i8, i8), (i8, i8)) = match mino.angle {
                Angle::Deg0 => ((0, 2), (2, 2)),
                Angle::Deg90 => ((2, 2), (2, 0)),
                Angle::Deg180 => ((2, 0), (0, 0)),
                Angle::Deg270 => ((0, 0), (0, 2)),
            };
            let both = corner_filled_at(field, mino.pos, c0.0, c0.1) && corner_filled_at(
                field,
                mino.pos,
                c1.0,
                c1.1,
            );
            !both
        }
    }
}

} // verus!

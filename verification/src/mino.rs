//! The active falling piece.

use vstd::prelude::*;
use crate::blocks::{spec_can_place, FIELD_HEIGHT, FIELD_WIDTH};
use crate::field::Field;
use crate::position::Position;
use crate::shape::{spec_offset_y, spec_size, Shape};

verus! {

/// Rotation state of a piece, ordered cyclically.
#[derive(Debug, Clone, Copy, PartialEq, Eq, Hash, Structural)]
pub enum Angle {
    Deg0,
    Deg90,
    Deg180,
    Deg270,
}

impl Default for Angle {
    fn default() -> (r: Self)
        ensures
            r == Angle::Deg0,
    {
        Angle::Deg0
    }
}

impl Angle {
    /// Table index of the angle, in cyclic order.
    pub fn index(&self) -> (r: usize)
        ensures
            r == spec_angle_index(*self),
    {
        match self {
            Angle::Deg0 => 0,
            Angle::Deg90 => 1,
            Angle::Deg180 => 2,
            Angle::Deg270 => 3,
        }
    }
}

pub open spec fn spec_angle_index(angle: Angle) -> int {
    match angle {
        Angle::Deg0 => 0,
        Angle::Deg90 => 1,
        Angle::Deg180 => 2,
        Angle::Deg270 => 3,
    }
}

/// The currently falling piece: its shape, anchor position and angle.
#[derive(Debug, Clone, Copy, PartialEq, Eq, Structural)]
pub struct Mino {
    pub pos: Position,
    pub angle: Angle,
    pub shape: Shape,
}

/// The anchor a spawn attempt probes: centred horizontally, with the
/// piece's lowest cell on row `FIELD_HEIGHT - probe + 1`. Probes run 2, 1,
/// 0, so a piece prefers to appear just above the visible field and climbs
/// into the hidden band only when blocked.
pub open spec fn spec_spawn_pos(shape: Shape, probe: int) -> Position {
    Position {
        x: ((FIELD_WIDTH as int - spec_size(shape)) / 2) as i8,
        y: (FIELD_HEIGHT as int - probe - spec_offset_y(shape)) as i8,
    }
}

/// Whether the spawn probe position is free on the grid.
pub open spec fn spec_spawn_fits(g: Seq<Seq<crate::block::Block>>, shape: Shape, probe: int) -> bool {
    spec_can_place(g, shape, Angle::Deg0, spec_spawn_pos(shape, probe))
}

/// The outcome a spawn attempt must have: the piece appears at the first
/// free probe position at angle 0, or fails when all three probes are
/// blocked.
pub open spec fn spec_spawn_outcome(
    g: Seq<Seq<crate::block::Block>>,
    shape: Shape,
    r: Result<Mino, ()>,
) -> bool {
    match r {
        Ok(m) => {
            &&& m.shape == shape
            &&& m.angle == Angle::Deg0
            &&& spec_can_place(g, shape, Angle::Deg0, m.pos)
            &&& if spec_spawn_fits(g, shape, 2) {
                m.pos == spec_spawn_pos(shape, 2)
            } else if spec_spawn_fits(g, shape, 1) {
                m.pos == spec_spawn_pos(shape, 1)
            } else {
                spec_spawn_fits(g, shape, 0) && m.pos == spec_spawn_pos(shape, 0)
            }
        },
        Err(e) => !spec_spawn_fits(g, shape, 2) && !spec_spawn_fits(g, shape, 1)
            && !spec_spawn_fits(g, shape, 0),
    }
}

impl Mino {
    /// Spawns a piece of the given shape on the field: the first free probe
    /// position wins; when all three are blocked the spawn fails, which the
    /// caller treats as game over for that field.
    pub fn new(shape: Shape, field: &Field) -> (r: Result<Mino, ()>)
        requires
            field.wf(),
        ensures
            spec_spawn_outcome(field.blocks@, shape, r),
    {
        let x: i8 = (FIELD_WIDTH - shape.width()) / 2;
        let angle = Angle::default();
        let mut probe: i8 = 2;
        while probe >= 0
            invariant
                field.wf(),
                -1 <= probe <= 2,
                x == spec_spawn_pos(shape, 0).x,
                angle == Angle::Deg0,
                forall|p: int| probe < p <= 2 ==> !spec_spawn_fits(field.blocks@, shape, p),
            decreases probe + 1,
        {
            let pos = Position::new(x, FIELD_HEIGHT - probe - shape.offset_y());
            proof {
                assert(pos == spec_spawn_pos(shape, probe as int));
            }
            if field.blocks.can_place_mino(pos, shape, angle) {
                return Ok(Mino { pos, angle, shape });
            }
            probe -= 1;
        }
        Err(())
    }

    /// True iff the piece rests on something: it cannot move one row down.
    pub fn is_landed(&self, field: &Field) -> (r: bool)
        requires
            field.wf(),
            spec_can_place(field.blocks@, self.shape, self.angle, self.pos),
        ensures
            r == !spec_can_place(
                field.blocks@,
                self.shape,
                self.angle,
                Position { x: self.pos.x, y: (self.pos.y - 1) as i8 },
            ),
    {
        proof {
            crate::blocks::lemma_can_place_bounds(
                field.blocks@,
                self.shape,
                self.angle,
                self.pos,
            );
        }
        let below = Position::new(self.pos.x, self.pos.y - 1);
        !field.blocks.can_place_mino(below, self.shape, self.angle)
    }
}

} // verus!

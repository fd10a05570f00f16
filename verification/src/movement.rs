//! Moving and rotating the active piece.
//!
//! Rotation follows the Super Rotation System: for each rotation a fixed,
//! ordered list of five candidate translations is tried, and the first one
//! whose footprint fits is applied. The candidate order must never be
//! changed: an earlier candidate wins even when a later one would also fit.

use vstd::prelude::*;
use crate::block::Block;
use crate::blocks::{lemma_can_place_bounds, spec_can_place, Blocks};
use crate::field::Field;
use crate::local::LocalField;
use crate::mino::{Angle, Mino};
use crate::position::Position;
use crate::shape::Shape;
use crate::t_spin::{spec_classify, TSpin};
use crate::timer::{
    spec_tick_fires, DropTimer, GameTimer, LockDownTimer, DROP_INTERVAL_MS, SOFT_DROP_INTERVAL_MS,
};

verus! {

#[derive(Debug, Clone, Copy, PartialEq, Eq, Hash, Structural)]
pub enum Direction {
    Left,
    Right,
    Down,
}

/// The intents the core accepts from input or timers.
#[derive(Debug, Clone, Copy, PartialEq, Eq, Structural)]
pub enum MoveEvent {
    Move(Direction),
    Rotate(Direction),
    HardDrop,
    StartSoftDrop,
    StopSoftDrop,
}

pub open spec fn spec_move_delta(direction: Direction) -> (int, int) {
    match direction {
        Direction::Left => (-1, 0),
        Direction::Right => (1, 0),
        Direction::Down => (0, -1),
    }
}

impl Direction {
    /// The unit translation of this direction.
    pub fn move_delta(&self) -> (r: Position)
        ensures
            r.x == spec_move_delta(*self).0,
            r.y == spec_move_delta(*self).1,
    {
        match self {
            Direction::Left => Position::new(-1, 0),
            Direction::Right => Position::new(1, 0),
            Direction::Down => Position::new(0, -1),
        }
    }
}

/// The angle reached by one rotation step: `Left` turns counter-clockwise,
/// `Right` clockwise.
pub open spec fn spec_rotated(angle: Angle, direction: Direction) -> Angle {
    match direction {
        Direction::Right => match angle {
            Angle::Deg0 => Angle::Deg90,
            Angle::Deg90 => Angle::Deg180,
            Angle::Deg180 => Angle::Deg270,
            Angle::Deg270 => Angle::Deg0,
        },
        _ => match angle {
            Angle::Deg0 => Angle::Deg270,
            Angle::Deg90 => Angle::Deg0,
            Angle::Deg180 => Angle::Deg90,
            Angle::Deg270 => Angle::Deg180,
        },
    }
}

/// The SRS candidate translation list for one rotation. The `I` piece has
/// its own table; every other shape shares the common one.
pub open spec fn spec_srs_deltas(shape: Shape, angle: Angle, new_angle: Angle) -> Seq<(int, int)> {
    if shape != Shape::I {
        match (angle, new_angle) {
            (Angle::Deg0, Angle::Deg90) => seq![(0, 0), (-1, 0), (-1, 1), (0, -2), (-1, -2)],
            (Angle::Deg90, Angle::Deg0) => seq![(0, 0), (1, 0), (1, -1), (0, 2), (1, 2)],
            (Angle::Deg90, Angle::Deg180) => seq![(0, 0), (1, 0), (1, -1), (0, 2), (1, 2)],
            (Angle::Deg180, Angle::Deg90) => seq![(0, 0), (-1, 0), (-1, 1), (0, -2), (-1, -2)],
            (Angle::Deg180, Angle::Deg270) => seq![(0, 0), (1, 0), (1, 1), (0, -2), (1, -2)],
            (Angle::Deg270, Angle::Deg180) => seq![(0, 0), (-1, 0), (-1, -1), (0, 2), (-1, 2)],
            (Angle::Deg270, Angle::Deg0) => seq![(0, 0), (-1, 0), (-1, -1), (0, 2), (-1, 2)],
            (Angle::Deg0, Angle::Deg270) => seq![(0, 0), (1, 0), (1, 1), (0, -2), (1, -2)],
            _ => seq![(0, 0), (0, 0), (0, 0), (0, 0), (0, 0)],
        }
    } else {
        match (angle, new_angle) {
            (Angle::Deg0, Angle::Deg90) => seq![(0, 0), (-2, 0), (1, 0), (-2, -1), (1, 2)],
            (Angle::Deg90, Angle::Deg0) => seq![(0, 0), (2, 0), (-1, 0), (2, 1), (-1, -2)],
            (Angle::Deg90, Angle::Deg180) => seq![(0, 0), (-1, 0), (2, 0), (-1, 2), (2, -1)],
            (Angle::Deg180, Angle::Deg90) => seq![(0, 0), (1, 0), (-2, 0), (1, -2), (-2, 1)],
            (Angle::Deg180, Angle::Deg270) => seq![(0, 0), (2, 0), (-1, 0), (2, 1), (-1, -2)],
            (Angle::Deg270, Angle::Deg180) => seq![(0, 0), (-2, 0), (1, 0), (-2, -1), (1, 2)],
            (Angle::Deg270, Angle::Deg0) => seq![(0, 0), (1, 0), (-2, 0), (1, -2), (-2, 1)],
            (Angle::Deg0, Angle::Deg270) => seq![(0, 0), (-1, 0), (2, 0), (-1, 2), (2, -1)],
            _ => seq![(0, 0), (0, 0), (0, 0), (0, 0), (0, 0)],
        }
    }
}

/// The anchor after applying a kick delta.
pub open spec fn spec_kicked_pos(pos: Position, d: (int, int)) -> Position {
    Position { x: (pos.x + d.0) as i8, y: (pos.y + d.1) as i8 }
}

fn get_srs_deltas(shape: Shape, angle: Angle, new_angle: Angle) -> (r: Vec<Position>)
    ensures
        r@.len() == 5,
        forall|k: int|
            0 <= k < 5 ==> (#[trigger] r@[k]).x == spec_srs_deltas(shape, angle, new_angle)[k].0
                && r@[k].y == spec_srs_deltas(shape, angle, new_angle)[k].1,
        forall|k: int|
            0 <= k < 5 ==> -2 <= #[trigger] r@[k].x <= 2 && -2 <= r@[k].y <= 2,
{
    let is_i = matches!(shape, Shape::I);
    let table: [(i8, i8); 5] = if !is_i {
        match (angle, new_angle) {
            (Angle::Deg0, Angle::Deg90) => [(0, 0), (-1, 0), (-1, 1), (0, -2), (-1, -2)],
            (Angle::Deg90, Angle::Deg0) => [(0, 0), (1, 0), (1, -1), (0, 2), (1, 2)],
            (Angle::Deg90, Angle::Deg180) => [(0, 0), (1, 0), (1, -1), (0, 2), (1, 2)],
            (Angle::Deg180, Angle::Deg90) => [(0, 0), (-1, 0), (-1, 1), (0, -2), (-1, -2)],
            (Angle::Deg180, Angle::Deg270) => [(0, 0), (1, 0), (1, 1), (0, -2), (1, -2)],
            (Angle::Deg270, Angle::Deg180) => [(0, 0), (-1, 0), (-1, -1), (0, 2), (-1, 2)],
            (Angle::Deg270, Angle::Deg0) => [(0, 0), (-1, 0), (-1, -1), (0, 2), (-1, 2)],
            (Angle::Deg0, Angle::Deg270) => [(0, 0), (1, 0), (1, 1), (0, -2), (1, -2)],
            _ => [(0, 0), (0, 0), (0, 0), (0, 0), (0, 0)],
        }
    } else {
        match (angle, new_angle) {
            (Angle::Deg0, Angle::Deg90) => [(0, 0), (-2, 0), (1, 0), (-2, -1), (1, 2)],
            (Angle::Deg90, Angle::Deg0) => [(0, 0), (2, 0), (-1, 0), (2, 1), (-1, -2)],
            (Angle::Deg90, Angle::Deg180) => [(0, 0), (-1, 0), (2, 0), (-1, 2), (2, -1)],
            (Angle::Deg180, Angle::Deg90) => [(0, 0), (1, 0), (-2, 0), (1, -2), (-2, 1)],
            (Angle::Deg180, Angle::Deg270) => [(0, 0), (2, 0), (-1, 0), (2, 1), (-1, -2)],
            (Angle::Deg270, Angle::Deg180) => [(0, 0), (-2, 0), (1, 0), (-2, -1), (1, 2)],
            (Angle::Deg270, Angle::Deg0) => [(0, 0), (1, 0), (-2, 0), (1, -2), (-2, 1)],
            (Angle::Deg0, Angle::Deg270) => [(0, 0), (-1, 0), (2, 0), (-1, 2), (2, -1)],
            _ => [(0, 0), (0, 0), (0, 0), (0, 0), (0, 0)],
        }
    };
    let mut out: Vec<Position> = Vec::new();
    let mut k: usize = 0;
    while k < 5
        invariant
            k <= 5,
            out@.len() == k,
            forall|j: int|
                0 <= j < k ==> (#[trigger] out@[j]).x == table@[j].0 && out@[j].y == table@[j].1,
            forall|j: int|
                0 <= j < 5 ==> table@[j].0 == spec_srs_deltas(shape, angle, new_angle)[j].0
                    && table@[j].1 == spec_srs_deltas(shape, angle, new_angle)[j].1,
            forall|j: int| 0 <= j < 5 ==> -2 <= #[trigger] table@[j].0 <= 2 && -2 <= table@[j].1 <= 2,
        decreases 5 - k,
    {
        let (dx, dy) = table[k];
        out.push(Position::new(dx, dy));
        k += 1;
    }
    out
}

/// Tries to translate the piece one cell. Applies the move and reports
/// true iff the translated footprint fits; otherwise nothing changes.
pub fn try_move(blocks: &Blocks, mino: &mut Mino, direction: Direction) -> (moved: bool)
    requires
        blocks.wf(),
        spec_can_place(blocks@, old(mino).shape, old(mino).angle, old(mino).pos),
    ensures
        final(mino).shape == old(mino).shape,
        final(mino).angle == old(mino).angle,
        moved == spec_can_place(
            blocks@,
            old(mino).shape,
            old(mino).angle,
            spec_kicked_pos(old(mino).pos, spec_move_delta(direction)),
        ),
        moved ==> final(mino).pos == spec_kicked_pos(old(mino).pos, spec_move_delta(direction)),
        !moved ==> final(mino).pos == old(mino).pos,
        spec_can_place(blocks@, final(mino).shape, final(mino).angle, final(mino).pos),
    {
    proof {
        lemma_can_place_bounds(blocks@, mino.shape, mino.angle, mino.pos);
    }
    let delta = direction.move_delta();
    let target = mino.pos.plus(delta);
    if blocks.can_place_mino(target, mino.shape, mino.angle) {
        mino.pos = target;
        true
    } else {
        false
    }
}

/// Tries to rotate the piece one step with the SRS kick search: the first
/// listed kick whose footprint fits is applied and returned; when none
/// fits, the rotation is rejected and nothing changes.
pub fn try_rotate(blocks: &Blocks, mino: &mut Mino, direction: Direction) -> (r: Option<Position>)
    requires
        blocks.wf(),
        direction != Direction::Down,
        spec_can_place(blocks@, old(mino).shape, old(mino).angle, old(mino).pos),
    ensures
        final(mino).shape == old(mino).shape,
        ({
            let na = spec_rotated(old(mino).angle, direction);
            let deltas = spec_srs_deltas(old(mino).shape, old(mino).angle, na);
            match r {
                Option::Some(delta) => {
                    &&& final(mino).angle == na
                    &&& exists|k: int|
                        0 <= k < 5 && (#[trigger] deltas[k]) == (delta.x as int, delta.y as int)
                            && final(mino).pos == spec_kicked_pos(old(mino).pos, deltas[k])
                            && spec_can_place(blocks@, old(mino).shape, na, final(mino).pos)
                            && forall|j: int|
                            0 <= j < k ==> !spec_can_place(
                                blocks@,
                                old(mino).shape,
                                na,
                                spec_kicked_pos(old(mino).pos, #[trigger] deltas[j]),
                            )
                },
                Option::None => {
                    &&& *final(mino) == *old(mino)
                    &&& forall|k: int|
                        0 <= k < 5 ==> !spec_can_place(
                            blocks@,
                            old(mino).shape,
                            na,
                            spec_kicked_pos(old(mino).pos, #[trigger] deltas[k]),
                        )
                },
            }
        }),
        spec_can_place(blocks@, final(mino).shape, final(mino).angle, final(mino).pos),
{
    proof {
        lemma_can_place_bounds(blocks@, mino.shape, mino.angle, mino.pos);
    }
    let new_angle = match direction {
        Direction::Right => match mino.angle {
            Angle::Deg0 => Angle::Deg90,
            Angle::Deg90 => Angle::Deg180,
            Angle::Deg180 => Angle::Deg270,
            Angle::Deg270 => Angle::Deg0,
        },
        _ => match mino.angle {
            Angle::Deg0 => Angle::Deg270,
            Angle::Deg90 => Angle::Deg0,
            Angle::Deg180 => Angle::Deg90,
            Angle::Deg270 => Angle::Deg180,
        },
    };
    let deltas = get_srs_deltas(mino.shape, mino.angle, new_angle);
    let ghost spec_deltas = spec_srs_deltas(mino.shape, mino.angle, new_angle);
    let mut k: usize = 0;
    while k < 5
        invariant
            blocks.wf(),
            k <= 5,
            new_angle == spec_rotated(old(mino).angle, direction),
            spec_deltas == spec_srs_deltas(old(mino).shape, old(mino).angle, new_angle),
            mino == old(mino),
            -3 <= mino.pos.x <= 9,
            -3 <= mino.pos.y <= 39,
            spec_can_place(blocks@, old(mino).shape, old(mino).angle, old(mino).pos),
            deltas@.len() == 5,
            forall|j: int|
                0 <= j < 5 ==> (#[trigger] deltas@[j]).x == spec_deltas[j].0 && deltas@[j].y
                    == spec_deltas[j].1,
            forall|j: int| 0 <= j < 5 ==> -2 <= #[trigger] deltas@[j].x <= 2 && -2 <= deltas@[j].y <= 2,
            forall|j: int|
                0 <= j < k ==> !spec_can_place(
                    blocks@,
                    old(mino).shape,
                    new_angle,
                    spec_kicked_pos(old(mino).pos, #[trigger] spec_deltas[j]),
                ),
        decreases 5 - k,
    {
        let delta = deltas[k];
        let target = mino.pos.plus(delta);
        proof {
            assert(target == spec_kicked_pos(old(mino).pos, spec_deltas[k as int]));
        }
        if blocks.can_place_mino(target, mino.shape, new_angle) {
            mino.pos = target;
            mino.angle = new_angle;
            proof {
                assert(spec_deltas[k as int] == (delta.x as int, delta.y as int));
            }
            return Some(delta);
        }
        k += 1;
    }
    None
}

/// Drops the piece as far straight down as it can go. Returns the number
/// of rows fallen; the resulting piece rests on its support.
pub fn hard_drop(blocks: &Blocks, mino: &mut Mino) -> (fall: u8)
    requires
        blocks.wf(),
        spec_can_place(blocks@, old(mino).shape, old(mino).angle, old(mino).pos),
    ensures
        final(mino).shape == old(mino).shape,
        final(mino).angle == old(mino).angle,
        final(mino).pos.x == old(mino).pos.x,
        final(mino).pos.y == old(mino).pos.y - fall,
        forall|j: int|
            0 <= j <= fall ==> #[trigger] spec_can_place(
                blocks@,
                old(mino).shape,
                old(mino).angle,
                Position { x: old(mino).pos.x, y: (old(mino).pos.y - j) as i8 },
            ),
        !spec_can_place(
            blocks@,
            old(mino).shape,
            old(mino).angle,
            Position { x: old(mino).pos.x, y: (old(mino).pos.y - fall - 1) as i8 },
        ),
        spec_can_place(blocks@, final(mino).shape, final(mino).angle, final(mino).pos),
{
    proof {
        lemma_can_place_bounds(blocks@, old(mino).shape, old(mino).angle, old(mino).pos);
    }
    let mut fall: u8 = 0;
    loop
        invariant
            blocks.wf(),
            -3 <= old(mino).pos.y <= 39,
            mino.shape == old(mino).shape,
            mino.angle == old(mino).angle,
            mino.pos.x == old(mino).pos.x,
            fall <= 43,
            mino.pos.y == old(mino).pos.y - fall,
            spec_can_place(blocks@, old(mino).shape, old(mino).angle, old(mino).pos),
            forall|j: int|
                0 <= j <= fall ==> #[trigger] spec_can_place(
                    blocks@,
                    old(mino).shape,
                    old(mino).angle,
                    Position { x: old(mino).pos.x, y: (old(mino).pos.y - j) as i8 },
                ),
        decreases 43 - fall,
    {
        proof {
            assert(mino.pos == Position {
                x: old(mino).pos.x,
                y: (old(mino).pos.y - fall as int) as i8,
            });
            assert(spec_can_place(blocks@, mino.shape, mino.angle, mino.pos));
            lemma_can_place_bounds(blocks@, mino.shape, mino.angle, mino.pos);
        }
        let below = Position::new(mino.pos.x, mino.pos.y - 1);
        if blocks.can_place_mino(below, mino.shape, mino.angle) {
            proof {
                lemma_can_place_bounds(blocks@, mino.shape, mino.angle, below);
                assert(below.y >= -3);
            }
            mino.pos = below;
            fall += 1;
        } else {
            proof {
                assert(below == Position {
                    x: old(mino).pos.x,
                    y: (old(mino).pos.y - (fall as int) - 1) as i8,
                });
            }
            return fall;
        }
    }
}


/// What a successful or failed rotation attempt leaves behind: the
/// relation `try_rotate` establishes between the piece before and after.
pub open spec fn spec_rotate_outcome(
    g: Seq<Seq<Block>>,
    before: Mino,
    direction: Direction,
    r: Option<Position>,
    after: Mino,
) -> bool {
    let na = spec_rotated(before.angle, direction);
    let deltas = spec_srs_deltas(before.shape, before.angle, na);
    after.shape == before.shape && match r {
        Option::Some(delta) => {
            &&& after.angle == na
            &&& exists|k: int|
                0 <= k < 5 && (#[trigger] deltas[k]) == (delta.x as int, delta.y as int)
                    && after.pos == spec_kicked_pos(before.pos, deltas[k]) && spec_can_place(
                    g,
                    before.shape,
                    na,
                    after.pos,
                ) && forall|j: int|
                    0 <= j < k ==> !spec_can_place(
                        g,
                        before.shape,
                        na,
                        spec_kicked_pos(before.pos, #[trigger] deltas[j]),
                    )
        },
        Option::None => {
            &&& after == before
            &&& forall|k: int|
                0 <= k < 5 ==> !spec_can_place(
                    g,
                    before.shape,
                    na,
                    spec_kicked_pos(before.pos, #[trigger] deltas[k]),
                )
        },
    }
}

/// What a hard drop leaves behind: the piece straight below its old
/// anchor, as low as its footprint fits, resting on its support.
pub open spec fn spec_hard_drop_outcome(g: Seq<Seq<Block>>, before: Mino, after: Mino) -> bool {
    &&& after.shape == before.shape
    &&& after.angle == before.angle
    &&& after.pos.x == before.pos.x
    &&& after.pos.y <= before.pos.y
    &&& forall|j: int|
        0 <= j <= before.pos.y - after.pos.y ==> #[trigger] spec_can_place(
            g,
            before.shape,
            before.angle,
            Position { x: before.pos.x, y: (before.pos.y - j) as i8 },
        )
    &&& !spec_can_place(
        g,
        before.shape,
        before.angle,
        Position { x: before.pos.x, y: (after.pos.y - 1) as i8 },
    )
}

/// Applies one intent to the active piece, mirroring what each event
/// means: translations and rotations are validated against the grid and
/// silently rejected when blocked, a hard drop sinks the piece and asks
/// for an immediate lock, and the soft-drop toggle reshapes the gravity
/// timer. Every successful move or rotation resets the lock-down delay;
/// a successful translation clears the T-spin flag and a rotation
/// re-classifies it.
pub fn handle_move(
    event: MoveEvent,
    field: &Field,
    mino: &mut Mino,
    local_field: &mut LocalField,
    drop_timer: &mut DropTimer,
    lock_down_timer: &mut LockDownTimer,
) -> (place: bool)
    requires
        field.wf(),
        old(local_field).wf(),
        spec_can_place(field.blocks@, old(mino).shape, old(mino).angle, old(mino).pos),
        event matches MoveEvent::Rotate(d) ==> d != Direction::Down,
    ensures
        final(local_field).wf(),
        final(mino).shape == old(mino).shape,
        spec_can_place(field.blocks@, final(mino).shape, final(mino).angle, final(mino).pos),
        place == (event == MoveEvent::HardDrop),
        final(local_field).can_back_to_back == old(local_field).can_back_to_back,
        final(local_field).combo == old(local_field).combo,
        final(local_field).garbage_amount == old(local_field).garbage_amount,
        final(local_field).target_player_id == old(local_field).target_player_id,
        final(local_field).next_queue == old(local_field).next_queue,
        final(local_field).hold == old(local_field).hold,
        final(local_field).is_hold_used == old(local_field).is_hold_used,
        match event {
            MoveEvent::Move(d) => {
                let target = spec_kicked_pos(old(mino).pos, spec_move_delta(d));
                let moved = spec_can_place(field.blocks@, old(mino).shape, old(mino).angle, target);
                &&& final(mino).angle == old(mino).angle
                &&& *final(drop_timer) == *old(drop_timer)
                &&& if moved {
                    &&& final(mino).pos == target
                    &&& final(local_field).t_spin == TSpin::NoSpin
                    &&& final(lock_down_timer).0 == (GameTimer {
                        remaining_ms: old(lock_down_timer).0.interval_ms,
                        ..old(lock_down_timer).0
                    })
                } else {
                    &&& final(mino).pos == old(mino).pos
                    &&& final(local_field).t_spin == old(local_field).t_spin
                    &&& *final(lock_down_timer) == *old(lock_down_timer)
                }
            },
            MoveEvent::Rotate(d) => {
                &&& *final(drop_timer) == *old(drop_timer)
                &&& ({
                    ||| exists|kick: Position|
                        spec_rotate_outcome(
                            field.blocks@,
                            *old(mino),
                            d,
                            Option::Some(kick),
                            *final(mino),
                        ) && final(local_field).t_spin == spec_classify(
                            field.blocks@,
                            *final(mino),
                            kick,
                        ) && final(lock_down_timer).0 == (GameTimer {
                            remaining_ms: old(lock_down_timer).0.interval_ms,
                            ..old(lock_down_timer).0
                        })
                    ||| spec_rotate_outcome(
                        field.blocks@,
                        *old(mino),
                        d,
                        Option::None,
                        *final(mino),
                    ) && final(local_field).t_spin == old(local_field).t_spin
                        && *final(lock_down_timer) == *old(lock_down_timer)
                })
            },
            MoveEvent::HardDrop => {
                &&& spec_hard_drop_outcome(field.blocks@, *old(mino), *final(mino))
                &&& *final(drop_timer) == *old(drop_timer)
                &&& final(lock_down_timer).0 == (GameTimer {
                    remaining_ms: old(lock_down_timer).0.interval_ms,
                    ..old(lock_down_timer).0
                })
                &&& if final(mino).pos.y < old(mino).pos.y {
                    final(local_field).t_spin == TSpin::NoSpin
                } else {
                    final(local_field).t_spin == old(local_field).t_spin
                }
            },
            MoveEvent::StartSoftDrop => {
                &&& *final(mino) == *old(mino)
                &&& final(local_field).t_spin == old(local_field).t_spin
                &&& *final(lock_down_timer) == *old(lock_down_timer)
                &&& final(drop_timer).0.interval_ms == SOFT_DROP_INTERVAL_MS
                &&& final(drop_timer).0.running == old(drop_timer).0.running
            },
            MoveEvent::StopSoftDrop => {
                &&& *final(mino) == *old(mino)
                &&& final(local_field).t_spin == old(local_field).t_spin
                &&& *final(lock_down_timer) == *old(lock_down_timer)
                &&& final(drop_timer).0.interval_ms == DROP_INTERVAL_MS
                &&& final(drop_timer).0.running == old(drop_timer).0.running
            },
        },
{
    match event {
        MoveEvent::Move(direction) => {
            let moved = try_move(&field.blocks, mino, direction);
            if moved {
                local_field.t_spin = TSpin::NoSpin;
                lock_down_timer.0.reset();
            }
            false
        },
        MoveEvent::Rotate(direction) => {
            let kicked = try_rotate(&field.blocks, mino, direction);
            match kicked {
                Option::Some(delta) => {
                    local_field.t_spin.update(mino, field, delta);
                    lock_down_timer.0.reset();
                },
                Option::None => {},
            }
            false
        },
        MoveEvent::HardDrop => {
            let fall = hard_drop(&field.blocks, mino);
            if fall > 0 {
                local_field.t_spin = TSpin::NoSpin;
            }
            lock_down_timer.0.reset();
            true
        },
        MoveEvent::StartSoftDrop => {
            drop_timer.0.set_interval(SOFT_DROP_INTERVAL_MS);
            false
        },
        MoveEvent::StopSoftDrop => {
            drop_timer.0.set_interval(DROP_INTERVAL_MS);
            false
        },
    }
}

} // verus!

//! Committing the active piece and replaying remote placements.
//!
//! `handle_place_mino` is the local lock pipeline: commit, clear lines,
//! score the clear, realize pending garbage, and package everything a
//! peer needs to replay the placement. `handle_sync_field_change` is the
//! replay side, run against the replica grid kept for the sending peer.

use vstd::prelude::*;
use crate::block::Block;
use crate::blocks::{
    lemma_lines_len, row_empty, spec_can_place, spec_collapse, spec_filled_rows,
    spec_garbage_overflow, spec_place, spec_push_garbage, Garbages, Lines, FIELD_MAX_HEIGHT,
};
use crate::field::Field;
use crate::local::LocalField;
use crate::mino::{spec_spawn_outcome, Mino};
use crate::net::PlayerId;
use crate::scoring::{attack, is_difficult_clear, spec_attack, spec_is_difficult};
use crate::shape::Shape;
use crate::t_spin::TSpin;
use crate::timer::DropTimer;

verus! {

/// The grid after replaying one placement event: commit the piece,
/// remove the listed rows, then push the garbage rows in; garbage whose
/// push would overflow is discarded with the grid left cleared.
pub open spec fn spec_apply_field_change(
    g: Seq<Seq<Block>>,
    mino: Mino,
    lines: Seq<int>,
    holes: Seq<int>,
) -> Seq<Seq<Block>> {
    let placed = spec_place(g, mino.shape, mino.angle, mino.pos);
    let cleared = spec_collapse(placed, lines);
    if spec_garbage_overflow(cleared, holes.len() as int) {
        cleared
    } else {
        spec_push_garbage(cleared, holes)
    }
}

/// Everything one local placement produces, for scoring and for the
/// outbound `FieldChanged` and `GarbageSent` messages.
pub struct PlacementOutcome {
    /// The rows the placement cleared, top row first.
    pub clear_lines: Lines,
    /// The garbage rows realized out of the pending counter.
    pub garbage_lines: Garbages,
    /// Garbage rows to send to the attack target.
    pub attack: u8,
    /// Whom the attack goes to, fixed before the placement.
    pub target: Option<PlayerId>,
    /// True when realizing the pending garbage overflowed the grid.
    pub is_game_over: bool,
}

/// Locks the active piece into the local field: commits it, clears the
/// full rows, updates combo and back-to-back state, computes the attack,
/// and realizes the pending incoming garbage before anything is
/// broadcast. The piece's life ends here: the hold swap and the T-spin
/// flag reset for the next piece. Pending garbage beyond what the grid
/// can hold is game over outright: no rows enter, since even the pushed
/// rows themselves would be shoved off the top.
pub fn handle_place_mino(field: &mut Field, local_field: &mut LocalField, mino: &Mino) -> (r:
    PlacementOutcome)
    requires
        old(field).wf(),
        old(local_field).wf(),
        spec_can_place(old(field).blocks@, mino.shape, mino.angle, mino.pos),
    ensures
        final(field).wf(),
        final(local_field).wf(),
        final(field).player == old(field).player,
        r.clear_lines.wf(),
        r.garbage_lines.wf(),
        ({
            let g0 = old(field).blocks@;
            let placed = spec_place(g0, mino.shape, mino.angle, mino.pos);
            let lines = spec_filled_rows(placed);
            let cleared = spec_collapse(placed, lines);
            let clear_count = lines.len() as int;
            let perfect = forall|y: int| 0 <= y < cleared.len() ==> row_empty(#[trigger] cleared[y]);
            &&& r.clear_lines@ == lines
            &&& r.attack == spec_attack(
                clear_count,
                old(local_field).t_spin,
                old(local_field).combo as int,
                old(local_field).can_back_to_back,
                perfect,
            )
            &&& r.target == old(local_field).target_player_id
            &&& r.garbage_lines@.len() == (if old(local_field).garbage_amount
                <= FIELD_MAX_HEIGHT as u8 {
                old(local_field).garbage_amount as int
            } else {
                0
            })
            &&& r.is_game_over == (old(local_field).garbage_amount > FIELD_MAX_HEIGHT as u8
                || spec_garbage_overflow(cleared, r.garbage_lines@.len() as int))
            &&& final(field).blocks@ == spec_apply_field_change(g0, *mino, lines, r.garbage_lines@)
            &&& (clear_count > 0 ==> final(local_field).can_back_to_back == spec_is_difficult(
                clear_count,
                old(local_field).t_spin,
            ) && final(local_field).combo == (if old(local_field).combo < 255 {
                old(local_field).combo + 1
            } else {
                255int
            }))
            &&& (clear_count == 0 ==> final(local_field).combo == 0
                && final(local_field).can_back_to_back == old(local_field).can_back_to_back)
            &&& final(local_field).garbage_amount == 0
            &&& !final(local_field).is_hold_used
            &&& final(local_field).t_spin == TSpin::NoSpin
            &&& final(local_field).target_player_id == old(local_field).target_player_id
            &&& final(local_field).next_queue == old(local_field).next_queue
            &&& final(local_field).hold == old(local_field).hold
        }),
{
    field.blocks.place_mino(mino);
    let clear_lines = field.blocks.get_filled_lines();
    field.blocks.clear_lines(&clear_lines);
    proof {
        lemma_lines_len(clear_lines@);
    }
    let clear_count: u8 = clear_lines.len() as u8;
    let perfect = field.blocks.is_empty();
    let attack_rows = attack(
        clear_count,
        local_field.t_spin,
        local_field.combo,
        local_field.can_back_to_back,
        perfect,
    );
    if clear_count > 0 {
        local_field.can_back_to_back = is_difficult_clear(clear_count, local_field.t_spin);
        local_field.combo = if local_field.combo < 255 {
            local_field.combo + 1
        } else {
            255
        };
    } else {
        local_field.combo = 0;
    }
    let pending = local_field.garbage_amount;
    local_field.garbage_amount = 0;
    local_field.is_hold_used = false;
    local_field.t_spin = TSpin::NoSpin;
    let ghost cleared = field.blocks@;
    let (garbage_lines, is_game_over) = if pending <= FIELD_MAX_HEIGHT as u8 {
        let gl = Garbages::from_amount(pending);
        let over = field.blocks.add_garbages(&gl).is_err();
        (gl, over)
    } else {
        let gl = Garbages(Vec::new());
        proof {
            assert(gl@ =~= Seq::<int>::empty());
            assert(!spec_garbage_overflow(cleared, 0));
            assert(spec_push_garbage(cleared, gl@) =~= cleared);
            assert(field.blocks@ == spec_push_garbage(cleared, gl@));
        }
        (gl, true)
    };
    PlacementOutcome {
        clear_lines,
        garbage_lines,
        attack: attack_rows,
        target: local_field.target_player_id,
        is_game_over,
    }
}

/// Replays a `FieldChanged` event against the replica grid kept for the
/// sending peer. An event whose piece does not fit the replica (malformed
/// or out of sync) is dropped whole, leaving the replica unchanged.
pub fn handle_sync_field_change(
    field: &mut Field,
    mino: &Mino,
    clear_lines: &Lines,
    garbage_lines: &Garbages,
) -> (applied: bool)
    requires
        old(field).wf(),
        clear_lines.wf(),
        garbage_lines.wf(),
        garbage_lines@.len() <= FIELD_MAX_HEIGHT as int,
    ensures
        final(field).wf(),
        final(field).player == old(field).player,
        applied == spec_can_place(old(field).blocks@, mino.shape, mino.angle, mino.pos),
        applied ==> final(field).blocks@ == spec_apply_field_change(
            old(field).blocks@,
            *mino,
            clear_lines@,
            garbage_lines@,
        ),
        !applied ==> final(field).blocks@ == old(field).blocks@,
{
    if !field.blocks.can_place_mino(mino.pos, mino.shape, mino.angle) {
        return false;
    }
    field.blocks.place_mino(mino);
    field.blocks.clear_lines(clear_lines);
    let _pushed = field.blocks.add_garbages(garbage_lines);
    true
}

/// Replaying a placement is deterministic: two grids in the same state
/// that apply the same `FieldChanged` event end in the same state, so a
/// replica that replays the sender's events stays identical to the
/// sender's own board.
pub proof fn lemma_replica_consistency(
    g1: Seq<Seq<Block>>,
    g2: Seq<Seq<Block>>,
    mino: Mino,
    lines: Seq<int>,
    holes: Seq<int>,
)
    requires
        g1 == g2,
    ensures
        spec_apply_field_change(g1, mino, lines, holes) == spec_apply_field_change(
            g2,
            mino,
            lines,
            holes,
        ),
{
}


/// Spawns the next piece on the local field and restarts gravity for it.
/// A failed spawn is the other game-over path: the caller ends the match.
pub fn handle_spawn_mino(field: &Field, shape: Shape, drop_timer: &mut DropTimer) -> (r: Result<
    Mino,
    (),
>)
    requires
        field.wf(),
    ensures
        spec_spawn_outcome(field.blocks@, shape, r),
        r.is_ok() ==> final(drop_timer).0.remaining_ms == old(drop_timer).0.interval_ms
            && final(drop_timer).0.running == old(drop_timer).0.running
            && final(drop_timer).0.interval_ms == old(drop_timer).0.interval_ms,
        r.is_err() ==> *final(drop_timer) == *old(drop_timer),
{
    match Mino::new(shape, field) {
        Ok(m) => {
            drop_timer.0.reset();
            Ok(m)
        },
        Err(e) => Err(e),
    }
}

} // verus!

//! The local player's ephemeral state: combo run, back-to-back flag,
//! pending garbage, attack target, next queue and hold slot.

use vstd::prelude::*;
use crate::net::PlayerId;
use crate::next::{NextQueue, QUEUE_SIZE};
use crate::shape::Shape;
use crate::t_spin::TSpin;

verus! {

pub struct LocalField {
    /// Set by a difficult clear; the next difficult clear earns the bonus.
    pub can_back_to_back: bool,
    /// How many consecutive placements so far cleared at least one line.
    pub combo: u8,
    /// Classification of the last rotation of the active piece.
    pub t_spin: TSpin,
    /// Garbage rows announced by opponents, not yet realized on the grid.
    pub garbage_amount: u8,
    /// Whom an attack goes to.
    pub target_player_id: Option<PlayerId>,
    pub next_queue: NextQueue,
    /// The shape parked by a hold swap, if any.
    pub hold: Option<Shape>,
    /// Whether the hold swap was already spent for the current piece.
    pub is_hold_used: bool,
}

impl LocalField {
    pub open spec fn wf(&self) -> bool {
        self.next_queue@.len() == QUEUE_SIZE
    }
}

impl Default for LocalField {
    fn default() -> (r: Self)
        ensures
            r.wf(),
            !r.can_back_to_back,
            r.combo == 0,
            r.t_spin == TSpin::NoSpin,
            r.garbage_amount == 0,
            r.target_player_id.is_none(),
            r.hold.is_none(),
            !r.is_hold_used,
    {
        LocalField {
            can_back_to_back: false,
            combo: 0,
            t_spin: TSpin::NoSpin,
            garbage_amount: 0,
            target_player_id: None,
            next_queue: NextQueue::new(),
            hold: None,
            is_hold_used: false,
        }
    }
}

/// What one hold attempt does. A spent hold flag makes the attempt a
/// no-op; otherwise the current shape is parked, the flag is spent, and
/// the piece to spawn comes from the hold slot or, when that was empty,
/// from the front of the next queue.
pub open spec fn spec_try_hold(
    before: LocalField,
    current: Shape,
    r: Option<Shape>,
    after: LocalField,
) -> bool {
    if before.is_hold_used {
        r == Option::<Shape>::None && after == before
    } else {
        &&& after.is_hold_used
        &&& after.hold == Option::Some(current)
        &&& after.can_back_to_back == before.can_back_to_back
        &&& after.combo == before.combo
        &&& after.t_spin == before.t_spin
        &&& after.garbage_amount == before.garbage_amount
        &&& after.target_player_id == before.target_player_id
        &&& match before.hold {
            Option::Some(h) => r == Option::Some(h) && after.next_queue == before.next_queue,
            Option::None => {
                &&& r == Option::Some(before.next_queue@[0])
                &&& after.next_queue@.len() == before.next_queue@.len()
            },
        }
    }
}

impl LocalField {
    /// Attempts a hold swap for the piece of the given shape. Returns the
    /// shape to spawn in its place, or `None` when the hold was already
    /// used for this piece.
    pub fn try_hold(&mut self, current: Shape) -> (r: Option<Shape>)
        requires
            old(self).wf(),
        ensures
            final(self).wf(),
            spec_try_hold(*old(self), current, r, *final(self)),
            r.is_some() == !old(self).is_hold_used,
    {
        if self.is_hold_used {
            return None;
        }
        self.is_hold_used = true;
        let next_shape = match self.hold {
            Option::Some(shape) => shape,
            Option::None => self.next_queue.pop(),
        };
        self.hold = Some(current);
        Some(next_shape)
    }

    /// Adds announced garbage to the pending counter, exactly, up to the
    /// counter's own range: beyond 255 pending rows the count saturates,
    /// and anything above the grid height already ends the game when the
    /// pending rows are realized at the next lock.
    pub fn handle_receive_garbage(&mut self, amount: u8)
        requires
            old(self).wf(),
        ensures
            final(self).wf(),
            final(self).garbage_amount == (if old(self).garbage_amount + amount <= u8::MAX {
                old(self).garbage_amount + amount
            } else {
                u8::MAX as int
            }),
            final(self).can_back_to_back == old(self).can_back_to_back,
            final(self).combo == old(self).combo,
            final(self).t_spin == old(self).t_spin,
            final(self).target_player_id == old(self).target_player_id,
            final(self).next_queue == old(self).next_queue,
            final(self).hold == old(self).hold,
            final(self).is_hold_used == old(self).is_hold_used,
    {
        let sum: u16 = self.garbage_amount as u16 + amount as u16;
        self.garbage_amount = if sum <= u8::MAX as u16 {
            sum as u8
        } else {
            u8::MAX
        };
    }
}

/// The hold swap is spent by its first use and honoured again only after
/// a lock resets it: a second attempt before the reset returns nothing
/// and changes nothing.
pub proof fn lemma_hold_once_per_piece(
    s0: LocalField,
    c1: Shape,
    r1: Option<Shape>,
    s1: LocalField,
    c2: Shape,
    r2: Option<Shape>,
    s2: LocalField,
)
    requires
        !s0.is_hold_used,
        spec_try_hold(s0, c1, r1, s1),
        spec_try_hold(s1, c2, r2, s2),
    ensures
        r1.is_some(),
        r2.is_none(),
        s2 == s1,
{
}

/// After a lock clears the hold flag, a hold attempt is accepted again.
pub proof fn lemma_hold_accepted_after_lock(
    s: LocalField,
    c: Shape,
    r: Option<Shape>,
    after: LocalField,
)
    requires
        !s.is_hold_used,
        spec_try_hold(s, c, r, after),
    ensures
        r.is_some(),
        after.is_hold_used,
        after.hold == Option::Some(c),
{
}

} // verus!

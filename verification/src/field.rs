//! One player's board: the owning player and their grid.

use vstd::prelude::*;
use crate::blocks::Blocks;
use crate::net::{Player, PlayerState};

verus! {

/// A board, either the local player's own or the replica kept for a peer.
pub struct Field {
    pub player: Player,
    pub blocks: Blocks,
}

impl Field {
    pub open spec fn wf(&self) -> bool {
        self.blocks.wf()
    }

    /// A fresh, empty board for the given player.
    pub fn new(player: Player) -> (r: Field)
        ensures
            r.wf(),
            r.player == player,
            r.blocks@ =~~= crate::blocks::spec_empty_grid(),
    {
        Field { player, blocks: Blocks::new() }
    }

    /// Records a play-state change for this board's player.
    pub fn set_player_state(&mut self, state: PlayerState)
        ensures
            final(self).player.id == old(self).player.id,
            final(self).player.state == state,
            final(self).blocks == old(self).blocks,
    {
        self.player = Player { id: self.player.id, state };
    }
}

} // verus!

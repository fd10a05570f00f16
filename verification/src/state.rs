//! Match-level state: the app phases and the win and loss transitions.

use vstd::prelude::*;
use crate::field::Field;
use crate::net::{spec_find_player, Player, PlayerId, PlayerState, Players};

verus! {

/// The phase of the whole match.
#[derive(Debug, Clone, Copy, PartialEq, Eq, Hash, Structural)]
pub enum AppState {
    MatchMaking,
    Playing,
    Finished,
}

impl Default for AppState {
    fn default() -> (r: Self)
        ensures
            r == AppState::MatchMaking,
    {
        AppState::MatchMaking
    }
}

/// The local player has lost: the own board goes to game over and the
/// match is finished for this process. The caller broadcasts the new
/// state to every peer.
pub fn handle_gameover(my_field: &mut Field) -> (next: AppState)
    ensures
        final(my_field).player.id == old(my_field).player.id,
        final(my_field).player.state == PlayerState::GameOver,
        final(my_field).blocks == old(my_field).blocks,
        next == AppState::Finished,
{
    my_field.set_player_state(PlayerState::GameOver);
    AppState::Finished
}

/// A peer announced a new play state: the roster entry updates, and when
/// every opponent has lost, the local player wins. The caller broadcasts
/// the win and finishes the match when `won` comes back true.
pub fn handle_state_change(
    players: &mut Players,
    my_field: &mut Field,
    player_id: PlayerId,
    state: PlayerState,
) -> (won: bool)
    ensures
        ({
            let j = spec_find_player(old(players).0@, player_id, 0);
            if j >= 0 {
                final(players).0@ == old(players).0@.update(
                    j,
                    Player { id: old(players).0@[j].id, state },
                )
            } else {
                final(players).0@ == old(players).0@
            }
        }),
        won == forall|i: int|
            0 <= i < final(players).0@.len() ==> (#[trigger] final(players).0@[i]).state
                == PlayerState::GameOver,
        final(my_field).player.id == old(my_field).player.id,
        final(my_field).blocks == old(my_field).blocks,
        won ==> final(my_field).player.state == PlayerState::Win,
        !won ==> final(my_field).player == old(my_field).player,
{
    players.set_state(player_id, state);
    if players.all_game_over() {
        my_field.set_player_state(PlayerState::Win);
        true
    } else {
        false
    }
}

} // verus!

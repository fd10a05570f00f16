//! Roster updates, win and loss transitions, and the room directory.

use tetris_core::field::Field;
use tetris_core::net::{Player, PlayerId, PlayerState, Players};
use tetris_core::rooms::{get_all_rooms, join_room, AppError, JoinRoomPathParam};
use tetris_core::state::{handle_gameover, handle_state_change, AppState};

fn roster(states: &[(u64, PlayerState)]) -> Players {
    Players(states.iter().map(|&(id, state)| Player { id: PlayerId(id), state }).collect())
}

#[test]
fn gameover_marks_field_and_finishes() {
    let mut f = Field::new(Player::new(PlayerId(7)));
    let next = handle_gameover(&mut f);
    assert_eq!(f.player.state, PlayerState::GameOver);
    assert_eq!(f.player.id, PlayerId(7));
    assert_eq!(next, AppState::Finished);
}

#[test]
fn state_change_updates_roster_entry() {
    let mut ps = roster(&[(1, PlayerState::Playing), (2, PlayerState::Playing)]);
    let mut my = Field::new(Player::new(PlayerId(9)));
    let won = handle_state_change(&mut ps, &mut my, PlayerId(1), PlayerState::GameOver);
    assert!(!won);
    assert_eq!(ps.0[0].state, PlayerState::GameOver);
    assert_eq!(ps.0[1].state, PlayerState::Playing);
    assert_eq!(my.player.state, PlayerState::Playing);
}

#[test]
fn last_player_standing_wins() {
    let mut ps = roster(&[(1, PlayerState::GameOver), (2, PlayerState::Playing)]);
    let mut my = Field::new(Player::new(PlayerId(9)));
    let won = handle_state_change(&mut ps, &mut my, PlayerId(2), PlayerState::GameOver);
    assert!(won);
    assert_eq!(my.player.state, PlayerState::Win);
}

#[test]
fn unknown_peer_changes_nothing() {
    let mut ps = roster(&[(1, PlayerState::Playing)]);
    let mut my = Field::new(Player::new(PlayerId(9)));
    let won = handle_state_change(&mut ps, &mut my, PlayerId(5), PlayerState::GameOver);
    assert!(!won);
    assert_eq!(ps.0[0].state, PlayerState::Playing);
}

#[test]
fn room_listing_keeps_order() {
    let ids = vec!["alpha".to_string(), "beta".to_string()];
    let rooms = get_all_rooms(&ids);
    assert_eq!(rooms.len(), 2);
    assert_eq!(rooms[0].id, "alpha");
    assert_eq!(rooms[1].id, "beta");
}

#[test]
fn join_room_finds_first_match() {
    let ids = vec!["alpha".to_string(), "beta".to_string(), "beta".to_string()];
    let found = join_room(&ids, &JoinRoomPathParam { room_id: "beta".to_string() });
    assert_eq!(found, Ok(1));
}

#[test]
fn join_missing_room_is_an_error() {
    let ids = vec!["alpha".to_string()];
    let missing = join_room(&ids, &JoinRoomPathParam { room_id: "gamma".to_string() });
    assert_eq!(missing, Err(AppError::RoomNotFound));
}

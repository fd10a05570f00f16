//! Timer behaviour and target rotation.

use tetris_core::net::{Player, PlayerId, PlayerState, Players};
use tetris_core::timer::{
    drop_timer_system, lock_down_timer_system, target_change_timer_system, DropTimer, GameTimer,
    LockDownTimer, TargetChangeTimer, DROP_INTERVAL_MS, LOCK_DOWN_INTERVAL_MS,
};

#[test]
fn timer_counts_down_and_fires() {
    let mut t = GameTimer::new(1000, true);
    assert!(!t.tick(400));
    assert_eq!(t.remaining_ms, 600);
    assert!(!t.tick(599));
    assert_eq!(t.remaining_ms, 1);
    assert!(t.tick(1));
    // A repeating timer restarts from its interval.
    assert_eq!(t.remaining_ms, 1000);
}

#[test]
fn paused_timer_ignores_ticks() {
    let mut t = GameTimer::new(500, true);
    t.pause();
    assert!(!t.tick(10_000));
    assert_eq!(t.remaining_ms, 500);
    t.resume();
    assert!(t.tick(10_000));
}

#[test]
fn set_interval_caps_remaining_time() {
    let mut t = GameTimer::new(1000, true);
    t.tick(100);
    assert_eq!(t.remaining_ms, 900);
    // Switching to soft drop takes effect at once.
    t.set_interval(50);
    assert_eq!(t.remaining_ms, 50);
    // Switching back does not stretch the current countdown.
    t.set_interval(1000);
    assert_eq!(t.remaining_ms, 50);
    t.reset();
    assert_eq!(t.remaining_ms, 1000);
}

#[test]
fn drop_timer_fires_at_its_interval() {
    let mut d = DropTimer::default();
    assert!(!drop_timer_system(&mut d, DROP_INTERVAL_MS - 1));
    assert!(drop_timer_system(&mut d, 1));
}

#[test]
fn lock_down_waits_for_grounding() {
    let mut l = LockDownTimer::default();
    // Airborne: the delay stays reset however long the piece floats.
    assert!(!lock_down_timer_system(&mut l, false, 10_000));
    assert_eq!(l.0.remaining_ms, LOCK_DOWN_INTERVAL_MS);
    // Grounded: it counts, and a move resetting it starts over.
    assert!(!lock_down_timer_system(&mut l, true, 300));
    assert!(!lock_down_timer_system(&mut l, false, 300));
    assert!(!lock_down_timer_system(&mut l, true, 300));
    assert!(lock_down_timer_system(&mut l, true, 200));
}

fn roster(states: &[(u64, PlayerState)]) -> Players {
    Players(states.iter().map(|&(id, state)| Player { id: PlayerId(id), state }).collect())
}

#[test]
fn target_advances_to_next_playing_opponent() {
    let ps = roster(&[
        (1, PlayerState::Playing),
        (2, PlayerState::GameOver),
        (3, PlayerState::Playing),
        (4, PlayerState::Playing),
    ]);
    // The eliminated player 2 is skipped.
    assert_eq!(ps.next_target(Some(PlayerId(1))), Some(PlayerId(3)));
    assert_eq!(ps.next_target(Some(PlayerId(3))), Some(PlayerId(4)));
    // Past the last playing opponent the target wraps to the first.
    assert_eq!(ps.next_target(Some(PlayerId(4))), Some(PlayerId(1)));
    // No current target: the first playing opponent is picked.
    assert_eq!(ps.next_target(None), Some(PlayerId(1)));
    // A vanished target also falls back to the first.
    assert_eq!(ps.next_target(Some(PlayerId(2))), Some(PlayerId(1)));
    assert_eq!(ps.next_target(Some(PlayerId(9))), Some(PlayerId(1)));
}

#[test]
fn no_playing_opponent_means_no_target() {
    let ps = roster(&[(1, PlayerState::GameOver), (2, PlayerState::Win)]);
    assert_eq!(ps.next_target(Some(PlayerId(1))), None);
    assert_eq!(ps.next_target(None), None);
    let empty = roster(&[]);
    assert_eq!(empty.next_target(None), None);
}

#[test]
fn target_change_timer_rotates_on_fire() {
    let ps = roster(&[(1, PlayerState::Playing), (2, PlayerState::Playing)]);
    let mut t = TargetChangeTimer::default();
    // Before the interval elapses the target stays.
    let kept = target_change_timer_system(&mut t, 10, &ps, Some(PlayerId(1)));
    assert_eq!(kept, Some(PlayerId(1)));
    let rotated = target_change_timer_system(&mut t, 10_000, &ps, Some(PlayerId(1)));
    assert_eq!(rotated, Some(PlayerId(2)));
}

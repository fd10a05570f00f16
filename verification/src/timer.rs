//! The per-field timers: gravity drop, lock-down delay and target rotation.
//!
//! A timer is plain data: a running flag, the milliseconds left, and the
//! interval it restarts from. The caller hands each simulation step's
//! wall-clock delta to the tick functions and acts on the returned intent.

use vstd::prelude::*;
use crate::net::{PlayerId, Players};

verus! {

pub const DROP_INTERVAL_MS: u64 = 1000;
pub const SOFT_DROP_INTERVAL_MS: u64 = 50;
pub const LOCK_DOWN_INTERVAL_MS: u64 = 500;
pub const TARGET_CHANGE_INTERVAL_MS: u64 = 1000;

/// A repeating countdown timer.
#[derive(Debug, Clone, Copy, PartialEq, Eq, Structural)]
pub struct GameTimer {
    pub running: bool,
    pub remaining_ms: u64,
    pub interval_ms: u64,
}

/// Whether a tick of `delta_ms` makes the timer fire.
pub open spec fn spec_tick_fires(t: GameTimer, delta_ms: u64) -> bool {
    t.running && delta_ms >= t.remaining_ms
}

impl GameTimer {
    pub fn new(interval_ms: u64, running: bool) -> (r: GameTimer)
        ensures
            r.running == running,
            r.interval_ms == interval_ms,
            r.remaining_ms == interval_ms,
    {
        GameTimer { running, remaining_ms: interval_ms, interval_ms }
    }

    /// Advances the timer by a wall-clock delta. A paused timer ignores
    /// the tick; a running one counts down, fires when the delta reaches
    /// what was left, and restarts from its interval.
    pub fn tick(&mut self, delta_ms: u64) -> (fired: bool)
        ensures
            final(self).running == old(self).running,
            final(self).interval_ms == old(self).interval_ms,
            fired == spec_tick_fires(*old(self), delta_ms),
            final(self).remaining_ms == (if !old(self).running {
                old(self).remaining_ms as int
            } else if fired {
                old(self).interval_ms as int
            } else {
                old(self).remaining_ms - delta_ms
            }),
    {
        if !self.running {
            return false;
        }
        if delta_ms >= self.remaining_ms {
            self.remaining_ms = self.interval_ms;
            true
        } else {
            self.remaining_ms = self.remaining_ms - delta_ms;
            false
        }
    }

    /// Restarts the countdown from the full interval.
    pub fn reset(&mut self)
        ensures
            final(self).running == old(self).running,
            final(self).interval_ms == old(self).interval_ms,
            final(self).remaining_ms == old(self).interval_ms,
    {
        self.remaining_ms = self.interval_ms;
    }

    pub fn pause(&mut self)
        ensures
            *final(self) == (GameTimer { running: false, ..*old(self) }),
    {
        self.running = false;
    }

    pub fn resume(&mut self)
        ensures
            *final(self) == (GameTimer { running: true, ..*old(self) }),
    {
        self.running = true;
    }

    /// Changes the interval, as the soft-drop toggle does; the time left
    /// is capped so a shorter interval takes effect at once.
    pub fn set_interval(&mut self, interval_ms: u64)
        ensures
            final(self).running == old(self).running,
            final(self).interval_ms == interval_ms,
            final(self).remaining_ms == (if old(self).remaining_ms <= interval_ms {
                old(self).remaining_ms
            } else {
                interval_ms
            }),
    {
        self.interval_ms = interval_ms;
        if self.remaining_ms > interval_ms {
            self.remaining_ms = interval_ms;
        }
    }
}

/// Gravity: fires a move-down intent.
#[derive(Debug, Clone, Copy, PartialEq, Eq, Structural)]
pub struct DropTimer(pub GameTimer);

/// Lock-down: counts only while the piece is grounded, fires the lock.
#[derive(Debug, Clone, Copy, PartialEq, Eq, Structural)]
pub struct LockDownTimer(pub GameTimer);

/// Attack-target rotation.
#[derive(Debug, Clone, Copy, PartialEq, Eq, Structural)]
pub struct TargetChangeTimer(pub GameTimer);

impl Default for DropTimer {
    fn default() -> (r: Self)
        ensures
            r.0 == (GameTimer {
                running: true,
                remaining_ms: DROP_INTERVAL_MS,
                interval_ms: DROP_INTERVAL_MS,
            }),
    {
        DropTimer(GameTimer::new(DROP_INTERVAL_MS, true))
    }
}

impl Default for LockDownTimer {
    fn default() -> (r: Self)
        ensures
            r.0 == (GameTimer {
                running: true,
                remaining_ms: LOCK_DOWN_INTERVAL_MS,
                interval_ms: LOCK_DOWN_INTERVAL_MS,
            }),
    {
        LockDownTimer(GameTimer::new(LOCK_DOWN_INTERVAL_MS, true))
    }
}

impl Default for TargetChangeTimer {
    fn default() -> (r: Self)
        ensures
            r.0 == (GameTimer {
                running: true,
                remaining_ms: TARGET_CHANGE_INTERVAL_MS,
                interval_ms: TARGET_CHANGE_INTERVAL_MS,
            }),
    {
        TargetChangeTimer(GameTimer::new(TARGET_CHANGE_INTERVAL_MS, true))
    }
}

/// One gravity step: true means the caller should move the piece down.
pub fn drop_timer_system(timer: &mut DropTimer, delta_ms: u64) -> (fire_down: bool)
    ensures
        fire_down == spec_tick_fires(old(timer).0, delta_ms),
        final(timer).0.running == old(timer).0.running,
        final(timer).0.interval_ms == old(timer).0.interval_ms,
        final(timer).0.remaining_ms == (if !old(timer).0.running {
            old(timer).0.remaining_ms as int
        } else if fire_down {
            old(timer).0.interval_ms as int
        } else {
            old(timer).0.remaining_ms - delta_ms
        }),
{
    timer.0.tick(delta_ms)
}

/// One lock-down step. While the piece is airborne the delay stays reset
/// and never fires; while grounded it counts down, and firing means the
/// caller should lock the piece.
pub fn lock_down_timer_system(timer: &mut LockDownTimer, grounded: bool, delta_ms: u64) -> (fire_place:
    bool)
    ensures
        final(timer).0.running == old(timer).0.running,
        final(timer).0.interval_ms == old(timer).0.interval_ms,
        !grounded ==> !fire_place && final(timer).0.remaining_ms == old(timer).0.interval_ms,
        grounded ==> fire_place == spec_tick_fires(old(timer).0, delta_ms)
            && final(timer).0.remaining_ms == (if !old(timer).0.running {
            old(timer).0.remaining_ms as int
        } else if fire_place {
            old(timer).0.interval_ms as int
        } else {
            old(timer).0.remaining_ms - delta_ms
        }),
{
    if !grounded {
        timer.0.reset();
        false
    } else {
        timer.0.tick(delta_ms)
    }
}

/// One target-rotation step: when the timer fires, the target advances to
/// the next still-playing opponent; otherwise it stays.
pub fn target_change_timer_system(
    timer: &mut TargetChangeTimer,
    delta_ms: u64,
    players: &Players,
    current: Option<PlayerId>,
) -> (target: Option<PlayerId>)
    ensures
        final(timer).0.running == old(timer).0.running,
        final(timer).0.interval_ms == old(timer).0.interval_ms,
        spec_tick_fires(old(timer).0, delta_ms) ==> target == crate::net::spec_next_target(
            players.0@,
            current,
        ),
        !spec_tick_fires(old(timer).0, delta_ms) ==> target == current,
{
    if timer.0.tick(delta_ms) {
        players.next_target(current)
    } else {
        current
    }
}

} // verus!

//! Non-blocking delays. A phase that must pause keeps a timer and polls it
//! once per tick with the time elapsed since the previous tick; nothing ever
//! sleeps.
use vstd::prelude::*;

use crate::turn::TurnState;

verus! {

/// A one-shot timer counting milliseconds up to its duration.
#[derive(Clone, Copy, Debug, PartialEq, Eq, Structural)]
pub struct Timer {
    pub duration_ms: u64,
    pub elapsed_ms: u64,
}

/// The timer after `delta` more milliseconds: elapsed time grows and stops at
/// the duration.
pub open spec fn ticked(t: Timer, delta: int) -> Timer {
    Timer {
        duration_ms: t.duration_ms,
        elapsed_ms: if t.elapsed_ms + delta >= t.duration_ms {
            t.duration_ms
        } else {
            (t.elapsed_ms + delta) as u64
        },
    }
}

/// Whether a timer has run its full duration.
pub open spec fn finished(t: Timer) -> bool {
    t.elapsed_ms >= t.duration_ms
}

impl Timer {
    /// A timer of the given duration that has not started counting.
    pub fn from_millis(duration_ms: u64) -> (t: Timer)
        ensures
            t == (Timer { duration_ms, elapsed_ms: 0 }),
    {
        Timer { duration_ms, elapsed_ms: 0 }
    }

    /// Advances the timer by `delta_ms`.
    pub fn tick(&mut self, delta_ms: u64)
        ensures
            *final(self) == ticked(*old(self), delta_ms as int),
    {
        if self.elapsed_ms >= self.duration_ms || delta_ms >= self.duration_ms - self.elapsed_ms {
            self.elapsed_ms = self.duration_ms;
        } else {
            self.elapsed_ms = self.elapsed_ms + delta_ms;
        }
    }

    /// Whether the full duration has elapsed.
    pub fn is_finished(&self) -> (r: bool)
        ensures
            r == finished(*self),
    {
        self.elapsed_ms >= self.duration_ms
    }
}

/// A pause that runs once each time a phase is entered: the first poll in a
/// phase starts the timer, later polls advance it, and once it has finished
/// it stays finished until the phase changes.
#[derive(Clone, Copy, Debug, PartialEq, Eq, Structural)]
pub struct StateEntryDelay {
    /// The phase seen at the last poll.
    pub last_state: Option<TurnState>,
    /// The running pause, once started in this phase.
    pub timer: Option<Timer>,
}

/// The entry delay after observing phase `state`: a change of phase forgets
/// the timer.
pub open spec fn entry_delay_observed(d: StateEntryDelay, state: TurnState) -> StateEntryDelay {
    if d.last_state == Some(state) {
        d
    } else {
        StateEntryDelay { last_state: Some(state), timer: None }
    }
}

/// The timer after one poll of a pause of `duration` ms, and whether the
/// pause is over. A pause of zero is over at once and starts no timer.
pub open spec fn polled_timer(timer: Option<Timer>, delta: int, duration: int) -> (Option<Timer>, bool) {
    if duration <= 0 {
        (timer, true)
    } else {
        match timer {
            None => (Some(Timer { duration_ms: duration as u64, elapsed_ms: 0 }), false),
            Some(t) => (Some(ticked(t, delta)), finished(ticked(t, delta))),
        }
    }
}

impl StateEntryDelay {
    /// No phase seen yet and no pause running.
    pub fn new() -> (r: StateEntryDelay)
        ensures
            r.last_state.is_none(),
            r.timer.is_none(),
    {
        StateEntryDelay { last_state: None, timer: None }
    }

    /// Records the current phase; entering a new phase discards the timer.
    pub fn on_state_change(&mut self, state: TurnState)
        ensures
            *final(self) == entry_delay_observed(*old(self), state),
    {
        let same = match self.last_state {
            Some(s) => s == state,
            None => false,
        };
        if !same {
            self.last_state = Some(state);
            self.timer = None;
        }
    }

    /// Polls the pause of `duration_ms`; true once it has elapsed in this
    /// phase. The first poll only starts the timer: that tick's time does not
    /// count.
    pub fn wait(&mut self, delta_ms: u64, duration_ms: u64) -> (done: bool)
        ensures
            final(self).last_state == old(self).last_state,
            (final(self).timer, done) == polled_timer(old(self).timer, delta_ms as int, duration_ms as int),
    {
        if duration_ms == 0 {
            return true;
        }
        match self.timer {
            Some(t) => {
                let mut t = t;
                t.tick(delta_ms);
                self.timer = Some(t);
                t.is_finished()
            },
            None => {
                self.timer = Some(Timer::from_millis(duration_ms));
                false
            },
        }
    }
}

/// The stages of the enemies' attack: idle, winding up, cooling down.
#[derive(Clone, Copy, Debug, PartialEq, Eq, Structural)]
pub enum EnemyAttackPhase {
    Idle,
    Windup,
    Cooldown,
}

/// The enemies' attack sub-machine and the timer of its current stage.
#[derive(Clone, Copy, Debug, PartialEq, Eq, Structural)]
pub struct EnemyAttackDelay {
    pub phase: EnemyAttackPhase,
    pub timer: Option<Timer>,
}

/// The timer after one poll of a stage of `duration` ms, and whether the
/// stage is over. A finished timer is dropped, so the next stage starts
/// afresh.
pub open spec fn polled_stage(timer: Option<Timer>, delta: int, duration: int) -> (Option<Timer>, bool) {
    if duration <= 0 {
        (timer, true)
    } else {
        match timer {
            None => (Some(Timer { duration_ms: duration as u64, elapsed_ms: 0 }), false),
            Some(t) => if finished(ticked(t, delta)) {
                (None, true)
            } else {
                (Some(ticked(t, delta)), false)
            },
        }
    }
}

impl EnemyAttackDelay {
    /// Idle, with no timer.
    pub fn new() -> (r: EnemyAttackDelay)
        ensures
            r == (EnemyAttackDelay { phase: EnemyAttackPhase::Idle, timer: None }),
    {
        EnemyAttackDelay { phase: EnemyAttackPhase::Idle, timer: None }
    }

    /// Back to idle, with no timer.
    pub fn reset(&mut self)
        ensures
            *final(self) == (EnemyAttackDelay { phase: EnemyAttackPhase::Idle, timer: None }),
    {
        self.phase = EnemyAttackPhase::Idle;
        self.timer = None;
    }

    /// Polls the current stage's pause of `duration_ms`; true once it has
    /// elapsed, and the timer is then dropped.
    pub fn wait(&mut self, delta_ms: u64, duration_ms: u64) -> (done: bool)
        ensures
            final(self).phase == old(self).phase,
            (final(self).timer, done) == polled_stage(old(self).timer, delta_ms as int, duration_ms as int),
    {
        if duration_ms == 0 {
            return true;
        }
        match self.timer {
            Some(t) => {
                let mut t = t;
                t.tick(delta_ms);
                if t.is_finished() {
                    self.timer = None;
                    true
                } else {
                    self.timer = Some(t);
                    false
                }
            },
            None => {
                self.timer = Some(Timer::from_millis(duration_ms));
                false
            },
        }
    }
}

} // verus!

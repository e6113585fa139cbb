//! The number game: as many attempts as the clock allows.

use vstd::prelude::*;

use crate::session::{count_catches, quiet, quiet_reaction, SessionEvent, SessionReaction};
use crate::text::{decimal, decimal_string};
use crate::timer::SessionTimer;

verus! {

/// Time given to catch toys in the number game, in milliseconds.
pub const NUMBER_TIME_TO_CATCH: u64 = 7_000;

/// Remaining whole seconds at which the heartbeat cue plays.
pub const HEARTBEAT_SECS: u64 = 5;

/// A number game: as many attempts as the timer allows, won by catching at
/// least one toy.
#[derive(Clone, Copy, Debug, PartialEq, Eq, Structural)]
pub struct NumberGameProgress {
    pub timer: SessionTimer,
    pub heartbeat_played: bool,
    pub toys_caught: u32,
}

/// What one tick of the number game did.
#[derive(Clone, Copy, Debug, PartialEq, Eq, Structural)]
pub struct NumberTick {
    /// The timer ran out: the claw is to be released.
    pub release: bool,
    /// The heartbeat cue is to play.
    pub heartbeat: bool,
}

impl NumberGameProgress {
    pub open spec fn wf(self) -> bool {
        self.timer.wf()
    }

    /// The start of a session.
    pub open spec fn fresh() -> NumberGameProgress {
        NumberGameProgress {
            timer: SessionTimer { duration: NUMBER_TIME_TO_CATCH, elapsed: 0, paused: false },
            heartbeat_played: false,
            toys_caught: 0,
        }
    }

    /// Whole seconds left on `t`, rounded down.
    pub open spec fn secs_left(t: SessionTimer) -> int {
        (t.duration - t.elapsed) / 1000
    }

    /// Whether a tick of `dt` milliseconds plays the heartbeat: the first
    /// tick after which no more than the heartbeat's seconds are left.
    pub open spec fn beats(self, dt: u64) -> bool {
        !self.heartbeat_played && Self::secs_left(self.timer.ticked(dt)) <= HEARTBEAT_SECS
    }

    /// The session after `e`.
    pub open spec fn after(self, e: SessionEvent) -> NumberGameProgress {
        match e {
            SessionEvent::Tick(dt) => NumberGameProgress {
                timer: self.timer.ticked(dt),
                heartbeat_played: self.heartbeat_played || self.beats(dt),
                ..self
            },
            SessionEvent::ToyCaught => NumberGameProgress {
                toys_caught: if self.toys_caught == u32::MAX {
                    u32::MAX
                } else {
                    (self.toys_caught + 1) as u32
                },
                ..self
            },
            _ => self,
        }
    }

    /// What the session asks for after `e`: the claw is released when the
    /// timer runs out; once the claw is back at base, the results come if
    /// the time is up, and another attempt if it is not.
    pub open spec fn reaction(self, e: SessionEvent) -> SessionReaction {
        match e {
            SessionEvent::Tick(dt) => SessionReaction {
                release_claw: self.timer.runs_out(dt),
                heartbeat: self.beats(dt),
                ..quiet()
            },
            SessionEvent::ClawReturned => SessionReaction {
                show_results: self.timer.is_finished(),
                rearm_claw: !self.timer.is_finished(),
                ..quiet()
            },
            _ => quiet(),
        }
    }

    /// The session after each of `events` in turn.
    pub open spec fn run(self, events: Seq<SessionEvent>) -> NumberGameProgress
        decreases events.len(),
    {
        if events.len() == 0 {
            self
        } else {
            self.run(events.drop_last()).after(events.last())
        }
    }

    /// How many times the heartbeat plays over `events`.
    pub open spec fn heartbeats(self, events: Seq<SessionEvent>) -> nat
        decreases events.len(),
    {
        if events.len() == 0 {
            0
        } else {
            self.heartbeats(events.drop_last()) + if self.run(events.drop_last()).reaction(
                events.last(),
            ).heartbeat {
                1nat
            } else {
                0nat
            }
        }
    }

    /// The countdown shown to the player: the whole seconds left, or
    /// nothing once none are.
    pub open spec fn countdown(self) -> Seq<char> {
        let left = Self::secs_left(self.timer);
        if left > 0 {
            decimal(left as nat)
        } else {
            seq![]
        }
    }

    /// Advances the timer by `dt` milliseconds; reports whether the claw is
    /// to be released and whether the heartbeat is to play.
    pub fn update(&mut self, dt: u64) -> (r: NumberTick)
        requires
            old(self).wf(),
        ensures
            *final(self) == old(self).after(SessionEvent::Tick(dt)),
            r.release == old(self).timer.runs_out(dt),
            r.heartbeat == old(self).beats(dt),
            final(self).wf(),
    {
        let release = self.timer.tick(dt);
        let left = self.timer.remaining_secs();
        let heartbeat = left <= HEARTBEAT_SECS && !self.heartbeat_played;
        if heartbeat {
            self.heartbeat_played = true;
        }
        NumberTick { release, heartbeat }
    }

    /// Counts a catch.
    pub fn increment_toys(&mut self)
        ensures
            *final(self) == old(self).after(SessionEvent::ToyCaught),
    {
        self.toys_caught = self.toys_caught.saturating_add(1);
    }

    /// Reacts to `e`.
    pub fn handle(&mut self, e: SessionEvent) -> (r: SessionReaction)
        requires
            old(self).wf(),
        ensures
            *final(self) == old(self).after(e),
            r == old(self).reaction(e),
            final(self).wf(),
    {
        match e {
            SessionEvent::Tick(dt) => {
                let t = self.update(dt);
                SessionReaction { release_claw: t.release, heartbeat: t.heartbeat, ..quiet_reaction() }
            },
            SessionEvent::ToyCaught => {
                self.increment_toys();
                quiet_reaction()
            },
            SessionEvent::ClawReleased => quiet_reaction(),
            SessionEvent::ClawReturned => {
                let done = self.timer.finished();
                SessionReaction { show_results: done, rearm_claw: !done, ..quiet_reaction() }
            },
        }
    }

    /// The countdown shown to the player.
    pub fn countdown_text(&self) -> (r: String)
        requires
            self.wf(),
        ensures
            r@ == self.countdown(),
    {
        let left = self.timer.remaining_secs();
        if left > 0 {
            decimal_string(left)
        } else {
            String::new()
        }
    }
}

impl Default for NumberGameProgress {
    fn default() -> (r: NumberGameProgress)
        ensures
            r == NumberGameProgress::fresh(),
    {
        NumberGameProgress {
            timer: SessionTimer::new(NUMBER_TIME_TO_CATCH),
            heartbeat_played: false,
            toys_caught: 0,
        }
    }
}

/// Over any run of a number game the heartbeat plays at most once: exactly
/// once if the session has reached it, never otherwise. Catches are counted
/// one by one.
pub proof fn lemma_number_game_counts(p: NumberGameProgress, events: Seq<SessionEvent>)
    requires
        !p.heartbeat_played,
        p.toys_caught == 0,
    ensures
        p.heartbeats(events) == if p.run(events).heartbeat_played {
            1nat
        } else {
            0nat
        },
        count_catches(events) < u32::MAX ==> p.run(events).toys_caught == count_catches(events),
    decreases events.len(),
{
    if events.len() > 0 {
        lemma_number_game_counts(p, events.drop_last());
        let q = p.run(events.drop_last());
        if count_catches(events) < u32::MAX {
            assert(count_catches(events.drop_last()) <= count_catches(events));
        }
        assert(q.toys_caught <= count_catches(events.drop_last()) || count_catches(events.drop_last()) >= u32::MAX);
    }
}

} // verus!

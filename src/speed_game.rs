//! The speed game: one attempt against the clock.

use vstd::prelude::*;

use crate::session::{quiet, quiet_reaction, SessionEvent, SessionReaction};
use crate::text::{seconds_string, seconds_text};
use crate::timer::SessionTimer;

verus! {

/// Time given to catch a toy in the speed game, in milliseconds.
pub const SPEED_TIME_TO_CATCH: u64 = 20_000;

/// A speed game: one attempt against a timer, won by catching a toy.
#[derive(Clone, Copy, Debug, PartialEq, Eq, Structural)]
pub struct SpeedGameProgress {
    pub timer: SessionTimer,
    pub toy_caught: bool,
}

impl SpeedGameProgress {
    pub open spec fn wf(self) -> bool {
        self.timer.wf()
    }

    /// The start of a session.
    pub open spec fn fresh() -> SpeedGameProgress {
        SpeedGameProgress {
            timer: SessionTimer { duration: SPEED_TIME_TO_CATCH, elapsed: 0, paused: false },
            toy_caught: false,
        }
    }

    /// The session after `e`.
    pub open spec fn after(self, e: SessionEvent) -> SpeedGameProgress {
        match e {
            SessionEvent::Tick(dt) => if self.timer.runs_out(dt) {
                SpeedGameProgress {
                    timer: SessionTimer { paused: true, ..self.timer.ticked(dt) },
                    ..self
                }
            } else {
                SpeedGameProgress { timer: self.timer.ticked(dt), ..self }
            },
            SessionEvent::ToyCaught => SpeedGameProgress { toy_caught: true, ..self },
            SessionEvent::ClawReleased => SpeedGameProgress {
                timer: SessionTimer { paused: true, ..self.timer },
                ..self
            },
            SessionEvent::ClawReturned => self,
        }
    }

    /// What the session asks for after `e`: the claw is released when the
    /// timer runs out, and the results come once the claw is back at base.
    pub open spec fn reaction(self, e: SessionEvent) -> SessionReaction {
        match e {
            SessionEvent::Tick(dt) => SessionReaction {
                release_claw: self.timer.runs_out(dt),
                ..quiet()
            },
            SessionEvent::ClawReturned => SessionReaction { show_results: true, ..quiet() },
            _ => quiet(),
        }
    }

    /// The session after each of `events` in turn.
    pub open spec fn run(self, events: Seq<SessionEvent>) -> SpeedGameProgress
        decreases events.len(),
    {
        if events.len() == 0 {
            self
        } else {
            self.run(events.drop_last()).after(events.last())
        }
    }

    /// Advances the timer by `dt` milliseconds; when it runs out it stops,
    /// and the claw is to be released: returns whether it is.
    pub fn update(&mut self, dt: u64) -> (release: bool)
        requires
            old(self).wf(),
        ensures
            *final(self) == old(self).after(SessionEvent::Tick(dt)),
            release == old(self).timer.runs_out(dt),
            final(self).wf(),
    {
        if !self.timer.paused && self.timer.tick(dt) {
            self.timer.pause();
            true
        } else {
            false
        }
    }

    /// Records a catch; it stays for the rest of the session.
    pub fn register_toy_catch(&mut self)
        ensures
            *final(self) == old(self).after(SessionEvent::ToyCaught),
    {
        self.toy_caught = true;
    }

    /// Stops the timer once the claw is released.
    pub fn pause_timer(&mut self)
        ensures
            *final(self) == old(self).after(SessionEvent::ClawReleased),
    {
        self.timer.pause();
    }

    /// The time shown to the player: the seconds elapsed, with two decimals.
    pub fn progress_text(&self) -> (r: String)
        ensures
            r@ == seconds_text(self.timer.elapsed as nat),
    {
        seconds_string(self.timer.elapsed)
    }

    /// Reacts to `e`.
    pub fn handle(&mut self, e: SessionEvent) -> (r: SessionReaction)
        requires
            old(self).wf(),
        ensures
            *final(self) == old(self).after(e),
            r == old(self).reaction(e),
            final(self).wf(),
    {
        match e {
            SessionEvent::Tick(dt) => {
                let release = self.update(dt);
                SessionReaction { release_claw: release, ..quiet_reaction() }
            },
            SessionEvent::ToyCaught => {
                self.register_toy_catch();
                quiet_reaction()
            },
            SessionEvent::ClawReleased => {
                self.pause_timer();
                quiet_reaction()
            },
            SessionEvent::ClawReturned => SessionReaction { show_results: true, ..quiet_reaction() },
        }
    }
}

impl Default for SpeedGameProgress {
    fn default() -> (r: SpeedGameProgress)
        ensures
            r == SpeedGameProgress::fresh(),
    {
        SpeedGameProgress { timer: SessionTimer::new(SPEED_TIME_TO_CATCH), toy_caught: false }
    }
}

} // verus!

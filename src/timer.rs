//! A one-shot timer in whole milliseconds.

use vstd::prelude::*;

verus! {

/// A one-shot timer: it counts elapsed milliseconds up to its duration,
/// and can be paused.
#[derive(Clone, Copy, Debug, PartialEq, Eq, Structural)]
pub struct SessionTimer {
    pub duration: u64,
    pub elapsed: u64,
    pub paused: bool,
}

impl SessionTimer {
    /// The elapsed time never passes the duration.
    pub open spec fn wf(self) -> bool {
        self.elapsed <= self.duration
    }

    pub open spec fn is_finished(self) -> bool {
        self.elapsed >= self.duration
    }

    /// The timer after a tick of `dt` milliseconds.
    pub open spec fn ticked(self, dt: u64) -> SessionTimer {
        if self.paused || self.is_finished() {
            self
        } else if self.elapsed + dt >= self.duration {
            SessionTimer { elapsed: self.duration, ..self }
        } else {
            SessionTimer { elapsed: (self.elapsed + dt) as u64, ..self }
        }
    }

    /// Whether a tick of `dt` milliseconds runs the timer out.
    pub open spec fn runs_out(self, dt: u64) -> bool {
        !self.paused && !self.is_finished() && self.elapsed + dt >= self.duration
    }

    /// A running timer of `duration` milliseconds.
    pub fn new(duration: u64) -> (r: SessionTimer)
        ensures
            r == (SessionTimer { duration, elapsed: 0, paused: false }),
            r.wf(),
    {
        SessionTimer { duration, elapsed: 0, paused: false }
    }

    /// Advances the timer by `dt` milliseconds, unless it is paused or has
    /// run out; returns whether it ran out on this tick.
    pub fn tick(&mut self, dt: u64) -> (just_finished: bool)
        requires
            old(self).wf(),
        ensures
            *final(self) == old(self).ticked(dt),
            final(self).wf(),
            just_finished == old(self).runs_out(dt),
    {
        if self.paused || self.elapsed >= self.duration {
            false
        } else if dt >= self.duration - self.elapsed {
            self.elapsed = self.duration;
            true
        } else {
            self.elapsed = self.elapsed + dt;
            false
        }
    }

    pub fn finished(&self) -> (r: bool)
        ensures
            r == self.is_finished(),
    {
        self.elapsed >= self.duration
    }

    pub fn pause(&mut self)
        ensures
            *final(self) == (SessionTimer { paused: true, ..*old(self) }),
    {
        self.paused = true;
    }

    /// Whole seconds left, rounded down.
    pub fn remaining_secs(&self) -> (r: u64)
        requires
            self.wf(),
        ensures
            r == (self.duration - self.elapsed) / 1000,
    {
        (self.duration - self.elapsed) / 1000
    }
}

} // verus!

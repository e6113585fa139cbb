//! What the game-mode sessions react to, and what they ask for in return.

use vstd::prelude::*;

verus! {

/// What a game-mode session reacts to.
#[derive(Clone, Copy, Debug, PartialEq, Eq, Structural)]
pub enum SessionEvent {
    /// A tick of this many milliseconds.
    Tick(u64),
    /// The claw caught a toy.
    ToyCaught,
    /// The claw was released and goes down.
    ClawReleased,
    /// The claw has travelled back to base.
    ClawReturned,
}

/// What a session asks of the rest of the game after an event.
#[derive(Clone, Copy, Debug, PartialEq, Eq, Structural)]
pub struct SessionReaction {
    /// Release the claw.
    pub release_claw: bool,
    /// Play the heartbeat cue.
    pub heartbeat: bool,
    /// Hand the carriage back to the player for another attempt.
    pub rearm_claw: bool,
    /// The session is over: show its results.
    pub show_results: bool,
}

/// How many of `events` are catches.
pub open spec fn count_catches(events: Seq<SessionEvent>) -> nat
    decreases events.len(),
{
    if events.len() == 0 {
        0
    } else {
        count_catches(events.drop_last()) + if events.last() == SessionEvent::ToyCaught {
            1nat
        } else {
            0nat
        }
    }
}

/// No reaction.
pub open spec fn quiet() -> SessionReaction {
    SessionReaction { release_claw: false, heartbeat: false, rearm_claw: false, show_results: false }
}

pub fn quiet_reaction() -> (r: SessionReaction)
    ensures
        r == quiet(),
{
    SessionReaction { release_claw: false, heartbeat: false, rearm_claw: false, show_results: false }
}

/// Whether `events` hold a catch: exactly when they count one.
pub proof fn lemma_count_catches_contains(events: Seq<SessionEvent>)
    ensures
        (count_catches(events) > 0) == events.contains(SessionEvent::ToyCaught),
    decreases events.len(),
{
    if events.len() > 0 {
        let p = events.drop_last();
        lemma_count_catches_contains(p);
        if p.contains(SessionEvent::ToyCaught) {
            let i = choose|i: int| 0 <= i < p.len() && p[i] == SessionEvent::ToyCaught;
            assert(events[i] == p[i]);
        }
        if events.contains(SessionEvent::ToyCaught) && events.last() != SessionEvent::ToyCaught {
            let i = choose|i: int| 0 <= i < events.len() && events[i] == SessionEvent::ToyCaught;
            assert(p[i] == events[i]);
        }
        if events.last() == SessionEvent::ToyCaught {
            assert(events[events.len() - 1] == SessionEvent::ToyCaught);
        }
    }
}

} // verus!

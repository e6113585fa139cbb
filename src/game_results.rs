//! The record of a finished session: who won, and what the results screen
//! says.

use vstd::prelude::*;
use vstd::string::*;

use crate::audio::{AudioCollection, SoundPool};
use crate::gameplay::Gamemode;
use crate::number_game::{lemma_number_game_counts, NumberGameProgress};
use crate::session::{count_catches, lemma_count_catches_contains, SessionEvent};
use crate::speed_game::SpeedGameProgress;
use crate::text::{decimal, push_decimal, push_seconds, seconds_text};

verus! {

/// The final record of a session, taken when it ends.
#[derive(Clone, Copy, Debug, PartialEq, Eq, Structural)]
pub enum GameResults {
    SpeedGame(SpeedGameProgress),
    NumberGame(NumberGameProgress),
}

/// The text shown for a lost session.
pub open spec fn lose_text() -> Seq<char> {
    seq!['Y', 'o', 'u', ' ', 'l', 'o', 's', 'e', ' ', '=', '(']
}

/// The time of a won speed game, `ms` milliseconds, in seconds rounded to
/// the nearest hundredth: `12.35 sec!`.
pub open spec fn speed_text(ms: nat) -> Seq<char> {
    seconds_text(ms) + seq![
        ' ',
        's',
        'e',
        'c',
        '!',
    ]
}

/// The catch count of a won number game: `1 toy!`, `3 toys!`.
pub open spec fn toys_text(n: nat) -> Seq<char> {
    decimal(n) + seq![' ', 't', 'o', 'y'] + (if n != 1 {
        seq!['s']
    } else {
        seq![]
    }) + seq!['!']
}

impl GameResults {
    /// A speed game is won by a catch, a number game by at least one.
    pub open spec fn wins(self) -> bool {
        match self {
            GameResults::SpeedGame(p) => p.toy_caught,
            GameResults::NumberGame(p) => p.toys_caught > 0,
        }
    }

    /// The title of the results screen.
    pub open spec fn title_text(self) -> Seq<char> {
        if !self.wins() {
            lose_text()
        } else {
            match self {
                GameResults::SpeedGame(p) => speed_text(p.timer.elapsed as nat),
                GameResults::NumberGame(p) => toys_text(p.toys_caught as nat),
            }
        }
    }

    /// The game mode of the session.
    pub fn mode(&self) -> (r: Gamemode)
        ensures
            r == match self {
                GameResults::SpeedGame(_) => Gamemode::SpeedGame,
                GameResults::NumberGame(_) => Gamemode::NumberGame,
            },
    {
        match self {
            GameResults::SpeedGame(_) => Gamemode::SpeedGame,
            GameResults::NumberGame(_) => Gamemode::NumberGame,
        }
    }

    /// Whether the session was won.
    pub fn is_win(&self) -> (r: bool)
        ensures
            r == self.wins(),
    {
        match self {
            GameResults::SpeedGame(p) => p.toy_caught,
            GameResults::NumberGame(p) => p.toys_caught > 0,
        }
    }

    /// The sound of the results: the win sound, or one of the defeat
    /// sounds at random.
    pub fn sound(&self) -> (r: AudioCollection)
        ensures
            self.wins() ==> r == AudioCollection::Win1,
            !self.wins() ==> SoundPool::Defeat.members().contains(r),
    {
        if self.is_win() {
            AudioCollection::Win1
        } else {
            SoundPool::Defeat.pick()
        }
    }

    /// The title of the results screen.
    pub fn title(&self) -> (r: String)
        ensures
            r@ == self.title_text(),
    {
        if !self.is_win() {
            proof {
                reveal_strlit("You lose =(");
            }
            return String::from_str("You lose =(");
        }
        match self {
            GameResults::SpeedGame(p) => {
                let mut s = String::new();
                push_seconds(&mut s, p.timer.elapsed);
                proof {
                    reveal_strlit(" sec!");
                }
                s.append(" sec!");
                s
            },
            GameResults::NumberGame(p) => {
                let mut s = String::new();
                push_decimal(&mut s, p.toys_caught as u64);
                proof {
                    reveal_strlit(" toy");
                    reveal_strlit("s");
                    reveal_strlit("!");
                }
                s.append(" toy");
                if p.toys_caught != 1 {
                    s.append("s");
                }
                s.append("!");
                s
            },
        }
    }
}

/// A speed game is won exactly when a toy was caught at some point of it,
/// whenever that was: with no catch it is lost.
pub proof fn lemma_speed_game_outcome(events: Seq<SessionEvent>)
    ensures
        GameResults::SpeedGame(SpeedGameProgress::fresh().run(events)).wins() == events.contains(
            SessionEvent::ToyCaught,
        ),
{
    lemma_speed_caught(SpeedGameProgress::fresh(), events);
}

proof fn lemma_speed_caught(p: SpeedGameProgress, events: Seq<SessionEvent>)
    ensures
        p.run(events).toy_caught == (p.toy_caught || events.contains(SessionEvent::ToyCaught)),
    decreases events.len(),
{
    if events.len() > 0 {
        let q = events.drop_last();
        lemma_speed_caught(p, q);
        if q.contains(SessionEvent::ToyCaught) {
            let i = choose|i: int| 0 <= i < q.len() && q[i] == SessionEvent::ToyCaught;
            assert(events[i] == q[i]);
        }
        if events.contains(SessionEvent::ToyCaught) && events.last() != SessionEvent::ToyCaught {
            let i = choose|i: int| 0 <= i < events.len() && events[i] == SessionEvent::ToyCaught;
            assert(q[i] == events[i]);
        }
        if events.last() == SessionEvent::ToyCaught {
            assert(events[events.len() - 1] == SessionEvent::ToyCaught);
        }
    }
}

/// A number game without catches is lost with no toys; with catches it is
/// won, with as many toys as catches.
pub proof fn lemma_number_game_outcome(events: Seq<SessionEvent>)
    requires
        count_catches(events) < u32::MAX,
    ensures
        NumberGameProgress::fresh().run(events).toys_caught == count_catches(events),
        GameResults::NumberGame(NumberGameProgress::fresh().run(events)).wins() == events.contains(
            SessionEvent::ToyCaught,
        ),
{
    lemma_number_game_counts(NumberGameProgress::fresh(), events);
    lemma_count_catches_contains(events);
}

} // verus!

//! Game modes, the main menu's choice, and the countdown before a session.

use vstd::prelude::*;

use crate::claw::{ClawController, ClawControllerState};
use crate::timer::SessionTimer;

verus! {

/// The game modes.
#[derive(Clone, Copy, Debug, PartialEq, Eq, Hash, Structural)]
pub enum Gamemode {
    SpeedGame,
    NumberGame,
}

/// The choices that the player made in the menu.
#[derive(Clone, Copy, Debug, PartialEq, Eq, Structural)]
pub struct GameSettings {
    pub gamemode: Option<Gamemode>,
}

impl Default for GameSettings {
    fn default() -> (r: GameSettings)
        ensures
            r.gamemode == Option::<Gamemode>::None,
    {
        GameSettings { gamemode: Option::None }
    }
}

/// The buttons of the main menu.
#[derive(Clone, Copy, Debug, PartialEq, Eq, Structural)]
pub enum MenuButton {
    SpeedGame,
    NumberGame,
    Quit,
}

impl MenuButton {
    /// The game mode that the button starts, if any.
    pub open spec fn mode(self) -> Option<Gamemode> {
        match self {
            MenuButton::SpeedGame => Some(Gamemode::SpeedGame),
            MenuButton::NumberGame => Some(Gamemode::NumberGame),
            MenuButton::Quit => None,
        }
    }
}

impl GameSettings {
    /// Records the main menu's button that the player pressed; returns
    /// whether the player quits.
    pub fn select(&mut self, button: MenuButton) -> (quit: bool)
        ensures
            final(self).gamemode == button.mode(),
            quit == (button == MenuButton::Quit),
    {
        match button {
            MenuButton::SpeedGame => {
                self.gamemode = Some(Gamemode::SpeedGame);
                false
            },
            MenuButton::NumberGame => {
                self.gamemode = Some(Gamemode::NumberGame);
                false
            },
            MenuButton::Quit => {
                self.gamemode = None;
                true
            },
        }
    }
}

/// Length of the countdown before the player gets the claw, in milliseconds.
pub const COUNTDOWN_MS: u64 = 3000;

/// The countdown before a session: when it runs out, the player gets the
/// claw.
#[derive(Clone, Copy, Debug, PartialEq, Eq, Structural)]
pub struct Countdown(pub SessionTimer);

impl Countdown {
    pub open spec fn wf(self) -> bool {
        self.0.wf() && self.0.duration == COUNTDOWN_MS
    }

    /// The number shown: whole seconds left, counted from the elapsed whole
    /// seconds.
    pub open spec fn shown(self) -> int {
        COUNTDOWN_MS / 1000 - self.0.elapsed / 1000
    }

    /// A countdown that has just begun.
    pub fn new() -> (r: Countdown)
        ensures
            r.0 == (SessionTimer { duration: COUNTDOWN_MS, elapsed: 0, paused: false }),
            r.wf(),
    {
        Countdown(SessionTimer::new(COUNTDOWN_MS))
    }

    /// Advances the countdown by `dt` milliseconds; on the tick it runs out
    /// the carriage is handed to the player. Returns whether it ran out.
    pub fn tick(&mut self, dt: u64, controller: &mut ClawController) -> (done: bool)
        requires
            old(self).wf(),
        ensures
            final(self).0 == old(self).0.ticked(dt),
            final(self).wf(),
            done == old(self).0.runs_out(dt),
            final(controller).0 == if done {
                ClawControllerState::Manual
            } else {
                old(controller).0
            },
    {
        let done = self.0.tick(dt);
        if done {
            controller.0 = ClawControllerState::Manual;
        }
        done
    }

    /// The number shown.
    pub fn label(&self) -> (r: u64)
        requires
            self.wf(),
        ensures
            r == self.shown(),
    {
        COUNTDOWN_MS / 1000 - self.0.elapsed / 1000
    }
}

} // verus!

//! Core logic of a coin-operated claw machine: the claw's carriage and lift
//! state machines, the glue mechanic that holds a caught toy, the timed game
//! modes and their results.
//!
//! Lengths are whole millimetres and durations whole milliseconds.

pub mod audio;
pub mod collision;
pub mod controls;
pub mod claw;
pub mod glass;
pub mod glue;
pub mod text;
pub mod timer;
pub mod session;
pub mod speed_game;
pub mod number_game;
pub mod game_results;
pub mod gameplay;
pub mod machine;
pub mod menu;
pub mod movement;

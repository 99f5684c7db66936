//! A word-guessing game engine: scoring of guesses against a secret word,
//! the stricter replay rule of difficult mode, keyboard knowledge, and the
//! round state machine that a terminal front end drives.

pub mod cmd;
pub mod command;
pub mod difficult;
pub mod draw;
pub mod error;
pub mod keyboard;
pub mod lists;
pub mod round;
pub mod score;
pub mod state;
pub mod states;
pub mod text;
pub mod tui;
pub mod word;
pub mod wordle;

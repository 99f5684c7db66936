//! The screens of the game.

use vstd::prelude::*;

verus! {

/// Which screen the game shows.
#[derive(Debug, Clone, Copy, PartialEq, Eq, Structural)]
pub enum UiState {
    /// The secret word is being typed in.
    Init,
    /// The board, in one of its states.
    Main(MainState),
}

/// What the board is doing.
#[derive(Debug, Clone, Copy, PartialEq, Eq, Structural)]
pub enum MainState {
    /// A guess is being typed, or the round has just ended.
    Main,
    /// A guess was refused by difficult mode, and the refusal is on show
    /// until the player acknowledges it.
    Difficult,
    /// The round is over, and the player is asked whether to go on.
    GameOver,
}

impl Default for UiState {
    /// The game starts by asking for the secret word.
    fn default() -> (s: UiState)
        ensures
            s == UiState::Init,
    {
        UiState::Init
    }
}

impl Default for MainState {
    /// The board starts with a guess being typed.
    fn default() -> (s: MainState)
        ensures
            s == MainState::Main,
    {
        MainState::Main
    }
}

} // verus!

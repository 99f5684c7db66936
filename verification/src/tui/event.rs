//! What the input side of a front end reports.

use vstd::prelude::*;

verus! {

/// A key, as far as the game tells keys apart.
#[derive(Debug, Clone, Copy, PartialEq, Eq, Structural)]
pub enum KeyCode {
    /// A key that types a character.
    Char(char),
    /// The key that deletes backwards.
    Backspace,
    /// The key that confirms.
    Enter,
    /// The key that leaves.
    Esc,
    /// Any other key.
    Other,
}

/// Something that happened outside the game.
#[derive(Debug, Clone, Copy, PartialEq, Eq, Structural)]
pub enum Event {
    /// The front end has started.
    Init,
    /// The front end is closing.
    Quit,
    /// Reading the input failed.
    Error,
    /// The clock has ticked.
    Tick,
    /// The screen is due to be drawn.
    Render,
    /// A key was pressed.
    Key(KeyCode),
    /// The mouse was used.
    Mouse,
}

} // verus!

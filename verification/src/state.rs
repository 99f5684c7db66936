//! Letters and what a guess has revealed about them.

use vstd::prelude::*;
use vstd::std_specs::cmp::{PartialEqSpecImpl, PartialOrdSpecImpl};
use std::cmp::Ordering;

verus! {

/// What the guesses so far have revealed about one letter.
///
/// The variants are listed from the most to the least informative:
/// `G` (right letter, right place), `Y` (right letter, wrong place),
/// `R` (not in the word, or more often than the word has it), `X` (not
/// judged yet).
#[derive(Debug, Clone, Copy, PartialEq, Eq, Structural, Hash, PartialOrd, Ord)]
pub enum LetterState {
    G,
    Y,
    R,
    X,
}

impl LetterState {
    /// Position in the severity order `G < Y < R < X`.
    pub open spec fn severity(self) -> nat {
        match self {
            LetterState::G => 0,
            LetterState::Y => 1,
            LetterState::R => 2,
            LetterState::X => 3,
        }
    }

    /// The more informative of two states; `self` on a tie.
    pub open spec fn best(self, other: LetterState) -> LetterState {
        if other.severity() < self.severity() {
            other
        } else {
            self
        }
    }

    /// Position in the severity order, as a number from 0 to 3.
    pub fn rank(self) -> (r: u8)
        ensures
            r == self.severity(),
    {
        match self {
            LetterState::G => 0,
            LetterState::Y => 1,
            LetterState::R => 2,
            LetterState::X => 3,
        }
    }

    /// Whether `self` says strictly more about a letter than `other` does.
    pub fn more_informative_than(self, other: LetterState) -> (b: bool)
        ensures
            b == (self.severity() < other.severity()),
    {
        self.rank() < other.rank()
    }

    /// Keeps the more informative of two states.
    pub fn merge(self, other: LetterState) -> (m: LetterState)
        ensures
            m == self.best(other),
    {
        if other.more_informative_than(self) {
            other
        } else {
            self
        }
    }
}

/// The form of a character under which letters are compared: ASCII capitals
/// become small letters, every other character stands for itself.
pub open spec fn fold(c: char) -> char {
    if 'A' <= c && c <= 'Z' {
        ((c as u32) + 32) as char
    } else {
        c
    }
}

/// A text with every character folded.
pub open spec fn folded(s: Seq<char>) -> Seq<char> {
    Seq::new(s.len(), |i: int| fold(s[i]))
}

/// Computes [`fold`].
pub fn fold_char(c: char) -> (r: char)
    ensures
        r == fold(c),
{
    if c >= 'A' && c <= 'Z' {
        let b: u8 = c as u8;
        (b + 32) as char
    } else {
        c
    }
}

/// A character with what is known about it.
#[derive(Debug, Clone, Copy)]
pub struct Letter(pub char, pub LetterState);

impl Letter {
    /// A letter nothing is known about yet.
    pub fn new(val: char) -> (l: Letter)
        ensures
            l == Letter::blank(val),
    {
        Letter(val, LetterState::X)
    }

    /// Replaces the state and keeps the character.
    pub fn set_state(&mut self, state: LetterState)
        ensures
            *final(self) == old(self).with_state(state),
    {
        self.1 = state;
    }

    /// The letter for `val` that nothing is known about yet.
    pub open spec fn blank(val: char) -> Letter {
        Letter(val, LetterState::X)
    }

    /// This letter with another state.
    pub open spec fn with_state(self, state: LetterState) -> Letter {
        Letter(self.0, state)
    }

    /// Two letters are the same letter when their characters agree up to
    /// ASCII case; their states play no part.
    pub open spec fn same_letter(self, other: Letter) -> bool {
        fold(self.0) == fold(other.0)
    }
}

impl PartialEq for Letter {
    fn eq(&self, other: &Self) -> (r: bool) {
        fold_char(self.0) == fold_char(other.0)
    }
}

impl PartialEqSpecImpl for Letter {
    open spec fn obeys_eq_spec() -> bool {
        true
    }

    open spec fn eq_spec(&self, other: &Self) -> bool {
        self.same_letter(*other)
    }
}

impl Eq for Letter {}

impl PartialOrd for Letter {
    fn partial_cmp(&self, other: &Self) -> (r: Option<Ordering>) {
        let a = fold_char(self.0);
        let b = fold_char(other.0);
        if a < b {
            Some(Ordering::Less)
        } else if a == b {
            Some(Ordering::Equal)
        } else {
            Some(Ordering::Greater)
        }
    }
}

impl PartialOrdSpecImpl for Letter {
    open spec fn obeys_partial_cmp_spec() -> bool {
        true
    }

    open spec fn partial_cmp_spec(&self, other: &Self) -> Option<Ordering> {
        if fold(self.0) < fold(other.0) {
            Some(Ordering::Less)
        } else if fold(self.0) == fold(other.0) {
            Some(Ordering::Equal)
        } else {
            Some(Ordering::Greater)
        }
    }
}

/// How the game talks to the player.
#[derive(Debug, Clone, Copy, PartialEq, Eq, Structural)]
pub enum Mode {
    /// Plain lines, for a program at the other end.
    Test,
    /// Coloured lines, for a person at a terminal.
    Interactive,
    /// A full-screen board in the terminal.
    Tui,
}

impl Default for Mode {
    /// Plain lines.
    fn default() -> (m: Mode)
        ensures
            m == Mode::Test,
    {
        Mode::Test
    }
}

} // verus!

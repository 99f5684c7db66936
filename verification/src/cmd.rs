//! Play by lines of text: what a line typed by the player does to the game,
//! and what the game has to say in return.

use vstd::prelude::*;
use crate::difficult::{has_kind, of_kind};
use crate::keyboard::{known, lookup};
use crate::round::Round;
use crate::state::{Letter, LetterState};
use crate::text::{chars_of, string_of, trimmed};
use crate::word::{fresh, text_of, Word};
use crate::wordle::{CheckResult, Wordle, MAX_RETRY_TIMES};

verus! {

/// The letter keys of a keyboard, row by row.
pub const KEYBOARD_KEYS: [char; 26] = [
    'Q', 'W', 'E', 'R', 'T', 'Y', 'U', 'I', 'O', 'P', 'A', 'S', 'D', 'F', 'G', 'H', 'J', 'K', 'L',
    'Z', 'X', 'C', 'V', 'B', 'N', 'M',
];

/// What a line typed by the player came to.
#[derive(Debug, Clone, Copy, PartialEq, Eq, Structural)]
pub enum Turn {
    /// The round had ended before; the line was not looked at.
    Over,
    /// The line is no word of five letters, or the word is in neither
    /// list. No attempt is used up.
    Invalid,
    /// Difficult mode refuses the word. No attempt is used up.
    Difficult,
    /// The word is not the secret word, and attempts are left.
    Wrong,
    /// The word is the secret word; the number says on which attempt.
    Correct(u32),
    /// The word is not the secret word, and it was the last attempt.
    Failed,
}

/// The character that stands for a state in a line of plain text.
pub open spec fn state_char(state: LetterState) -> char {
    match state {
        LetterState::G => 'G',
        LetterState::Y => 'Y',
        LetterState::R => 'R',
        LetterState::X => 'X',
    }
}

/// The state on show for a key: what is known of its letter, or `X` where
/// nothing is.
pub open spec fn shown(letters: Seq<Letter>, key: char) -> LetterState {
    match known(letters, key) {
        Some(state) => state,
        None => LetterState::X,
    }
}

/// The states of the letter keys, one character for each key.
pub open spec fn keyboard_text(letters: Seq<Letter>) -> Seq<char> {
    Seq::new(26, |i: int| state_char(shown(letters, KEYBOARD_KEYS[i])))
}

/// The text of the guess that was scored last; empty before the first.
pub open spec fn last_guess_text(history: Seq<Seq<Letter>>) -> Seq<char> {
    if history.len() == 0 {
        Seq::empty()
    } else {
        text_of(history.last())
    }
}

/// A round with the guess in progress replaced by what a line spells.
pub open spec fn typed(round: Round, line: Seq<char>) -> Round {
    Round { guess: fresh(trimmed(line)), ..round }
}

/// What a line typed by the player comes to.
pub open spec fn turn_of(round: Round, line: Seq<char>) -> Turn {
    if round.over {
        Turn::Over
    } else if trimmed(line).len() != 5 {
        Turn::Invalid
    } else {
        match typed(round, line).verdict_due() {
            CheckResult::InValid => Turn::Invalid,
            CheckResult::Difficult => Turn::Difficult,
            CheckResult::Success => Turn::Correct(typed(round, line).submitted().tries),
            CheckResult::Wrong => if typed(round, line).submitted().over {
                Turn::Failed
            } else {
                Turn::Wrong
            },
        }
    }
}

/// The character that stands for a state in a line of plain text.
pub fn state_letter(state: LetterState) -> (c: char)
    ensures
        c == state_char(state),
{
    match state {
        LetterState::G => 'G',
        LetterState::Y => 'Y',
        LetterState::R => 'R',
        LetterState::X => 'X',
    }
}

impl Wordle {
    /// Whether the player may guess again: the round is not over and an
    /// attempt is left.
    pub fn attempts_left(&self) -> (b: bool)
        ensures
            b == (!self@.over && self@.tries < MAX_RETRY_TIMES),
    {
        !self.game_over && self.states.current_try_times < MAX_RETRY_TIMES
    }

    /// Counts the days before the given one as attempts used up, where the
    /// secret word is drawn and the options name a day from 1 to 6. Else
    /// nothing changes.
    pub fn begin_at_day(&mut self)
        ensures
            final(self)@ == (Round {
                tries: match old(self)@.opt.day {
                    Some(day) if old(self)@.opt.random && 1 <= day <= MAX_RETRY_TIMES => day,
                    _ => old(self)@.tries,
                },
                ..old(self)@
            }),
            final(self).same_frame(old(self)),
            old(self).wf() ==> final(self).wf(),
    {
        if self.opt.random {
            match self.opt.day {
                Some(day) => {
                    if 1 <= day && day <= MAX_RETRY_TIMES {
                        self.states.current_try_times = day;
                    }
                },
                None => {},
            }
        }
    }

    /// Plays a line typed by the player. A round that is over ignores it. A
    /// line that does not spell five characters is invalid and changes
    /// nothing. Any other line becomes the guess in progress and is
    /// submitted as [`Wordle::submit_guess`] does.
    pub fn play(&mut self, line: &str) -> (turn: Turn)
        ensures
            turn == turn_of(old(self)@, line@),
            final(self)@ == if old(self)@.over || trimmed(line@).len() != 5 {
                old(self)@
            } else {
                typed(old(self)@, line@).submitted()
            },
            final(self).same_frame(old(self)),
            old(self).wf() ==> final(self).wf(),
    {
        if self.game_over {
            return Turn::Over;
        }
        let word = match Word::parse(line) {
            Ok(word) => word,
            Err(_) => {
                return Turn::Invalid;
            },
        };
        self.states.current_word = word;
        assert(self@ =~= typed(old(self)@, line@));
        match self.submit_guess() {
            Some(CheckResult::InValid) => Turn::Invalid,
            Some(CheckResult::Difficult) => Turn::Difficult,
            Some(CheckResult::Success) => Turn::Correct(self.states.current_try_times),
            Some(CheckResult::Wrong) => {
                if self.game_over {
                    Turn::Failed
                } else {
                    Turn::Wrong
                }
            },
            None => Turn::Invalid,
        }
    }

    /// The states of the letter keys as text: for each key of
    /// [`KEYBOARD_KEYS`] the character of the state that is known of its
    /// letter.
    pub fn keyboard_line(&self) -> (line: String)
        ensures
            line@ == keyboard_text(self.cached_letter_states@),
    {
        let mut chars: Vec<char> = Vec::new();
        let mut i: usize = 0;
        while i < 26
            invariant
                i <= 26,
                chars@.len() == i,
                forall|k: int|
                    0 <= k < i ==> chars@[k] == state_char(
                        shown(self.cached_letter_states@, KEYBOARD_KEYS[k]),
                    ),
            decreases 26 - i,
        {
            let state = match lookup(&self.cached_letter_states, KEYBOARD_KEYS[i]) {
                Some(state) => state,
                None => LetterState::X,
            };
            chars.push(state_letter(state));
            i += 1;
        }
        assert(chars@ =~= keyboard_text(self.cached_letter_states@));
        string_of(&chars)
    }

    /// The line that reports a scored guess in plain text: the guess that
    /// was scored last, a blank, and the states of the letter keys.
    pub fn test_line(&self) -> (line: String)
        ensures
            line@ == last_guess_text(self@.history) + seq![' '] + keyboard_text(
                self.cached_letter_states@,
            ),
    {
        let mut chars: Vec<char> = if self.history_words.len() == 0 {
            Vec::new()
        } else {
            self.history_words[self.history_words.len() - 1].letters()
        };
        chars.push(' ');
        let keys = self.keyboard_line();
        let key_chars = chars_of(keys.as_str());
        let mut i: usize = 0;
        let ghost head = chars@;
        while i < key_chars.len()
            invariant
                i <= key_chars.len(),
                chars@ == head + key_chars@.take(i as int),
            decreases key_chars.len() - i,
        {
            chars.push(key_chars[i]);
            assert(chars@ =~= head + key_chars@.take(i + 1));
            i += 1;
        }
        assert(key_chars@.take(key_chars.len() as int) =~= key_chars@);
        assert(chars@ =~= last_guess_text(self@.history) + seq![' '] + keyboard_text(
            self.cached_letter_states@,
        ));
        string_of(&chars)
    }

    /// The violations to show the player: the broken green places where
    /// there are any, else the missing yellow letters. Nothing is shown
    /// where difficult mode is off.
    pub fn difficult_report(&self) -> (list: Vec<(usize, Letter)>)
        ensures
            list@ == if !self.opt.difficult {
                Seq::<(usize, Letter)>::empty()
            } else if has_kind(self.difficult_error_letters@, LetterState::G) {
                of_kind(self.difficult_error_letters@, LetterState::G)
            } else {
                of_kind(self.difficult_error_letters@, LetterState::Y)
            },
    {
        let mut list: Vec<(usize, Letter)> = Vec::new();
        if !self.opt.difficult {
            return list;
        }
        let greens = self.get_diffcult_errors_in_green();
        let picked = if greens.len() > 0 {
            greens
        } else {
            self.get_diffcult_errors_in_yellow()
        };
        proof {
            lemma_kind_present(self.difficult_error_letters@, LetterState::G);
        }
        let mut i: usize = 0;
        while i < picked.len()
            invariant
                i <= picked.len(),
                list@.len() == i,
                forall|k: int| 0 <= k < i ==> list@[k] == *picked@[k],
            decreases picked.len() - i,
        {
            list.push(*picked[i]);
            i += 1;
        }
        assert(list@ =~= if has_kind(self.difficult_error_letters@, LetterState::G) {
            of_kind(self.difficult_error_letters@, LetterState::G)
        } else {
            of_kind(self.difficult_error_letters@, LetterState::Y)
        });
        list
    }
}

proof fn lemma_kind_present(list: Seq<(usize, Letter)>, kind: LetterState)
    ensures
        has_kind(list, kind) == (of_kind(list, kind).len() > 0),
    decreases list.len(),
{
    reveal(Seq::filter);
    if list.len() > 0 {
        lemma_kind_present(list.drop_last(), kind);
        if has_kind(list, kind) {
            let k = choose|k: int| 0 <= k < list.len() && (#[trigger] list[k]).1.1 == kind;
            if k < list.len() - 1 {
                assert(list.drop_last()[k] == list[k]);
            }
        }
        if has_kind(list.drop_last(), kind) {
            let k = choose|k: int|
                0 <= k < list.drop_last().len() && (#[trigger] list.drop_last()[k]).1.1 == kind;
            assert(list[k] == list.drop_last()[k]);
        }
    }
}

} // verus!

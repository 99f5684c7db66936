//! The part of a round that changes with every key: the guess in progress,
//! the attempts used up, and the last verdict.

use vstd::prelude::*;
use crate::state::Letter;
use crate::word::Word;
use crate::wordle::CheckResult;

verus! {

/// The guess in progress and the count of attempts.
#[derive(Debug)]
pub struct States {
    /// The guess being typed.
    pub current_word: Word,
    /// Whether the guess being typed was already judged, which closes it to
    /// editing.
    pub current_word_checked: bool,
    /// How many attempts of the round are used up.
    pub current_try_times: u32,
    /// The verdict on the guess submitted last, if any was.
    pub current_checked_result: Option<CheckResult>,
    /// Whether the player asked to leave.
    pub should_quit: bool,
}

impl States {
    /// Whether this is the state a round starts in: no letter typed, no
    /// attempt used, no verdict.
    pub open spec fn is_initial(&self) -> bool {
        &&& self.current_word@.len() == 0
        &&& !self.current_word_checked
        &&& self.current_try_times == 0
        &&& self.current_checked_result is None
        &&& !self.should_quit
    }

    /// Takes the last letter off the guess in progress; does nothing when
    /// the guess was judged or has no letter.
    pub fn pop(&mut self)
        ensures
            final(self).current_word@ == if old(self).current_word_checked || old(
                self,
            ).current_word@.len() == 0 {
                old(self).current_word@
            } else {
                old(self).current_word@.drop_last()
            },
            final(self).current_word_checked == old(self).current_word_checked,
            final(self).current_try_times == old(self).current_try_times,
            final(self).current_checked_result == old(self).current_checked_result,
            final(self).should_quit == old(self).should_quit,
    {
        if self.current_word_checked || self.current_word.is_empty() {
            return ;
        }
        self.current_word.pop();
    }

    /// Adds a letter to the guess in progress; does nothing when the guess
    /// was judged or is complete.
    pub fn push(&mut self, ch: char)
        ensures
            final(self).current_word@ == if !old(self).current_word_checked && old(
                self,
            ).current_word@.len() < 5 {
                old(self).current_word@.push(Letter::blank(ch))
            } else {
                old(self).current_word@
            },
            final(self).current_word_checked == old(self).current_word_checked,
            final(self).current_try_times == old(self).current_try_times,
            final(self).current_checked_result == old(self).current_checked_result,
            final(self).should_quit == old(self).should_quit,
    {
        if !self.current_word_checked {
            self.current_word.push(ch);
        }
    }

    /// Moves on to the next attempt: one more attempt is used up, the last
    /// verdict is kept, and the guess in progress starts empty.
    pub fn next_state(&mut self)
        requires
            old(self).current_try_times < u32::MAX,
        ensures
            final(self).current_word@.len() == 0,
            !final(self).current_word_checked,
            final(self).current_try_times == old(self).current_try_times + 1,
            final(self).current_checked_result == old(self).current_checked_result,
            !final(self).should_quit,
    {
        *self = States {
            current_word: Word::default(),
            current_word_checked: false,
            current_try_times: self.current_try_times + 1,
            current_checked_result: self.current_checked_result,
            should_quit: false,
        }
    }

    /// Goes back to the state a round starts in.
    pub fn reset(&mut self)
        ensures
            final(self).is_initial(),
    {
        *self = States::default();
    }
}

impl Default for States {
    /// The state a round starts in.
    fn default() -> (s: States)
        ensures
            s.is_initial(),
    {
        States {
            current_word: Word::default(),
            current_word_checked: false,
            current_try_times: 0,
            current_checked_result: None,
            should_quit: false,
        }
    }
}

impl Clone for States {
    fn clone(&self) -> (s: States)
        ensures
            s.current_word@ == self.current_word@,
            s.current_word_checked == self.current_word_checked,
            s.current_try_times == self.current_try_times,
            s.current_checked_result == self.current_checked_result,
            s.should_quit == self.should_quit,
    {
        States {
            current_word: self.current_word.clone(),
            current_word_checked: self.current_word_checked,
            current_try_times: self.current_try_times,
            current_checked_result: self.current_checked_result,
            should_quit: self.should_quit,
        }
    }
}

} // verus!

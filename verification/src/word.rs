//! Words: up to five letters, each with what is known about it.

use vstd::prelude::*;
use vstd::std_specs::cmp::PartialEqSpecImpl;
use vstd::string::StringExecFns;
use crate::error::WordError;
use crate::score::{score, score_chars};
use crate::state::{fold, fold_char, Letter, LetterState};
use crate::text::{string_of, trimmed, trimmed_chars};

verus! {

/// A word under construction or complete: at most [`Word::MAX_LENGTH`]
/// letters, complete when it has exactly that many.
#[derive(Debug)]
pub struct Word {
    letters: Vec<Letter>,
}

impl View for Word {
    type V = Seq<Letter>;

    closed spec fn view(&self) -> Seq<Letter> {
        self.letters@
    }
}

/// The characters of some letters, states left aside.
pub open spec fn text_of(letters: Seq<Letter>) -> Seq<char> {
    Seq::new(letters.len(), |i: int| letters[i].0)
}

/// The folded characters of some letters: what two words are compared by.
pub open spec fn key_of(letters: Seq<Letter>) -> Seq<char> {
    Seq::new(letters.len(), |i: int| fold(letters[i].0))
}

/// The given characters as letters nothing is known about.
pub open spec fn fresh(chars: Seq<char>) -> Seq<Letter> {
    Seq::new(chars.len(), |i: int| Letter::blank(chars[i]))
}

/// The letters of a guess with the states that scoring it against a target
/// gives them. The characters stay as they are; states that the guess had
/// before play no part.
pub open spec fn scored(guess: Seq<Letter>, target: Seq<Letter>) -> Seq<Letter> {
    Seq::new(
        guess.len(),
        |i: int| guess[i].with_state(score(key_of(guess), key_of(target))[i]),
    )
}

impl Word {
    /// The number of letters of a complete word.
    pub const MAX_LENGTH: usize = 5;

    /// A word never has more than five letters.
    pub open spec fn wf(&self) -> bool {
        self@.len() <= 5
    }

    /// The word that the given characters spell, if they are exactly five.
    pub fn from_chars(chars: &Vec<char>) -> (r: Result<Word, WordError>)
        ensures
            match r {
                Ok(w) => chars@.len() == 5 && w@ == fresh(chars@),
                Err(e) => chars@.len() != 5 && e.is_invalid_word("word must be 5-letter"@),
            },
    {
        if chars.len() != Self::MAX_LENGTH {
            return Err(WordError::InValidWord(String::from_str("word must be 5-letter")));
        }
        let mut letters: Vec<Letter> = Vec::new();
        let mut i: usize = 0;
        while i < chars.len()
            invariant
                i <= chars.len(),
                letters@ == fresh(chars@.take(i as int)),
            decreases chars.len() - i,
        {
            letters.push(Letter::new(chars[i]));
            assert(letters@ =~= fresh(chars@.take(i + 1)));
            i += 1;
        }
        assert(chars@.take(chars.len() as int) =~= chars@);
        Ok(Word { letters })
    }

    /// Reads a word from text: white space around it is dropped, and what is
    /// left must be exactly five characters.
    pub fn parse(word: &str) -> (r: Result<Word, WordError>)
        ensures
            match r {
                Ok(w) => trimmed(word@).len() == 5 && w@ == fresh(trimmed(word@)),
                Err(e) => trimmed(word@).len() != 5 && e.is_invalid_word(
                    "word must be 5-letter"@,
                ),
            },
    {
        let chars = trimmed_chars(word);
        Self::from_chars(&chars)
    }

    /// Restyles a copy of the letter at `index`. Letters are plain values, so
    /// the word itself keeps the state it had.
    pub fn set_state(&mut self, index: usize, state: LetterState)
        requires
            index < old(self)@.len(),
        ensures
            final(self)@ == old(self)@,
    {
        let mut letter = self.letters[index];
        letter.set_state(state);
    }

    /// The characters of the word, states left aside.
    pub fn letters(&self) -> (chars: Vec<char>)
        ensures
            chars@ == text_of(self@),
    {
        let mut chars: Vec<char> = Vec::new();
        let mut i: usize = 0;
        while i < self.letters.len()
            invariant
                i <= self.letters.len(),
                chars@ == text_of(self.letters@.take(i as int)),
            decreases self.letters.len() - i,
        {
            chars.push(self.letters[i].0);
            assert(chars@ =~= text_of(self.letters@.take(i + 1)));
            i += 1;
        }
        assert(self.letters@.take(self.letters.len() as int) =~= self.letters@);
        chars
    }

    /// The folded characters of the word.
    pub fn key(&self) -> (chars: Vec<char>)
        ensures
            chars@ == key_of(self@),
    {
        let mut chars: Vec<char> = Vec::new();
        let mut i: usize = 0;
        while i < self.letters.len()
            invariant
                i <= self.letters.len(),
                chars@ == key_of(self.letters@.take(i as int)),
            decreases self.letters.len() - i,
        {
            chars.push(fold_char(self.letters[i].0));
            assert(chars@ =~= key_of(self.letters@.take(i + 1)));
            i += 1;
        }
        assert(self.letters@.take(self.letters.len() as int) =~= self.letters@);
        chars
    }

    /// The letters of the word.
    pub fn get_letters(&self) -> (letters: &[Letter])
        ensures
            letters@ == self@,
    {
        self.letters.as_slice()
    }

    /// The letters of the word, open to change. Whoever changes them answers
    /// for [`Word::wf`].
    pub fn get_mut_letters(&mut self) -> (letters: &mut Vec<Letter>)
        ensures
            letters@ == old(self)@,
            final(self)@ == final(letters)@,
    {
        &mut self.letters
    }

    /// Appends a letter, unless the word is complete.
    pub fn push(&mut self, ch: char)
        ensures
            old(self)@.len() < 5 ==> final(self)@ == old(self)@.push(Letter::blank(ch)),
            old(self)@.len() >= 5 ==> final(self)@ == old(self)@,
            old(self).wf() ==> final(self).wf(),
    {
        if self.letters.len() < Self::MAX_LENGTH {
            self.letters.push(Letter::new(ch));
        }
    }

    /// Removes the last letter, if there is one.
    pub fn pop(&mut self)
        ensures
            old(self)@.len() > 0 ==> final(self)@ == old(self)@.drop_last(),
            old(self)@.len() == 0 ==> final(self)@ == old(self)@,
            old(self).wf() ==> final(self).wf(),
    {
        if self.letters.len() > 0 {
            self.letters.pop();
        }
    }

    /// Whether the word is complete.
    pub fn is_full(&self) -> (b: bool)
        ensures
            b == (self@.len() == 5),
    {
        self.letters.len() == Self::MAX_LENGTH
    }

    /// Whether the word has no letter yet.
    pub fn is_empty(&self) -> (b: bool)
        ensures
            b == (self@.len() == 0),
    {
        self.letters.len() == 0
    }

    /// Five blanks: what an unused row of the board shows.
    pub fn whitespace_word_for_render() -> (w: Word)
        ensures
            w@ == fresh(seq![' ', ' ', ' ', ' ', ' ']),
    {
        let mut letters: Vec<Letter> = Vec::new();
        letters.push(Letter::new(' '));
        letters.push(Letter::new(' '));
        letters.push(Letter::new(' '));
        letters.push(Letter::new(' '));
        letters.push(Letter::new(' '));
        assert(letters@ =~= fresh(seq![' ', ' ', ' ', ' ', ' ']));
        Word { letters }
    }

    /// Scores this guess against the secret word: every letter gets its
    /// state, every character stays. Where the two differ in length, a place
    /// that the secret word lacks is no match.
    pub fn diff(&mut self, final_word: &Word)
        ensures
            final(self)@ == scored(old(self)@, final_word@),
    {
        let guess = self.key();
        let target = final_word.key();
        let states = score_chars(&guess, &target);
        let n = self.letters.len();
        let mut i: usize = 0;
        while i < n
            invariant
                i <= n,
                n == self.letters.len(),
                n == old(self)@.len(),
                states@ == score(key_of(old(self)@), key_of(final_word@)),
                forall|k: int| 0 <= k < i ==> self.letters@[k] == scored(old(self)@, final_word@)[k],
                forall|k: int| i <= k < n ==> self.letters@[k] == old(self)@[k],
            decreases n - i,
        {
            let letter = Letter(self.letters[i].0, states[i]);
            self.letters.set(i, letter);
            i += 1;
        }
        assert(self.letters@ =~= scored(old(self)@, final_word@));
    }

    /// The characters of the word as a string, states left aside.
    pub fn to_string(&self) -> (s: String)
        ensures
            s@ == text_of(self@),
    {
        let chars = self.letters();
        string_of(&chars)
    }
}

/// Scoring a guess that already carries the states of an earlier scoring
/// against the same target gives the same states again.
pub proof fn lemma_scored_twice(guess: Seq<Letter>, target: Seq<Letter>)
    ensures
        scored(scored(guess, target), target) == scored(guess, target),
{
    assert(key_of(scored(guess, target)) =~= key_of(guess));
    assert(scored(scored(guess, target), target) =~= scored(guess, target));
}

/// The states that scoring gives depend on the folded characters of guess
/// and target alone: neither on the case in which they were typed nor on
/// states they carried before.
pub proof fn lemma_scored_by_key(a: Seq<Letter>, b: Seq<Letter>, s: Seq<Letter>, t: Seq<Letter>)
    requires
        key_of(a) == key_of(b),
        key_of(s) == key_of(t),
    ensures
        scored(a, s).len() == scored(b, t).len(),
        forall|i: int| 0 <= i < a.len() ==> scored(a, s)[i].1 == scored(b, t)[i].1,
{
    assert(a.len() == key_of(a).len());
    assert(b.len() == key_of(b).len());
}

impl Default for Word {
    /// The word without letters.
    fn default() -> (w: Word)
        ensures
            w@.len() == 0,
    {
        Word { letters: Vec::new() }
    }
}

impl Clone for Word {
    fn clone(&self) -> (w: Word)
        ensures
            w@ == self@,
    {
        let mut letters: Vec<Letter> = Vec::new();
        let mut i: usize = 0;
        while i < self.letters.len()
            invariant
                i <= self.letters.len(),
                letters@ == self.letters@.take(i as int),
            decreases self.letters.len() - i,
        {
            letters.push(self.letters[i]);
            i += 1;
        }
        assert(self.letters@.take(self.letters.len() as int) =~= self.letters@);
        Word { letters }
    }
}

impl PartialEq for Word {
    fn eq(&self, other: &Self) -> (r: bool) {
        let a = self.key();
        let b = other.key();
        if a.len() != b.len() {
            return false;
        }
        let mut i: usize = 0;
        while i < a.len()
            invariant
                i <= a.len(),
                a.len() == b.len(),
                a@ == key_of(self@),
                b@ == key_of(other@),
                forall|k: int| 0 <= k < i ==> a@[k] == b@[k],
            decreases a.len() - i,
        {
            if a[i] != b[i] {
                return false;
            }
            i += 1;
        }
        assert(a@ =~= b@);
        true
    }
}

impl PartialEqSpecImpl for Word {
    open spec fn obeys_eq_spec() -> bool {
        true
    }

    open spec fn eq_spec(&self, other: &Self) -> bool {
        key_of(self@) == key_of(other@)
    }
}

impl Eq for Word {}

} // verus!

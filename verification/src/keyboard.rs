//! What the guesses of a round have revealed about each letter of the
//! keyboard.
//!
//! The knowledge is kept as a list of letters, one entry for each letter
//! seen. What is known of a character is the most informative state among
//! the entries that hold it.

use vstd::prelude::*;
use crate::state::{fold, fold_char, Letter, LetterState};
use crate::word::Word;

verus! {

/// A state joined to what was known before: the more informative of the
/// two, or the state itself where nothing was known.
pub open spec fn joined(before: Option<LetterState>, state: LetterState) -> LetterState {
    match before {
        None => state,
        Some(earlier) => earlier.best(state),
    }
}

/// The most informative state that `letters` holds for the character `c`,
/// compared in folded form; `None` where no entry holds it.
pub open spec fn known(letters: Seq<Letter>, c: char) -> Option<LetterState>
    decreases letters.len(),
{
    if letters.len() == 0 {
        None
    } else {
        let before = known(letters.drop_last(), c);
        if fold(letters.last().0) == fold(c) {
            Some(joined(before, letters.last().1))
        } else {
            before
        }
    }
}

/// The place of the first entry that holds the letter of `c`; the length
/// of the list where no entry holds it.
pub open spec fn first_place(letters: Seq<Letter>, c: char) -> int
    decreases letters.len(),
{
    if letters.len() == 0 || fold(letters[0].0) == fold(c) {
        0
    } else {
        1 + first_place(letters.drop_first(), c)
    }
}

/// The list with one letter joined in: the first entry of that letter
/// keeps its place and its character and takes the more informative state;
/// a letter without an entry is added at the end.
pub open spec fn merged(letters: Seq<Letter>, letter: Letter) -> Seq<Letter> {
    let place = first_place(letters, letter.0);
    if place < letters.len() {
        letters.update(place, letters[place].with_state(letters[place].1.best(letter.1)))
    } else {
        letters.push(letter)
    }
}

/// The list with the letters of a word joined in, one after the other.
pub open spec fn merged_word(letters: Seq<Letter>, word: Seq<Letter>) -> Seq<Letter>
    decreases word.len(),
{
    if word.len() == 0 {
        letters
    } else {
        merged(merged_word(letters, word.drop_last()), word.last())
    }
}

/// No two entries hold the same letter.
pub open spec fn distinct(letters: Seq<Letter>) -> bool {
    forall|i: int, j: int|
        0 <= i < j < letters.len() ==> fold(#[trigger] letters[i].0) != fold(
            #[trigger] letters[j].0,
        )
}

proof fn lemma_first_place(letters: Seq<Letter>, c: char, j: int)
    requires
        0 <= j <= letters.len(),
        forall|k: int| 0 <= k < j ==> fold(#[trigger] letters[k].0) != fold(c),
        j == letters.len() || fold(letters[j].0) == fold(c),
    ensures
        first_place(letters, c) == j,
    decreases j,
{
    if j > 0 {
        let rest = letters.drop_first();
        assert forall|k: int| 0 <= k < j - 1 implies fold(#[trigger] rest[k].0) != fold(c) by {
            assert(rest[k] == letters[k + 1]);
        }
        assert(fold(letters[0].0) != fold(c));
        lemma_first_place(rest, c, j - 1);
    }
}

proof fn lemma_known_present(letters: Seq<Letter>, c: char, j: int)
    requires
        0 <= j < letters.len(),
        fold(letters[j].0) == fold(c),
    ensures
        known(letters, c) matches Some(state) && state.severity() <= letters[j].1.severity(),
    decreases letters.len(),
{
    if j < letters.len() - 1 {
        lemma_known_present(letters.drop_last(), c, j);
    }
}

proof fn lemma_known_improved(letters: Seq<Letter>, j: int, state: LetterState, c: char)
    requires
        0 <= j < letters.len(),
    ensures
        known(letters.update(j, letters[j].with_state(letters[j].1.best(state))), c) == if fold(
            letters[j].0,
        ) == fold(c) {
            Some(joined(known(letters, c), state))
        } else {
            known(letters, c)
        },
    decreases letters.len(),
{
    let changed = letters.update(j, letters[j].with_state(letters[j].1.best(state)));
    if j < letters.len() - 1 {
        lemma_known_improved(letters.drop_last(), j, state, c);
        assert(changed.drop_last() =~= letters.drop_last().update(
            j,
            letters[j].with_state(letters[j].1.best(state)),
        ));
        if fold(letters[j].0) == fold(c) {
            lemma_known_present(letters.drop_last(), c, j);
        }
    } else {
        assert(changed.drop_last() =~= letters.drop_last());
    }
}

/// What is known after more letters were joined in is what is known of all
/// the letters together.
pub proof fn lemma_known_push(letters: Seq<Letter>, letter: Letter, c: char)
    ensures
        known(letters.push(letter), c) == if fold(letter.0) == fold(c) {
            Some(joined(known(letters, c), letter.1))
        } else {
            known(letters, c)
        },
{
    assert(letters.push(letter).drop_last() =~= letters);
}

/// Knowledge never gets worse: once a character has a state, joining in
/// more letters leaves it a state that is at least as informative. A letter
/// known green stays green whatever a later guess says of it.
pub proof fn lemma_known_never_worse(letters: Seq<Letter>, more: Seq<Letter>, c: char)
    ensures
        known(letters, c) matches Some(before) ==> (known(letters + more, c) matches Some(after)
            && after.severity() <= before.severity()),
        known(letters, c) == Some(LetterState::G) ==> known(letters + more, c) == Some(
            LetterState::G,
        ),
    decreases more.len(),
{
    if more.len() == 0 {
        assert(letters + more =~= letters);
    } else {
        lemma_known_never_worse(letters, more.drop_last(), c);
        assert((letters + more).drop_last() =~= letters + more.drop_last());
    }
}

/// Joins one letter into the knowledge: a letter not seen before gets an
/// entry; a letter seen before keeps its entry, whose state is replaced only
/// by a more informative one.
pub fn merge_letter(letters: &mut Vec<Letter>, letter: Letter)
    ensures
        forall|c: char| #[trigger]
            known(final(letters)@, c) == if fold(letter.0) == fold(c) {
                Some(joined(known(old(letters)@, c), letter.1))
            } else {
                known(old(letters)@, c)
            },
        final(letters)@ == merged(old(letters)@, letter),
        distinct(old(letters)@) ==> distinct(final(letters)@),
{
    let key = fold_char(letter.0);
    let mut j: usize = 0;
    while j < letters.len() && fold_char(letters[j].0) != key
        invariant
            j <= letters.len(),
            key == fold(letter.0),
            *letters == *old(letters),
            forall|k: int| 0 <= k < j ==> fold(#[trigger] letters@[k].0) != key,
        decreases letters.len() - j,
    {
        j += 1;
    }
    proof {
        lemma_first_place(letters@, letter.0, j as int);
    }
    if j < letters.len() {
        let entry = letters[j];
        let state = entry.1.merge(letter.1);
        proof {
            assert forall|c: char| #[trigger]
                known(old(letters)@.update(j as int, entry.with_state(state)), c) == if fold(
                    letter.0,
                ) == fold(c) {
                    Some(joined(known(old(letters)@, c), letter.1))
                } else {
                    known(old(letters)@, c)
                } by {
                lemma_known_improved(old(letters)@, j as int, letter.1, c);
            }
        }
        letters.set(j, Letter(entry.0, state));
    } else {
        proof {
            assert forall|c: char| #[trigger]
                known(old(letters)@.push(letter), c) == if fold(letter.0) == fold(c) {
                    Some(joined(known(old(letters)@, c), letter.1))
                } else {
                    known(old(letters)@, c)
                } by {
                lemma_known_push(old(letters)@, letter, c);
            }
        }
        letters.push(letter);
    }
}

/// Joins every letter of a scored word into the knowledge.
pub fn merge_word(letters: &mut Vec<Letter>, word: &Word)
    ensures
        forall|c: char| #[trigger] known(final(letters)@, c) == known(old(letters)@ + word@, c),
        final(letters)@ == merged_word(old(letters)@, word@),
        distinct(old(letters)@) ==> distinct(final(letters)@),
{
    let entries = word.get_letters();
    let mut i: usize = 0;
    assert(old(letters)@ + word@.take(0) =~= old(letters)@);
    while i < entries.len()
        invariant
            i <= entries.len(),
            entries@ == word@,
            forall|c: char| #[trigger]
                known(letters@, c) == known(old(letters)@ + word@.take(i as int), c),
            letters@ == merged_word(old(letters)@, word@.take(i as int)),
            distinct(old(letters)@) ==> distinct(letters@),
        decreases entries.len() - i,
    {
        let ghost before = letters@;
        merge_letter(letters, entries[i]);
        proof {
            assert((old(letters)@ + word@.take(i as int)).push(word@[i as int]) =~= old(letters)@
                + word@.take(i + 1));
            assert(word@.take(i + 1).drop_last() =~= word@.take(i as int));
            assert forall|c: char| #[trigger] known(letters@, c) == known(
                old(letters)@ + word@.take(i + 1),
                c,
            ) by {
                lemma_known_push(old(letters)@ + word@.take(i as int), word@[i as int], c);
                assert(known(before, c) == known(old(letters)@ + word@.take(i as int), c));
            }
        }
        i += 1;
    }
    assert(word@.take(entries.len() as int) =~= word@);
}

/// Looks up what is known of a character.
pub fn lookup(letters: &Vec<Letter>, c: char) -> (state: Option<LetterState>)
    ensures
        state == known(letters@, c),
{
    let key = fold_char(c);
    let mut state: Option<LetterState> = None;
    let mut i: usize = 0;
    assert(letters@.take(0) =~= Seq::<Letter>::empty());
    while i < letters.len()
        invariant
            i <= letters.len(),
            key == fold(c),
            state == known(letters@.take(i as int), c),
        decreases letters.len() - i,
    {
        let entry = letters[i];
        proof {
            assert(letters@.take(i + 1).drop_last() =~= letters@.take(i as int));
        }
        if fold_char(entry.0) == key {
            state = match state {
                None => Some(entry.1),
                Some(earlier) => Some(earlier.merge(entry.1)),
            };
        }
        i += 1;
    }
    assert(letters@.take(letters.len() as int) =~= letters@);
    state
}

} // verus!

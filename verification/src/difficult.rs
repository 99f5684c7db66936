//! Difficult mode: a guess must respect what earlier guesses revealed.
//!
//! A place that was green must hold the same letter again, and a letter
//! that was yellow must stand somewhere in the guess. What a guess fails to
//! respect is reported as a list of violations. A violation is a pair of a
//! place and a letter: for a green place, the place and the letter in state
//! `G`; for a missing yellow letter, place 0 and the letter in state `Y`.

use vstd::prelude::*;
use crate::state::{fold, fold_char, Letter, LetterState};
use crate::word::{key_of, Word};

verus! {

/// Whether some place of the guess holds the folded character `c`.
pub open spec fn holds(guess: Seq<Letter>, c: char) -> bool {
    exists|k: int| 0 <= k < guess.len() && #[trigger] key_of(guess)[k] == c
}

/// Whether place `i` of entry `w` of the history is green and the guess
/// holds another letter there, or nothing.
pub open spec fn green_case(history: Seq<Seq<Letter>>, guess: Seq<Letter>, w: int, i: int) -> bool {
    &&& 0 <= w < history.len()
    &&& 0 <= i < history[w].len()
    &&& history[w][i].1 == LetterState::G
    &&& !(i < guess.len() && fold(guess[i].0) == fold(history[w][i].0))
}

/// Whether place `i` of entry `w` of the history is yellow and the guess
/// holds its letter nowhere.
pub open spec fn yellow_case(history: Seq<Seq<Letter>>, guess: Seq<Letter>, w: int, i: int) -> bool {
    &&& 0 <= w < history.len()
    &&& 0 <= i < history[w].len()
    &&& history[w][i].1 == LetterState::Y
    &&& !holds(guess, fold(history[w][i].0))
}

/// Whether the guess breaks a green place: the history has the folded
/// character `c` green in place `i`, and the guess has not.
pub open spec fn green_broken(
    history: Seq<Seq<Letter>>,
    guess: Seq<Letter>,
    i: int,
    c: char,
) -> bool {
    exists|w: int| #[trigger] green_case(history, guess, w, i) && fold(history[w][i].0) == c
}

/// Whether the guess lacks a yellow letter: the history has the folded
/// character `c` yellow in some place, and the guess holds it nowhere.
pub open spec fn yellow_missing(history: Seq<Seq<Letter>>, guess: Seq<Letter>, c: char) -> bool {
    exists|w: int, i: int| #[trigger]
        yellow_case(history, guess, w, i) && fold(history[w][i].0) == c
}

/// The letters of each word of a history.
pub open spec fn views(history: Seq<Word>) -> Seq<Seq<Letter>> {
    Seq::new(history.len(), |w: int| history[w]@)
}

/// What a violation says: the place, the folded character, the kind.
pub open spec fn entry_key(entry: (usize, Letter)) -> (int, char, LetterState) {
    (entry.0 as int, fold(entry.1.0), entry.1.1)
}

/// What a list of violations says, order and repetition left aside.
pub open spec fn violation_set(list: Seq<(usize, Letter)>) -> Set<(int, char, LetterState)> {
    Set::new(
        |x: (int, char, LetterState)|
            exists|k: int| 0 <= k < list.len() && entry_key(#[trigger] list[k]) == x,
    )
}

/// The violations of a guess against a history.
pub open spec fn expected_violations(history: Seq<Seq<Letter>>, guess: Seq<Letter>) -> Set<
    (int, char, LetterState),
> {
    Set::new(
        |x: (int, char, LetterState)|
            (x.2 == LetterState::G && green_broken(history, guess, x.0, x.1)) || (x.2
                == LetterState::Y && x.0 == 0 && yellow_missing(history, guess, x.1)),
    )
}

/// No violation is listed twice.
pub open spec fn no_repeats(list: Seq<(usize, Letter)>) -> bool {
    forall|a: int, b: int|
        0 <= a < b < list.len() ==> entry_key(#[trigger] list[a]) != entry_key(#[trigger] list[b])
}

/// Whether a violation names a letter as the history has it: for a green
/// place the letter of that place, for a yellow letter place 0.
pub open spec fn from_history(history: Seq<Seq<Letter>>, entry: (usize, Letter)) -> bool {
    exists|w: int, i: int|
        0 <= w < history.len() && 0 <= i < history[w].len() && #[trigger] history[w][i] == entry.1
            && (entry.1.1 == LetterState::G ==> entry.0 == i) && (entry.1.1 == LetterState::Y
            ==> entry.0 == 0)
}

/// The broken green places stand before the missing yellow letters.
pub open spec fn greens_first(list: Seq<(usize, Letter)>) -> bool {
    forall|a: int, b: int|
        0 <= a < b < list.len() && (#[trigger] list[b]).1.1 == LetterState::G ==> (
        #[trigger] list[a]).1.1 == LetterState::G
}

/// Whether the list holds a violation of the given kind.
pub open spec fn has_kind(list: Seq<(usize, Letter)>, kind: LetterState) -> bool {
    exists|k: int| 0 <= k < list.len() && (#[trigger] list[k]).1.1 == kind
}

/// The violations of the given kind, in the order of the list.
pub open spec fn of_kind(list: Seq<(usize, Letter)>, kind: LetterState) -> Seq<(usize, Letter)> {
    list.filter(|entry: (usize, Letter)| entry.1.1 == kind)
}

/// Whether place `(w, i)` of the history comes before place `(w0, i0)`.
spec fn before(w: int, i: int, w0: int, i0: int) -> bool {
    w < w0 || (w == w0 && i < i0)
}

spec fn greens_done(
    history: Seq<Seq<Letter>>,
    guess: Seq<Letter>,
    list: Seq<(usize, Letter)>,
    w0: int,
    i0: int,
) -> bool {
    forall|w: int, i: int|
        #[trigger] green_case(history, guess, w, i) && before(w, i, w0, i0) ==> violation_set(
            list,
        ).contains((i, fold(history[w][i].0), LetterState::G))
}

spec fn yellows_done(
    history: Seq<Seq<Letter>>,
    guess: Seq<Letter>,
    list: Seq<(usize, Letter)>,
    w0: int,
    i0: int,
) -> bool {
    forall|w: int, i: int|
        #[trigger] yellow_case(history, guess, w, i) && before(w, i, w0, i0) ==> violation_set(
            list,
        ).contains((0, fold(history[w][i].0), LetterState::Y))
}

spec fn sound(history: Seq<Seq<Letter>>, guess: Seq<Letter>, list: Seq<(usize, Letter)>) -> bool {
    forall|k: int|
        0 <= k < list.len() ==> expected_violations(history, guess).contains(
            entry_key(#[trigger] list[k]),
        )
}

/// Adds a violation to the list unless the list says it already.
fn add_unique(list: &mut Vec<(usize, Letter)>, entry: (usize, Letter))
    ensures
        violation_set(final(list)@) == violation_set(old(list)@).insert(entry_key(entry)),
        no_repeats(old(list)@) ==> no_repeats(final(list)@),
        final(list)@ == old(list)@ || final(list)@ == old(list)@.push(entry),
{
    let key = fold_char(entry.1.0);
    let mut k: usize = 0;
    while k < list.len()
        invariant
            k <= list.len(),
            key == fold(entry.1.0),
            *list == *old(list),
            forall|j: int| 0 <= j < k ==> entry_key(#[trigger] list@[j]) != entry_key(entry),
        decreases list.len() - k,
    {
        let other = list[k];
        if other.0 == entry.0 && other.1.1 == entry.1.1 && fold_char(other.1.0) == key {
            assert(entry_key(list@[k as int]) == entry_key(entry));
            assert(violation_set(list@) =~= violation_set(list@).insert(entry_key(entry)));
            return ;
        }
        k += 1;
    }
    list.push(entry);
    proof {
        let before = old(list)@;
        let after = list@;
        assert forall|x: (int, char, LetterState)|
            violation_set(after).contains(x) == violation_set(before).insert(
                entry_key(entry),
            ).contains(x) by {
            if violation_set(after).contains(x) {
                let j = choose|j: int| 0 <= j < after.len() && entry_key(#[trigger] after[j]) == x;
                if j < before.len() {
                    assert(before[j] == after[j]);
                }
            }
            if violation_set(before).contains(x) {
                let j = choose|j: int|
                    0 <= j < before.len() && entry_key(#[trigger] before[j]) == x;
                assert(after[j] == before[j]);
            }
            if x == entry_key(entry) {
                assert(after[before.len() as int] == entry);
            }
        }
        assert(violation_set(after) =~= violation_set(before).insert(entry_key(entry)));
    }
}

/// Whether the folded characters hold `c`.
fn key_holds(key: &Vec<char>, c: char) -> (b: bool)
    ensures
        b == exists|k: int| 0 <= k < key@.len() && #[trigger] key@[k] == c,
{
    let mut k: usize = 0;
    while k < key.len()
        invariant
            k <= key.len(),
            forall|j: int| 0 <= j < k ==> #[trigger] key@[j] != c,
        decreases key.len() - k,
    {
        if key[k] == c {
            return true;
        }
        k += 1;
    }
    false
}

/// Holds a guess against the history of a round and lists what it fails to
/// respect: each violation once, the broken green places first. The guess
/// respects the history exactly when the list is empty.
pub fn validate(guess: &Word, history: &Vec<Word>) -> (list: Vec<(usize, Letter)>)
    ensures
        violation_set(list@) == expected_violations(views(history@), guess@),
        no_repeats(list@),
        greens_first(list@),
        forall|k: int| 0 <= k < list@.len() ==> from_history(views(history@), #[trigger] list@[k]),
{
    let ghost h = views(history@);
    let key = guess.key();
    let mut list: Vec<(usize, Letter)> = Vec::new();
    let mut w: usize = 0;
    while w < history.len()
        invariant
            w <= history.len(),
            key@ == key_of(guess@),
            h == views(history@),
            sound(h, guess@, list@),
            forall|k: int| 0 <= k < list@.len() ==> from_history(h, #[trigger] list@[k]),
            no_repeats(list@),
            forall|k: int| 0 <= k < list@.len() ==> (#[trigger] list@[k]).1.1 == LetterState::G,
            greens_done(h, guess@, list@, w as int, 0),
        decreases history.len() - w,
    {
        let letters = history[w].get_letters();
        let mut i: usize = 0;
        while i < letters.len()
            invariant
                w < history.len(),
                i <= letters.len(),
                letters@ == h[w as int],
                key@ == key_of(guess@),
                h == views(history@),
                sound(h, guess@, list@),
                forall|k: int| 0 <= k < list@.len() ==> from_history(h, #[trigger] list@[k]),
                no_repeats(list@),
                forall|k: int|
                    0 <= k < list@.len() ==> (#[trigger] list@[k]).1.1 == LetterState::G,
                greens_done(h, guess@, list@, w as int, i as int),
            decreases letters.len() - i,
        {
            let letter = letters[i];
            let c = fold_char(letter.0);
            let ghost earlier = list@;
            if letter.1 == LetterState::G && !(i < key.len() && key[i] == c) {
                assert(green_case(h, guess@, w as int, i as int));
                assert(h[w as int][i as int] == letter);
                assert(from_history(h, (i, letter)));
                add_unique(&mut list, (i, letter));
                assert(expected_violations(h, guess@).contains(entry_key((i, letter))));
            }
            proof {
                assert forall|k: int| 0 <= k < list@.len() implies expected_violations(
                    h,
                    guess@,
                ).contains(entry_key(#[trigger] list@[k])) by {
                    if k < earlier.len() {
                        assert(list@[k] == earlier[k]);
                    }
                }
                assert forall|w1: int, i1: int| #[trigger]
                    green_case(h, guess@, w1, i1) && before(
                        w1,
                        i1,
                        w as int,
                        i + 1,
                    ) implies violation_set(list@).contains(
                    (i1, fold(h[w1][i1].0), LetterState::G),
                ) by {
                    if before(w1, i1, w as int, i as int) {
                        assert(violation_set(earlier).contains(
                            (i1, fold(h[w1][i1].0), LetterState::G),
                        ));
                    }
                }
            }
            i += 1;
        }
        w += 1;
    }
    let mut w: usize = 0;
    while w < history.len()
        invariant
            w <= history.len(),
            key@ == key_of(guess@),
            h == views(history@),
            sound(h, guess@, list@),
            forall|k: int| 0 <= k < list@.len() ==> from_history(h, #[trigger] list@[k]),
            no_repeats(list@),
            greens_first(list@),
            greens_done(h, guess@, list@, history.len() as int, 0),
            yellows_done(h, guess@, list@, w as int, 0),
        decreases history.len() - w,
    {
        let letters = history[w].get_letters();
        let mut i: usize = 0;
        while i < letters.len()
            invariant
                w < history.len(),
                i <= letters.len(),
                letters@ == h[w as int],
                key@ == key_of(guess@),
                h == views(history@),
                sound(h, guess@, list@),
                forall|k: int| 0 <= k < list@.len() ==> from_history(h, #[trigger] list@[k]),
                no_repeats(list@),
                greens_first(list@),
                greens_done(h, guess@, list@, history.len() as int, 0),
                yellows_done(h, guess@, list@, w as int, i as int),
            decreases letters.len() - i,
        {
            let letter = letters[i];
            let c = fold_char(letter.0);
            let ghost earlier = list@;
            if letter.1 == LetterState::Y && !key_holds(&key, c) {
                assert(yellow_case(h, guess@, w as int, i as int));
                assert(h[w as int][i as int] == letter);
                assert(from_history(h, (0, letter)));
                add_unique(&mut list, (0, letter));
                assert(expected_violations(h, guess@).contains(entry_key((0, letter))));
            }
            proof {
                assert forall|k: int| 0 <= k < list@.len() implies expected_violations(
                    h,
                    guess@,
                ).contains(entry_key(#[trigger] list@[k])) by {
                    if k < earlier.len() {
                        assert(list@[k] == earlier[k]);
                    }
                }
                assert forall|w1: int, i1: int| #[trigger]
                    green_case(h, guess@, w1, i1) && before(
                        w1,
                        i1,
                        history.len() as int,
                        0,
                    ) implies violation_set(list@).contains(
                    (i1, fold(h[w1][i1].0), LetterState::G),
                ) by {
                    assert(violation_set(earlier).contains(
                        (i1, fold(h[w1][i1].0), LetterState::G),
                    ));
                }
                assert forall|w1: int, i1: int| #[trigger]
                    yellow_case(h, guess@, w1, i1) && before(
                        w1,
                        i1,
                        w as int,
                        i + 1,
                    ) implies violation_set(list@).contains(
                    (0, fold(h[w1][i1].0), LetterState::Y),
                ) by {
                    if before(w1, i1, w as int, i as int) {
                        assert(violation_set(earlier).contains(
                            (0, fold(h[w1][i1].0), LetterState::Y),
                        ));
                    }
                }
            }
            i += 1;
        }
        w += 1;
    }
    proof {
        assert forall|x: (int, char, LetterState)|
            violation_set(list@).contains(x) == expected_violations(h, guess@).contains(
                x,
            ) by {
            if violation_set(list@).contains(x) {
                let k = choose|k: int| 0 <= k < list@.len() && entry_key(#[trigger] list@[k]) == x;
                assert(expected_violations(h, guess@).contains(entry_key(list@[k])));
            }
            if expected_violations(h, guess@).contains(x) {
                if x.2 == LetterState::G {
                    let w1 = choose|w1: int| #[trigger]
                        green_case(h, guess@, w1, x.0) && fold(h[w1][x.0].0) == x.1;
                    assert(before(w1, x.0, history.len() as int, 0));
                } else {
                    let (w1, i1) = choose|w1: int, i1: int| #[trigger]
                        yellow_case(h, guess@, w1, i1) && fold(h[w1][i1].0) == x.1;
                    assert(before(w1, i1, history.len() as int, 0));
                }
            }
        }
        assert(violation_set(list@) =~= expected_violations(h, guess@));
    }
    list
}

} // verus!

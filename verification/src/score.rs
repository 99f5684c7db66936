//! The scoring engine: how a guess compares with the secret word.
//!
//! A guessed letter is green where it stands in the same place as in the
//! target. Every other guessed letter is matched, from left to right, with
//! one occurrence of the same character that the target holds in a place that
//! is not green; while such occurrences last the letter is yellow, after that
//! it is red. So no occurrence in the target is counted twice.
//!
//! The functions here work on characters that were already folded.

use vstd::prelude::*;
use crate::state::LetterState;

verus! {

/// Whether guess `g` has, in place `i`, the character that target `t` has
/// there.
pub open spec fn hit(g: Seq<char>, t: Seq<char>, i: int) -> bool {
    0 <= i < g.len() && i < t.len() && g[i] == t[i]
}

/// How often `c` stands among the first `n` places of the target in a place
/// that is not a hit: the occurrences that are left for yellow letters.
pub open spec fn spare(g: Seq<char>, t: Seq<char>, c: char, n: int) -> nat
    decreases n,
{
    if n <= 0 {
        0
    } else {
        spare(g, t, c, n - 1) + if n <= t.len() && t[n - 1] == c && !hit(g, t, n - 1) {
            1nat
        } else {
            0nat
        }
    }
}

/// How often `c` stands among the first `n` places of the guess in a place
/// that is not a hit: the letters that ask for one of the spare occurrences.
pub open spec fn asked(g: Seq<char>, t: Seq<char>, c: char, n: int) -> nat
    decreases n,
{
    if n <= 0 {
        0
    } else {
        asked(g, t, c, n - 1) + if n <= g.len() && g[n - 1] == c && !hit(g, t, n - 1) {
            1nat
        } else {
            0nat
        }
    }
}

/// The state of place `i` of guess `g` against target `t`.
pub open spec fn state_at(g: Seq<char>, t: Seq<char>, i: int) -> LetterState {
    if hit(g, t, i) {
        LetterState::G
    } else if asked(g, t, g[i], i) < spare(g, t, g[i], t.len() as int) {
        LetterState::Y
    } else {
        LetterState::R
    }
}

/// The states of all places of guess `g` against target `t`.
pub open spec fn score(g: Seq<char>, t: Seq<char>) -> Seq<LetterState> {
    Seq::new(g.len(), |i: int| state_at(g, t, i))
}

/// How often `c` stands among the first `n` places of `t` in a place that
/// `used` does not mark.
pub open spec fn unused(t: Seq<char>, used: Seq<bool>, c: char, n: int) -> nat
    decreases n,
{
    if n <= 0 {
        0
    } else {
        unused(t, used, c, n - 1) + if n <= t.len() && t[n - 1] == c && !used[n - 1] {
            1nat
        } else {
            0nat
        }
    }
}

/// What is left of the spare occurrences of `c` once the first `i` places of
/// the guess have taken theirs.
pub open spec fn left_over(g: Seq<char>, t: Seq<char>, c: char, i: int) -> nat {
    let all = spare(g, t, c, t.len() as int);
    let taken = asked(g, t, c, i);
    if taken < all {
        (all - taken) as nat
    } else {
        0
    }
}

proof fn lemma_unused_is_spare(g: Seq<char>, t: Seq<char>, used: Seq<bool>, c: char, n: int)
    requires
        used.len() == t.len(),
        n <= t.len(),
        forall|j: int| 0 <= j < t.len() ==> used[j] == hit(g, t, j),
    ensures
        unused(t, used, c, n) == spare(g, t, c, n),
    decreases n,
{
    if n > 0 {
        lemma_unused_is_spare(g, t, used, c, n - 1);
    }
}

proof fn lemma_unused_none(t: Seq<char>, used: Seq<bool>, c: char, n: int)
    requires
        used.len() == t.len(),
        n <= t.len(),
        forall|j: int| 0 <= j < n ==> !(t[j] == c && !used[j]),
    ensures
        unused(t, used, c, n) == 0,
    decreases n,
{
    if n > 0 {
        lemma_unused_none(t, used, c, n - 1);
    }
}

proof fn lemma_unused_some(t: Seq<char>, used: Seq<bool>, c: char, n: int, j: int)
    requires
        used.len() == t.len(),
        0 <= j < n <= t.len(),
        t[j] == c,
        !used[j],
    ensures
        unused(t, used, c, n) >= 1,
    decreases n,
{
    if n - 1 > j {
        lemma_unused_some(t, used, c, n - 1, j);
    }
}

proof fn lemma_unused_mark(t: Seq<char>, used: Seq<bool>, j: int, c: char, n: int)
    requires
        used.len() == t.len(),
        0 <= j < t.len(),
        n <= t.len(),
        !used[j],
    ensures
        unused(t, used.update(j, true), c, n) == unused(t, used, c, n) - if j < n && t[j] == c {
            1int
        } else {
            0int
        },
    decreases n,
{
    if n > 0 {
        lemma_unused_mark(t, used, j, c, n - 1);
    }
}

/// Scores a guess against a target, both given as folded characters.
pub fn score_chars(g: &Vec<char>, t: &Vec<char>) -> (states: Vec<LetterState>)
    ensures
        states@ == score(g@, t@),
{
    let n = g.len();
    let m = t.len();
    // First pass: the exact matches, each of which uses up its place in the target.
    let mut used: Vec<bool> = Vec::new();
    let mut j: usize = 0;
    while j < m
        invariant
            n == g.len(),
            m == t.len(),
            j <= m,
            used.len() == j,
            forall|k: int| 0 <= k < j ==> used@[k] == hit(g@, t@, k),
        decreases m - j,
    {
        used.push(j < n && g[j] == t[j]);
        j += 1;
    }
    proof {
        assert forall|c: char| #[trigger]
            unused(t@, used@, c, m as int) == left_over(g@, t@, c, 0) by {
            lemma_unused_is_spare(g@, t@, used@, c, m as int);
        }
    }
    // Second pass: every other letter looks for an occurrence that is still free.
    let mut states: Vec<LetterState> = Vec::new();
    let mut i: usize = 0;
    while i < n
        invariant
            n == g.len(),
            m == t.len(),
            i <= n,
            used.len() == m,
            states.len() == i,
            forall|k: int| 0 <= k < i ==> states@[k] == state_at(g@, t@, k),
            forall|c: char| #[trigger]
                unused(t@, used@, c, m as int) == left_over(g@, t@, c, i as int),
        decreases n - i,
    {
        let c0 = g[i];
        if i < m && c0 == t[i] {
            states.push(LetterState::G);
        } else {
            let mut j: usize = 0;
            while j < m && !(t[j] == c0 && !used[j])
                invariant
                    m == t.len(),
                    used.len() == m,
                    j <= m,
                    forall|k: int| 0 <= k < j ==> !(t@[k] == c0 && !used@[k]),
                decreases m - j,
            {
                j += 1;
            }
            if j < m {
                proof {
                    lemma_unused_some(t@, used@, c0, m as int, j as int);
                    assert forall|c: char| #[trigger]
                        unused(t@, used@.update(j as int, true), c, m as int) == left_over(
                            g@,
                            t@,
                            c,
                            i + 1,
                        ) by {
                        lemma_unused_mark(t@, used@, j as int, c, m as int);
                        assert(unused(t@, used@, c, m as int) == left_over(g@, t@, c, i as int));
                    }
                }
                used.set(j, true);
                states.push(LetterState::Y);
            } else {
                proof {
                    lemma_unused_none(t@, used@, c0, m as int);
                    assert forall|c: char| #[trigger] unused(t@, used@, c, m as int)
                        == left_over(g@, t@, c, i + 1) by {
                        assert(unused(t@, used@, c, m as int) == left_over(g@, t@, c, i as int));
                    }
                }
                states.push(LetterState::R);
            }
        }
        i += 1;
    }
    assert(states@ =~= score(g@, t@));
    states
}

/// How often `c` stands among the first `n` places of `s`.
pub open spec fn occurrences(s: Seq<char>, c: char, n: int) -> nat
    decreases n,
{
    if n <= 0 {
        0
    } else {
        occurrences(s, c, n - 1) + if n <= s.len() && s[n - 1] == c {
            1nat
        } else {
            0nat
        }
    }
}

/// How often `c` stands among the first `n` places of the guess in a place
/// that is scored green or yellow.
pub open spec fn credited(g: Seq<char>, t: Seq<char>, c: char, n: int) -> nat
    decreases n,
{
    if n <= 0 {
        0
    } else {
        credited(g, t, c, n - 1) + if n <= g.len() && g[n - 1] == c && state_at(g, t, n - 1)
            != LetterState::R {
            1nat
        } else {
            0nat
        }
    }
}

/// How often `c` stands among the first `n` places of the guess in a place
/// that is a hit.
spec fn hits(g: Seq<char>, t: Seq<char>, c: char, n: int) -> nat
    decreases n,
{
    if n <= 0 {
        0
    } else {
        hits(g, t, c, n - 1) + if g[n - 1] == c && hit(g, t, n - 1) {
            1nat
        } else {
            0nat
        }
    }
}

proof fn lemma_credited_split(g: Seq<char>, t: Seq<char>, c: char, n: int)
    ensures
        credited(g, t, c, n) == hits(g, t, c, n) + if asked(g, t, c, n) < spare(
            g,
            t,
            c,
            t.len() as int,
        ) {
            asked(g, t, c, n)
        } else {
            spare(g, t, c, t.len() as int)
        },
    decreases n,
{
    if n > 0 {
        lemma_credited_split(g, t, c, n - 1);
    }
}

proof fn lemma_hits_and_spare(g: Seq<char>, t: Seq<char>, c: char, n: int)
    ensures
        hits(g, t, c, n) + spare(g, t, c, n) == occurrences(t, c, n),
    decreases n,
{
    if n > 0 {
        lemma_hits_and_spare(g, t, c, n - 1);
    }
}

proof fn lemma_hits_end(g: Seq<char>, t: Seq<char>, c: char, n: int)
    ensures
        hits(g, t, c, n) <= hits(g, t, c, t.len() as int),
    decreases
            if n <= t.len() {
                t.len() - n
            } else {
                n - t.len()
            },
{
    if n < t.len() {
        lemma_hits_end(g, t, c, n + 1);
    } else if n > t.len() {
        lemma_hits_end(g, t, c, n - 1);
    }
}

/// A place of the guess is green exactly where guess and target hold the
/// same character.
pub proof fn lemma_green_where_equal(g: Seq<char>, t: Seq<char>, i: int)
    requires
        0 <= i < g.len(),
    ensures
        score(g, t)[i] == LetterState::G <==> (i < t.len() && g[i] == t[i]),
{
}

/// The places of the guess that hold `c` and are green or yellow are never
/// more than the places of the target that hold `c`.
pub proof fn lemma_credit_within_target(g: Seq<char>, t: Seq<char>, c: char)
    ensures
        credited(g, t, c, g.len() as int) <= occurrences(t, c, t.len() as int),
{
    lemma_credited_split(g, t, c, g.len() as int);
    lemma_hits_end(g, t, c, g.len() as int);
    lemma_hits_and_spare(g, t, c, t.len() as int);
}

} // verus!

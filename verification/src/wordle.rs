//! The game: the secret word, the word lists, the history of a round, and
//! the rules that judge a guess.

use vstd::prelude::*;
use crate::command::{Opt, DEFAULT_SEED};
use crate::difficult::{
    entry_key, expected_violations, no_repeats, of_kind, validate, views, violation_set,
};
use crate::draw::draw_index;
use crate::error::WordError;
use crate::keyboard::{distinct, merge_word, merged_word};
use crate::round::{knowledge_of, lemma_knowledge_joined, listed, Outcome, Phase, Round};
use crate::state::{fold_char, folded, Letter, LetterState, Mode};
use crate::states::States;
use crate::text::{chars_of, trimmed};
use crate::tui::ui::{MainState, UiState};
use crate::word::{key_of, scored, Word};

verus! {

/// The number of attempts a round allows.
pub const MAX_RETRY_TIMES: u32 = 6;

/// The verdict on a submitted guess.
#[derive(Debug, Clone, Copy, PartialEq, Eq, Structural)]
pub enum CheckResult {
    /// The guess is incomplete or in neither word list; no attempt is used
    /// up.
    InValid,
    /// The guess is the secret word.
    Success,
    /// The guess is a listed word, but not the secret one.
    Wrong,
    /// The guess goes against what difficult mode demands; no attempt is
    /// used up.
    Difficult,
}

/// Counts over all rounds played.
#[derive(Debug)]
pub struct WordleStatistic {
    /// Rounds played.
    pub total: u32,
    /// Rounds won.
    pub success_total: u32,
    /// The words guessed most often, each with its count.
    pub high_frequency_words: Vec<(usize, Word)>,
}

impl Default for WordleStatistic {
    /// No round played yet.
    fn default() -> (s: WordleStatistic)
        ensures
            s.total == 0,
            s.success_total == 0,
            s.high_frequency_words@.len() == 0,
    {
        WordleStatistic { total: 0, success_total: 0, high_frequency_words: Vec::new() }
    }
}

/// The text of a string that may be there.
pub open spec fn text_of_option(text: Option<String>) -> Option<Seq<char>> {
    match text {
        Some(t) => Some(t@),
        None => None,
    }
}

/// The texts of a list of words.
pub open spec fn texts(list: Seq<String>) -> Seq<Seq<char>> {
    Seq::new(list.len(), |i: int| list[i]@)
}

/// Whether a list of words holds one that folds to `key`.
pub fn list_holds(list: &Vec<String>, key: &Vec<char>) -> (b: bool)
    ensures
        b == listed(texts(list@), key@),
{
    let mut i: usize = 0;
    while i < list.len()
        invariant
            i <= list.len(),
            forall|j: int| 0 <= j < i ==> folded(#[trigger] texts(list@)[j]) != key@,
        decreases list.len() - i,
    {
        let entry = chars_of(list[i].as_str());
        assert(entry@ == texts(list@)[i as int]);
        if entry.len() == key.len() {
            let mut k: usize = 0;
            while k < entry.len() && fold_char(entry[k]) == key[k]
                invariant
                    k <= entry.len(),
                    entry.len() == key.len(),
                    forall|j: int| 0 <= j < k ==> #[trigger] folded(entry@)[j] == key@[j],
                decreases entry.len() - k,
            {
                k += 1;
            }
            if k == entry.len() {
                assert(folded(entry@) =~= key@);
                return true;
            }
            assert(folded(entry@)[k as int] != key@[k as int]);
        }
        i += 1;
    }
    false
}

/// A game in play.
#[derive(Debug)]
pub struct Wordle {
    /// What the guesses of the round have revealed about each letter: one
    /// entry for each letter seen.
    pub cached_letter_states: Vec<Letter>,
    /// The guesses of the round that were scored, oldest first.
    pub history_words: Vec<Word>,
    /// The secret word.
    pub final_word: Word,
    /// The words a player may guess.
    pub acceptable_set: Vec<String>,
    /// The words a secret word is taken from.
    pub final_set: Vec<String>,
    /// The options of the game.
    pub opt: Opt,
    /// How the game talks to the player.
    pub mode: Mode,
    /// What the last guess refused by difficult mode failed to respect.
    pub difficult_error_letters: Vec<(usize, Letter)>,
    /// Counts over all rounds.
    pub statistics: WordleStatistic,
    /// The guess in progress and the attempts used up.
    pub states: States,
    /// The screen on show.
    pub ui_state: UiState,
    /// Whether the round has ended.
    pub game_over: bool,
    /// Whether the game is to close.
    pub exit: bool,
}

impl View for Wordle {
    type V = Round;

    open spec fn view(&self) -> Round {
        Round {
            knowledge: knowledge_of(self.cached_letter_states@),
            history: views(self.history_words@),
            target: self.final_word@,
            acceptable: texts(self.acceptable_set@),
            finals: texts(self.final_set@),
            opt: self.opt,
            violations: violation_set(self.difficult_error_letters@),
            guess: self.states.current_word@,
            guess_checked: self.states.current_word_checked,
            tries: self.states.current_try_times,
            verdict: self.states.current_checked_result,
            should_quit: self.states.should_quit,
            screen: self.ui_state,
            over: self.game_over,
            exit: self.exit,
        }
    }
}

proof fn lemma_no_violation(list: Seq<(usize, Letter)>)
    ensures
        (list.len() == 0) == (violation_set(list) == Set::<(int, char, LetterState)>::empty()),
{
    if list.len() == 0 {
        assert(violation_set(list) =~= Set::<(int, char, LetterState)>::empty());
    } else {
        assert(violation_set(list).contains(entry_key(list[0])));
    }
}

impl Wordle {
    /// What holds of a game at all times: no word has more than five
    /// letters, every word of the history is complete, no more attempts are
    /// used up than a round allows, and neither the knowledge nor the list
    /// of violations says anything twice.
    pub open spec fn wf(&self) -> bool {
        &&& self.states.current_word.wf()
        &&& self.final_word.wf()
        &&& self.states.current_try_times <= MAX_RETRY_TIMES
        &&& forall|i: int|
            0 <= i < self.history_words@.len() ==> (#[trigger] self.history_words@[i])@.len() == 5
        &&& distinct(self.cached_letter_states@)
        &&& no_repeats(self.difficult_error_letters@)
    }

    /// Whether two games differ at most in what the rules work on: the
    /// mode and the statistics are the same.
    pub open spec fn same_frame(&self, other: &Wordle) -> bool {
        self.mode == other.mode && self.statistics == other.statistics
    }

    /// Whether the guess in progress is one of the acceptable words.
    pub fn is_current_word_acceptable(&self) -> (b: bool)
        ensures
            b == listed(self@.acceptable, key_of(self@.guess)),
    {
        let key = self.states.current_word.key();
        list_holds(&self.acceptable_set, &key)
    }

    /// Whether the round has ended.
    pub fn is_game_over(&self) -> (b: bool)
        ensures
            b == self@.over,
    {
        self.game_over
    }

    /// Ends the round.
    pub fn game_over(&mut self)
        ensures
            final(self)@ == (Round { over: true, ..old(self)@ }),
            final(self).same_frame(old(self)),
            old(self).wf() ==> final(self).wf(),
    {
        self.game_over = true;
    }

    /// Whether the secret word is one of the final words.
    pub fn is_final_word_valid(&self) -> (b: bool)
        ensures
            b == self@.target_valid(),
    {
        let key = self.final_word.key();
        list_holds(&self.final_set, &key)
    }

    /// The broken green places among the violations on record.
    pub fn get_diffcult_errors_in_green(&self) -> (list: Vec<&(usize, Letter)>)
        ensures
            list@.len() == of_kind(self.difficult_error_letters@, LetterState::G).len(),
            forall|k: int|
                0 <= k < list@.len() ==> *(#[trigger] list@[k]) == of_kind(
                    self.difficult_error_letters@,
                    LetterState::G,
                )[k],
    {
        self.errors_of_kind(LetterState::G)
    }

    /// The missing yellow letters among the violations on record.
    pub fn get_diffcult_errors_in_yellow(&self) -> (list: Vec<&(usize, Letter)>)
        ensures
            list@.len() == of_kind(self.difficult_error_letters@, LetterState::Y).len(),
            forall|k: int|
                0 <= k < list@.len() ==> *(#[trigger] list@[k]) == of_kind(
                    self.difficult_error_letters@,
                    LetterState::Y,
                )[k],
    {
        self.errors_of_kind(LetterState::Y)
    }

    fn errors_of_kind(&self, kind: LetterState) -> (list: Vec<&(usize, Letter)>)
        ensures
            list@.len() == of_kind(self.difficult_error_letters@, kind).len(),
            forall|k: int|
                0 <= k < list@.len() ==> *(#[trigger] list@[k]) == of_kind(
                    self.difficult_error_letters@,
                    kind,
                )[k],
    {
        let mut list: Vec<&(usize, Letter)> = Vec::new();
        let mut i: usize = 0;
        let ghost all = self.difficult_error_letters@;
        assert(all.take(0) =~= Seq::<(usize, Letter)>::empty());
        while i < self.difficult_error_letters.len()
            invariant
                i <= self.difficult_error_letters.len(),
                all == self.difficult_error_letters@,
                list@.len() == of_kind(all.take(i as int), kind).len(),
                forall|k: int|
                    0 <= k < list@.len() ==> *(#[trigger] list@[k]) == of_kind(
                        all.take(i as int),
                        kind,
                    )[k],
            decreases self.difficult_error_letters.len() - i,
        {
            let entry = &self.difficult_error_letters[i];
            proof {
                assert(all.take(i + 1).drop_last() =~= all.take(i as int));
                reveal(Seq::filter);
            }
            if entry.1.1 == kind {
                list.push(entry);
            }
            i += 1;
        }
        assert(all.take(i as int) =~= all);
        list
    }

    /// Whether the guess in progress is one of the final words.
    pub fn is_current_word_final(&self) -> (b: bool)
        ensures
            b == listed(self@.finals, key_of(self@.guess)),
    {
        let key = self.states.current_word.key();
        list_holds(&self.final_set, &key)
    }

    /// Holds the guess in progress against the history, where difficult
    /// mode is on, and puts what it fails to respect on record. The answer
    /// is whether the guess may go on to be scored.
    fn resolve_difficult(&mut self) -> (ok: bool)
        ensures
            ok == !(old(self)@.opt.difficult && expected_violations(
                old(self)@.history,
                old(self)@.guess,
            ) != Set::<(int, char, LetterState)>::empty()),
            final(self)@ == (Round {
                violations: if old(self)@.opt.difficult {
                    expected_violations(old(self)@.history, old(self)@.guess)
                } else {
                    old(self)@.violations
                },
                ..old(self)@
            }),
            final(self).same_frame(old(self)),
            final(self).cached_letter_states == old(self).cached_letter_states,
            final(self).history_words == old(self).history_words,
            final(self).states == old(self).states,
            final(self).final_word == old(self).final_word,
            no_repeats(old(self).difficult_error_letters@) ==> no_repeats(
                final(self).difficult_error_letters@,
            ),
    {
        if self.opt.difficult {
            let list = validate(&self.states.current_word, &self.history_words);
            proof {
                lemma_no_violation(list@);
            }
            let ok = list.len() == 0;
            self.difficult_error_letters = list;
            return ok;
        }
        true
    }

    /// Judges the guess in progress. A guess that is incomplete or in
    /// neither list is invalid, and nothing changes. A guess that difficult
    /// mode refuses leaves its violations on record, and nothing else
    /// changes. Any other guess is scored against the secret word, added to
    /// the history and joined into the knowledge about the keyboard; it is a
    /// success when it spells the secret word. The count of attempts is not
    /// touched.
    pub fn check_word(&mut self) -> (r: CheckResult)
        ensures
            r == old(self)@.verdict_due(),
            final(self)@ == old(self)@.judged(),
            final(self).same_frame(old(self)),
            r == CheckResult::InValid ==> *final(self) == *old(self),
            final(self).cached_letter_states@ == if r == CheckResult::Success || r
                == CheckResult::Wrong {
                merged_word(
                    old(self).cached_letter_states@,
                    scored(old(self)@.guess, old(self)@.target),
                )
            } else {
                old(self).cached_letter_states@
            },
            old(self).wf() ==> final(self).wf(),
    {
        let key = self.states.current_word.key();
        if !(self.states.current_word.is_full() && (list_holds(&self.acceptable_set, &key)
            || list_holds(&self.final_set, &key))) {
            return CheckResult::InValid;
        }
        if !self.resolve_difficult() {
            return CheckResult::Difficult;
        }
        self.states.current_word.diff(&self.final_word);
        merge_word(&mut self.cached_letter_states, &self.states.current_word);
        self.history_words.push(self.states.current_word.clone());
        proof {
            let marked = scored(old(self)@.guess, old(self)@.target);
            lemma_knowledge_joined(old(self).cached_letter_states@, marked);
            assert(knowledge_of(self.cached_letter_states@) =~= knowledge_of(
                old(self).cached_letter_states@ + marked,
            ));
            assert(views(self.history_words@) =~= views(old(self).history_words@).push(marked));
            assert(key_of(marked) =~= key_of(old(self)@.guess));
            assert(self@ =~= old(self)@.judged());
        }
        if self.final_word == self.states.current_word {
            return CheckResult::Success;
        }
        CheckResult::Wrong
    }

    /// Judges the guess in progress if it is complete, as [`Wordle::check_word`]
    /// does; an incomplete guess is left alone.
    pub fn check_states(&mut self) -> (r: Option<CheckResult>)
        ensures
            r == if old(self)@.guess.len() == 5 {
                Some(old(self)@.verdict_due())
            } else {
                None
            },
            final(self)@ == if old(self)@.guess.len() == 5 {
                old(self)@.judged()
            } else {
                old(self)@
            },
            final(self).same_frame(old(self)),
            old(self).wf() ==> final(self).wf(),
    {
        if self.states.current_word.is_full() {
            Some(self.check_word())
        } else {
            None
        }
    }

    /// Submits the guess in progress. Nothing happens while the guess is
    /// incomplete or the round is over. Else the guess is judged and the
    /// verdict recorded. A guess that is invalid or refused uses up no
    /// attempt. A guess that counts uses up one; the round ends when it is
    /// the secret word or the last attempt is used up, and otherwise goes on
    /// with an empty guess.
    pub fn submit_guess(&mut self) -> (r: Option<CheckResult>)
        ensures
            r == if old(self)@.guess.len() != 5 || old(self)@.over {
                None
            } else {
                Some(old(self)@.verdict_due())
            },
            final(self)@ == old(self)@.submitted(),
            final(self).same_frame(old(self)),
            final(self).cached_letter_states@ == if r == Some(CheckResult::Success) || r == Some(
                CheckResult::Wrong,
            ) {
                merged_word(
                    old(self).cached_letter_states@,
                    scored(old(self)@.guess, old(self)@.target),
                )
            } else {
                old(self).cached_letter_states@
            },
            old(self).wf() ==> final(self).wf(),
    {
        if !self.states.current_word.is_full() || self.game_over {
            return None;
        }
        let tries = self.states.current_try_times;
        let used = if tries < MAX_RETRY_TIMES {
            tries + 1
        } else {
            tries
        };
        let verdict = self.check_word();
        self.states.current_checked_result = Some(verdict);
        match verdict {
            CheckResult::Success => {
                self.states.current_try_times = used;
                self.game_over = true;
            },
            CheckResult::Wrong => {
                if used >= MAX_RETRY_TIMES {
                    self.states.current_try_times = used;
                    self.game_over = true;
                } else {
                    self.states.next_state();
                }
            },
            _ => {},
        }
        assert(self@ =~= old(self)@.submitted());
        Some(verdict)
    }

    /// Starts a new round whose secret word is read from `text`, or is left
    /// for the player to type in where there is no text. History, knowledge,
    /// violations and attempts are cleared. A text that will not do as the
    /// secret word is refused, and the game stays as it is.
    pub fn start_round(&mut self, text: Option<String>) -> (r: Result<(), WordError>)
        ensures
            match r {
                Ok(()) => {
                    &&& text matches Some(t) ==> old(self)@.text_valid(t@)
                    &&& final(self)@ == old(self)@.started(text_of_option(text))
                    &&& final(self).same_frame(old(self))
                },
                Err(e) => {
                    &&& text matches Some(t) && !old(self)@.text_valid(t@) && e.is_invalid_word(
                        if trimmed(t@).len() != 5 {
                            "word must be 5-letter"@
                        } else {
                            t@
                        },
                    )
                    &&& *final(self) == *old(self)
                },
            },
            old(self).wf() ==> final(self).wf(),
    {
        let target = match text {
            None => Word::default(),
            Some(t) => {
                let word = match Word::parse(t.as_str()) {
                    Ok(word) => word,
                    Err(e) => {
                        return Err(e);
                    },
                };
                let key = word.key();
                assert(key@ =~= folded(trimmed(t@)));
                if !list_holds(&self.final_set, &key) {
                    return Err(WordError::InValidWord(t));
                }
                word
            },
        };
        self.cached_letter_states = Vec::new();
        self.history_words = Vec::new();
        self.difficult_error_letters = Vec::new();
        self.game_over = false;
        self.states.reset();
        self.final_word = target;
        proof {
            assert(knowledge_of(self.cached_letter_states@) =~= Map::<char, LetterState>::empty());
            assert(views(self.history_words@) =~= Seq::<Seq<Letter>>::empty());
            assert(violation_set(self.difficult_error_letters@) =~= Set::<
                (int, char, LetterState),
            >::empty());
            assert(self@.guess =~= Seq::<Letter>::empty());
            assert(self@ =~= old(self)@.started(text_of_option(text)));
        }
        Ok(())
    }

    /// Starts a new round as the options say: with a secret word drawn
    /// from the final words, the seed deciding which; or with the word that
    /// the options fix; or, where they fix none, with the secret word left
    /// for the player to type in. A drawn or fixed word that will not do is
    /// refused, and the game stays as it is.
    pub fn reset(&mut self) -> (r: Result<(), WordError>)
        requires
            old(self).opt.random ==> old(self).final_set@.len() > 0,
        ensures
            match r {
                Ok(()) => {
                    &&& old(self)@.target_text() matches Some(t) ==> old(self)@.text_valid(t)
                    &&& final(self)@ == old(self)@.started(old(self)@.target_text())
                    &&& final(self).same_frame(old(self))
                },
                Err(e) => {
                    &&& old(self)@.target_text() matches Some(t) && !old(self)@.text_valid(t)
                        && e.is_invalid_word(
                        if trimmed(t).len() != 5 {
                            "word must be 5-letter"@
                        } else {
                            t
                        },
                    )
                    &&& *final(self) == *old(self)
                },
            },
            old(self).wf() ==> final(self).wf(),
    {
        let text: Option<String> = if self.opt.random {
            let seed = match self.opt.seed {
                Some(seed) => seed,
                None => DEFAULT_SEED,
            };
            let index = draw_index(seed, self.final_set.len());
            assert(texts(self.final_set@)[index as int] == self.final_set@[index as int]@);
            Some(self.final_set[index].clone())
        } else {
            match &self.opt.word {
                Some(word) => Some(word.clone()),
                None => None,
            }
        };
        self.start_round(text)
    }

    /// Where the game stands.
    pub fn phase(&self) -> (p: Phase)
        ensures
            p == self@.phase(),
    {
        if self.game_over {
            let won = match self.states.current_checked_result {
                Some(CheckResult::Success) => !self.exit,
                _ => false,
            };
            if won {
                Phase::RoundOver(Outcome::Success)
            } else {
                Phase::RoundOver(Outcome::Exhausted)
            }
        } else {
            match self.ui_state {
                UiState::Init => Phase::AwaitingTarget,
                UiState::Main(MainState::Difficult) => Phase::DifficultViolation,
                UiState::Main(_) => Phase::Guessing,
            }
        }
    }
}

impl Default for Wordle {
    /// A game with empty lists and no secret word, waiting for one.
    fn default() -> (w: Wordle)
        ensures
            w.wf(),
            w@.history.len() == 0,
            w@.target.len() == 0,
            w@.acceptable.len() == 0,
            w@.finals.len() == 0,
            w@.guess.len() == 0,
            w@.tries == 0,
            w@.verdict is None,
            w@.screen == UiState::Init,
            !w@.over,
            !w@.exit,
            !w@.opt.random,
            !w@.opt.difficult,
            w@.opt.word is None,
            w.cached_letter_states@.len() == 0,
            w.difficult_error_letters@.len() == 0,
            w.mode == Mode::Test,
    {
        Wordle {
            cached_letter_states: Vec::new(),
            history_words: Vec::new(),
            final_word: Word::default(),
            acceptable_set: Vec::new(),
            final_set: Vec::new(),
            opt: Opt::default(),
            mode: Mode::default(),
            difficult_error_letters: Vec::new(),
            statistics: WordleStatistic::default(),
            states: States::default(),
            ui_state: UiState::default(),
            game_over: false,
            exit: false,
        }
    }
}

} // verus!

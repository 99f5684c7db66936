//! The rules of a round, as mathematics.
//!
//! [`Round`] is what a game is to the rules: the secret word, the lists, the
//! history, the knowledge about the keyboard and the screen. The functions
//! here say what each operation of the game makes of a round; the game in
//! [`crate::wordle`] and the actions in [`crate::tui::action`] are proved to
//! do exactly that.

use vstd::prelude::*;
use crate::command::{Opt, DEFAULT_SEED};
use crate::difficult::expected_violations;
use crate::draw::drawn_index;
use crate::keyboard::known;
use crate::state::{fold, folded, Letter, LetterState};
use crate::text::trimmed;
use crate::tui::action::Action;
use crate::tui::event::{Event, KeyCode};
use crate::tui::ui::{MainState, UiState};
use crate::word::{fresh, key_of, scored};
use crate::wordle::{CheckResult, MAX_RETRY_TIMES};

verus! {

/// A game as the rules see it.
#[verifier::ext_equal]
pub struct Round {
    /// The best state known of each letter, by folded character.
    pub knowledge: Map<char, LetterState>,
    /// The guesses that were scored, oldest first.
    pub history: Seq<Seq<Letter>>,
    /// The secret word.
    pub target: Seq<Letter>,
    /// The words a player may guess.
    pub acceptable: Seq<Seq<char>>,
    /// The words a secret word is taken from.
    pub finals: Seq<Seq<char>>,
    /// The options of the game.
    pub opt: Opt,
    /// What the last guess refused by difficult mode failed to respect.
    pub violations: Set<(int, char, LetterState)>,
    /// The guess in progress.
    pub guess: Seq<Letter>,
    /// Whether the guess in progress is closed to editing.
    pub guess_checked: bool,
    /// The attempts used up.
    pub tries: u32,
    /// The verdict on the guess submitted last.
    pub verdict: Option<CheckResult>,
    /// Whether the player asked to leave.
    pub should_quit: bool,
    /// The screen on show.
    pub screen: UiState,
    /// Whether the round has ended.
    pub over: bool,
    /// Whether the game is to close.
    pub exit: bool,
}

/// How a round has ended.
#[derive(Debug, Clone, Copy, PartialEq, Eq, Structural)]
pub enum Outcome {
    /// The secret word was guessed.
    Success,
    /// The attempts ran out, or the player gave up.
    Exhausted,
}

/// Where a game stands.
#[derive(Debug, Clone, Copy, PartialEq, Eq, Structural)]
pub enum Phase {
    /// The secret word is being typed in.
    AwaitingTarget,
    /// A guess is being typed.
    Guessing,
    /// A guess was refused by difficult mode and the refusal is on show.
    DifficultViolation,
    /// The round has ended.
    RoundOver(Outcome),
}

/// The knowledge that a list of letters holds: for each folded character
/// that occurs, the most informative state it occurs with.
pub open spec fn knowledge_of(letters: Seq<Letter>) -> Map<char, LetterState> {
    Map::new(|c: char| fold(c) == c && known(letters, c) is Some, |c: char| known(letters, c)->0)
}

/// Whether a list of words holds one that folds to `key`.
pub open spec fn listed(list: Seq<Seq<char>>, key: Seq<char>) -> bool {
    exists|i: int| 0 <= i < list.len() && folded(#[trigger] list[i]) == key
}

/// The attempts used up once one more guess has counted. The count never
/// passes the number of attempts a round allows.
pub open spec fn used_after(tries: u32) -> u32 {
    if tries < MAX_RETRY_TIMES {
        (tries + 1) as u32
    } else {
        tries
    }
}

impl Round {
    /// Whether the secret word is one of the final words.
    pub open spec fn target_valid(self) -> bool {
        listed(self.finals, key_of(self.target))
    }

    /// Whether a guess may be played at all: it is complete and stands in
    /// one of the two lists.
    pub open spec fn playable(self, guess: Seq<Letter>) -> bool {
        guess.len() == 5 && (listed(self.acceptable, key_of(guess)) || listed(
            self.finals,
            key_of(guess),
        ))
    }

    /// The verdict on the guess in progress.
    pub open spec fn verdict_due(self) -> CheckResult {
        if !self.playable(self.guess) {
            CheckResult::InValid
        } else if self.opt.difficult && expected_violations(self.history, self.guess) != Set::<
            (int, char, LetterState),
        >::empty() {
            CheckResult::Difficult
        } else if key_of(self.guess) == key_of(self.target) {
            CheckResult::Success
        } else {
            CheckResult::Wrong
        }
    }

    /// The round after the guess in progress was judged. A guess that is
    /// not playable leaves everything as it is; one that difficult mode
    /// refuses leaves only its violations; any other is scored, goes into
    /// the history and adds to the knowledge.
    pub open spec fn judged(self) -> Round {
        match self.verdict_due() {
            CheckResult::InValid => self,
            CheckResult::Difficult => Round {
                violations: expected_violations(self.history, self.guess),
                ..self
            },
            _ => {
                let marked = scored(self.guess, self.target);
                Round {
                    guess: marked,
                    history: self.history.push(marked),
                    knowledge: joined_knowledge(self.knowledge, marked),
                    violations: if self.opt.difficult {
                        Set::empty()
                    } else {
                        self.violations
                    },
                    ..self
                }
            },
        }
    }

    /// The round after the guess in progress was submitted. Nothing
    /// happens while the guess is incomplete or the round is over. Else the
    /// guess is judged and the verdict recorded; a guess that counts uses up
    /// an attempt; the round ends with the secret word or with the last
    /// attempt, and otherwise goes on with an empty guess.
    pub open spec fn submitted(self) -> Round {
        if self.guess.len() != 5 || self.over {
            self
        } else {
            let verdict = self.verdict_due();
            let next = Round { verdict: Some(verdict), ..self.judged() };
            match verdict {
                CheckResult::InValid => next,
                CheckResult::Difficult => next,
                CheckResult::Success => Round { tries: used_after(self.tries), over: true, ..next },
                CheckResult::Wrong => if used_after(self.tries) >= MAX_RETRY_TIMES {
                    Round { tries: used_after(self.tries), over: true, ..next }
                } else {
                    Round {
                        tries: used_after(self.tries),
                        guess: Seq::empty(),
                        guess_checked: false,
                        should_quit: false,
                        ..next
                    }
                },
            }
        }
    }

    /// The seed of the draw.
    pub open spec fn seed(self) -> u64 {
        match self.opt.seed {
            Some(seed) => seed,
            None => DEFAULT_SEED,
        }
    }

    /// The text that the next secret word is read from: a draw from the
    /// final words, or the word fixed in the options; `None` where the
    /// player is to type it in.
    pub open spec fn target_text(self) -> Option<Seq<char>> {
        if self.opt.random {
            Some(self.finals[drawn_index(self.seed(), self.finals.len() as usize) as int])
        } else {
            match self.opt.word {
                Some(word) => Some(word@),
                None => None,
            }
        }
    }

    /// Whether a text will do as the secret word: trimmed it has five
    /// characters, and it is one of the final words.
    pub open spec fn text_valid(self, text: Seq<char>) -> bool {
        trimmed(text).len() == 5 && listed(self.finals, folded(trimmed(text)))
    }

    /// A new round of the same game with the given secret word: history,
    /// knowledge, violations and attempts are cleared.
    pub open spec fn restarted(self, target: Seq<Letter>) -> Round {
        Round {
            knowledge: Map::empty(),
            history: Seq::empty(),
            violations: Set::empty(),
            over: false,
            guess: Seq::empty(),
            guess_checked: false,
            tries: 0,
            verdict: None,
            should_quit: false,
            target,
            ..self
        }
    }

    /// A new round whose secret word is read from `text`, or is left for
    /// the player to type in where there is no text. Only asked of a text
    /// that will do.
    pub open spec fn started(self, text: Option<Seq<char>>) -> Round {
        match text {
            Some(t) => self.restarted(fresh(trimmed(t))),
            None => self.restarted(Seq::empty()),
        }
    }

    /// Where the game stands.
    pub open spec fn phase(self) -> Phase {
        if self.over {
            if self.verdict == Some(CheckResult::Success) && !self.exit {
                Phase::RoundOver(Outcome::Success)
            } else {
                Phase::RoundOver(Outcome::Exhausted)
            }
        } else {
            match self.screen {
                UiState::Init => Phase::AwaitingTarget,
                UiState::Main(MainState::Difficult) => Phase::DifficultViolation,
                UiState::Main(_) => Phase::Guessing,
            }
        }
    }

    /// What an event asks of the game. `letter` says whether the character
    /// of a typing key is alphabetic; it is not read for other events.
    pub open spec fn action_for(self, event: Event, letter: bool) -> Action {
        match event {
            Event::Init => if self.target.len() == 0 {
                Action::Init
            } else {
                Action::Nothing
            },
            Event::Quit => Action::Quit,
            Event::Tick => Action::Tick,
            Event::Render => Action::Render,
            Event::Key(key) => self.action_for_key(key, letter),
            _ => Action::Nothing,
        }
    }

    /// What a key asks of the game.
    pub open spec fn action_for_key(self, key: KeyCode, letter: bool) -> Action {
        match key {
            KeyCode::Char(ch) => if letter {
                Action::InputChar(ch)
            } else {
                Action::Nothing
            },
            KeyCode::Backspace => Action::RemoveChar,
            KeyCode::Enter => match self.screen {
                UiState::Init => Action::Init,
                UiState::Main(MainState::Main) => if !self.over {
                    Action::Enter
                } else {
                    Action::PopUp
                },
                UiState::Main(MainState::Difficult) => Action::EnterMain,
                UiState::Main(MainState::GameOver) => Action::ReNew,
            },
            KeyCode::Esc => Action::Quit,
            KeyCode::Other => Action::Nothing,
        }
    }

    /// The round after an action other than [`Action::ReNew`].
    pub open spec fn acted(self, action: Action) -> Round {
        match action {
            Action::Init => if self.target.len() == 5 {
                if self.target_valid() {
                    Round { screen: UiState::Main(MainState::Main), ..self }
                } else {
                    Round { target: Seq::empty(), ..self }
                }
            } else {
                self
            },
            Action::Quit => Round { tries: MAX_RETRY_TIMES, over: true, exit: true, ..self },
            Action::RemoveChar => match self.screen {
                UiState::Init => Round { target: without_last(self.target), ..self },
                UiState::Main(MainState::Main) => Round { guess: without_last(self.guess), ..self },
                _ => self,
            },
            Action::Enter => match self.screen {
                UiState::Init => if self.target_valid() {
                    Round { screen: UiState::Main(MainState::Main), ..self }
                } else {
                    self
                },
                UiState::Main(MainState::Main) => if self.guess.len() != 5 {
                    self
                } else if self.over {
                    Round { screen: UiState::Main(MainState::GameOver), ..self }
                } else if self.verdict_due() == CheckResult::Difficult {
                    Round { screen: UiState::Main(MainState::Difficult), ..self.submitted() }
                } else {
                    self.submitted()
                },
                UiState::Main(MainState::Difficult) => Round {
                    screen: UiState::Main(MainState::Main),
                    ..self
                },
                UiState::Main(MainState::GameOver) => Round { screen: UiState::Init, ..self },
            },
            Action::InputChar(ch) => match self.screen {
                UiState::Init => Round { target: with_letter(self.target, ch), ..self },
                UiState::Main(MainState::Main) => Round {
                    guess: with_letter(self.guess, ch),
                    ..self
                },
                _ => self,
            },
            Action::PopUp => Round { screen: UiState::Main(MainState::GameOver), ..self },
            Action::EnterMain => Round { screen: UiState::Main(MainState::Main), ..self },
            _ => self,
        }
    }

    /// The round after [`Action::ReNew`], where the next secret word will
    /// do: a new round, on the board if it has its secret word, else on the
    /// screen that asks for one.
    pub open spec fn renewed(self) -> Round {
        let next = self.started(self.target_text());
        Round {
            screen: if next.target.len() == 0 {
                UiState::Init
            } else {
                UiState::Main(MainState::Main)
            },
            ..next
        }
    }
}

/// Knowledge with the letters of a scored word joined in: each letter of
/// the word gets the more informative of what was known and what the word
/// says.
pub open spec fn joined_knowledge(knowledge: Map<char, LetterState>, word: Seq<Letter>) -> Map<
    char,
    LetterState,
>
    decreases word.len(),
{
    if word.len() == 0 {
        knowledge
    } else {
        let before = joined_knowledge(knowledge, word.drop_last());
        let key = fold(word.last().0);
        let state = if before.dom().contains(key) {
            before[key].best(word.last().1)
        } else {
            word.last().1
        };
        before.insert(key, state)
    }
}

/// Joining a scored word into the knowledge that a list of letters holds
/// gives the knowledge that the list and the word hold together.
pub proof fn lemma_knowledge_joined(letters: Seq<Letter>, word: Seq<Letter>)
    ensures
        knowledge_of(letters + word) == joined_knowledge(knowledge_of(letters), word),
    decreases word.len(),
{
    if word.len() == 0 {
        assert(letters + word =~= letters);
    } else {
        let all = letters + word;
        let earlier = letters + word.drop_last();
        lemma_knowledge_joined(letters, word.drop_last());
        assert(all.drop_last() =~= earlier);
        assert(all.last() == word.last());
        let key = fold(word.last().0);
        assert(fold(key) == key);
        assert(knowledge_of(all) =~= joined_knowledge(knowledge_of(letters), word));
    }
}

/// Knowledge never gets worse: a character that has a state keeps one that
/// is at least as informative, whatever word is joined in. A letter known
/// green stays green even where a later guess shows it red.
pub proof fn lemma_knowledge_never_worse(
    knowledge: Map<char, LetterState>,
    word: Seq<Letter>,
    c: char,
)
    requires
        knowledge.dom().contains(c),
    ensures
        joined_knowledge(knowledge, word).dom().contains(c),
        joined_knowledge(knowledge, word)[c].severity() <= knowledge[c].severity(),
        knowledge[c] == LetterState::G ==> joined_knowledge(knowledge, word)[c] == LetterState::G,
    decreases word.len(),
{
    if word.len() > 0 {
        lemma_knowledge_never_worse(knowledge, word.drop_last(), c);
    }
}

/// The round after each of the given guesses was typed and submitted in
/// turn.
pub open spec fn played(round: Round, guesses: Seq<Seq<Letter>>) -> Round
    decreases guesses.len(),
{
    if guesses.len() == 0 {
        round
    } else {
        (Round { guess: guesses.last(), ..played(round, guesses.drop_last()) }).submitted()
    }
}

/// Whether each of the given guesses, typed and submitted in turn, is
/// complete and gets the verdict `Wrong`.
pub open spec fn all_wrong(round: Round, guesses: Seq<Seq<Letter>>) -> bool
    decreases guesses.len(),
{
    guesses.len() == 0 || {
        &&& all_wrong(round, guesses.drop_last())
        &&& guesses.last().len() == 5
        &&& (Round {
            guess: guesses.last(),
            ..played(round, guesses.drop_last())
        }).verdict_due() == CheckResult::Wrong
    }
}

/// In difficult mode a place that the history shows green binds: a playable
/// guess with another letter in that place is refused, the violation names
/// the place and the letter, and no attempt is used up.
pub proof fn lemma_green_place_binds(round: Round, w: int, i: int)
    requires
        round.opt.difficult,
        !round.over,
        round.playable(round.guess),
        0 <= w < round.history.len(),
        0 <= i < round.history[w].len(),
        round.history[w][i].1 == LetterState::G,
        !(i < round.guess.len() && fold(round.guess[i].0) == fold(round.history[w][i].0)),
    ensures
        round.verdict_due() == CheckResult::Difficult,
        round.submitted().violations.contains((i, fold(round.history[w][i].0), LetterState::G)),
        round.submitted().tries == round.tries,
        round.submitted().history == round.history,
        round.submitted().guess == round.guess,
        !round.submitted().over,
{
    let x = (i, fold(round.history[w][i].0), LetterState::G);
    assert(crate::difficult::green_case(round.history, round.guess, w, i));
    assert(expected_violations(round.history, round.guess).contains(x));
}

/// A guess that is invalid or refused uses up no attempt and leaves the
/// history alone; a guess that counts uses up exactly one attempt, up to
/// the number a round allows. The secret word ends the round at once, on
/// any attempt; a wrong guess ends it exactly when the last attempt is used
/// up.
pub proof fn lemma_attempts(round: Round)
    requires
        !round.over,
        round.guess.len() == 5,
    ensures
        match round.verdict_due() {
            CheckResult::InValid | CheckResult::Difficult => {
                &&& round.submitted().tries == round.tries
                &&& round.submitted().history == round.history
                &&& !round.submitted().over
            },
            CheckResult::Success => {
                &&& round.submitted().tries == used_after(round.tries)
                &&& round.submitted().over
                &&& !round.exit ==> round.submitted().phase() == Phase::RoundOver(Outcome::Success)
            },
            CheckResult::Wrong => {
                &&& round.submitted().tries == used_after(round.tries)
                &&& round.submitted().over == (used_after(round.tries) >= MAX_RETRY_TIMES)
                &&& round.submitted().over ==> round.submitted().phase() == Phase::RoundOver(
                    Outcome::Exhausted,
                )
            },
        },
{
}

/// Wrong guesses from the start of a round: each uses up one attempt, and
/// the round is over, with the attempts exhausted, exactly when the sixth
/// was played.
pub proof fn lemma_six_wrong_guesses(round: Round, guesses: Seq<Seq<Letter>>)
    requires
        round.tries == 0,
        !round.over,
        guesses.len() <= MAX_RETRY_TIMES,
        all_wrong(round, guesses),
    ensures
        played(round, guesses).tries == guesses.len(),
        played(round, guesses).over == (guesses.len() == MAX_RETRY_TIMES),
        guesses.len() == MAX_RETRY_TIMES ==> played(round, guesses).phase() == Phase::RoundOver(
            Outcome::Exhausted,
        ),
    decreases guesses.len(),
{
    if guesses.len() > 0 {
        lemma_six_wrong_guesses(round, guesses.drop_last());
        let typed = Round { guess: guesses.last(), ..played(round, guesses.drop_last()) };
        lemma_attempts(typed);
    }
}

/// A new round starts clean: no history, no knowledge, no violations, no
/// attempt used up, and the round not over.
pub proof fn lemma_restart_clears(round: Round, text: Option<Seq<char>>)
    ensures
        round.started(text).history.len() == 0,
        round.started(text).knowledge.dom() =~= Set::<char>::empty(),
        round.started(text).violations =~= Set::<(int, char, LetterState)>::empty(),
        round.started(text).tries == 0,
        round.started(text).guess.len() == 0,
        !round.started(text).over,
        round.renewed().history.len() == 0,
        round.renewed().knowledge.dom() =~= Set::<char>::empty(),
        round.renewed().violations =~= Set::<(int, char, LetterState)>::empty(),
{
}

/// The draw is decided by the seed: two games that draw with the same seed
/// from the same final words start their next round with the same secret
/// word.
pub proof fn lemma_same_seed_same_target(a: Round, b: Round)
    requires
        a.opt.random,
        b.opt.random,
        a.seed() == b.seed(),
        a.finals == b.finals,
    ensures
        a.target_text() == b.target_text(),
        a.renewed().target == b.renewed().target,
{
}

/// A word in progress with one more letter, unless it is complete.
pub open spec fn with_letter(word: Seq<Letter>, ch: char) -> Seq<Letter> {
    if word.len() < 5 {
        word.push(Letter::blank(ch))
    } else {
        word
    }
}

/// A word in progress without its last letter, if it has one.
pub open spec fn without_last(word: Seq<Letter>) -> Seq<Letter> {
    if word.len() > 0 {
        word.drop_last()
    } else {
        word
    }
}

} // verus!

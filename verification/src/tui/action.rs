//! What an event means for the game, and what the game does about it.

use vstd::prelude::*;
use crate::error::WordError;
use crate::text::{alphabetic, trimmed};
use crate::tui::event::{Event, KeyCode};
use crate::tui::ui::{MainState, UiState};
use crate::word::Word;
use crate::wordle::{CheckResult, Wordle, MAX_RETRY_TIMES};

verus! {

/// What the game is asked to do.
#[derive(Debug, Clone, Copy, PartialEq, Eq, Structural)]
pub enum Action {
    /// Take the secret word that was typed in, if it will do.
    Init,
    /// Let time pass.
    Tick,
    /// Draw the screen.
    Render,
    /// Type a letter.
    InputChar(char),
    /// Show the question that ends a round.
    PopUp,
    /// Delete the last letter.
    RemoveChar,
    /// Submit what was typed.
    Enter,
    /// Acknowledge a refusal and go back to the board.
    EnterMain,
    /// Start a new round.
    ReNew,
    /// Report a failure of the input.
    Error,
    /// Leave the game.
    Quit,
    /// Nothing.
    Nothing,
}

/// Whether an event is a key that types an alphabetic character.
pub open spec fn types_letter(event: Event) -> bool {
    match event {
        Event::Key(KeyCode::Char(ch)) => alphabetic(ch),
        _ => false,
    }
}

/// What a key asks of the game, given whether the character of a typing key
/// is alphabetic. A letter is typed; backspace deletes; escape leaves; enter
/// means what the screen on show makes of it; other keys mean nothing.
pub fn key_action(wordle: &Wordle, key: KeyCode, letter: bool) -> (action: Action)
    ensures
        action == wordle@.action_for_key(key, letter),
{
    match key {
        KeyCode::Char(ch) => {
            if letter {
                Action::InputChar(ch)
            } else {
                Action::Nothing
            }
        },
        KeyCode::Backspace => Action::RemoveChar,
        KeyCode::Enter => match wordle.ui_state {
            UiState::Init => Action::Init,
            UiState::Main(main_state) => match main_state {
                MainState::Main => {
                    if !wordle.is_game_over() {
                        return Action::Enter;
                    }
                    Action::PopUp
                },
                MainState::Difficult => Action::EnterMain,
                MainState::GameOver => Action::ReNew,
            },
        },
        KeyCode::Esc => Action::Quit,
        KeyCode::Other => Action::Nothing,
    }
}

/// What an event asks of the game. The start of the front end asks for the
/// secret word only while there is none; ticks, drawing and closing pass
/// through; a key means what [`key_action`] says; anything else means
/// nothing.
pub fn get_action(wordle: &Wordle, event: Event) -> (action: Action)
    ensures
        action == wordle@.action_for(event, types_letter(event)),
{
    match event {
        Event::Init => {
            if wordle.final_word.is_empty() {
                Action::Init
            } else {
                Action::Nothing
            }
        },
        Event::Quit => Action::Quit,
        Event::Tick => Action::Tick,
        Event::Render => Action::Render,
        Event::Key(key) => {
            let letter = match key {
                KeyCode::Char(ch) => ch.is_alphabetic(),
                _ => false,
            };
            key_action(wordle, key, letter)
        },
        _ => Action::Nothing,
    }
}

/// Carries out an action. Every action but [`Action::ReNew`] succeeds and
/// leaves the game as [`crate::round::Round::acted`] says. `ReNew` starts a
/// new round as [`Wordle::reset`] does and shows the board, or the screen
/// that asks for the secret word where the round has none yet; where the
/// next secret word will not do it fails, and the game stays as it is.
pub fn update(wordle: &mut Wordle, action: Action) -> (r: Result<(), WordError>)
    requires
        action == Action::ReNew && old(wordle).opt.random ==> old(wordle).final_set@.len() > 0,
    ensures
        match r {
            Ok(()) => {
                &&& action == Action::ReNew ==> (old(wordle)@.target_text() matches Some(t)
                    ==> old(wordle)@.text_valid(t))
                &&& final(wordle)@ == if action == Action::ReNew {
                    old(wordle)@.renewed()
                } else {
                    old(wordle)@.acted(action)
                }
                &&& final(wordle).same_frame(old(wordle))
            },
            Err(e) => {
                &&& action == Action::ReNew
                &&& old(wordle)@.target_text() matches Some(t) && !old(wordle)@.text_valid(t)
                    && e.is_invalid_word(
                    if trimmed(t).len() != 5 {
                        "word must be 5-letter"@
                    } else {
                        t
                    },
                )
                &&& *final(wordle) == *old(wordle)
            },
        },
        old(wordle).wf() ==> final(wordle).wf(),
{
    match action {
        Action::Init => {
            if wordle.final_word.is_full() {
                if wordle.is_final_word_valid() {
                    wordle.ui_state = UiState::Main(MainState::Main);
                } else {
                    wordle.final_word = Word::default();
                }
            }
        },
        Action::Quit => {
            wordle.states.current_try_times = MAX_RETRY_TIMES;
            wordle.game_over();
            wordle.exit = true;
        },
        Action::RemoveChar => match wordle.ui_state {
            UiState::Init => wordle.final_word.pop(),
            UiState::Main(MainState::Main) => wordle.states.current_word.pop(),
            _ => {},
        },
        Action::Enter => match wordle.ui_state {
            UiState::Init => {
                if wordle.is_final_word_valid() {
                    wordle.ui_state = UiState::Main(MainState::Main);
                }
            },
            UiState::Main(main_state) => match main_state {
                MainState::Main => {
                    if wordle.states.current_word.is_full() {
                        if !wordle.is_game_over() {
                            let verdict = wordle.submit_guess();
                            if verdict == Some(CheckResult::Difficult) {
                                wordle.ui_state = UiState::Main(MainState::Difficult);
                            }
                        } else {
                            wordle.ui_state = UiState::Main(MainState::GameOver);
                        }
                    }
                },
                MainState::Difficult => {
                    wordle.ui_state = UiState::Main(MainState::Main);
                },
                MainState::GameOver => {
                    wordle.ui_state = UiState::Init;
                },
            },
        },
        Action::InputChar(ch) => match wordle.ui_state {
            UiState::Init => {
                wordle.final_word.push(ch);
            },
            UiState::Main(MainState::Main) => {
                wordle.states.current_word.push(ch);
            },
            _ => {},
        },
        Action::ReNew => {
            match wordle.reset() {
                Ok(()) => {},
                Err(e) => {
                    return Err(e);
                },
            }
            if wordle.final_word.is_empty() {
                wordle.ui_state = UiState::Init;
            } else {
                wordle.ui_state = UiState::Main(MainState::Main);
            }
            assert(wordle@ =~= old(wordle)@.renewed());
        },
        Action::PopUp => {
            wordle.ui_state = UiState::Main(MainState::GameOver);
        },
        Action::EnterMain => {
            wordle.ui_state = UiState::Main(MainState::Main);
        },
        _ => {},
    }
    assert(action != Action::ReNew ==> wordle@ =~= old(wordle)@.acted(action));
    Ok(())
}

} // verus!

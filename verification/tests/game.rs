use rand::{Rng, SeedableRng};
use wordle::cmd::{state_letter, Turn, KEYBOARD_KEYS};
use wordle::command::Opt;
use wordle::error::WordError;
use wordle::round::{Outcome, Phase};
use wordle::state::{Letter, LetterState, Mode};
use wordle::states::States;
use wordle::tui::action::{get_action, key_action, update, Action};
use wordle::tui::event::{Event, KeyCode};
use wordle::tui::ui::{MainState, UiState};
use wordle::tui::widgets::{init_keyboard, Keyboard, KeyboardType};
use wordle::word::Word;
use wordle::wordle::{list_holds, CheckResult, Wordle, WordleStatistic, MAX_RETRY_TIMES};

fn words(list: &[&str]) -> Vec<String> {
    list.iter().map(|s| s.to_string()).collect()
}

fn game(target: &str) -> Wordle {
    Wordle {
        final_word: Word::parse(target).unwrap(),
        acceptable_set: words(&[
            "bight", "brace", "bumpy", "crane", "erase", "react", "stale", "stole", "tales",
        ]),
        final_set: words(&["slate", "speed", "steed"]),
        ui_state: UiState::Main(MainState::Main),
        ..Default::default()
    }
}

fn type_word(wordle: &mut Wordle, text: &str) {
    wordle.states.current_word = Word::parse(text).unwrap();
}

fn states_of(word: &Word) -> Vec<LetterState> {
    word.get_letters().iter().map(|l| l.1).collect()
}

fn known(wordle: &Wordle, c: char) -> Option<LetterState> {
    wordle::keyboard::lookup(&wordle.cached_letter_states, c)
}

#[test]
fn a_new_game_waits_for_its_secret_word() {
    let wordle = Wordle::default();
    assert!(wordle.final_word.is_empty());
    assert!(wordle.history_words.is_empty());
    assert!(wordle.cached_letter_states.is_empty());
    assert!(wordle.difficult_error_letters.is_empty());
    assert_eq!(wordle.states.current_try_times, 0);
    assert_eq!(wordle.ui_state, UiState::Init);
    assert_eq!(wordle.mode, Mode::Test);
    assert!(!wordle.game_over);
    assert!(!wordle.exit);
    assert_eq!(wordle.phase(), Phase::AwaitingTarget);
    assert_eq!(MAX_RETRY_TIMES, 6);
    let statistics = WordleStatistic::default();
    assert_eq!(statistics.total, 0);
    assert_eq!(statistics.success_total, 0);
    assert!(statistics.high_frequency_words.is_empty());
}

#[test]
fn list_membership_ignores_case() {
    let list = words(&["slate", "Speed"]);
    assert!(list_holds(&list, &vec!['s', 'l', 'a', 't', 'e']));
    assert!(list_holds(&list, &vec!['s', 'p', 'e', 'e', 'd']));
    assert!(!list_holds(&list, &vec!['s', 't', 'e', 'e', 'd']));
    assert!(!list_holds(&list, &vec!['s', 'l', 'a', 't']));
    assert!(!list_holds(&vec![], &vec!['s', 'l', 'a', 't', 'e']));
}

#[test]
fn membership_of_the_guess_in_progress() {
    let mut wordle = game("slate");
    type_word(&mut wordle, "CRANE");
    assert!(wordle.is_current_word_acceptable());
    assert!(!wordle.is_current_word_final());
    type_word(&mut wordle, "speed");
    assert!(!wordle.is_current_word_acceptable());
    assert!(wordle.is_current_word_final());
    assert!(wordle.is_final_word_valid());
    wordle.final_word = Word::parse("crane").unwrap();
    assert!(!wordle.is_final_word_valid());
}

#[test]
fn check_word_refuses_an_unlisted_word() {
    let mut wordle = game("slate");
    type_word(&mut wordle, "zzzzz");
    assert_eq!(wordle.check_word(), CheckResult::InValid);
    assert!(wordle.history_words.is_empty());
    assert!(wordle.cached_letter_states.is_empty());
    assert_eq!(states_of(&wordle.states.current_word), vec![LetterState::X; 5]);
}

#[test]
fn check_word_refuses_an_incomplete_word() {
    let mut wordle = game("slate");
    wordle.acceptable_set.push("cra".to_string());
    wordle.states.current_word = Word::default();
    for ch in ['c', 'r', 'a'] {
        wordle.states.current_word.push(ch);
    }
    assert_eq!(wordle.check_word(), CheckResult::InValid);
    assert_eq!(wordle.check_states(), None);
    assert!(wordle.history_words.is_empty());
}

#[test]
fn check_word_takes_a_word_of_either_list() {
    let mut wordle = game("slate");
    type_word(&mut wordle, "crane");
    assert_eq!(wordle.check_word(), CheckResult::Wrong);
    type_word(&mut wordle, "speed");
    assert_eq!(wordle.check_word(), CheckResult::Wrong);
    type_word(&mut wordle, "SLATE");
    assert_eq!(wordle.check_states(), Some(CheckResult::Success));
    assert_eq!(wordle.history_words.len(), 3);
}

#[test]
fn check_word_scores_and_records_the_guess() {
    let mut wordle = game("speed");
    type_word(&mut wordle, "erase");
    assert_eq!(wordle.check_word(), CheckResult::Wrong);
    let expected = vec![
        LetterState::Y,
        LetterState::R,
        LetterState::R,
        LetterState::Y,
        LetterState::Y,
    ];
    assert_eq!(states_of(&wordle.states.current_word), expected);
    assert_eq!(wordle.history_words.len(), 1);
    assert_eq!(wordle.history_words[0].to_string(), "erase");
    assert_eq!(states_of(&wordle.history_words[0]), expected);
    assert_eq!(known(&wordle, 'e'), Some(LetterState::Y));
    assert_eq!(known(&wordle, 'r'), Some(LetterState::R));
    assert_eq!(known(&wordle, 'p'), None);
    // The count of attempts belongs to the submission, not to the judging.
    assert_eq!(wordle.states.current_try_times, 0);
    assert!(!wordle.game_over);
}

#[test]
fn difficult_mode_rejects_a_broken_green_place() {
    let mut wordle = game("slate");
    wordle.opt.difficult = true;
    type_word(&mut wordle, "crane");
    assert_eq!(wordle.submit_guess(), Some(CheckResult::Wrong));
    assert_eq!(wordle.states.current_try_times, 1);
    // `a` was green in place 2; `stole` has `o` there.
    type_word(&mut wordle, "stole");
    assert_eq!(wordle.submit_guess(), Some(CheckResult::Difficult));
    assert_eq!(wordle.states.current_try_times, 1);
    assert_eq!(wordle.history_words.len(), 1);
    assert_eq!(wordle.difficult_error_letters.len(), 1);
    let (place, letter) = wordle.difficult_error_letters[0];
    assert_eq!(place, 2);
    assert_eq!(letter.0, 'a');
    assert_eq!(letter.1, LetterState::G);
    assert_eq!(wordle.get_diffcult_errors_in_green().len(), 1);
    assert_eq!(wordle.get_diffcult_errors_in_yellow().len(), 0);
    assert_eq!(wordle.states.current_word.to_string(), "stole");
    assert_eq!(wordle.states.current_checked_result, Some(CheckResult::Difficult));
    assert!(!wordle.game_over);
    // A guess that respects the history clears the record.
    type_word(&mut wordle, "stale");
    assert_eq!(wordle.submit_guess(), Some(CheckResult::Wrong));
    assert!(wordle.difficult_error_letters.is_empty());
    assert_eq!(wordle.states.current_try_times, 2);
}

#[test]
fn difficult_mode_off_lets_everything_pass() {
    let mut wordle = game("slate");
    type_word(&mut wordle, "crane");
    assert_eq!(wordle.submit_guess(), Some(CheckResult::Wrong));
    type_word(&mut wordle, "stole");
    assert_eq!(wordle.submit_guess(), Some(CheckResult::Wrong));
    assert!(wordle.difficult_error_letters.is_empty());
    assert_eq!(wordle.states.current_try_times, 2);
    assert!(wordle.difficult_report().is_empty());
}

#[test]
fn difficult_report_prefers_green_places() {
    let mut wordle = game("slate");
    wordle.opt.difficult = true;
    type_word(&mut wordle, "tales");
    assert_eq!(wordle.submit_guess(), Some(CheckResult::Wrong));
    type_word(&mut wordle, "bumpy");
    assert_eq!(wordle.submit_guess(), Some(CheckResult::Difficult));
    let report = wordle.difficult_report();
    assert_eq!(report.len(), 5);
    assert!(report.iter().all(|(place, letter)| *place == 0 && letter.1 == LetterState::Y));
    type_word(&mut wordle, "stale");
    assert_eq!(wordle.submit_guess(), Some(CheckResult::Wrong));
    type_word(&mut wordle, "bumpy");
    assert_eq!(wordle.submit_guess(), Some(CheckResult::Difficult));
    let report = wordle.difficult_report();
    assert!(!report.is_empty());
    assert!(report.iter().all(|(_, letter)| letter.1 == LetterState::G));
    assert_eq!(report.len(), 3);
    assert_eq!(wordle.get_diffcult_errors_in_green().len(), 3);
    assert_eq!(wordle.get_diffcult_errors_in_yellow().len(), 5);
}

#[test]
fn six_wrong_guesses_exhaust_the_round() {
    let mut wordle = game("slate");
    for attempt in 1..=6u32 {
        assert!(!wordle.game_over);
        assert_eq!(wordle.phase(), Phase::Guessing);
        type_word(&mut wordle, "crane");
        assert_eq!(wordle.submit_guess(), Some(CheckResult::Wrong));
        assert_eq!(wordle.states.current_try_times, attempt);
        assert_eq!(wordle.history_words.len(), attempt as usize);
        if attempt < 6 {
            assert!(wordle.states.current_word.is_empty());
        }
    }
    assert!(wordle.game_over);
    assert_eq!(wordle.phase(), Phase::RoundOver(Outcome::Exhausted));
    assert!(!wordle.attempts_left());
    // A round that is over takes no more guesses.
    type_word(&mut wordle, "slate");
    assert_eq!(wordle.submit_guess(), None);
    assert_eq!(wordle.history_words.len(), 6);
    assert_eq!(wordle.states.current_try_times, 6);
}

#[test]
fn rejected_guesses_use_up_no_attempt() {
    let mut wordle = game("slate");
    for _ in 0..10 {
        type_word(&mut wordle, "zzzzz");
        assert_eq!(wordle.submit_guess(), Some(CheckResult::InValid));
    }
    assert_eq!(wordle.states.current_try_times, 0);
    assert!(!wordle.game_over);
    assert_eq!(wordle.states.current_checked_result, Some(CheckResult::InValid));
    assert_eq!(wordle.states.current_word.to_string(), "zzzzz");
}

#[test]
fn the_secret_word_ends_the_round_at_once() {
    let mut wordle = game("slate");
    type_word(&mut wordle, "slate");
    assert_eq!(wordle.submit_guess(), Some(CheckResult::Success));
    assert!(wordle.game_over);
    assert_eq!(wordle.states.current_try_times, 1);
    assert_eq!(wordle.phase(), Phase::RoundOver(Outcome::Success));
    assert_eq!(states_of(&wordle.states.current_word), vec![LetterState::G; 5]);

    let mut wordle = game("slate");
    for _ in 0..5 {
        type_word(&mut wordle, "crane");
        wordle.submit_guess();
    }
    type_word(&mut wordle, "slate");
    assert_eq!(wordle.submit_guess(), Some(CheckResult::Success));
    assert_eq!(wordle.states.current_try_times, 6);
    assert_eq!(wordle.phase(), Phase::RoundOver(Outcome::Success));
}

#[test]
fn submit_waits_for_a_complete_guess() {
    let mut wordle = game("slate");
    wordle.states.current_word.push('c');
    assert_eq!(wordle.submit_guess(), None);
    assert_eq!(wordle.states.current_checked_result, None);
    assert_eq!(wordle.states.current_word.to_string(), "c");
}

#[test]
fn start_round_clears_the_round() {
    let mut wordle = game("slate");
    wordle.opt.difficult = true;
    type_word(&mut wordle, "crane");
    wordle.submit_guess();
    type_word(&mut wordle, "stole");
    wordle.submit_guess();
    assert!(!wordle.history_words.is_empty());
    assert!(!wordle.cached_letter_states.is_empty());
    assert!(!wordle.difficult_error_letters.is_empty());
    wordle.start_round(Some(" Speed\n".to_string())).unwrap();
    assert!(wordle.history_words.is_empty());
    assert!(wordle.cached_letter_states.is_empty());
    assert!(wordle.difficult_error_letters.is_empty());
    assert_eq!(wordle.states.current_try_times, 0);
    assert!(wordle.states.current_word.is_empty());
    assert_eq!(wordle.states.current_checked_result, None);
    assert!(!wordle.game_over);
    assert_eq!(wordle.final_word.to_string(), "Speed");
    assert_eq!(wordle.acceptable_set.len(), 9);
    assert!(wordle.opt.difficult);
}

#[test]
fn start_round_refuses_a_word_that_will_not_do() {
    let mut wordle = game("slate");
    type_word(&mut wordle, "crane");
    wordle.submit_guess();
    match wordle.start_round(Some("abc".to_string())) {
        Err(WordError::InValidWord(reason)) => assert_eq!(reason, "word must be 5-letter"),
        other => panic!("{:?}", other),
    }
    match wordle.start_round(Some("crane".to_string())) {
        Err(WordError::InValidWord(word)) => assert_eq!(word, "crane"),
        other => panic!("{:?}", other),
    }
    assert_eq!(wordle.final_word.to_string(), "slate");
    assert_eq!(wordle.history_words.len(), 1);
    assert_eq!(wordle.states.current_try_times, 1);
}

#[test]
fn start_round_without_text_asks_for_the_word() {
    let mut wordle = game("slate");
    wordle.start_round(None).unwrap();
    assert!(wordle.final_word.is_empty());
    assert!(wordle.history_words.is_empty());
}

#[test]
fn reset_with_a_fixed_word_takes_it_again() {
    let mut wordle = game("slate");
    wordle.opt.word = Some("steed".to_string());
    type_word(&mut wordle, "crane");
    wordle.submit_guess();
    wordle.reset().unwrap();
    assert_eq!(wordle.final_word.to_string(), "steed");
    assert!(wordle.history_words.is_empty());
    assert_eq!(wordle.states.current_try_times, 0);
}

#[test]
fn reset_without_word_or_draw_asks_for_the_word() {
    let mut wordle = game("slate");
    wordle.reset().unwrap();
    assert!(wordle.final_word.is_empty());
}

#[test]
fn reset_draws_the_same_word_for_the_same_seed() {
    let finals = words(&["slate", "speed", "steed", "crane", "brace", "stale", "stole"]);
    for seed in [None, Some(0u64), Some(1), Some(2048), Some(u64::MAX)] {
        let mut first = game("slate");
        first.final_set = finals.clone();
        first.opt.random = true;
        first.opt.seed = seed;
        type_word(&mut first, "crane");
        first.submit_guess();
        first.reset().unwrap();
        assert!(first.history_words.is_empty());
        assert!(first.cached_letter_states.is_empty());
        assert!(finals.contains(&first.final_word.to_string()));
        let drawn = first.final_word.to_string();
        first.reset().unwrap();
        assert_eq!(first.final_word.to_string(), drawn);
        let mut second = game("speed");
        second.final_set = finals.clone();
        second.opt.random = true;
        second.opt.seed = seed;
        second.reset().unwrap();
        assert_eq!(second.final_word.to_string(), drawn);
    }
}

#[test]
fn reset_draws_what_the_seeded_generator_gives() {
    let finals = words(&["slate", "speed", "steed", "crane", "brace", "stale", "stole"]);
    for seed in [0u64, 7, 2048, 123456789] {
        let mut rng = rand::rngs::StdRng::seed_from_u64(seed);
        let index: u64 = rng.gen_range(0..finals.len() as u64);
        let mut wordle = game("slate");
        wordle.final_set = finals.clone();
        wordle.opt.random = true;
        wordle.opt.seed = Some(seed);
        wordle.reset().unwrap();
        assert_eq!(wordle.final_word.to_string(), finals[index as usize]);
    }
    // Without a seed the draw uses 2048.
    let mut seeded = game("slate");
    seeded.final_set = finals.clone();
    seeded.opt.random = true;
    seeded.opt.seed = Some(2048);
    seeded.reset().unwrap();
    let mut plain = game("slate");
    plain.final_set = finals.clone();
    plain.opt.random = true;
    plain.reset().unwrap();
    assert_eq!(plain.final_word.to_string(), seeded.final_word.to_string());
}

#[test]
fn reset_from_a_list_of_one_draws_that_word() {
    let mut wordle = game("slate");
    wordle.final_set = words(&["speed"]);
    wordle.opt.random = true;
    wordle.opt.seed = Some(99);
    wordle.reset().unwrap();
    assert_eq!(wordle.final_word.to_string(), "speed");
}

#[test]
fn states_push_and_pop() {
    let mut states = States::default();
    states.pop();
    assert!(states.current_word.is_empty());
    for ch in ['a', 'b', 'c', 'd', 'e', 'f'] {
        states.push(ch);
    }
    assert_eq!(states.current_word.to_string(), "abcde");
    states.pop();
    assert_eq!(states.current_word.to_string(), "abcd");
    states.current_word_checked = true;
    states.pop();
    states.push('z');
    assert_eq!(states.current_word.to_string(), "abcd");
}

#[test]
fn states_next_state_and_reset() {
    let mut states = States::default();
    states.push('a');
    states.current_checked_result = Some(CheckResult::Wrong);
    states.current_word_checked = true;
    states.should_quit = true;
    states.current_try_times = 2;
    let copy = states.clone();
    assert_eq!(copy.current_word.to_string(), "a");
    assert_eq!(copy.current_try_times, 2);
    states.next_state();
    assert_eq!(states.current_try_times, 3);
    assert_eq!(states.current_checked_result, Some(CheckResult::Wrong));
    assert!(states.current_word.is_empty());
    assert!(!states.current_word_checked);
    assert!(!states.should_quit);
    states.reset();
    assert_eq!(states.current_try_times, 0);
    assert_eq!(states.current_checked_result, None);
}

#[test]
fn play_by_lines() {
    let mut wordle = game("slate");
    assert_eq!(wordle.play("abc\n"), Turn::Invalid);
    assert_eq!(wordle.play("zzzzz\n"), Turn::Invalid);
    assert_eq!(wordle.states.current_try_times, 0);
    assert_eq!(wordle.play("crane\n"), Turn::Wrong);
    assert_eq!(wordle.states.current_try_times, 1);
    assert_eq!(wordle.play("  SLATE  \n"), Turn::Correct(2));
    assert_eq!(wordle.play("crane\n"), Turn::Over);
    assert_eq!(wordle.history_words.len(), 2);
}

#[test]
fn play_until_the_attempts_run_out() {
    let mut wordle = game("slate");
    for _ in 0..5 {
        assert!(wordle.attempts_left());
        assert_eq!(wordle.play("crane"), Turn::Wrong);
    }
    assert!(wordle.attempts_left());
    assert_eq!(wordle.play("crane"), Turn::Failed);
    assert!(!wordle.attempts_left());
    assert_eq!(wordle.play("slate"), Turn::Over);
}

#[test]
fn play_in_difficult_mode() {
    let mut wordle = game("slate");
    wordle.opt.difficult = true;
    assert_eq!(wordle.play("crane"), Turn::Wrong);
    assert_eq!(wordle.play("stole"), Turn::Difficult);
    assert_eq!(wordle.states.current_try_times, 1);
    let report = wordle.difficult_report();
    assert_eq!(report.len(), 1);
    assert_eq!(report[0].0, 2);
    assert_eq!(report[0].1 .0, 'a');
    assert_eq!(wordle.play("slate"), Turn::Correct(2));
}

#[test]
fn begin_at_day_counts_earlier_days_as_used() {
    let mut wordle = game("slate");
    wordle.opt.day = Some(5);
    wordle.begin_at_day();
    assert_eq!(wordle.states.current_try_times, 0);
    wordle.opt.random = true;
    wordle.begin_at_day();
    assert_eq!(wordle.states.current_try_times, 5);
    assert_eq!(wordle.play("crane"), Turn::Failed);
    let mut wordle = game("slate");
    wordle.opt.random = true;
    wordle.opt.day = Some(6);
    wordle.begin_at_day();
    assert!(!wordle.attempts_left());
    let mut wordle = game("slate");
    wordle.opt.random = true;
    wordle.opt.day = Some(7);
    wordle.begin_at_day();
    assert_eq!(wordle.states.current_try_times, 0);
}

#[test]
fn test_line_shows_the_last_guess_and_the_keys() {
    let mut wordle = game("speed");
    assert_eq!(wordle.keyboard_line(), "XXXXXXXXXXXXXXXXXXXXXXXXXX");
    assert_eq!(wordle.test_line(), " XXXXXXXXXXXXXXXXXXXXXXXXXX");
    assert_eq!(wordle.play("ERASE"), Turn::Wrong);
    // Keys: Q W E R T Y U I O P A S D F G H J K L Z X C V B N M
    assert_eq!(wordle.keyboard_line(), "XXYRXXXXXXRYXXXXXXXXXXXXXX");
    assert_eq!(wordle.test_line(), "ERASE XXYRXXXXXXRYXXXXXXXXXXXXXX");
    assert_eq!(wordle.play("steed"), Turn::Wrong);
    assert_eq!(wordle.test_line(), "steed XXGRRXXXXXRGGXXXXXXXXXXXXX");
    assert_eq!(KEYBOARD_KEYS.len(), 26);
    assert_eq!(KEYBOARD_KEYS[0], 'Q');
    assert_eq!(KEYBOARD_KEYS[25], 'M');
    assert_eq!(state_letter(LetterState::G), 'G');
    assert_eq!(state_letter(LetterState::Y), 'Y');
    assert_eq!(state_letter(LetterState::R), 'R');
    assert_eq!(state_letter(LetterState::X), 'X');
}

#[test]
fn events_become_actions() {
    let mut wordle = Wordle::default();
    assert_eq!(get_action(&wordle, Event::Init), Action::Init);
    wordle.final_word.push('a');
    assert_eq!(get_action(&wordle, Event::Init), Action::Nothing);
    assert_eq!(get_action(&wordle, Event::Quit), Action::Quit);
    assert_eq!(get_action(&wordle, Event::Tick), Action::Tick);
    assert_eq!(get_action(&wordle, Event::Render), Action::Render);
    assert_eq!(get_action(&wordle, Event::Error), Action::Nothing);
    assert_eq!(get_action(&wordle, Event::Mouse), Action::Nothing);
    assert_eq!(get_action(&wordle, Event::Key(KeyCode::Char('a'))), Action::InputChar('a'));
    assert_eq!(get_action(&wordle, Event::Key(KeyCode::Char('Z'))), Action::InputChar('Z'));
    assert_eq!(get_action(&wordle, Event::Key(KeyCode::Char('\u{e9}'))), Action::InputChar('\u{e9}'));
    assert_eq!(get_action(&wordle, Event::Key(KeyCode::Char('1'))), Action::Nothing);
    assert_eq!(get_action(&wordle, Event::Key(KeyCode::Char(' '))), Action::Nothing);
    assert_eq!(get_action(&wordle, Event::Key(KeyCode::Backspace)), Action::RemoveChar);
    assert_eq!(get_action(&wordle, Event::Key(KeyCode::Esc)), Action::Quit);
    assert_eq!(get_action(&wordle, Event::Key(KeyCode::Other)), Action::Nothing);
    assert_eq!(get_action(&wordle, Event::Key(KeyCode::Enter)), Action::Init);
    wordle.ui_state = UiState::Main(MainState::Main);
    assert_eq!(get_action(&wordle, Event::Key(KeyCode::Enter)), Action::Enter);
    wordle.game_over = true;
    assert_eq!(get_action(&wordle, Event::Key(KeyCode::Enter)), Action::PopUp);
    wordle.ui_state = UiState::Main(MainState::Difficult);
    assert_eq!(get_action(&wordle, Event::Key(KeyCode::Enter)), Action::EnterMain);
    wordle.ui_state = UiState::Main(MainState::GameOver);
    assert_eq!(get_action(&wordle, Event::Key(KeyCode::Enter)), Action::ReNew);
    assert_eq!(key_action(&wordle, KeyCode::Char('1'), true), Action::InputChar('1'));
    assert_eq!(key_action(&wordle, KeyCode::Char('a'), false), Action::Nothing);
}

fn press(wordle: &mut Wordle, key: KeyCode) {
    let action = get_action(wordle, Event::Key(key));
    update(wordle, action).unwrap();
}

fn press_word(wordle: &mut Wordle, text: &str) {
    for ch in text.chars() {
        press(wordle, KeyCode::Char(ch));
    }
}

#[test]
fn a_round_played_with_keys() {
    let mut wordle = Wordle {
        acceptable_set: words(&["crane", "stole", "stale"]),
        final_set: words(&["slate", "speed"]),
        opt: Opt { difficult: true, ..Default::default() },
        mode: Mode::Tui,
        ..Default::default()
    };
    let first = get_action(&wordle, Event::Init);
    update(&mut wordle, first).unwrap();
    assert_eq!(wordle.ui_state, UiState::Init);
    // A secret word that is not listed is wiped on enter.
    press_word(&mut wordle, "crane");
    press(&mut wordle, KeyCode::Enter);
    assert_eq!(wordle.ui_state, UiState::Init);
    assert!(wordle.final_word.is_empty());
    // An incomplete one stays for editing.
    press_word(&mut wordle, "slat");
    press(&mut wordle, KeyCode::Enter);
    assert_eq!(wordle.ui_state, UiState::Init);
    assert_eq!(wordle.final_word.to_string(), "slat");
    press(&mut wordle, KeyCode::Backspace);
    press_word(&mut wordle, "te!x");
    assert_eq!(wordle.final_word.to_string(), "slate");
    press(&mut wordle, KeyCode::Enter);
    assert_eq!(wordle.ui_state, UiState::Main(MainState::Main));
    assert_eq!(wordle.phase(), Phase::Guessing);
    // Typing and deleting a guess.
    press_word(&mut wordle, "cranes");
    assert_eq!(wordle.states.current_word.to_string(), "crane");
    press(&mut wordle, KeyCode::Backspace);
    press(&mut wordle, KeyCode::Enter);
    assert_eq!(wordle.states.current_checked_result, None);
    press(&mut wordle, KeyCode::Char('e'));
    press(&mut wordle, KeyCode::Enter);
    assert_eq!(wordle.states.current_checked_result, Some(CheckResult::Wrong));
    assert_eq!(wordle.states.current_try_times, 1);
    assert!(wordle.states.current_word.is_empty());
    // A guess that difficult mode refuses.
    press_word(&mut wordle, "stole");
    press(&mut wordle, KeyCode::Enter);
    assert_eq!(wordle.ui_state, UiState::Main(MainState::Difficult));
    assert_eq!(wordle.phase(), Phase::DifficultViolation);
    assert_eq!(wordle.states.current_try_times, 1);
    press(&mut wordle, KeyCode::Char('x'));
    press(&mut wordle, KeyCode::Backspace);
    assert_eq!(wordle.states.current_word.to_string(), "stole");
    press(&mut wordle, KeyCode::Enter);
    assert_eq!(wordle.ui_state, UiState::Main(MainState::Main));
    for _ in 0..5 {
        press(&mut wordle, KeyCode::Backspace);
    }
    // An unlisted guess.
    press_word(&mut wordle, "zzzzz");
    press(&mut wordle, KeyCode::Enter);
    assert_eq!(wordle.states.current_checked_result, Some(CheckResult::InValid));
    assert_eq!(wordle.states.current_try_times, 1);
    for _ in 0..5 {
        press(&mut wordle, KeyCode::Backspace);
    }
    // The secret word.
    press_word(&mut wordle, "slate");
    press(&mut wordle, KeyCode::Enter);
    assert!(wordle.game_over);
    assert_eq!(wordle.states.current_try_times, 2);
    assert_eq!(wordle.phase(), Phase::RoundOver(Outcome::Success));
    press(&mut wordle, KeyCode::Enter);
    assert_eq!(wordle.ui_state, UiState::Main(MainState::GameOver));
    // A new round, with the secret word to be typed in again.
    press(&mut wordle, KeyCode::Enter);
    assert_eq!(wordle.ui_state, UiState::Init);
    assert!(wordle.final_word.is_empty());
    assert!(wordle.history_words.is_empty());
    assert!(wordle.cached_letter_states.is_empty());
    assert!(!wordle.game_over);
    assert_eq!(wordle.states.current_try_times, 0);
    assert_eq!(wordle.mode, Mode::Tui);
}

#[test]
fn update_renews_with_a_drawn_word() {
    let mut wordle = game("slate");
    wordle.opt.random = true;
    wordle.opt.seed = Some(5);
    wordle.game_over = true;
    wordle.ui_state = UiState::Main(MainState::GameOver);
    update(&mut wordle, Action::ReNew).unwrap();
    assert_eq!(wordle.ui_state, UiState::Main(MainState::Main));
    assert!(wordle.final_word.is_full());
    assert!(wordle.is_final_word_valid());
    assert!(!wordle.game_over);
}

#[test]
fn update_fails_to_renew_with_a_word_that_will_not_do() {
    let mut wordle = game("slate");
    wordle.opt.word = Some("crane".to_string());
    wordle.game_over = true;
    wordle.ui_state = UiState::Main(MainState::GameOver);
    match update(&mut wordle, Action::ReNew) {
        Err(WordError::InValidWord(word)) => assert_eq!(word, "crane"),
        other => panic!("{:?}", other),
    }
    assert_eq!(wordle.ui_state, UiState::Main(MainState::GameOver));
    assert!(wordle.game_over);
    assert_eq!(wordle.final_word.to_string(), "slate");
}

#[test]
fn update_quit_ends_the_round() {
    let mut wordle = game("slate");
    update(&mut wordle, Action::Quit).unwrap();
    assert!(wordle.game_over);
    assert!(wordle.exit);
    assert_eq!(wordle.states.current_try_times, 6);
    assert_eq!(wordle.phase(), Phase::RoundOver(Outcome::Exhausted));
}

#[test]
fn update_quit_after_a_win_is_no_win() {
    let mut wordle = game("slate");
    type_word(&mut wordle, "slate");
    update(&mut wordle, Action::Enter).unwrap();
    assert_eq!(wordle.phase(), Phase::RoundOver(Outcome::Success));
    update(&mut wordle, Action::Quit).unwrap();
    assert_eq!(wordle.phase(), Phase::RoundOver(Outcome::Exhausted));
}

#[test]
fn update_six_wrong_guesses() {
    let mut wordle = game("slate");
    for attempt in 1..=6 {
        assert!(!wordle.game_over);
        type_word(&mut wordle, "crane");
        update(&mut wordle, Action::Enter).unwrap();
        assert_eq!(wordle.states.current_try_times, attempt);
    }
    assert!(wordle.game_over);
    assert_eq!(wordle.phase(), Phase::RoundOver(Outcome::Exhausted));
    assert_eq!(wordle.ui_state, UiState::Main(MainState::Main));
    update(&mut wordle, Action::Enter).unwrap();
    assert_eq!(wordle.ui_state, UiState::Main(MainState::GameOver));
    assert_eq!(wordle.history_words.len(), 6);
}

#[test]
fn update_passes_over_what_asks_nothing() {
    let mut wordle = game("slate");
    for ch in ['c', 'r', 'a', 'n'] {
        wordle.states.current_word.push(ch);
    }
    for action in [Action::Tick, Action::Render, Action::Error, Action::Nothing] {
        update(&mut wordle, action).unwrap();
    }
    assert_eq!(wordle.states.current_word.to_string(), "cran");
    assert_eq!(wordle.ui_state, UiState::Main(MainState::Main));
    update(&mut wordle, Action::PopUp).unwrap();
    assert_eq!(wordle.ui_state, UiState::Main(MainState::GameOver));
    update(&mut wordle, Action::InputChar('e')).unwrap();
    update(&mut wordle, Action::RemoveChar).unwrap();
    assert_eq!(wordle.states.current_word.to_string(), "cran");
    update(&mut wordle, Action::EnterMain).unwrap();
    assert_eq!(wordle.ui_state, UiState::Main(MainState::Main));
    update(&mut wordle, Action::Init).unwrap();
    assert_eq!(wordle.ui_state, UiState::Main(MainState::Main));
    wordle.final_word = Word::parse("crane").unwrap();
    update(&mut wordle, Action::Init).unwrap();
    assert!(wordle.final_word.is_empty());
}

#[test]
fn game_over_flag() {
    let mut wordle = game("slate");
    assert!(!wordle.is_game_over());
    wordle.game_over();
    assert!(wordle.is_game_over());
    assert_eq!(UiState::default(), UiState::Init);
    assert_eq!(MainState::default(), MainState::Main);
}

#[test]
fn the_board_has_three_rows_of_keys() {
    let rows = init_keyboard();
    assert_eq!(rows.len(), 3);
    let letters: Vec<String> = rows
        .iter()
        .map(|row| row.iter().filter_map(|key| key.letter()).collect())
        .collect();
    assert_eq!(letters, vec!["QWERTYUIOP", "ASDFGHJKL", "ZXCVBNM"]);
    assert_eq!(rows[0].len(), 10);
    assert_eq!(rows[1].len(), 9);
    assert_eq!(rows[2].len(), 9);
    assert!(rows[0].iter().all(|key| key.size == 3));
    assert_eq!(rows[2][0].size, 6);
    assert_eq!(rows[2][0].text, "\u{21e6}");
    assert_eq!(rows[2][0].letter(), None);
    assert_eq!(rows[2][8].size, 6);
    assert_eq!(rows[2][8].text, "Enter");
    assert_eq!(rows[2][1].text, "Z");
    assert_eq!(rows[1][0].text, "A");
}

#[test]
fn a_key_of_the_board() {
    let key = Keyboard::new(1, 2, 3, KeyboardType::Char('D')).state(LetterState::Y);
    assert_eq!(key.letter(), Some('D'));
    assert_eq!(key.text, "D");
    assert_eq!(key.size, 3);
    let key = Keyboard::new(2, 8, 6, KeyboardType::Enter);
    assert_eq!(key.letter(), None);
    assert_eq!(key.text, "Enter");
}

#[test]
fn letters_of_a_violation() {
    let entry: (usize, Letter) = (2, Letter('a', LetterState::G));
    assert_eq!(entry.1 .0, 'a');
}

use wordle::state::{fold_char, Letter, LetterState, Mode};

#[test]
fn test_letters() {
    let letters = [
        Letter::new('A'),
        Letter::new('B'),
        Letter::new('C'),
        Letter::new('D'),
        Letter::new('E'),
        Letter::new('F'),
        Letter::new('G'),
    ];
    let mut letter = Letter::new('C');
    letter.set_state(LetterState::G);
    assert!(letters.contains(&letter));
}

#[test]
fn new_letter_is_unjudged() {
    let letter = Letter::new('q');
    assert_eq!(letter.0, 'q');
    assert_eq!(letter.1, LetterState::X);
}

#[test]
fn set_state_keeps_the_character() {
    let mut letter = Letter::new('q');
    letter.set_state(LetterState::Y);
    assert_eq!(letter.0, 'q');
    assert_eq!(letter.1, LetterState::Y);
}

#[test]
fn letters_compare_by_character_only() {
    let mut green = Letter::new('a');
    green.set_state(LetterState::G);
    let mut red = Letter::new('a');
    red.set_state(LetterState::R);
    assert!(green == red);
    assert!(Letter::new('a') != Letter::new('b'));
}

#[test]
fn letters_compare_without_case() {
    assert!(Letter::new('a') == Letter::new('A'));
    assert!(Letter::new('z') == Letter::new('Z'));
    assert!(Letter::new('a') != Letter::new('B'));
}

#[test]
fn fold_turns_capitals_into_small_letters() {
    assert_eq!(fold_char('A'), 'a');
    assert_eq!(fold_char('Z'), 'z');
    assert_eq!(fold_char('m'), 'm');
    assert_eq!(fold_char('@'), '@');
    assert_eq!(fold_char('['), '[');
    assert_eq!(fold_char('5'), '5');
    assert_eq!(fold_char('\u{c9}'), '\u{c9}');
}

#[test]
fn severity_runs_from_green_to_unknown() {
    assert_eq!(LetterState::G.rank(), 0);
    assert_eq!(LetterState::Y.rank(), 1);
    assert_eq!(LetterState::R.rank(), 2);
    assert_eq!(LetterState::X.rank(), 3);
}

#[test]
fn derived_order_agrees_with_severity() {
    let all = [LetterState::G, LetterState::Y, LetterState::R, LetterState::X];
    for a in all {
        for b in all {
            assert_eq!(a < b, a.rank() < b.rank());
            assert_eq!(a.more_informative_than(b), a.rank() < b.rank());
        }
    }
}

#[test]
fn merge_keeps_the_more_informative_state() {
    assert_eq!(LetterState::G.merge(LetterState::R), LetterState::G);
    assert_eq!(LetterState::R.merge(LetterState::G), LetterState::G);
    assert_eq!(LetterState::Y.merge(LetterState::R), LetterState::Y);
    assert_eq!(LetterState::X.merge(LetterState::R), LetterState::R);
    assert_eq!(LetterState::Y.merge(LetterState::Y), LetterState::Y);
    assert_eq!(LetterState::X.merge(LetterState::X), LetterState::X);
}

#[test]
fn default_mode_is_test() {
    assert_eq!(Mode::default(), Mode::Test);
}

#[test]
fn letters_order_by_character_without_case() {
    assert!(Letter::new('a') < Letter::new('b'));
    assert!(Letter::new('B') > Letter::new('a'));
    assert!(Letter::new('a') <= Letter::new('A'));
    assert!(Letter::new('A') >= Letter::new('a'));
    let mut green = Letter::new('c');
    green.set_state(LetterState::G);
    assert!(green < Letter::new('d'));
    assert_eq!(
        Letter::new('Z').partial_cmp(&Letter::new('z')),
        Some(std::cmp::Ordering::Equal)
    );
}

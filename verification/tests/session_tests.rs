use wordle_solver::pattern::{LetterColor, calc_guessmatch};
use wordle_solver::pool::filter_for_words_with_same_guessmatch;
use wordle_solver::session::{StepOutcome, parse_feedback, session_step};

fn w(s: &str) -> Vec<u8> {
    s.as_bytes().to_vec()
}

#[test]
fn parse_feedback_maps_the_three_characters() {
    let gm = parse_feedback(&w("ggy--")).expect("five characters");
    assert_eq!(
        gm.colors,
        vec![
            LetterColor::Green,
            LetterColor::Green,
            LetterColor::Yellow,
            LetterColor::Gray,
            LetterColor::Gray,
        ]
    );
}

#[test]
fn parse_feedback_rejects_other_lengths() {
    assert!(parse_feedback(&w("gg")).is_none());
    assert!(parse_feedback(&w("ggyy--")).is_none());
    assert!(parse_feedback(&w("")).is_none());
}

#[test]
fn parse_feedback_coerces_unknown_characters_to_gray() {
    let gm = parse_feedback(&w("xq!7z")).expect("five characters");
    assert_eq!(gm.colors, vec![LetterColor::Gray; 5]);
}

#[test]
fn winning_feedback_ends_the_session() {
    let pool = vec![w("raise"), w("arise")];
    let feedback = parse_feedback(&w("ggggg")).expect("five characters");
    match session_step(&w("raise"), &feedback, &pool) {
        StepOutcome::Won => {}
        StepOutcome::Continue(_) => panic!("all-Green feedback must end the session"),
    }
}

#[test]
fn other_feedback_narrows_the_pool() {
    let pool = vec![w("raise"), w("arise"), w("slate"), w("crane"), w("trace")];
    let feedback = calc_guessmatch(&w("rales"), &w("raise"));
    assert!(!feedback.is_winning());
    match session_step(&w("rales"), &feedback, &pool) {
        StepOutcome::Won => panic!("feedback was not all Green"),
        StepOutcome::Continue(narrowed) => {
            let expected = filter_for_words_with_same_guessmatch(&w("rales"), &feedback, &pool);
            assert_eq!(narrowed, expected);
            assert_eq!(narrowed, vec![w("raise")]);
        }
    }
}

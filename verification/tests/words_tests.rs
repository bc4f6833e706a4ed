use wordle_solver::words::{build_dictionary, contains_word, is_valid_word, words_equal};

fn w(s: &str) -> Vec<u8> {
    s.as_bytes().to_vec()
}

#[test]
fn dictionary_skips_blank_lines_and_collapses_duplicates() {
    let lines = vec![w("crane"), w(""), w("slate"), w("crane"), w("arise"), w("")];
    let dict = build_dictionary(&lines);
    assert_eq!(dict, vec![w("crane"), w("slate"), w("arise")]);
}

#[test]
fn dictionary_drops_lines_that_are_not_five_lowercase_letters() {
    let lines = vec![w("crane"), w("toolong"), w("hi"), w("CRANE"), w("cr4ne"), w("trace")];
    let dict = build_dictionary(&lines);
    assert_eq!(dict, vec![w("crane"), w("trace")]);
}

#[test]
fn dictionary_keeps_first_occurrence_order() {
    let lines = vec![w("slate"), w("crane"), w("slate"), w("arise"), w("crane")];
    let dict = build_dictionary(&lines);
    assert_eq!(dict, vec![w("slate"), w("crane"), w("arise")]);
}

#[test]
fn valid_words_are_exactly_five_lowercase_letters() {
    assert!(is_valid_word(&w("crane")));
    assert!(is_valid_word(&w("zzzzz")));
    assert!(!is_valid_word(&w("")));
    assert!(!is_valid_word(&w("cran")));
    assert!(!is_valid_word(&w("cranes")));
    assert!(!is_valid_word(&w("crAne")));
    assert!(!is_valid_word(&w("cr-ne")));
}

#[test]
fn word_equality_is_by_letters() {
    assert!(words_equal(&w("crane"), &w("crane")));
    assert!(!words_equal(&w("crane"), &w("trace")));
    assert!(!words_equal(&w("crane"), &w("cran")));
}

#[test]
fn membership_follows_equality() {
    let words = vec![w("crane"), w("slate")];
    assert!(contains_word(&words, &w("slate")));
    assert!(!contains_word(&words, &w("arise")));
    assert!(!contains_word(&Vec::new(), &w("arise")));
}

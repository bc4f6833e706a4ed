use wordle_solver::pattern::calc_guessmatch;
use wordle_solver::pool::filter_for_words_with_same_guessmatch;
use wordle_solver::session::parse_feedback;

fn w(s: &str) -> Vec<u8> {
    s.as_bytes().to_vec()
}

fn dict() -> Vec<Vec<u8>> {
    vec![w("raise"), w("arise"), w("slate"), w("crane"), w("trace")]
}

#[test]
fn filter_keeps_exactly_the_consistent_words() {
    // the pattern "rales" earns against "raise" singles out "raise"
    let pattern = calc_guessmatch(&w("rales"), &w("raise"));
    let kept = filter_for_words_with_same_guessmatch(&w("rales"), &pattern, &dict());
    assert_eq!(kept, vec![w("raise")]);
}

#[test]
fn filter_scenario_after_first_guess() {
    // feedback "-y--g" on the fixed first guess "rales": no word of the five
    // earns [Gray, Yellow, Gray, Gray, Green] against "rales" under the
    // counting rule (each of the others puts an 'r' somewhere, so position 0
    // is Green or Yellow; "slate" fails at position 2), and the pool empties
    // — a valid terminal state the caller reports.
    let pattern = parse_feedback(&w("-y--g")).expect("five characters");
    let kept = filter_for_words_with_same_guessmatch(&w("rales"), &pattern, &dict());
    assert!(kept.is_empty());
    for word in dict() {
        let earned = calc_guessmatch(&w("rales"), &word);
        assert!(!earned.same_as(&pattern));
    }
}

#[test]
fn filter_never_grows_the_pool() {
    let words = dict();
    for chosen in &words {
        for actual in &words {
            let pattern = calc_guessmatch(chosen, actual);
            let kept = filter_for_words_with_same_guessmatch(chosen, &pattern, &words);
            assert!(kept.len() <= words.len());
            // the actual word itself is always consistent with its own pattern
            assert!(kept.contains(actual));
        }
    }
}

#[test]
fn filter_on_empty_pool_is_empty() {
    let pattern = calc_guessmatch(&w("crane"), &w("slate"));
    let kept = filter_for_words_with_same_guessmatch(&w("crane"), &pattern, &Vec::new());
    assert!(kept.is_empty());
}

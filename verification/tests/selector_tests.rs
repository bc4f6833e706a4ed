use wordle_solver::pattern::calc_guessmatch;
use wordle_solver::selector::{NUM_PATTERNS, WINNING_PATTERN_INDEX, guessmatch_index, pattern_counts};

fn w(s: &str) -> Vec<u8> {
    s.as_bytes().to_vec()
}

#[test]
fn counts_partition_the_candidates() {
    let candidates = vec![w("raise"), w("arise"), w("slate"), w("crane"), w("trace")];
    let counts = pattern_counts(&w("rales"), &candidates);
    assert_eq!(counts.len(), NUM_PATTERNS);
    let total: usize = counts.iter().sum();
    assert_eq!(total, candidates.len());
    for word in &candidates {
        let idx = guessmatch_index(&calc_guessmatch(&w("rales"), word));
        assert!(counts[idx] >= 1);
    }
}

#[test]
fn counts_on_two_distinct_words() {
    let counts = pattern_counts(&w("aaaaa"), &vec![w("aaaaa"), w("bbbbb")]);
    // "aaaaa" against itself is all Green (the last bucket), against "bbbbb"
    // all Gray (the first bucket)
    assert_eq!(counts[WINNING_PATTERN_INDEX], 1);
    assert_eq!(counts[0], 1);
    let total: usize = counts.iter().sum();
    assert_eq!(total, 2);
}

#[test]
fn winning_bucket_occupied_exactly_when_guess_is_a_candidate() {
    let candidates = vec![w("raise"), w("arise"), w("slate")];
    let with_guess = pattern_counts(&w("slate"), &candidates);
    assert!(with_guess[WINNING_PATTERN_INDEX] > 0);
    let without_guess = pattern_counts(&w("crane"), &candidates);
    assert_eq!(without_guess[WINNING_PATTERN_INDEX], 0);
}

#[test]
fn singleton_pool_gives_one_bucket_and_a_finite_score() {
    let candidates = vec![w("crane")];
    let counts = pattern_counts(&w("slate"), &candidates);
    let occupied: Vec<usize> = counts.iter().copied().filter(|&c| c > 0).collect();
    assert_eq!(occupied, vec![1]);
    // the scoring a caller builds on these counts stays finite: one nonzero
    // bucket, mean 1/243
    let mean: f32 = candidates.len() as f32 / NUM_PATTERNS as f32;
    let variance: f32 = counts
        .iter()
        .filter(|&&c| c > 0)
        .map(|&c| (c as f32 - mean) * (c as f32 - mean))
        .sum::<f32>()
        / NUM_PATTERNS as f32;
    let std = variance.sqrt();
    assert!(std.is_finite());
}

#[test]
fn counts_on_empty_pool_are_all_zero() {
    let counts = pattern_counts(&w("crane"), &Vec::new());
    assert!(counts.iter().all(|&c| c == 0));
    assert_eq!(counts.len(), NUM_PATTERNS);
}

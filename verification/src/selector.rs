//! The integer core of guess selection: for one candidate guess, how the
//! remaining candidate words distribute across the 243 possible feedback
//! patterns. The scoring built on these counts (mean, variance, square root
//! and the win bonus) is floating-point arithmetic and lives with the caller;
//! everything it consumes is computed and pinned down here.

use vstd::prelude::*;

use crate::pattern::{
    GuessMatch, LetterColor, all_green, calc_guessmatch, is_word, lemma_all_green_iff_equal,
    lemma_self_match, spec_guessmatch,
};
use crate::pool::{all_words, lemma_filter_push};

verus! {

/// Number of distinct feedback patterns: three colours at each of five
/// positions, 3^5.
pub const NUM_PATTERNS: usize = 243;

/// Index of the all-Green pattern in the fixed enumeration of patterns.
pub const WINNING_PATTERN_INDEX: usize = 242;

/// The base-3 digit standing for one colour.
pub open spec fn color_digit(c: LetterColor) -> int {
    match c {
        LetterColor::Gray => 0,
        LetterColor::Yellow => 1,
        LetterColor::Green => 2,
    }
}

/// The index of a pattern in the fixed enumeration of all 243 patterns: its
/// colours read as base-3 digits, position 0 least significant.
pub open spec fn pattern_index(p: Seq<LetterColor>) -> int {
    color_digit(p[0]) + 3 * color_digit(p[1]) + 9 * color_digit(p[2]) + 27 * color_digit(p[3])
        + 81 * color_digit(p[4])
}

/// How many words of `candidates` earn, against `guess`, the pattern whose
/// index is `k`.
pub open spec fn bucket_count(guess: Seq<u8>, candidates: Seq<Seq<u8>>, k: int) -> nat {
    candidates.filter(|w: Seq<u8>| pattern_index(spec_guessmatch(guess, w)) == k).len()
}

/// A five-position pattern has the winning index exactly when it is all
/// Green.
pub proof fn lemma_winning_index(p: Seq<LetterColor>)
    requires
        p.len() == 5,
    ensures
        pattern_index(p) == WINNING_PATTERN_INDEX <==> all_green(p),
{
    if pattern_index(p) == WINNING_PATTERN_INDEX {
        assert forall|i: int| 0 <= i < p.len() implies #[trigger] p[i] == LetterColor::Green by {
            assert(color_digit(p[0]) <= 2 && color_digit(p[1]) <= 2 && color_digit(p[2]) <= 2
                && color_digit(p[3]) <= 2 && color_digit(p[4]) <= 2);
            assert(color_digit(p[i]) == 2);
        }
    }
}

fn digit_of_color(c: LetterColor) -> (d: usize)
    ensures
        d == color_digit(c),
{
    match c {
        LetterColor::Gray => 0,
        LetterColor::Yellow => 1,
        LetterColor::Green => 2,
    }
}

/// The index of a pattern in the fixed enumeration of all 243 patterns.
pub fn guessmatch_index(gm: &GuessMatch) -> (idx: usize)
    requires
        gm.wf(),
    ensures
        idx == pattern_index(gm@),
        idx < NUM_PATTERNS,
{
    let d0 = digit_of_color(gm.color(0));
    let d1 = digit_of_color(gm.color(1));
    let d2 = digit_of_color(gm.color(2));
    let d3 = digit_of_color(gm.color(3));
    let d4 = digit_of_color(gm.color(4));
    d0 + 3 * d1 + 9 * d2 + 27 * d3 + 81 * d4
}

/// Every element of a filtered sequence is an element of the sequence it was
/// filtered from.
proof fn lemma_filter_members<A>(s: Seq<A>, pred: spec_fn(A) -> bool)
    ensures
        forall|i: int| 0 <= i < s.filter(pred).len() ==> s.contains(#[trigger] s.filter(pred)[i]),
    decreases s.len(),
{
    reveal(Seq::filter);
    if s.len() > 0 {
        let rest = s.drop_last();
        lemma_filter_members(rest, pred);
        assert forall|i: int|
            0 <= i < s.filter(pred).len() implies s.contains(#[trigger] s.filter(pred)[i]) by {
            if i < rest.filter(pred).len() {
                assert(rest.contains(rest.filter(pred)[i]));
                let j = choose|j: int| 0 <= j < rest.len() && rest[j] == rest.filter(pred)[i];
                assert(s[j] == s.filter(pred)[i]);
            } else {
                assert(s.filter(pred)[i] == s.last());
                assert(s[s.len() - 1] == s.last());
            }
        }
    }
}

/// Builds the pattern frequency table for one candidate guess: entry `k` is
/// the number of candidate words whose feedback against `guess_word` is the
/// pattern with index `k`. Conceptually the table ranges over all 243
/// patterns; buckets no candidate falls into hold zero.
pub fn pattern_counts(guess_word: &Vec<u8>, candidates: &Vec<Vec<u8>>) -> (counts: Vec<usize>)
    requires
        is_word(guess_word@),
        all_words(candidates.deep_view()),
    ensures
        counts@.len() == NUM_PATTERNS,
        forall|k: int|
            0 <= k < NUM_PATTERNS ==> counts@[k] == bucket_count(
                guess_word@,
                candidates.deep_view(),
                k,
            ),
{
    let ghost cands = candidates.deep_view();
    let mut counts: Vec<usize> = Vec::new();
    let mut j: usize = 0;
    while j < NUM_PATTERNS
        invariant
            j <= NUM_PATTERNS,
            counts@.len() == j,
            forall|k: int| 0 <= k < j ==> counts@[k] == 0,
        decreases NUM_PATTERNS - j,
    {
        counts.push(0);
        j += 1;
    }
    proof {
        assert(cands.take(0) =~= Seq::<Seq<u8>>::empty());
        reveal(Seq::filter);
    }
    let n = candidates.len();
    let mut i: usize = 0;
    while i < n
        invariant
            i <= n,
            n == candidates@.len(),
            is_word(guess_word@),
            all_words(cands),
            cands == candidates.deep_view(),
            counts@.len() == NUM_PATTERNS,
            forall|k: int|
                0 <= k < NUM_PATTERNS ==> counts@[k] == bucket_count(
                    guess_word@,
                    cands.take(i as int),
                    k,
                ),
        decreases n - i,
    {
        assert(cands[i as int] == candidates@[i as int]@);
        let gm = calc_guessmatch(guess_word, &candidates[i]);
        let idx = guessmatch_index(&gm);
        proof {
            cands.take(i as int).lemma_filter_len(
                |w: Seq<u8>| pattern_index(spec_guessmatch(guess_word@, w)) == idx as int,
            );
        }
        let c = counts[idx];
        counts[idx] = c + 1;
        proof {
            assert(cands.take(i as int).push(cands[i as int]) =~= cands.take(i + 1));
            assert forall|k: int|
                0 <= k < NUM_PATTERNS implies counts@[k] == bucket_count(
                guess_word@,
                cands.take(i + 1),
                k,
            ) by {
                lemma_filter_push(
                    cands.take(i as int),
                    |w: Seq<u8>| pattern_index(spec_guessmatch(guess_word@, w)) == k,
                    cands[i as int],
                );
            }
        }
        i += 1;
    }
    proof {
        assert(cands.take(n as int) =~= cands);
    }
    counts
}

/// The winning bucket is occupied exactly when the guess itself is one of the
/// candidates: only a word equal to the guess earns the all-Green pattern.
pub proof fn lemma_winning_bucket(guess: Seq<u8>, candidates: Seq<Seq<u8>>)
    requires
        is_word(guess),
        all_words(candidates),
    ensures
        bucket_count(guess, candidates, WINNING_PATTERN_INDEX as int) > 0 <==> candidates.contains(
            guess,
        ),
{
    let pred = |w: Seq<u8>| pattern_index(spec_guessmatch(guess, w))
        == WINNING_PATTERN_INDEX as int;
    if candidates.contains(guess) {
        let i = choose|i: int| 0 <= i < candidates.len() && candidates[i] == guess;
        lemma_self_match(guess);
        lemma_winning_index(spec_guessmatch(guess, guess));
        candidates.lemma_filter_contains(pred, i);
        assert(candidates.filter(pred).contains(guess));
    }
    if bucket_count(guess, candidates, WINNING_PATTERN_INDEX as int) > 0 {
        let filtered = candidates.filter(pred);
        candidates.lemma_filter_pred(pred, 0);
        lemma_filter_members(candidates, pred);
        assert(candidates.contains(filtered[0]));
        let i = choose|i: int| 0 <= i < candidates.len() && candidates[i] == filtered[0];
        lemma_winning_index(spec_guessmatch(guess, filtered[0]));
        lemma_all_green_iff_equal(guess, filtered[0]);
    }
}

/// Every pattern index lies in the fixed enumeration: each colour's digit is
/// at most two, so the base-3 reading stays below 243.
pub proof fn lemma_pattern_index_range(p: Seq<LetterColor>)
    ensures
        0 <= pattern_index(p) < NUM_PATTERNS,
{
}

/// The number of candidates falling in the buckets with indices below `k`.
pub open spec fn bucket_total(guess: Seq<u8>, candidates: Seq<Seq<u8>>, k: int) -> nat
    decreases k,
{
    if k <= 0 {
        0
    } else {
        bucket_total(guess, candidates, k - 1) + bucket_count(guess, candidates, k - 1)
    }
}

proof fn lemma_bucket_total_empty(guess: Seq<u8>, candidates: Seq<Seq<u8>>, k: int)
    requires
        candidates.len() == 0,
    ensures
        bucket_total(guess, candidates, k) == 0,
    decreases k,
{
    reveal(Seq::filter);
    if k > 0 {
        lemma_bucket_total_empty(guess, candidates, k - 1);
    }
}

proof fn lemma_bucket_total_push(guess: Seq<u8>, rest: Seq<Seq<u8>>, w: Seq<u8>, k: int)
    ensures
        bucket_total(guess, rest.push(w), k) == bucket_total(guess, rest, k) + if 0
            <= pattern_index(spec_guessmatch(guess, w)) < k {
            1nat
        } else {
            0nat
        },
    decreases k,
{
    if k > 0 {
        lemma_bucket_total_push(guess, rest, w, k - 1);
        lemma_filter_push(
            rest,
            |v: Seq<u8>| pattern_index(spec_guessmatch(guess, v)) == k - 1,
            w,
        );
    }
}

/// Partition law: against one guess every candidate earns exactly one
/// pattern, so the 243 bucket counts add up to the size of the pool.
pub proof fn lemma_counts_partition(guess: Seq<u8>, candidates: Seq<Seq<u8>>)
    ensures
        bucket_total(guess, candidates, NUM_PATTERNS as int) == candidates.len(),
    decreases candidates.len(),
{
    if candidates.len() == 0 {
        lemma_bucket_total_empty(guess, candidates, NUM_PATTERNS as int);
    } else {
        let rest = candidates.drop_last();
        let w = candidates.last();
        lemma_counts_partition(guess, rest);
        lemma_pattern_index_range(spec_guessmatch(guess, w));
        lemma_bucket_total_push(guess, rest, w, NUM_PATTERNS as int);
        assert(rest.push(w) =~= candidates);
    }
}

/// On a singleton candidate pool the frequency table has exactly one occupied
/// bucket, the one of the pattern the lone candidate earns, and it holds one.
pub proof fn lemma_singleton_pool(guess: Seq<u8>, candidates: Seq<Seq<u8>>, k: int)
    requires
        candidates.len() == 1,
    ensures
        bucket_count(guess, candidates, k) == if k == pattern_index(
            spec_guessmatch(guess, candidates[0]),
        ) {
            1nat
        } else {
            0nat
        },
{
    reveal(Seq::filter);
    let pred = |w: Seq<u8>| pattern_index(spec_guessmatch(guess, w)) == k;
    let rest = candidates.drop_last();
    assert(rest.filter(pred).len() == 0);
    assert(candidates.last() == candidates[0]);
    if pred(candidates[0]) {
        assert(candidates.filter(pred) == rest.filter(pred).push(candidates[0]));
    } else {
        assert(candidates.filter(pred) == rest.filter(pred));
    }
}

} // verus!

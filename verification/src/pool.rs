//! The candidate pool: narrowing a word collection to the words consistent
//! with an observed (guess, pattern) pair.

use vstd::prelude::*;

use crate::pattern::{GuessMatch, LetterColor, calc_guessmatch, is_word, spec_guessmatch};

verus! {

/// Every element of `words` is a word of the puzzle.
pub open spec fn all_words(words: Seq<Seq<u8>>) -> bool {
    forall|i: int| 0 <= i < words.len() ==> is_word(#[trigger] words[i])
}

/// The words of `words` whose feedback against `chosen` is exactly `pattern`,
/// in their original order.
pub open spec fn consistent_words(
    chosen: Seq<u8>,
    pattern: Seq<LetterColor>,
    words: Seq<Seq<u8>>,
) -> Seq<Seq<u8>> {
    words.filter(|w: Seq<u8>| spec_guessmatch(chosen, w) == pattern)
}

/// Appending one element to a sequence extends its filtered image by that
/// element when the element passes the predicate, and leaves it unchanged
/// otherwise.
pub(crate) proof fn lemma_filter_push<A>(s: Seq<A>, pred: spec_fn(A) -> bool, e: A)
    ensures
        pred(e) ==> s.push(e).filter(pred) == s.filter(pred).push(e),
        !pred(e) ==> s.push(e).filter(pred) == s.filter(pred),
{
    reveal(Seq::filter);
    assert(s.push(e).drop_last() =~= s);
}

/// Keeps exactly the words of `words` whose feedback against `chosen_word`
/// equals `resulting_guess`, in their original order. The result is exact:
/// every retained word is consistent with the observation, and every
/// consistent word of `words` is retained.
pub fn filter_for_words_with_same_guessmatch(
    chosen_word: &Vec<u8>,
    resulting_guess: &GuessMatch,
    words: &Vec<Vec<u8>>,
) -> (result: Vec<Vec<u8>>)
    requires
        is_word(chosen_word@),
        all_words(words.deep_view()),
    ensures
        result.deep_view() == consistent_words(chosen_word@, resulting_guess@, words.deep_view()),
{
    let ghost pred = |w: Seq<u8>| spec_guessmatch(chosen_word@, w) == resulting_guess@;
    let mut result: Vec<Vec<u8>> = Vec::new();
    let n = words.len();
    let mut i: usize = 0;
    while i < n
        invariant
            i <= n,
            n == words@.len(),
            is_word(chosen_word@),
            all_words(words.deep_view()),
            pred == (|w: Seq<u8>| spec_guessmatch(chosen_word@, w) == resulting_guess@),
            result.deep_view() == words.deep_view().take(i as int).filter(pred),
        decreases n - i,
    {
        let ghost old_result = result.deep_view();
        assert(words.deep_view()[i as int] == words@[i as int]@);
        let guess_match = calc_guessmatch(chosen_word, &words[i]);
        if guess_match.same_as(resulting_guess) {
            result.push(words[i].clone());
            proof {
                assert(result.deep_view() =~= old_result.push(words@[i as int]@));
            }
        }
        proof {
            lemma_filter_push(words.deep_view().take(i as int), pred, words.deep_view()[i as int]);
            assert(words.deep_view().take(i as int).push(words.deep_view()[i as int]) =~= words
                .deep_view()
                .take(i + 1));
        }
        i += 1;
    }
    proof {
        assert(words.deep_view().take(n as int) =~= words.deep_view());
    }
    result
}

/// Filter soundness and completeness: every word the filter keeps earns
/// exactly the observed pattern against the chosen word, and every word of
/// the pool that earns it is kept.
pub proof fn lemma_filter_exact(chosen: Seq<u8>, pattern: Seq<LetterColor>, words: Seq<Seq<u8>>)
    ensures
        forall|i: int|
            0 <= i < consistent_words(chosen, pattern, words).len() ==> spec_guessmatch(
                chosen,
                #[trigger] consistent_words(chosen, pattern, words)[i],
            ) == pattern,
        forall|i: int|
            0 <= i < words.len() && spec_guessmatch(chosen, #[trigger] words[i]) == pattern
                ==> consistent_words(chosen, pattern, words).contains(words[i]),
{
    let pred = |w: Seq<u8>| spec_guessmatch(chosen, w) == pattern;
    assert forall|i: int|
        0 <= i < consistent_words(chosen, pattern, words).len() implies spec_guessmatch(
        chosen,
        consistent_words(chosen, pattern, words)[i],
    ) == pattern by {
        words.lemma_filter_pred(pred, i);
    }
    assert forall|i: int|
        0 <= i < words.len() && spec_guessmatch(chosen, #[trigger] words[i])
            == pattern implies consistent_words(chosen, pattern, words).contains(words[i]) by {
        words.lemma_filter_contains(pred, i);
    }
}

/// Filter monotonicity: filtering never grows the pool.
pub proof fn lemma_filter_monotonic(chosen: Seq<u8>, pattern: Seq<LetterColor>, words: Seq<Seq<u8>>)
    ensures
        consistent_words(chosen, pattern, words).len() <= words.len(),
{
    words.lemma_filter_len(|w: Seq<u8>| spec_guessmatch(chosen, w) == pattern);
}

} // verus!

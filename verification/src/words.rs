//! Building the dictionary: the static word list the solver draws candidates
//! and guesses from. Lines that are not five lowercase letters are dropped,
//! duplicates collapse, and the first occurrence fixes a word's place, so the
//! list's order — and with it the selector's tie-breaking — is reproducible.

use vstd::prelude::*;

use crate::pattern::{ASCII_A, ASCII_Z, WORD_LEN, is_lower_letter, is_word};
use crate::pool::all_words;

verus! {

/// The dictionary a sequence of lines yields: the lines that are words of the
/// puzzle, first occurrences only, in their original order.
pub open spec fn spec_dictionary(lines: Seq<Seq<u8>>) -> Seq<Seq<u8>>
    decreases lines.len(),
{
    if lines.len() == 0 {
        Seq::empty()
    } else {
        let rest = spec_dictionary(lines.drop_last());
        let line = lines.last();
        if is_word(line) && !rest.contains(line) {
            rest.push(line)
        } else {
            rest
        }
    }
}

/// Whether `w` is a word of the puzzle: five ASCII lowercase letters.
pub fn is_valid_word(w: &Vec<u8>) -> (r: bool)
    ensures
        r == is_word(w@),
{
    if w.len() != WORD_LEN {
        return false;
    }
    let mut i: usize = 0;
    while i < WORD_LEN
        invariant
            i <= WORD_LEN,
            w@.len() == WORD_LEN,
            forall|j: int| 0 <= j < i ==> is_lower_letter(#[trigger] w@[j]),
        decreases WORD_LEN - i,
    {
        let b = w[i];
        if b < ASCII_A || b > ASCII_Z {
            return false;
        }
        i += 1;
    }
    true
}

/// Whether two words have the same letters.
pub fn words_equal(a: &Vec<u8>, b: &Vec<u8>) -> (r: bool)
    ensures
        r == (a@ == b@),
{
    if a.len() != b.len() {
        return false;
    }
    let n = a.len();
    let mut i: usize = 0;
    while i < n
        invariant
            i <= n,
            n == a@.len() == b@.len(),
            forall|j: int| 0 <= j < i ==> a@[j] == b@[j],
        decreases n - i,
    {
        if a[i] != b[i] {
            return false;
        }
        i += 1;
    }
    proof {
        assert(a@ =~= b@);
    }
    true
}

/// Whether `w` already stands in `words`.
pub fn contains_word(words: &Vec<Vec<u8>>, w: &Vec<u8>) -> (r: bool)
    ensures
        r == words.deep_view().contains(w@),
{
    let n = words.len();
    let mut i: usize = 0;
    while i < n
        invariant
            i <= n,
            n == words@.len(),
            forall|j: int| 0 <= j < i ==> words.deep_view()[j] != w@,
        decreases n - i,
    {
        assert(words.deep_view()[i as int] == words@[i as int]@);
        if words_equal(&words[i], w) {
            assert(words.deep_view().contains(w@));
            return true;
        }
        i += 1;
    }
    false
}

/// Builds the dictionary from the lines of a word-list file: keeps exactly
/// the lines that are words of the puzzle, collapses duplicates to their
/// first occurrence, and keeps that order. Blank lines are not words and are
/// so ignored.
pub fn build_dictionary(lines: &Vec<Vec<u8>>) -> (dict: Vec<Vec<u8>>)
    ensures
        dict.deep_view() == spec_dictionary(lines.deep_view()),
{
    let ghost all_lines = lines.deep_view();
    let mut dict: Vec<Vec<u8>> = Vec::new();
    let n = lines.len();
    let mut i: usize = 0;
    proof {
        assert(all_lines.take(0) =~= Seq::<Seq<u8>>::empty());
    }
    while i < n
        invariant
            i <= n,
            n == lines@.len(),
            all_lines == lines.deep_view(),
            dict.deep_view() == spec_dictionary(all_lines.take(i as int)),
        decreases n - i,
    {
        let ghost old_dict = dict.deep_view();
        assert(all_lines[i as int] == lines@[i as int]@);
        if is_valid_word(&lines[i]) && !contains_word(&dict, &lines[i]) {
            dict.push(lines[i].clone());
            proof {
                assert(dict.deep_view() =~= old_dict.push(all_lines[i as int]));
            }
        }
        proof {
            assert(all_lines.take(i + 1).drop_last() =~= all_lines.take(i as int));
            assert(all_lines.take(i + 1).last() == all_lines[i as int]);
        }
        i += 1;
    }
    proof {
        assert(all_lines.take(n as int) =~= all_lines);
    }
    dict
}

/// What the built dictionary is like: every entry is a word of the puzzle, no
/// word stands in it twice, and a word stands in it exactly when some line
/// holds it.
pub proof fn lemma_dictionary_wf(lines: Seq<Seq<u8>>)
    ensures
        all_words(spec_dictionary(lines)),
        forall|i: int, j: int|
            0 <= i < j < spec_dictionary(lines).len() ==> spec_dictionary(lines)[i]
                != spec_dictionary(lines)[j],
        forall|w: Seq<u8>|
            #[trigger] spec_dictionary(lines).contains(w) <==> lines.contains(w) && is_word(w),
    decreases lines.len(),
{
    if lines.len() > 0 {
        let rest = lines.drop_last();
        let line = lines.last();
        let prev = spec_dictionary(rest);
        let cur = spec_dictionary(lines);
        lemma_dictionary_wf(rest);
        assert forall|w: Seq<u8>| #[trigger] cur.contains(w) implies lines.contains(w) && is_word(
            w,
        ) by {
            if prev.contains(w) {
                let j = choose|j: int| 0 <= j < rest.len() && rest[j] == w;
                assert(lines[j] == w);
            } else {
                assert(w == line);
                assert(lines[lines.len() - 1] == line);
            }
        }
        assert forall|w: Seq<u8>| lines.contains(w) && is_word(w) implies #[trigger] cur.contains(
            w,
        ) by {
            let j = choose|j: int| 0 <= j < lines.len() && lines[j] == w;
            if j < rest.len() {
                assert(rest[j] == w);
                assert(prev.contains(w));
                let t = choose|t: int| 0 <= t < prev.len() && prev[t] == w;
                if is_word(line) && !prev.contains(line) {
                    assert(cur[t] == w);
                } else {
                    assert(cur == prev);
                }
            } else {
                assert(w == line);
                if !prev.contains(line) {
                    assert(cur[cur.len() - 1] == line);
                } else {
                    let t = choose|t: int| 0 <= t < prev.len() && prev[t] == line;
                    assert(cur[t] == line);
                }
            }
        }
    }
}

} // verus!

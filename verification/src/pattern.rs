//! The pattern engine: the colour feedback a guess earns against a true word.
//!
//! The colouring rule is a counting approximation, not the textbook two-pass
//! marker: a position is Green when the letters agree, and otherwise Yellow
//! exactly when the letter's total count in the true word is at least its
//! running count in the guess up to and including this position. A letter
//! consumed by a Green match elsewhere can therefore still earn a Yellow;
//! that behaviour is deliberate and is the contract.

use vstd::prelude::*;

verus! {

/// Number of letters in every word of the puzzle.
pub const WORD_LEN: usize = 5;

/// ASCII code of 'a', the first letter the puzzle accepts.
pub const ASCII_A: u8 = 97;

/// ASCII code of 'z', the last letter the puzzle accepts.
pub const ASCII_Z: u8 = 122;

/// Feedback colour for one letter position of a guess.
#[derive(Copy, Clone, PartialEq, Eq, Structural, Debug)]
pub enum LetterColor {
    Gray,
    Yellow,
    Green,
}

/// True of a byte that is an ASCII lowercase letter.
pub open spec fn is_lower_letter(b: u8) -> bool {
    ASCII_A <= b <= ASCII_Z
}

/// A word of the puzzle: exactly five ASCII lowercase letters.
pub open spec fn is_word(s: Seq<u8>) -> bool {
    &&& s.len() == WORD_LEN
    &&& forall|i: int| 0 <= i < s.len() ==> is_lower_letter(#[trigger] s[i])
}

/// How many times `letter` occurs in `s`.
pub open spec fn count_occ(s: Seq<u8>, letter: u8) -> nat
    decreases s.len(),
{
    if s.len() == 0 {
        0
    } else {
        count_occ(s.drop_last(), letter) + if s.last() == letter {
            1nat
        } else {
            0nat
        }
    }
}

/// The colour earned at position `i` when `guess` is played against `actual`:
/// Green on an exact positional match; otherwise Yellow exactly when the
/// letter's total count in `actual` is at least its running count in the
/// guess up to and including position `i`; otherwise Gray.
pub open spec fn color_at(guess: Seq<u8>, actual: Seq<u8>, i: int) -> LetterColor {
    if actual[i] == guess[i] {
        LetterColor::Green
    } else if count_occ(actual, guess[i]) >= count_occ(guess.take(i + 1), guess[i]) {
        LetterColor::Yellow
    } else {
        LetterColor::Gray
    }
}

/// The full feedback pattern for `guess` played against `actual`.
pub open spec fn spec_guessmatch(guess: Seq<u8>, actual: Seq<u8>) -> Seq<LetterColor> {
    Seq::new(WORD_LEN as nat, |i: int| color_at(guess, actual, i))
}

/// A pattern is the winning one when every position is Green.
pub open spec fn all_green(p: Seq<LetterColor>) -> bool {
    &&& p.len() == WORD_LEN
    &&& forall|i: int| 0 <= i < p.len() ==> #[trigger] p[i] == LetterColor::Green
}

/// The feedback pattern for one guess: an ordered sequence of exactly
/// `WORD_LEN` colours, one per letter position.
pub struct GuessMatch {
    pub colors: Vec<LetterColor>,
}

impl View for GuessMatch {
    type V = Seq<LetterColor>;

    open spec fn view(&self) -> Seq<LetterColor> {
        self.colors@
    }
}

impl GuessMatch {
    /// A well-formed pattern has one colour per letter position.
    pub open spec fn wf(&self) -> bool {
        self@.len() == WORD_LEN
    }

    /// The colour at position `i`.
    pub fn color(&self, i: usize) -> (c: LetterColor)
        requires
            i < self@.len(),
        ensures
            c == self@[i as int],
    {
        self.colors[i]
    }

    /// Two patterns are the same feedback exactly when they agree at every
    /// position.
    pub fn same_as(&self, other: &GuessMatch) -> (r: bool)
        ensures
            r == (self@ == other@),
    {
        if self.colors.len() != other.colors.len() {
            return false;
        }
        let n = self.colors.len();
        let mut i: usize = 0;
        while i < n
            invariant
                i <= n,
                n == self@.len() == other@.len(),
                forall|j: int| 0 <= j < i ==> self@[j] == other@[j],
            decreases n - i,
        {
            if self.colors[i] != other.colors[i] {
                return false;
            }
            i += 1;
        }
        proof {
            assert(self@ =~= other@);
        }
        true
    }

    /// Whether this pattern is the unique winning pattern, all Green.
    pub fn is_winning(&self) -> (r: bool)
        ensures
            r == all_green(self@),
    {
        if self.colors.len() != WORD_LEN {
            return false;
        }
        let mut i: usize = 0;
        while i < WORD_LEN
            invariant
                i <= WORD_LEN,
                self@.len() == WORD_LEN,
                forall|j: int| 0 <= j < i ==> #[trigger] self@[j] == LetterColor::Green,
            decreases WORD_LEN - i,
        {
            if self.colors[i] != LetterColor::Green {
                return false;
            }
            i += 1;
        }
        true
    }
}

/// How many times `letter` occurs among the first `upto` letters of `word`.
fn count_letter(word: &Vec<u8>, letter: u8, upto: usize) -> (count: usize)
    requires
        upto <= word@.len(),
    ensures
        count == count_occ(word@.take(upto as int), letter),
        count <= upto,
{
    let mut count: usize = 0;
    let mut j: usize = 0;
    while j < upto
        invariant
            j <= upto <= word@.len(),
            count <= j,
            count == count_occ(word@.take(j as int), letter),
        decreases upto - j,
    {
        proof {
            assert(word@.take(j + 1).drop_last() =~= word@.take(j as int));
            assert(word@.take(j + 1).last() == word@[j as int]);
        }
        if word[j] == letter {
            count += 1;
        }
        j += 1;
    }
    count
}

/// Computes the feedback pattern `guess_word` earns against `actual_word`.
///
/// The result is a function of the two words alone: it equals
/// `spec_guessmatch` of their letter sequences, so repeated calls with equal
/// inputs return equal patterns.
pub fn calc_guessmatch(guess_word: &Vec<u8>, actual_word: &Vec<u8>) -> (result: GuessMatch)
    requires
        is_word(guess_word@),
        is_word(actual_word@),
    ensures
        result.wf(),
        result@ == spec_guessmatch(guess_word@, actual_word@),
{
    let mut colors: Vec<LetterColor> = Vec::new();
    let mut i: usize = 0;
    while i < WORD_LEN
        invariant
            i <= WORD_LEN,
            is_word(guess_word@),
            is_word(actual_word@),
            colors@.len() == i,
            forall|j: int| 0 <= j < i ==> colors@[j] == color_at(guess_word@, actual_word@, j),
        decreases WORD_LEN - i,
    {
        let g = guess_word[i];
        let color = if actual_word[i] == g {
            LetterColor::Green
        } else {
            let total_in_actual = count_letter(actual_word, g, actual_word.len());
            let running_in_guess = count_letter(guess_word, g, i + 1);
            proof {
                assert(actual_word@.take(actual_word@.len() as int) =~= actual_word@);
            }
            if total_in_actual >= running_in_guess {
                LetterColor::Yellow
            } else {
                LetterColor::Gray
            }
        };
        colors.push(color);
        i += 1;
    }
    let result = GuessMatch { colors };
    proof {
        assert(result@ =~= spec_guessmatch(guess_word@, actual_word@));
    }
    result
}

/// Self-match law: a word played against itself earns the all-Green pattern.
pub proof fn lemma_self_match(w: Seq<u8>)
    requires
        is_word(w),
    ensures
        all_green(spec_guessmatch(w, w)),
{
}

/// The all-Green pattern arises exactly between a word and itself: the
/// feedback for `guess` against `actual` is all Green if and only if the two
/// words are equal.
pub proof fn lemma_all_green_iff_equal(guess: Seq<u8>, actual: Seq<u8>)
    requires
        is_word(guess),
        is_word(actual),
    ensures
        all_green(spec_guessmatch(guess, actual)) <==> guess == actual,
{
    if all_green(spec_guessmatch(guess, actual)) {
        assert forall|i: int| 0 <= i < guess.len() implies guess[i] == actual[i] by {
            assert(spec_guessmatch(guess, actual)[i] == LetterColor::Green);
        }
        assert(guess =~= actual);
    }
}

} // verus!

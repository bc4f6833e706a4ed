//! The per-round decisions of an interactive session: turning a typed
//! feedback line into a pattern, and deciding from the feedback on the played
//! word whether the session is won or which candidate pool to continue with.
//! The caller runs the loop itself — it prompts, reads, and picks the next
//! suggestion — and hands each event here.

use vstd::prelude::*;

use crate::pattern::{GuessMatch, LetterColor, WORD_LEN, all_green, is_word};
use crate::pool::{all_words, consistent_words, filter_for_words_with_same_guessmatch};

verus! {

/// ASCII code of 'g', the feedback character for Green.
pub const ASCII_G: u8 = 103;

/// ASCII code of 'y', the feedback character for Yellow.
pub const ASCII_Y: u8 = 121;

/// The colour a typed feedback character stands for: 'g' is Green, 'y' is
/// Yellow, and any other character — '-' included — is Gray.
pub open spec fn feedback_color(b: u8) -> LetterColor {
    if b == ASCII_G {
        LetterColor::Green
    } else if b == ASCII_Y {
        LetterColor::Yellow
    } else {
        LetterColor::Gray
    }
}

/// The pattern a well-sized feedback line stands for.
pub open spec fn spec_feedback(line: Seq<u8>) -> Seq<LetterColor> {
    Seq::new(WORD_LEN as nat, |i: int| feedback_color(line[i]))
}

/// Parses one typed feedback line. A line of any length other than five is
/// rejected — the caller re-prompts — and otherwise each character maps to
/// its colour, unrecognized characters silently to Gray.
pub fn parse_feedback(line: &Vec<u8>) -> (r: Option<GuessMatch>)
    ensures
        match r {
            Some(gm) => line@.len() == WORD_LEN && gm.wf() && gm@ == spec_feedback(line@),
            None => line@.len() != WORD_LEN,
        },
{
    if line.len() != WORD_LEN {
        return None;
    }
    let mut colors: Vec<LetterColor> = Vec::new();
    let mut i: usize = 0;
    while i < WORD_LEN
        invariant
            i <= WORD_LEN,
            line@.len() == WORD_LEN,
            colors@.len() == i,
            forall|j: int| 0 <= j < i ==> colors@[j] == feedback_color(line@[j]),
        decreases WORD_LEN - i,
    {
        let b = line[i];
        let color = if b == ASCII_G {
            LetterColor::Green
        } else if b == ASCII_Y {
            LetterColor::Yellow
        } else {
            LetterColor::Gray
        };
        colors.push(color);
        i += 1;
    }
    let gm = GuessMatch { colors };
    proof {
        assert(gm@ =~= spec_feedback(line@));
    }
    Some(gm)
}

/// What one round of the session decides.
pub enum StepOutcome {
    /// The feedback on the played word was all Green: the session ends in the
    /// winning state, with no further filtering or selection.
    Won,
    /// The session goes on, with the candidate pool narrowed to the words
    /// consistent with the observed feedback.
    Continue(Vec<Vec<u8>>),
}

/// Decides one round: if the feedback on the played word is the all-Green
/// pattern the session is won and the pool is left untouched; otherwise the
/// pool narrows to the words consistent with the observation.
pub fn session_step(played_word: &Vec<u8>, feedback: &GuessMatch, pool: &Vec<Vec<u8>>) -> (r:
    StepOutcome)
    requires
        is_word(played_word@),
        all_words(pool.deep_view()),
    ensures
        all_green(feedback@) ==> (r matches StepOutcome::Won),
        !all_green(feedback@) ==> (r matches StepOutcome::Continue(narrowed) && narrowed.deep_view()
            == consistent_words(played_word@, feedback@, pool.deep_view())),
{
    if feedback.is_winning() {
        StepOutcome::Won
    } else {
        StepOutcome::Continue(filter_for_words_with_same_guessmatch(played_word, feedback, pool))
    }
}

} // verus!

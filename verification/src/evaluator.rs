//! The evaluator: per-letter feedback for a guess against the hidden word.

use vstd::prelude::*;
use crate::slot::{letters_of, SlotState};

verus! {

/// The feedback for letter `g` guessed at position `i` of `target`.
///
/// Only whether `g` occurs in `target` counts, not how often: a letter that
/// the target holds once is marked at every position where it is guessed.
pub open spec fn classify(target: Seq<char>, i: int, g: char) -> SlotState {
    if !target.contains(g) {
        SlotState::NonMatch(g)
    } else if target[i] == g {
        SlotState::Match(g)
    } else {
        SlotState::PartialMatch(g)
    }
}

/// The feedback for a whole guess: one slot per position of the target.
pub open spec fn feedback(target: Seq<char>, guess: Seq<char>) -> Seq<SlotState> {
    Seq::new(target.len(), |i: int| classify(target, i, guess[i]))
}

/// Every slot of the feedback carries the letter that was guessed at its
/// position.
pub proof fn lemma_feedback_keeps_letters(target: Seq<char>, guess: Seq<char>)
    requires
        guess.len() == target.len(),
    ensures
        feedback(target, guess).len() == target.len(),
        letters_of(feedback(target, guess)) == guess,
{
}

/// A guess is the target exactly when every slot of its feedback is a match.
pub proof fn lemma_all_match_iff_equal(target: Seq<char>, guess: Seq<char>)
    requires
        guess.len() == target.len(),
    ensures
        guess == target <==> forall|i: int|
            0 <= i < target.len() ==> #[trigger] feedback(target, guess)[i] is Match,
{
    if forall|i: int| 0 <= i < target.len() ==> #[trigger] feedback(target, guess)[i] is Match {
        assert forall|i: int| 0 <= i < target.len() implies guess[i] == target[i] by {
            assert(feedback(target, guess)[i] is Match);
        }
        assert(guess =~= target);
    }
}

/// The characters of a string, in order.
pub(crate) fn letters(s: &str) -> (v: Vec<char>)
    ensures
        v@ == s@,
{
    let mut v: Vec<char> = Vec::new();
    for c in it: s.chars()
        invariant
            v@ == it.seq().take(it.index() as int),
    {
        v.push(c);
    }
    v
}

/// Whether `c` occurs anywhere in `word`.
fn occurs(word: &Vec<char>, c: char) -> (found: bool)
    ensures
        found == word@.contains(c),
{
    let mut i: usize = 0;
    while i < word.len()
        invariant
            i <= word.len(),
            forall|j: int| 0 <= j < i ==> word@[j] != c,
        decreases word.len() - i,
    {
        if word[i] == c {
            return true;
        }
        i += 1;
    }
    false
}

/// Evaluates `guess` against `target`, position by position.
pub fn evaluate(target: &str, guess: &str) -> (slots: Vec<SlotState>)
    requires
        guess@.len() == target@.len(),
    ensures
        slots@ == feedback(target@, guess@),
        slots@.len() == target@.len(),
        forall|i: int|
            0 <= i < slots@.len() ==> (#[trigger] slots@[i] is Match <==> guess@[i] == target@[i]),
        forall|i: int|
            0 <= i < slots@.len() && !target@.contains(guess@[i]) ==> #[trigger] slots@[i]
                == SlotState::NonMatch(guess@[i]),
        forall|i: int|
            0 <= i < slots@.len() && target@.contains(guess@[i]) ==> #[trigger] slots@[i] == (
            if guess@[i] == target@[i] {
                SlotState::Match(guess@[i])
            } else {
                SlotState::PartialMatch(guess@[i])
            }),
{
    let word = letters(target);
    let mut marks: Vec<SlotState> = Vec::new();
    let mut i: usize = 0;
    while i < word.len()
        invariant
            word@ == target@,
            guess@.len() == target@.len(),
            i <= word.len(),
            marks@.len() == i,
            forall|j: int| 0 <= j < i ==> marks@[j] == classify(target@, j, guess@[j]),
        decreases word.len() - i,
    {
        let letter = guess.get_char(i);
        let slot = if !occurs(&word, letter) {
            SlotState::NonMatch(letter)
        } else if word[i] == letter {
            SlotState::Match(letter)
        } else {
            SlotState::PartialMatch(letter)
        };
        marks.push(slot);
        i += 1;
    }
    marks
}

/// Evaluation only reads its inputs: whenever [`evaluate`] is called twice on
/// the same target and guess, both calls return the same slots.
pub proof fn lemma_evaluate_is_repeatable(
    target: &str,
    guess: &str,
    first: Vec<SlotState>,
    second: Vec<SlotState>,
)
    requires
        guess@.len() == target@.len(),
        call_ensures(evaluate, (target, guess), first),
        call_ensures(evaluate, (target, guess), second),
    ensures
        first@ == second@,
{
}

} // verus!

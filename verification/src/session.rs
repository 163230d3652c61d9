//! The session as a state machine over mathematical values, and what holds of
//! every session.

use vstd::prelude::*;
use crate::evaluator::{feedback, lemma_feedback_keeps_letters};
use crate::slot::{letters_of, Row};
use crate::text::lowercase_of;

verus! {

/// The state of a session: the hidden word, the attempt budget and the board.
pub struct Session {
    /// The hidden word.
    pub target: Seq<char>,
    /// The number of guesses that the session allows.
    pub total: nat,
    /// The number of guesses that are left.
    pub left: nat,
    /// The board, one row per attempt.
    pub rows: Seq<Row>,
}

impl Session {
    /// The session before the first guess: the whole budget is left and every
    /// row is empty.
    pub open spec fn fresh(target: Seq<char>, total: nat) -> Session {
        Session { target, total, left: total, rows: Seq::new(total, |i: int| Row::Blank(target.len())) }
    }

    /// The index of the row that the next guess fills.
    pub open spec fn cursor(self) -> int {
        self.total - self.left
    }

    /// The session waits for a guess: attempts are left and none has won.
    pub open spec fn awaiting(self) -> bool {
        self.left > 0 && self.rows[self.cursor()] is Blank
    }

    /// Whether `guess` is the hidden word, whatever the case of its letters:
    /// its lower-case form is the hidden word, which is kept in lower case.
    pub open spec fn hit_by(self, guess: Seq<char>) -> bool {
        lowercase_of(guess) == self.target
    }

    /// The session ended with a guess that was the hidden word.
    pub open spec fn won(self) -> bool {
        self.left > 0 && self.rows[self.cursor()] is Marked
    }

    /// The number of turns that have been played.
    pub open spec fn turns(self) -> int {
        if self.won() {
            self.cursor() + 1
        } else {
            self.cursor()
        }
    }

    /// Row `i` holds the feedback for a guess that was not the hidden word.
    pub open spec fn missed(self, i: int) -> bool {
        &&& self.rows[i] matches Row::Marked(slots)
        &&& slots == feedback(self.target, letters_of(slots))
        &&& !self.hit_by(letters_of(slots))
    }

    /// Row `i` holds the feedback for a guess that was the hidden word.
    pub open spec fn hit(self, i: int) -> bool {
        &&& self.rows[i] matches Row::Marked(slots)
        &&& slots == feedback(self.target, letters_of(slots))
        &&& self.hit_by(letters_of(slots))
    }

    /// The states that a session can be in.
    ///
    /// The rows before the cursor hold the guesses that missed, the rows after
    /// it are empty, and the row at the cursor is empty until a guess wins.
    pub open spec fn wf(self) -> bool {
        &&& self.left <= self.total
        &&& self.rows.len() == self.total
        &&& forall|i: int|
            0 <= i < self.rows.len() ==> (#[trigger] self.rows[i]).width() == self.target.len()
        &&& forall|i: int| 0 <= i < self.cursor() ==> #[trigger] self.missed(i)
        &&& forall|i: int| self.cursor() < i < self.rows.len() ==> #[trigger] self.rows[i] is Blank
        &&& self.won() ==> self.hit(self.cursor())
    }

    /// One turn: the feedback for `guess`, taken as it was typed, fills the row
    /// at the cursor; a guess that is the hidden word but for the case of its
    /// letters ends the session, any other costs one attempt.
    pub open spec fn step(self, guess: Seq<char>) -> Session {
        let rows = self.rows.update(self.cursor(), Row::Marked(feedback(self.target, guess)));
        if self.hit_by(guess) {
            Session { rows, ..self }
        } else {
            Session { rows, left: (self.left - 1) as nat, ..self }
        }
    }

    /// The state after `guesses` have been played, first guess first.
    pub open spec fn replay(self, guesses: Seq<Seq<char>>) -> Session
        decreases guesses.len(),
    {
        if guesses.len() == 0 {
            self
        } else {
            self.replay(guesses.drop_last()).step(guesses.last())
        }
    }

    /// Whether `guesses` can be played in this order: each is as long as the
    /// hidden word, and each is made while the session waits for a guess.
    pub open spec fn accepts(self, guesses: Seq<Seq<char>>) -> bool
        decreases guesses.len(),
    {
        if guesses.len() == 0 {
            true
        } else {
            &&& self.accepts(guesses.drop_last())
            &&& self.replay(guesses.drop_last()).awaiting()
            &&& guesses.last().len() == self.target.len()
        }
    }
}

/// A fresh session is well formed, no turn has been played, and it waits for
/// a guess unless its budget is empty.
pub proof fn lemma_fresh_session(target: Seq<char>, total: nat)
    ensures
        Session::fresh(target, total).wf(),
        Session::fresh(target, total).turns() == 0,
        !Session::fresh(target, total).won(),
        Session::fresh(target, total).awaiting() <==> total > 0,
{
}

/// A turn keeps the session well formed and counts as one turn; it wins
/// exactly when the guess is the hidden word but for case, and it leaves
/// every row but the one at the cursor as it was.
pub proof fn lemma_step(s: Session, guess: Seq<char>)
    requires
        s.wf(),
        s.awaiting(),
        guess.len() == s.target.len(),
    ensures
        s.step(guess).wf(),
        s.step(guess).target == s.target,
        s.step(guess).total == s.total,
        s.step(guess).turns() == s.turns() + 1,
        s.step(guess).won() <==> s.hit_by(guess),
        s.step(guess).left == if s.hit_by(guess) {
            s.left
        } else {
            (s.left - 1) as nat
        },
        forall|i: int|
            0 <= i < s.rows.len() && i != s.cursor() ==> s.step(guess).rows[i] == s.rows[i],
{
    let next = s.step(guess);
    lemma_feedback_keeps_letters(s.target, guess);
    assert forall|i: int| 0 <= i < next.cursor() implies #[trigger] next.missed(i) by {
        if i < s.cursor() {
            assert(s.missed(i));
        }
    }
}

/// In every well-formed session exactly the rows of the turns played are
/// evaluated, and all rows after them are empty.
pub proof fn lemma_rows_follow_turns(s: Session)
    requires
        s.wf(),
    ensures
        0 <= s.turns() <= s.total,
        forall|i: int| 0 <= i < s.rows.len() ==> (#[trigger] s.rows[i] is Marked <==> i < s.turns()),
        forall|i: int| 0 <= i < s.rows.len() ==> (#[trigger] s.rows[i] is Blank <==> s.turns() <= i),
{
    assert forall|i: int| 0 <= i < s.rows.len() implies (#[trigger] s.rows[i] is Marked <==> i
        < s.turns()) by {
        if i < s.cursor() {
            assert(s.missed(i));
        }
    }
}

/// Playing guesses that the session accepts keeps it well formed; each of
/// them is one turn and none costs more than one attempt; the rows of the
/// turns played before stay as they were; and the session is won exactly when
/// it was won before or the last of the guesses is the hidden word but for
/// case.
pub proof fn lemma_replay(s: Session, guesses: Seq<Seq<char>>)
    requires
        s.wf(),
        s.accepts(guesses),
    ensures
        s.replay(guesses).wf(),
        s.replay(guesses).target == s.target,
        s.replay(guesses).total == s.total,
        s.replay(guesses).turns() == s.turns() + guesses.len(),
        s.replay(guesses).left <= s.left,
        guesses.len() <= s.left,
        forall|i: int| 0 <= i < s.turns() ==> s.replay(guesses).rows[i] == s.rows[i],
        s.replay(guesses).won() <==> s.won() || (guesses.len() > 0 && s.hit_by(guesses.last())),
        forall|j: int| 0 <= j < guesses.len() - 1 ==> !s.hit_by(#[trigger] guesses[j]),
    decreases guesses.len(),
{
    if guesses.len() > 0 {
        let earlier = guesses.drop_last();
        lemma_replay(s, earlier);
        lemma_step(s.replay(earlier), guesses.last());
        assert forall|j: int| 0 <= j < guesses.len() - 1 implies !s.hit_by(
            #[trigger] guesses[j],
        ) by {
            assert(guesses[j] == earlier[j]);
        }
    }
    lemma_rows_follow_turns(s.replay(guesses));
}

/// After `k` turns of a session that started fresh, exactly the first `k`
/// rows of the board are evaluated and the rest are empty.
pub proof fn lemma_board_after_turns(target: Seq<char>, total: nat, guesses: Seq<Seq<char>>)
    requires
        Session::fresh(target, total).accepts(guesses),
    ensures
        guesses.len() <= total,
        Session::fresh(target, total).replay(guesses).rows.len() == total,
        forall|i: int|
            0 <= i < total ==> (#[trigger] Session::fresh(target, total).replay(guesses).rows[i]
                is Marked <==> i < guesses.len()),
        forall|i: int|
            0 <= i < total ==> (#[trigger] Session::fresh(target, total).replay(guesses).rows[i]
                is Blank <==> guesses.len() <= i),
{
    let start = Session::fresh(target, total);
    lemma_fresh_session(target, total);
    lemma_replay(start, guesses);
    lemma_rows_follow_turns(start.replay(guesses));
}

/// A session that started fresh is over after at most as many turns as its
/// budget allows; it is won exactly when its last guess was the hidden word
/// but for case, and no guess before the last was.
pub proof fn lemma_session_ends(target: Seq<char>, total: nat, guesses: Seq<Seq<char>>)
    requires
        Session::fresh(target, total).accepts(guesses),
    ensures
        guesses.len() <= total,
        guesses.len() == total ==> !Session::fresh(target, total).replay(guesses).awaiting(),
        Session::fresh(target, total).replay(guesses).won() <==> guesses.len() > 0
            && lowercase_of(guesses.last()) == target,
        forall|j: int| 0 <= j < guesses.len() - 1 ==> lowercase_of(#[trigger] guesses[j]) != target,
        !Session::fresh(target, total).replay(guesses).won() && !Session::fresh(
            target,
            total,
        ).replay(guesses).awaiting() ==> guesses.len() == total,
{
    let start = Session::fresh(target, total);
    lemma_fresh_session(target, total);
    lemma_replay(start, guesses);
    lemma_rows_follow_turns(start.replay(guesses));
}

} // verus!

//! The game session: the hidden word, the attempt budget, the board and the
//! turn loop.

use vstd::prelude::*;
use crate::board::Board;
use crate::evaluator::{evaluate, feedback};
use crate::player::{HumanPlayer, Player};
use crate::session::{lemma_fresh_session, lemma_replay, lemma_step, Session};
use crate::slot::{Row, Word};
use crate::text::lowercase_of;

verus! {

/// One session of the game, played by `P`.
pub struct Game<P> {
    word: String,
    number_of_attempts: u8,
    attempts_left: u8,
    board: Board,
    player: P,
}

/// How a session ended.
#[derive(Debug)]
pub struct GameSummary {
    /// Whether a guess was the hidden word, whatever the case of its letters.
    pub won: bool,
}

impl<P> View for Game<P> {
    type V = Session;

    closed spec fn view(&self) -> Session {
        Session {
            target: self.word@,
            total: self.number_of_attempts as nat,
            left: self.attempts_left as nat,
            rows: self.board@,
        }
    }
}

impl<P> Game<P> {
    /// The player of this session.
    pub closed spec fn spec_player(&self) -> P {
        self.player
    }

    /// A session that hides `word`, folded to lower case, and allows
    /// `number_of_attempts` guesses.
    pub fn new(word: String, number_of_attempts: u8, player: P) -> (game: Self)
        ensures
            game@ == Session::fresh(lowercase_of(word@), number_of_attempts as nat),
            game@.wf(),
            game.spec_player() == player,
    {
        let target = word.as_str().to_lowercase();
        let width: usize = target.as_str().unicode_len();
        let board = Board::new(width, number_of_attempts);
        proof {
            lemma_fresh_session(target@, number_of_attempts as nat);
        }
        Game { word: target, number_of_attempts, attempts_left: number_of_attempts, board, player }
    }

    /// The hidden word, in lower case.
    pub fn word(&self) -> (word: &str)
        ensures
            word@ == self@.target,
    {
        self.word.as_str()
    }

    /// The number of guesses that the session allows.
    pub fn number_of_attempts(&self) -> (total: u8)
        ensures
            total == self@.total,
    {
        self.number_of_attempts
    }

    /// The number of guesses that are left.
    pub fn attempts_left(&self) -> (left: u8)
        ensures
            left == self@.left,
    {
        self.attempts_left
    }

    /// The board of the session.
    pub fn board(&self) -> (board: &Board)
        ensures
            board@ == self@.rows,
    {
        &self.board
    }

    /// The player of the session.
    pub fn player(&self) -> (player: &P)
        ensures
            *player == self.spec_player(),
    {
        &self.player
    }

    /// The feedback for `player_word` against the hidden word, as a row of
    /// the board.
    pub fn get_diff(&self, player_word: &str) -> (row: Word)
        requires
            player_word@.len() == self@.target.len(),
        ensures
            row@ == Row::Marked(feedback(self@.target, player_word@)),
    {
        Word::Full(evaluate(self.word.as_str(), player_word))
    }

    /// The index of the row that the next guess fills.
    pub fn current_word_index(&self) -> (index: usize)
        requires
            self@.wf(),
        ensures
            index == self@.cursor(),
    {
        (self.number_of_attempts - self.attempts_left) as usize
    }

    /// Whether the session waits for a guess.
    pub fn awaiting(&self) -> (open: bool)
        requires
            self@.wf(),
        ensures
            open == self@.awaiting(),
    {
        if self.attempts_left == 0 {
            return false;
        }
        let index: usize = self.current_word_index();
        let words = self.board.words();
        match &words[index] {
            Word::Empty(_) => true,
            Word::Full(_) => false,
        }
    }

    /// Plays one turn with `guess`: its feedback fills the next row of the
    /// board, and unless it is the hidden word it costs one attempt.
    ///
    /// The feedback is for the guess as it was typed. Whether the guess is
    /// the hidden word is decided without regard to case: the hidden word is
    /// kept in lower case, and the guess is folded to lower case before the
    /// two are compared.
    pub fn play_turn(&mut self, guess: &str) -> (won: bool)
        requires
            old(self)@.wf(),
            old(self)@.awaiting(),
            guess@.len() == old(self)@.target.len(),
        ensures
            final(self)@ == old(self)@.step(guess@),
            final(self)@.wf(),
            won == (lowercase_of(guess@) == old(self)@.target),
            final(self).spec_player() == old(self).spec_player(),
    {
        let diff = self.get_diff(guess);
        let index: usize = self.current_word_index();
        self.board.add_word(diff, index);
        let won = guess.to_lowercase() == self.word;
        if !won {
            self.attempts_left -= 1;
        }
        proof {
            lemma_step(old(self)@, guess@);
        }
        won
    }
}

impl<P: Player> Game<P> {
    /// Whether `guesses` are answers of `player`, one after the other, to the
    /// boards that a session shows when it starts as `start` and plays them
    /// in order.
    pub open spec fn answered_by(player: P, start: Session, guesses: Seq<Seq<char>>) -> bool {
        forall|j: int|
            0 <= j < guesses.len() ==> player.may_play(
                start.replay(guesses.take(j)).rows,
                #[trigger] guesses[j],
            )
    }

    /// Plays the session to its end: asks the player for guesses until one is
    /// the hidden word or no attempt is left. A session that is over already
    /// is left as it is.
    ///
    /// The session ends as the guesses that were played make it end. Each of
    /// them is the player's answer to the board as it stood before it, and
    /// there are no more of them than attempts were left. The session is won
    /// exactly when it was won before or the last of them was the hidden
    /// word but for case; no guess before the last was; and a session that
    /// is lost has used up every attempt.
    pub fn run(&mut self) -> (summary: GameSummary)
        requires
            old(self)@.wf(),
        ensures
            final(self)@.wf(),
            !final(self)@.awaiting(),
            summary.won == final(self)@.won(),
            exists|guesses: Seq<Seq<char>>|
                #![trigger old(self)@.replay(guesses)]
                {
                    &&& old(self)@.accepts(guesses)
                    &&& Self::answered_by(old(self).spec_player(), old(self)@, guesses)
                    &&& guesses.len() <= old(self)@.left
                    &&& final(self)@ == old(self)@.replay(guesses)
                    &&& summary.won <==> old(self)@.won() || (guesses.len() > 0 && old(
                        self,
                    )@.hit_by(guesses.last()))
                    &&& forall|j: int|
                        0 <= j < guesses.len() - 1 ==> !old(self)@.hit_by(#[trigger] guesses[j])
                    &&& !summary.won ==> guesses.len() == old(self)@.left
                },
            final(self)@.target == old(self)@.target,
            final(self)@.total == old(self)@.total,
            final(self)@.left <= old(self)@.left,
            forall|i: int|
                0 <= i < old(self)@.turns() ==> final(self)@.rows[i] == old(self)@.rows[i],
            final(self).spec_player() == old(self).spec_player(),
    {
        let ghost mut played: Seq<Seq<char>> = Seq::empty();
        while self.awaiting()
            invariant
                old(self)@.wf(),
                self@.wf(),
                old(self)@.accepts(played),
                Self::answered_by(old(self).spec_player(), old(self)@, played),
                self@ == old(self)@.replay(played),
                self.spec_player() == old(self).spec_player(),
            decreases self@.total - self@.turns(),
        {
            let guess = self.player.get_play(&self.board);
            proof {
                lemma_replay(old(self)@, played);
                let longer = played.push(guess@);
                assert(longer.drop_last() =~= played);
                assert forall|j: int| 0 <= j < longer.len() implies old(
                    self,
                ).spec_player().may_play(
                    old(self)@.replay(longer.take(j)).rows,
                    #[trigger] longer[j],
                ) by {
                    if j < played.len() {
                        assert(longer.take(j) =~= played.take(j));
                        assert(longer[j] == played[j]);
                    } else {
                        assert(longer.take(j) =~= played);
                    }
                }
                played = longer;
            }
            self.play_turn(guess.as_str());
        }
        proof {
            lemma_replay(old(self)@, played);
        }
        GameSummary { won: self.attempts_left > 0 }
    }
}

impl Default for Game<HumanPlayer> {
    /// The session of the hidden word "test", five attempts, and a player at
    /// the keyboard who types four letters.
    fn default() -> (game: Self)
        ensures
            game@ == Session::fresh(lowercase_of("test"@), 5),
            game@.wf(),
            game.spec_player().word_length == 4,
    {
        Self::new("test".to_owned(), 5, HumanPlayer { word_length: 4 })
    }
}

} // verus!

//! The source of guesses, and the player who types them.

use vstd::prelude::*;
use crate::board::{width_of, Board};
use crate::slot::Row;
use crate::text::{trim, trimmed};

verus! {

/// Whoever supplies the guesses of a session.
pub trait Player {
    /// Whether `guess` is an answer that this player may give when it is
    /// shown a board of `rows`. A player that says nothing else may give any
    /// answer.
    open spec fn may_play(&self, rows: Seq<Row>, guess: Seq<char>) -> bool {
        true
    }

    /// The next guess, given the board so far. The guess is an answer of this
    /// player to this board, and it has as many letters as a row of the
    /// board; a player who reads its guesses from elsewhere asks again until
    /// it has such a guess.
    fn get_play(&self, board: &Board) -> (guess: String)
        ensures
            guess@.len() == width_of(board@),
            self.may_play(board@, guess@),
    ;
}

/// A player who types guesses of a fixed length.
#[derive(Debug)]
pub struct HumanPlayer {
    /// The number of letters that a guess must have.
    pub word_length: u8,
}

/// What becomes of one attempt to read a guess.
#[derive(Debug, PartialEq, Eq)]
pub enum Answer {
    /// The line held a guess of the right length: it is played, without the
    /// white space around it.
    Guess(String),
    /// The line was read, but what it held has the wrong length.
    InvalidInput,
    /// No line could be read.
    ReadFailed,
}

impl HumanPlayer {
    /// Whether `input` has the number of letters that a guess must have.
    pub fn validate_input(&self, input: &str) -> (ok: bool)
        ensures
            ok == (input@.len() == self.word_length),
    {
        input.unicode_len() == self.word_length as usize
    }

    /// Judges one attempt to read a guess: `line` is the line that was read,
    /// or `None` if reading failed. The line is trimmed and then validated.
    pub fn judge(&self, line: Option<&str>) -> (answer: Answer)
        ensures
            match line {
                None => answer == Answer::ReadFailed,
                Some(text) => if trimmed(text@).len() == self.word_length {
                    answer matches Answer::Guess(guess) && guess@ == trimmed(text@)
                } else {
                    answer == Answer::InvalidInput
                },
            },
    {
        match line {
            None => Answer::ReadFailed,
            Some(text) => {
                let inner = trim(text);
                if self.validate_input(inner) {
                    Answer::Guess(inner.to_owned())
                } else {
                    Answer::InvalidInput
                }
            },
        }
    }
}

} // verus!

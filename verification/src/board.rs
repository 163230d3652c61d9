//! The board: the history of a session, one row per attempt.

use vstd::prelude::*;
use crate::slot::{Row, Word};

verus! {

/// The rows that a vector of words stands for.
pub open spec fn rows_of(words: Seq<Word>) -> Seq<Row> {
    Seq::new(words.len(), |i: int| words[i]@)
}

/// The width that a board of these rows shows: that of its first row, and 0
/// for a board without rows.
pub open spec fn width_of(rows: Seq<Row>) -> nat {
    if rows.len() == 0 {
        0
    } else {
        rows[0].width()
    }
}

/// The guesses of a session and their feedback, in the order of the attempts.
#[derive(Debug, PartialEq, Eq)]
pub struct Board {
    words: Vec<Word>,
}

impl View for Board {
    type V = Seq<Row>;

    closed spec fn view(&self) -> Seq<Row> {
        rows_of(self.words@)
    }
}

impl Board {
    /// A board of `length` empty rows, each `width` letters wide.
    pub fn new(width: usize, length: u8) -> (board: Self)
        ensures
            board@ == Seq::new(length as nat, |i: int| Row::Blank(width as nat)),
    {
        let mut words: Vec<Word> = Vec::new();
        let mut i: u8 = 0;
        while i < length
            invariant
                i <= length,
                words@.len() == i,
                forall|j: int| 0 <= j < i ==> words@[j]@ == Row::Blank(width as nat),
            decreases length - i,
        {
            words.push(Word::Empty(width));
            i += 1;
        }
        Board { words }
    }

    /// Writes `word` into the row at `index`.
    pub fn add_word(&mut self, word: Word, index: usize)
        requires
            index < old(self)@.len(),
        ensures
            final(self)@ == old(self)@.update(index as int, word@),
    {
        self.words[index] = word;
    }

    /// The rows of the board, first attempt first.
    pub fn words(&self) -> (words: &Vec<Word>)
        ensures
            rows_of(words@) == self@,
    {
        &self.words
    }

    /// The number of letters in a row of this board.
    pub fn width(&self) -> (width: usize)
        ensures
            width == width_of(self@),
    {
        if self.words.len() == 0 {
            0
        } else {
            match &self.words[0] {
                Word::Full(slots) => slots.len(),
                Word::Empty(n) => *n,
            }
        }
    }
}

} // verus!

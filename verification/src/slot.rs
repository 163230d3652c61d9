//! Per-letter feedback and the rows of the board.

use vstd::prelude::*;

verus! {

/// How one guessed letter relates to the hidden word.
#[derive(Clone, Copy, Debug, PartialEq, Eq)]
pub enum SlotState {
    /// The letter does not occur in the hidden word.
    NonMatch(char),
    /// The letter occurs in the hidden word, but not at this position.
    PartialMatch(char),
    /// The letter stands at this position of the hidden word.
    Match(char),
}

impl SlotState {
    /// The guessed letter that this slot is about.
    pub open spec fn letter(self) -> char {
        match self {
            SlotState::NonMatch(c) => c,
            SlotState::PartialMatch(c) => c,
            SlotState::Match(c) => c,
        }
    }
}

/// The guessed letters of a row of slots, in order.
pub open spec fn letters_of(slots: Seq<SlotState>) -> Seq<char> {
    Seq::new(slots.len(), |i: int| slots[i].letter())
}

/// One row of the board.
#[derive(Debug, PartialEq, Eq)]
pub enum Word {
    /// An evaluated guess: one slot per letter.
    Full(Vec<SlotState>),
    /// A row that no guess has filled yet; it carries the width of the board.
    Empty(usize),
}

/// The mathematical value of a [`Word`].
pub enum Row {
    Marked(Seq<SlotState>),
    Blank(nat),
}

impl Row {
    /// The number of letters that the row shows or leaves room for.
    pub open spec fn width(self) -> nat {
        match self {
            Row::Marked(slots) => slots.len(),
            Row::Blank(n) => n,
        }
    }
}

impl View for Word {
    type V = Row;

    open spec fn view(&self) -> Row {
        match self {
            Word::Full(slots) => Row::Marked(slots@),
            Word::Empty(n) => Row::Blank(*n as nat),
        }
    }
}

impl Default for Word {
    fn default() -> (word: Self)
        ensures
            word@ == Row::Blank(0),
    {
        Word::Empty(0)
    }
}

} // verus!

//! The board as coloured text: what is shown for each slot, row and board.

use vstd::prelude::*;
use colored::{ColoredString, Colorize};
use crate::board::{rows_of, Board};
use crate::slot::{Row, SlotState, Word};

verus! {

/// `colored::ColoredString`: a text together with the colours and the style
/// in which it is shown.
#[verifier::external_type_specification]
#[verifier::external_body]
pub struct ExColoredString(ColoredString);

/// The coloured string that `Colorize::green` makes of a text.
pub uninterp spec fn green_text(text: Seq<char>) -> ColoredString;

/// The coloured string that `Colorize::white` makes of a text.
pub uninterp spec fn white_text(text: Seq<char>) -> ColoredString;

/// The coloured string that `Colorize::yellow` makes of a text.
pub uninterp spec fn yellow_text(text: Seq<char>) -> ColoredString;

/// The coloured string that `Colorize::blue` makes of a text.
pub uninterp spec fn blue_text(text: Seq<char>) -> ColoredString;

/// Calls `Colorize::green` on a string slice. The result holds a copy of the
/// text, green as its foreground colour, no background colour and no style:
/// it depends on the text alone, and no more is claimed of it.
#[verifier::external_body]
fn green(text: &str) -> (piece: ColoredString)
    ensures
        piece == green_text(text@),
{
    text.green()
}

/// Calls `Colorize::white` on a string slice. The result holds a copy of the
/// text, white as its foreground colour, no background colour and no style:
/// it depends on the text alone, and no more is claimed of it.
#[verifier::external_body]
fn white(text: &str) -> (piece: ColoredString)
    ensures
        piece == white_text(text@),
{
    text.white()
}

/// Calls `Colorize::yellow` on a string slice. The result holds a copy of the
/// text, yellow as its foreground colour, no background colour and no style:
/// it depends on the text alone, and no more is claimed of it.
#[verifier::external_body]
fn yellow(text: &str) -> (piece: ColoredString)
    ensures
        piece == yellow_text(text@),
{
    text.yellow()
}

/// Calls `Colorize::blue` on a string slice. The result holds a copy of the
/// text, blue as its foreground colour, no background colour and no style:
/// it depends on the text alone, and no more is claimed of it.
#[verifier::external_body]
fn blue(text: &str) -> (piece: ColoredString)
    ensures
        piece == blue_text(text@),
{
    text.blue()
}

/// What is shown for a slot: its letter, green for a match, yellow for a
/// partial match and white for a letter that the hidden word lacks.
pub open spec fn slot_piece(slot: SlotState) -> ColoredString {
    match slot {
        SlotState::Match(c) => green_text(seq![c]),
        SlotState::PartialMatch(c) => yellow_text(seq![c]),
        SlotState::NonMatch(c) => white_text(seq![c]),
    }
}

/// What is shown for a row: the slots of an evaluated row one by one, and for
/// an empty row one blue run of `#`, as wide as the board.
pub open spec fn row_pieces(row: Row) -> Seq<ColoredString> {
    match row {
        Row::Marked(slots) => Seq::new(slots.len(), |i: int| slot_piece(slots[i])),
        Row::Blank(n) => seq![blue_text(Seq::new(n, |i: int| '#'))],
    }
}

/// What is shown for a line of the board: the row between two blue bars, the
/// second of which ends the line.
pub open spec fn line_pieces(row: Row) -> Seq<ColoredString> {
    seq![blue_text("|"@)] + row_pieces(row) + seq![blue_text("|\n"@)]
}

/// What is shown for a board: its lines, first attempt first.
pub open spec fn board_pieces(rows: Seq<Row>) -> Seq<ColoredString>
    decreases rows.len(),
{
    if rows.len() == 0 {
        Seq::empty()
    } else {
        board_pieces(rows.drop_last()) + line_pieces(rows.last())
    }
}

/// The text of one letter.
fn letter_text(c: char) -> (text: String)
    ensures
        text@ == seq![c],
{
    let mut text = String::new();
    text.push(c);
    text
}

/// A run of `n` times `#`.
fn placeholder(n: usize) -> (text: String)
    ensures
        text@ == Seq::new(n as nat, |i: int| '#'),
{
    let mut text = String::new();
    let mut i: usize = 0;
    while i < n
        invariant
            i <= n,
            text@ == Seq::new(i as nat, |j: int| '#'),
        decreases n - i,
    {
        text.push('#');
        i += 1;
    }
    text
}

/// Appends to `out` what is shown for `word`.
fn paint_row(word: &Word, out: &mut Vec<ColoredString>)
    ensures
        final(out)@ == old(out)@ + row_pieces(word@),
{
    match word {
        Word::Empty(n) => {
            out.push(blue(placeholder(*n).as_str()));
        },
        Word::Full(slots) => {
            let mut i: usize = 0;
            while i < slots.len()
                invariant
                    i <= slots.len(),
                    word@ == Row::Marked(slots@),
                    out@ == old(out)@ + row_pieces(word@).take(i as int),
                decreases slots.len() - i,
            {
                out.push(slots[i].to_colored_string());
                i += 1;
            }
        },
    }
}

impl SlotState {
    /// The letter of the slot in the colour of its state.
    pub fn to_colored_string(&self) -> (piece: ColoredString)
        ensures
            piece == slot_piece(*self),
    {
        match self {
            SlotState::Match(c) => green(letter_text(*c).as_str()),
            SlotState::NonMatch(c) => white(letter_text(*c).as_str()),
            SlotState::PartialMatch(c) => yellow(letter_text(*c).as_str()),
        }
    }
}

impl Word {
    /// What is shown for this row, piece by piece.
    pub fn to_colored_strings(&self) -> (pieces: Vec<ColoredString>)
        ensures
            pieces@ == row_pieces(self@),
    {
        let mut pieces: Vec<ColoredString> = Vec::new();
        paint_row(self, &mut pieces);
        pieces
    }
}

impl Board {
    /// What is shown for this board, piece by piece and line by line.
    pub fn to_colored_strings(&self) -> (pieces: Vec<ColoredString>)
        ensures
            pieces@ == board_pieces(self@),
    {
        let words = self.words();
        let mut out: Vec<ColoredString> = Vec::new();
        let mut i: usize = 0;
        while i < words.len()
            invariant
                i <= words.len(),
                rows_of(words@) == self@,
                out@ == board_pieces(self@.take(i as int)),
            decreases words.len() - i,
        {
            proof {
                let upto = self@.take(i + 1);
                assert(upto.drop_last() =~= self@.take(i as int));
            }
            out.push(blue("|"));
            paint_row(&words[i], &mut out);
            out.push(blue("|\n"));
            i += 1;
        }
        assert(self@.take(i as int) =~= self@);
        out
    }
}

} // verus!

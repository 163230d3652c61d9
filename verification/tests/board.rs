use wordle_game::slot::SlotState::{Match, NonMatch};
use wordle_game::{Board, Word};

#[test]
fn new_board_is_all_empty_rows_of_the_given_width() {
    let board = Board::new(5, 3);
    assert_eq!(board.words(), &vec![Word::Empty(5), Word::Empty(5), Word::Empty(5)]);
    assert_eq!(board.width(), 5);
}

#[test]
fn board_without_rows_has_width_zero() {
    let board = Board::new(5, 0);
    assert!(board.words().is_empty());
    assert_eq!(board.width(), 0);
}

#[test]
fn add_word_replaces_one_row() {
    let mut board = Board::new(2, 3);
    board.add_word(Word::Full(vec![Match('a'), NonMatch('x')]), 1);
    assert_eq!(
        board.words(),
        &vec![Word::Empty(2), Word::Full(vec![Match('a'), NonMatch('x')]), Word::Empty(2)]
    );
    assert_eq!(board.width(), 2);
}

#[test]
fn width_of_a_board_whose_first_row_is_filled() {
    let mut board = Board::new(2, 1);
    board.add_word(Word::Full(vec![Match('a'), NonMatch('x')]), 0);
    assert_eq!(board.width(), 2);
}

#[test]
fn default_word_is_an_empty_row_without_width() {
    assert_eq!(Word::default(), Word::Empty(0));
}

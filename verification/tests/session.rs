use std::cell::Cell;
use wordle_game::slot::SlotState::{Match, NonMatch, PartialMatch};
use wordle_game::{Board, Game, Player, Word};

/// Plays the guesses of a script in order, and counts how often it is asked.
struct Script {
    guesses: Vec<&'static str>,
    asked: Cell<usize>,
}

impl Script {
    fn of(guesses: &[&'static str]) -> Self {
        Script { guesses: guesses.to_vec(), asked: Cell::new(0) }
    }
}

impl Player for Script {
    fn get_play(&self, board: &Board) -> String {
        let filled = board.words().iter().filter(|w| matches!(w, Word::Full(_))).count();
        assert_eq!(filled, self.asked.get());
        self.asked.set(filled + 1);
        self.guesses[filled].to_owned()
    }
}

fn filled_rows(board: &Board) -> Vec<bool> {
    board.words().iter().map(|w| matches!(w, Word::Full(_))).collect()
}

#[test]
fn new_game_has_full_budget_and_empty_board() {
    let game = Game::new("abc".to_owned(), 4, Script::of(&[]));
    assert_eq!(game.word(), "abc");
    assert_eq!(game.number_of_attempts(), 4);
    assert_eq!(game.attempts_left(), 4);
    assert_eq!(game.current_word_index(), 0);
    assert!(game.awaiting());
    assert_eq!(game.board().words(), &vec![Word::Empty(3), Word::Empty(3), Word::Empty(3), Word::Empty(3)]);
}

#[test]
fn hidden_word_is_folded_to_lower_case() {
    let game = Game::new("AbC".to_owned(), 1, Script::of(&[]));
    assert_eq!(game.word(), "abc");
    let game = Game::new("ÉTÉ".to_owned(), 1, Script::of(&[]));
    assert_eq!(game.word(), "été");
    assert_eq!(game.board().width(), 3);
}

#[test]
fn get_diff_evaluates_against_the_hidden_word() {
    let game = Game::new("abc".to_owned(), 1, Script::of(&[]));
    assert_eq!(game.get_diff("abc"), Word::Full(vec![Match('a'), Match('b'), Match('c')]));
    assert_eq!(
        game.get_diff("cab"),
        Word::Full(vec![PartialMatch('c'), PartialMatch('a'), PartialMatch('b')])
    );
    assert_eq!(game.get_diff("xyz"), Word::Full(vec![NonMatch('x'), NonMatch('y'), NonMatch('z')]));
    let game = Game::new("aab".to_owned(), 1, Script::of(&[]));
    assert_eq!(game.get_diff("aaa"), Word::Full(vec![Match('a'), Match('a'), PartialMatch('a')]));
}

#[test]
fn exact_guess_ends_the_session_at_once() {
    let mut game = Game::new("abc".to_owned(), 3, Script::of(&["abc", "xyz", "xyz"]));
    let summary = game.run();
    assert!(summary.won);
    assert_eq!(game.player().asked.get(), 1);
    assert_eq!(game.attempts_left(), 3);
    assert_eq!(
        game.board().words(),
        &vec![Word::Full(vec![Match('a'), Match('b'), Match('c')]), Word::Empty(3), Word::Empty(3)]
    );
    assert!(!game.awaiting());
}

#[test]
fn single_attempt_that_misses_loses() {
    let mut game = Game::new("abc".to_owned(), 1, Script::of(&["xyz"]));
    let summary = game.run();
    assert!(!summary.won);
    assert_eq!(game.attempts_left(), 0);
    assert_eq!(game.player().asked.get(), 1);
    assert_eq!(
        game.board().words(),
        &vec![Word::Full(vec![NonMatch('x'), NonMatch('y'), NonMatch('z')])]
    );
    assert!(!game.awaiting());
}

#[test]
fn session_ends_when_the_budget_is_spent() {
    let mut game = Game::new("abc".to_owned(), 3, Script::of(&["xyz", "cab", "bca", "abc"]));
    let summary = game.run();
    assert!(!summary.won);
    assert_eq!(game.player().asked.get(), 3);
    assert_eq!(game.attempts_left(), 0);
    assert_eq!(filled_rows(game.board()), vec![true, true, true]);
}

#[test]
fn win_on_the_last_attempt_counts() {
    let mut game = Game::new("abc".to_owned(), 2, Script::of(&["cab", "abc"]));
    let summary = game.run();
    assert!(summary.won);
    assert_eq!(game.player().asked.get(), 2);
    assert_eq!(game.attempts_left(), 1);
    assert_eq!(
        game.board().words(),
        &vec![
            Word::Full(vec![PartialMatch('c'), PartialMatch('a'), PartialMatch('b')]),
            Word::Full(vec![Match('a'), Match('b'), Match('c')]),
        ]
    );
}

#[test]
fn rows_fill_in_turn_order_and_stay() {
    let mut game = Game::new("abc".to_owned(), 4, Script::of(&[]));
    let guesses = ["xyz", "cab", "abd"];
    let mut seen: Vec<Word> = Vec::new();
    for (k, guess) in guesses.iter().enumerate() {
        assert_eq!(game.current_word_index(), k);
        assert_eq!(
            filled_rows(game.board()),
            (0..4).map(|i| i < k).collect::<Vec<bool>>()
        );
        assert!(game.awaiting());
        assert!(!game.play_turn(guess));
        seen.push(game.get_diff(guess));
        assert_eq!(&game.board().words()[..=k], &seen[..]);
        assert_eq!(game.attempts_left() as usize, 4 - (k + 1));
    }
    assert_eq!(filled_rows(game.board()), vec![true, true, true, false]);
    assert!(game.play_turn("abc"));
    assert_eq!(filled_rows(game.board()), vec![true, true, true, true]);
    assert_eq!(game.attempts_left(), 1);
    assert!(!game.awaiting());
}

#[test]
fn winning_turn_keeps_the_attempt() {
    let mut game = Game::new("abc".to_owned(), 2, Script::of(&[]));
    assert!(game.play_turn("abc"));
    assert_eq!(game.attempts_left(), 2);
    assert_eq!(game.current_word_index(), 0);
    assert!(!game.awaiting());
}

#[test]
fn guess_that_differs_only_in_case_wins() {
    let mut game = Game::new("ABC".to_owned(), 2, Script::of(&["ABC", "abc"]));
    let summary = game.run();
    assert!(summary.won);
    assert_eq!(game.player().asked.get(), 1);
    assert_eq!(game.attempts_left(), 2);
    assert!(!game.awaiting());
    assert_eq!(
        game.board().words(),
        &vec![Word::Full(vec![NonMatch('A'), NonMatch('B'), NonMatch('C')]), Word::Empty(3)]
    );
}

#[test]
fn winning_turn_shows_the_guess_as_typed() {
    let mut game = Game::new("abc".to_owned(), 3, Script::of(&[]));
    assert!(!game.play_turn("aBd"));
    assert_eq!(game.attempts_left(), 2);
    assert!(game.awaiting());
    assert!(game.play_turn("aBc"));
    assert_eq!(game.attempts_left(), 2);
    assert!(!game.awaiting());
    assert_eq!(
        game.board().words(),
        &vec![
            Word::Full(vec![Match('a'), NonMatch('B'), NonMatch('d')]),
            Word::Full(vec![Match('a'), NonMatch('B'), Match('c')]),
            Word::Empty(3),
        ]
    );
}

#[test]
fn guess_in_another_case_wins_on_the_last_attempt() {
    let mut game = Game::new("Été".to_owned(), 2, Script::of(&["tee", "ÉTÉ"]));
    let summary = game.run();
    assert!(summary.won);
    assert_eq!(game.player().asked.get(), 2);
    assert_eq!(game.attempts_left(), 1);
}

#[test]
fn session_without_attempts_is_lost_without_a_guess() {
    let mut game = Game::new("abc".to_owned(), 0, Script::of(&[]));
    assert!(!game.awaiting());
    let summary = game.run();
    assert!(!summary.won);
    assert_eq!(game.player().asked.get(), 0);
    assert!(game.board().words().is_empty());
}

#[test]
fn finished_session_is_not_played_again() {
    let mut game = Game::new("abc".to_owned(), 3, Script::of(&["xyz", "abc", "cab"]));
    assert!(game.run().won);
    let rows = filled_rows(game.board());
    assert!(game.run().won);
    assert_eq!(game.player().asked.get(), 2);
    assert_eq!(filled_rows(game.board()), rows);
    assert_eq!(game.attempts_left(), 2);

    let mut game = Game::new("abc".to_owned(), 1, Script::of(&["xyz", "abc"]));
    assert!(!game.run().won);
    assert!(!game.run().won);
    assert_eq!(game.player().asked.get(), 1);
}

#[test]
fn summary_can_be_printed_for_debugging() {
    let mut game = Game::new("abc".to_owned(), 1, Script::of(&["abc"]));
    assert_eq!(format!("{:?}", game.run()), "GameSummary { won: true }");
}

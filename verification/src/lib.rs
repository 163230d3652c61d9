//! A turn-based word-guessing game: a hidden word, a fixed number of guesses,
//! and per-letter feedback after each guess.
//!
//! [`evaluator`] computes the feedback for one guess, [`session`] states the
//! rules of a session over mathematical values, and [`game`] plays a session
//! with the guesses of a [`player::Player`]. [`paint`] turns a board into
//! coloured text.

pub mod board;
pub mod evaluator;
pub mod game;
pub mod paint;
pub mod player;
pub mod session;
pub mod slot;
pub mod text;

pub use board::Board;
pub use evaluator::evaluate;
pub use game::{Game, GameSummary};
pub use player::{Answer, HumanPlayer, Player};
pub use slot::{SlotState, Word};

//! Game logic for a Wordle-style word-guessing game: scoring a guess letter by
//! letter against a secret word, and the session state machine around it.

pub mod cli;
pub mod evaluation;
pub mod game;
pub mod session;

pub use evaluation::LetterValidity;
pub use game::{GameError, WordleGame};
pub use session::{GameResult, GuessResult, WordleSession};

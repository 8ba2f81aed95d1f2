//! A terminal word-guessing game core: a player has a fixed number of
//! attempts to guess a fixed-length secret word, receiving per-letter
//! feedback after each attempt.
//!
//! This crate holds the verified game logic: the board, the per-letter
//! comparison, the word pool, and the session state machine. Terminal
//! rendering and key decoding live outside it.

pub mod board;
pub mod cell;
pub mod compare;
pub mod letters;
pub mod pool;
pub mod session;

//! Scoring and solving of word-guessing puzzles: a guess is scored letter by
//! letter against a secret word, and the scores of all rounds are folded into
//! per-character constraints that narrow a word list down to the next guess.

use vstd::prelude::*;

pub mod bench;
pub mod error;
pub mod game;
pub mod solve;
pub mod text;
pub mod wlist;

verus! {

/// Default letters of a solution word
pub const DEFAULT_WORD_LENGTH: usize = 5;

/// Default amount of guesses per game
pub const DEFAULT_MAX_STEPS: usize = 6;

} // verus!

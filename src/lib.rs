//! Scoring of guesses in a five-letter word game: validated words, per-letter
//! verdicts with the duplicate-letter rule, and their textual renderings.
use vstd::prelude::*;

pub mod laws;
pub mod scoring;
pub mod verdict;
pub mod word;

verus! {

/// Number of letters in every word of the game.
pub const WORD_LEN: usize = 5;

} // verus!

//! Candidate generation and scoring for a seven-letter word puzzle.
//!
//! A lexicon is narrowed by word length, then to words spelled only with the
//! puzzle's letters, then to words that hold the center letter. The survivors
//! are scored and ranked by points.

pub mod letters;
pub mod lexicon;
pub mod filters;
pub mod scoring;
pub mod input;
pub mod table;
pub mod typing;

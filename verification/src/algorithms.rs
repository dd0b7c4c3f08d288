//! Decoding algorithms.

pub mod viterbi;

pub use viterbi::Viterbi;

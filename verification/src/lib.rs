//! Hidden Markov model decoding and sampling.
//!
//! A model is three probability matrices (initial, transition, emission)
//! over finite state and observation alphabets. The decoder computes the
//! most probable hidden state sequence for an observed signal (the MAP
//! estimate, by the Viterbi algorithm); the sampler draws a random signal
//! from the model. All probabilities are handled as fixed-point values:
//! log-domain scores for decoding, linear-domain weights for sampling.

pub mod algorithms;
pub mod hmm;
pub mod prelude;
pub mod sampling;
pub mod score;
pub mod utils;

pub use hmm::Hmm;
pub use hmm::HmmError;
pub use score::Prob;
pub use score::Score;

//! Log-domain scores and model probability entries.

use vstd::prelude::*;

verus! {

/// A log-domain score: either the logarithm of a zero probability (negative
/// infinity) or a finite fixed-point value.
///
/// Probabilities are handled in log space so that the product of the
/// probabilities along a path becomes a sum of scores, which cannot
/// underflow. The finite part is a fixed-point number: the caller picks a
/// scale (the tests and the demo program use 2^32 units per 1.0) and rounds
/// each log-probability to the nearest unit. The library never interprets
/// the scale; it only adds and compares scores, so every result is exact in
/// the chosen grid.
#[derive(Clone, Copy, Debug, PartialEq, Eq, Structural)]
pub enum Score {
    /// The logarithm of probability zero; absorbing under addition and
    /// below every other score.
    NegInf,
    /// A finite log-probability, in fixed-point units.
    Fin(i64),
}

/// One probability entry of a model, in the two encodings the library works
/// with: a linear-domain weight (for sampling) and a log-domain score (for
/// decoding). Both are fixed-point renderings of the same probability; the
/// library stores them as given and never checks one against the other.
#[derive(Clone, Copy, Debug, PartialEq, Eq, Structural)]
pub struct Prob {
    /// The probability itself, scaled to an integer weight.
    pub weight: u64,
    /// The logarithm of the probability, as a score.
    pub log_pr: Score,
}

/// Total order on scores: `NegInf` is below everything; finite scores
/// compare as their fixed-point values.
pub open spec fn score_le(a: Score, b: Score) -> bool {
    match (a, b) {
        (Score::NegInf, _) => true,
        (Score::Fin(_), Score::NegInf) => false,
        (Score::Fin(x), Score::Fin(y)) => x <= y,
    }
}

/// Strict version of [`score_le`].
pub open spec fn score_lt(a: Score, b: Score) -> bool {
    score_le(a, b) && a != b
}

/// An integer clipped to the range of `i64`.
pub open spec fn clip_i64(x: int) -> int {
    if x > i64::MAX {
        i64::MAX as int
    } else if x < i64::MIN {
        i64::MIN as int
    } else {
        x
    }
}

/// Score addition: `NegInf` absorbs (an impossible step makes the whole
/// path impossible); finite parts add, saturating at the ends of the
/// fixed-point range.
pub open spec fn score_add(a: Score, b: Score) -> Score {
    match (a, b) {
        (Score::Fin(x), Score::Fin(y)) => Score::Fin(clip_i64(x + y) as i64),
        _ => Score::NegInf,
    }
}

/// Addition is monotone in its left argument: raising a prefix score can
/// never lower the extended score.
pub proof fn lemma_score_add_mono(a: Score, b: Score, c: Score)
    requires
        score_le(a, b),
    ensures
        score_le(score_add(a, c), score_add(b, c)),
{
}

impl Score {
    /// Saturating log-space addition; see [`score_add`].
    pub fn add(self, other: Score) -> (r: Score)
        ensures
            r == score_add(self, other),
    {
        match (self, other) {
            (Score::Fin(x), Score::Fin(y)) => {
                let s: i128 = x as i128 + y as i128;
                if s > i64::MAX as i128 {
                    Score::Fin(i64::MAX)
                } else if s < i64::MIN as i128 {
                    Score::Fin(i64::MIN)
                } else {
                    Score::Fin(s as i64)
                }
            },
            _ => Score::NegInf,
        }
    }

    /// Strict comparison; see [`score_lt`].
    pub fn lt(self, other: Score) -> (r: bool)
        ensures
            r == score_lt(self, other),
    {
        match (self, other) {
            (Score::NegInf, Score::NegInf) => false,
            (Score::NegInf, Score::Fin(_)) => true,
            (Score::Fin(_), Score::NegInf) => false,
            (Score::Fin(x), Score::Fin(y)) => x < y,
        }
    }

    /// Non-strict comparison; see [`score_le`].
    pub fn le(self, other: Score) -> (r: bool)
        ensures
            r == score_le(self, other),
    {
        match (self, other) {
            (Score::NegInf, _) => true,
            (Score::Fin(_), Score::NegInf) => false,
            (Score::Fin(x), Score::Fin(y)) => x <= y,
        }
    }

    /// Whether the score is finite (not the logarithm of zero).
    pub fn is_finite(self) -> (r: bool)
        ensures
            r == (self is Fin),
    {
        match self {
            Score::NegInf => false,
            Score::Fin(_) => true,
        }
    }
}

} // verus!

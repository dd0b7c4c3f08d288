//! Decoding scenarios, with the probability matrices rendered to the
//! library's fixed-point entries (2^32 units per 1.0).

use hmmmm::algorithms::Viterbi;
use hmmmm::prelude::Observation;
use hmmmm::prelude::State;
use hmmmm::Hmm;
use hmmmm::HmmError;
use hmmmm::Prob;
use hmmmm::Score;

const SCALE: f64 = 4294967296.0;

fn prob(p: f64) -> Prob {
    let weight = (p * SCALE).round() as u64;
    let log_pr = if p > 0.0 {
        Score::Fin((p.log2() * SCALE).round() as i64)
    } else {
        Score::NegInf
    };
    Prob { weight, log_pr }
}

fn score_f64(s: Score) -> f64 {
    match s {
        Score::Fin(v) => (v as f64) / SCALE,
        Score::NegInf => f64::NEG_INFINITY,
    }
}

fn row(ps: &[f64]) -> Vec<Prob> {
    ps.iter().map(|&p| prob(p)).collect()
}

fn matrix(rows: &[&[f64]]) -> Vec<Vec<Prob>> {
    rows.iter().map(|r| row(r)).collect()
}

#[derive(Debug, Clone, Copy, PartialEq)]
#[allow(dead_code)]
enum S {
    Healthy,
    Fever,
}

impl State for S {
    fn count() -> usize {
        2
    }

    fn as_usize(&self) -> usize {
        (*self as u8) as usize
    }

    fn from_usize(value: usize) -> Self {
        [Self::Healthy, Self::Fever][value]
    }

    fn as_u8(&self) -> u8 {
        *self as u8
    }

    fn from_u8(value: u8) -> Self {
        Self::from_usize(value as usize)
    }
}

#[derive(Debug, Clone, Copy, PartialEq)]
#[allow(dead_code)]
enum O {
    Normal,
    Cold,
    Dizzy,
}

impl Observation for O {
    fn count() -> usize {
        3
    }

    fn as_usize(&self) -> usize {
        (*self as u8) as usize
    }

    fn from_usize(value: usize) -> Self {
        [Self::Normal, Self::Cold, Self::Dizzy][value]
    }

    fn as_u8(&self) -> u8 {
        *self as u8
    }

    fn from_u8(value: u8) -> Self {
        Self::from_usize(value as usize)
    }
}

fn fever_model() -> Hmm {
    Hmm::new(
        row(&[0.6, 0.4]),
        matrix(&[&[0.7, 0.3], &[0.4, 0.6]]),
        matrix(&[&[0.5, 0.4, 0.1], &[0.1, 0.3, 0.6]]),
    )
    .unwrap()
}

#[test]
fn mod_test_1() {
    let hmm = fever_model();
    let signal = vec![O::Normal, O::Cold, O::Dizzy];

    let (p, sequence): (Score, Vec<S>) = hmm.map_estimate::<Viterbi, S, O>(&signal).unwrap();

    assert_eq!(sequence, vec![S::Healthy, S::Healthy, S::Fever]);
    assert!((score_f64(p) - (-6.04739805)).abs() < 0.000001);
}

#[test]
fn decoded_probability_floor() {
    let hmm = fever_model();
    let signal = vec![O::Normal, O::Cold, O::Dizzy];

    let (p, _): (Score, Vec<S>) = hmm.map_estimate::<Viterbi, S, O>(&signal).unwrap();

    let pf = score_f64(p);
    assert_eq!(pf.floor(), -7.0);
    assert!((-7.0..-6.0).contains(&pf));
}

#[test]
fn decoding_is_deterministic() {
    let hmm = fever_model();
    let signal = vec![O::Dizzy, O::Normal, O::Cold, O::Cold, O::Dizzy];

    let (p1, seq1): (Score, Vec<S>) = hmm.map_estimate::<Viterbi, S, O>(&signal).unwrap();
    let (p2, seq2): (Score, Vec<S>) = hmm.map_estimate::<Viterbi, S, O>(&signal).unwrap();

    assert_eq!(p1, p2);
    assert_eq!(seq1, seq2);
}

#[test]
fn decoded_length_matches_signal() {
    let hmm = fever_model();
    for len in 1..8usize {
        let signal: Vec<O> = (0..len).map(|t| O::from_usize(t % 3)).collect();
        let (_, sequence): (Score, Vec<S>) = hmm.map_estimate::<Viterbi, S, O>(&signal).unwrap();
        assert_eq!(sequence.len(), len);
    }
}

#[test]
fn empty_signal_is_rejected() {
    let hmm = fever_model();
    let signal: Vec<O> = Vec::new();
    let r: Result<(Score, Vec<S>), HmmError> = hmm.map_estimate::<Viterbi, S, O>(&signal);
    assert_eq!(r, Err(HmmError::EmptySignal));
}

/// The score of one concrete path, added up as the decoder does.
fn path_score_of(hmm: &Hmm, signal: &[usize], path: &[usize]) -> Score {
    let mut sc = hmm.pr_initial[path[0]]
        .log_pr
        .add(hmm.pr_emission[path[0]][signal[0]].log_pr);
    for t in 1..signal.len() {
        sc = sc
            .add(hmm.pr_transition[path[t - 1]][path[t]].log_pr)
            .add(hmm.pr_emission[path[t]][signal[t]].log_pr);
    }
    sc
}

#[test]
fn decoded_path_is_optimal() {
    let hmm = fever_model();
    let signal = vec![O::Normal, O::Cold, O::Dizzy];
    let (p, sequence): (Score, Vec<S>) = hmm.map_estimate::<Viterbi, S, O>(&signal).unwrap();

    let sig_idx: Vec<usize> = signal.iter().map(|o| o.as_usize()).collect();
    let seq_idx: Vec<usize> = sequence.iter().map(|s| s.as_usize()).collect();

    // The returned path achieves the returned score ...
    assert_eq!(path_score_of(&hmm, &sig_idx, &seq_idx), p);

    // ... and no other path of the same length beats it.
    for bits in 0..8usize {
        let path = vec![bits & 1, (bits >> 1) & 1, (bits >> 2) & 1];
        let sc = path_score_of(&hmm, &sig_idx, &path);
        assert!(!p.lt(sc), "path {path:?} scored higher than the decoder");
    }
}

#[test]
fn ties_keep_the_earliest_state() {
    // A fully uniform model: every path ties, so the decoder must pick
    // state 0 everywhere.
    let hmm = Hmm::new(
        row(&[0.5, 0.5]),
        matrix(&[&[0.5, 0.5], &[0.5, 0.5]]),
        matrix(&[&[0.5, 0.5], &[0.5, 0.5]]),
    )
    .unwrap();
    let signal = vec![O2::A, O2::B, O2::B, O2::A];
    let (_, sequence): (Score, Vec<S>) = hmm.map_estimate::<Viterbi, S, O2>(&signal).unwrap();
    assert_eq!(
        sequence,
        vec![S::Healthy, S::Healthy, S::Healthy, S::Healthy]
    );
}

#[derive(Debug, Clone, Copy, PartialEq)]
#[allow(dead_code)]
enum O2 {
    A,
    B,
}

impl Observation for O2 {
    fn count() -> usize {
        2
    }

    fn as_usize(&self) -> usize {
        (*self as u8) as usize
    }

    fn from_usize(value: usize) -> Self {
        [Self::A, Self::B][value]
    }

    fn as_u8(&self) -> u8 {
        *self as u8
    }

    fn from_u8(value: u8) -> Self {
        Self::from_usize(value as usize)
    }
}

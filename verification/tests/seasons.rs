//! Sampling and decoding on the four-season weather model.

use hmmmm::algorithms::Viterbi;
use hmmmm::prelude::Observation;
use hmmmm::prelude::State;
use hmmmm::Hmm;
use hmmmm::Prob;
use hmmmm::Score;

const SCALE: f64 = 4294967296.0;

fn prob(p: f64) -> Prob {
    let weight = (p * SCALE).round() as u64;
    let log_pr = if p > 0.0 {
        Score::Fin((p.log2() * SCALE).round() as i64)
    } else {
        Score::NegInf
    };
    Prob { weight, log_pr }
}

fn row(ps: &[f64]) -> Vec<Prob> {
    ps.iter().map(|&p| prob(p)).collect()
}

fn matrix(rows: &[&[f64]]) -> Vec<Vec<Prob>> {
    rows.iter().map(|r| row(r)).collect()
}

#[derive(Debug, Clone, Copy, PartialEq)]
#[allow(dead_code)]
enum Season {
    Spring,
    Summer,
    Fall,
    Winter,
}

impl State for Season {
    fn count() -> usize {
        4
    }

    fn as_usize(&self) -> usize {
        (*self as u8) as usize
    }

    fn from_usize(value: usize) -> Self {
        [Self::Spring, Self::Summer, Self::Fall, Self::Winter][value]
    }

    fn as_u8(&self) -> u8 {
        *self as u8
    }

    fn from_u8(value: u8) -> Self {
        Self::from_usize(value as usize)
    }
}

#[derive(Debug, Clone, Copy, PartialEq)]
#[allow(dead_code)]
enum Weather {
    ClearSky,
    Rain,
    Snow,
    Lightning,
}

impl Observation for Weather {
    fn count() -> usize {
        4
    }

    fn as_usize(&self) -> usize {
        (*self as u8) as usize
    }

    fn from_usize(value: usize) -> Self {
        [Self::ClearSky, Self::Rain, Self::Snow, Self::Lightning][value]
    }

    fn as_u8(&self) -> u8 {
        *self as u8
    }

    fn from_u8(value: u8) -> Self {
        Self::from_usize(value as usize)
    }
}

fn seasons_model() -> Hmm {
    let pr_initial = row(&[0.25, 0.25, 0.25, 0.25]);

    let pr_transition = matrix(&[
        &[90. / 91., 1. / 91., 0., 0.], // ~ 91 days of spring
        &[0., 92. / 93., 1. / 93., 0.], // ~ 93 days of summer
        &[0., 0., 89. / 90., 1. / 90.], // ~ 90 days of fall
        &[1. / 91., 0., 0., 90. / 9.1], // ~ 91 days of winter
    ]);

    let pr_emission = matrix(&[
        &[0.90, 0.08, 0.00, 0.02],
        &[0.80, 0.12, 0.00, 0.08],
        &[0.78, 0.18, 0.02, 0.02],
        &[0.75, 0.05, 0.15, 0.00],
    ]);

    Hmm::new(pr_initial, pr_transition, pr_emission).unwrap()
}

#[test]
fn test_2() {
    let hmm = seasons_model();

    let signal: Vec<Weather> = hmm.sample(365).unwrap();
    let (pr, sequence): (Score, Vec<Season>) =
        hmm.map_estimate::<Viterbi, Season, Weather>(&signal).unwrap();

    assert!(pr.is_finite());
    assert_eq!(sequence.len(), 365);
}

#[test]
fn t01_test_1() {
    let hmm = seasons_model();

    let signal: Vec<Weather> = hmm.sample(365).unwrap();
    let (pr, sequence): (Score, Vec<Season>) =
        hmm.map_estimate::<Viterbi, Season, Weather>(&signal).unwrap();

    assert!(pr.is_finite());
    assert_eq!(sequence.len(), 365);
}

#[test]
fn sampler_length_matches_request() {
    let hmm = seasons_model();
    for len in [0usize, 1, 2, 17] {
        let signal: Vec<Weather> = hmm.sample(len).unwrap();
        assert_eq!(signal.len(), len);
    }
}

#[test]
fn sampler_zero_length_needs_no_valid_rows() {
    // Zero weights everywhere: nothing can be drawn, but a zero-length
    // request still succeeds with the empty signal.
    let z = Prob {
        weight: 0,
        log_pr: Score::NegInf,
    };
    let hmm = Hmm::new(
        vec![z, z],
        vec![vec![z, z], vec![z, z]],
        vec![vec![z, z, z, z], vec![z, z, z, z]],
    )
    .unwrap();
    let empty: Option<Vec<Weather>> = hmm.sample(0);
    assert_eq!(empty.unwrap().len(), 0);
    let failed: Option<Vec<Weather>> = hmm.sample(3);
    assert!(failed.is_none());
}

#[test]
fn sampler_rejects_one_bad_row() {
    // One all-zero transition row poisons every positive-length draw.
    let hmm = Hmm::new(
        row(&[0.5, 0.5]),
        matrix(&[&[0.0, 0.0], &[0.4, 0.6]]),
        matrix(&[&[0.25, 0.25, 0.25, 0.25], &[0.25, 0.25, 0.25, 0.25]]),
    )
    .unwrap();
    let failed: Option<Vec<Weather>> = hmm.sample(1);
    assert!(failed.is_none());
}

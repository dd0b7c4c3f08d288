//! Model construction, the shape check, the matrix-building helpers, and
//! the index adapters.

use hmmmm::prelude::observation_round_trip;
use hmmmm::prelude::state_round_trip;
use hmmmm::prelude::Observation;
use hmmmm::prelude::State;
use hmmmm::utils::pr_e;
use hmmmm::utils::pr_i;
use hmmmm::utils::pr_t;
use hmmmm::Hmm;
use hmmmm::HmmError;
use hmmmm::Prob;
use hmmmm::Score;

fn p(weight: u64) -> Prob {
    Prob {
        weight,
        log_pr: Score::Fin(weight as i64),
    }
}

#[derive(Debug, Clone, Copy, PartialEq)]
#[allow(dead_code)]
enum Condition {
    Good,
    Bad,
}

impl State for Condition {
    fn count() -> usize {
        2
    }

    fn as_usize(&self) -> usize {
        (*self as u8) as usize
    }

    fn from_usize(value: usize) -> Self {
        [Self::Good, Self::Bad][value]
    }

    fn as_u8(&self) -> u8 {
        *self as u8
    }

    fn from_u8(value: u8) -> Self {
        Self::from_usize(value as usize)
    }
}

#[derive(Debug, Clone, Copy, PartialEq)]
#[allow(dead_code)]
enum Feeling {
    Fine,
    Odd,
    Faint,
}

impl Observation for Feeling {
    fn count() -> usize {
        3
    }

    fn as_usize(&self) -> usize {
        (*self as u8) as usize
    }

    fn from_usize(value: usize) -> Self {
        [Self::Fine, Self::Odd, Self::Faint][value]
    }

    fn as_u8(&self) -> u8 {
        *self as u8
    }

    fn from_u8(value: u8) -> Self {
        Self::from_usize(value as usize)
    }
}

#[test]
fn well_shaped_matrices_are_accepted() {
    let r = Hmm::new(
        vec![p(1), p(2)],
        vec![vec![p(3), p(4)], vec![p(5), p(6)]],
        vec![vec![p(7)], vec![p(8)]],
    );
    let hmm = r.unwrap();
    assert_eq!(hmm.n_states(), 2);
    assert_eq!(hmm.n_observations(), 1);
    assert_eq!(hmm.pr_initial[1], p(2));
    assert_eq!(hmm.pr_transition[1][0], p(5));
    assert_eq!(hmm.pr_emission[0][0], p(7));
}

#[test]
fn misshapen_matrices_are_rejected() {
    // No states at all.
    assert_eq!(
        Hmm::new(vec![], vec![], vec![]).err(),
        Some(HmmError::MismatchedDimensions)
    );
    // Transition matrix with a short row.
    assert_eq!(
        Hmm::new(
            vec![p(1), p(2)],
            vec![vec![p(3)], vec![p(5), p(6)]],
            vec![vec![p(7)], vec![p(8)]],
        )
        .err(),
        Some(HmmError::MismatchedDimensions)
    );
    // Emission matrix with a ragged second row.
    assert_eq!(
        Hmm::new(
            vec![p(1), p(2)],
            vec![vec![p(3), p(4)], vec![p(5), p(6)]],
            vec![vec![p(7)], vec![p(8), p(9)]],
        )
        .err(),
        Some(HmmError::MismatchedDimensions)
    );
    // Too few emission rows.
    assert_eq!(
        Hmm::new(
            vec![p(1), p(2)],
            vec![vec![p(3), p(4)], vec![p(5), p(6)]],
            vec![vec![p(7)]],
        )
        .err(),
        Some(HmmError::MismatchedDimensions)
    );
}

#[test]
fn index_round_trip() {
    for i in 0..Condition::count() {
        assert_eq!(Condition::from_usize(i).as_usize(), i);
        assert_eq!(state_round_trip::<Condition>(i), i);
    }
    for i in 0..Feeling::count() {
        assert_eq!(Feeling::from_usize(i).as_usize(), i);
        assert_eq!(observation_round_trip::<Feeling>(i), i);
    }
    for i in 0..Condition::count() as u8 {
        assert_eq!(Condition::from_u8(i).as_u8(), i);
    }
}

#[test]
fn seeded_initial_row() {
    let pr = pr_i(|c: Condition| match c {
        Condition::Good => p(6),
        Condition::Bad => p(4),
    });
    assert_eq!(pr, vec![p(6), p(4)]);
}

#[test]
fn seeded_transition_matrix() {
    let pr = pr_t(|a: Condition, b: Condition| match (a, b) {
        (Condition::Good, Condition::Good) => p(7),
        (Condition::Good, Condition::Bad) => p(3),
        (Condition::Bad, Condition::Good) => p(4),
        (Condition::Bad, Condition::Bad) => p(6),
    });
    assert_eq!(pr, vec![vec![p(7), p(3)], vec![p(4), p(6)]]);
}

#[test]
fn seeded_emission_matrix() {
    let pr = pr_e(|c: Condition, f: Feeling| match (c, f) {
        (Condition::Good, Feeling::Fine) => p(5),
        (Condition::Good, Feeling::Odd) => p(4),
        (Condition::Good, Feeling::Faint) => p(1),
        (Condition::Bad, Feeling::Fine) => p(1),
        (Condition::Bad, Feeling::Odd) => p(3),
        (Condition::Bad, Feeling::Faint) => p(6),
    });
    assert_eq!(
        pr,
        vec![vec![p(5), p(4), p(1)], vec![p(1), p(3), p(6)]]
    );
}

//! The hidden Markov model data structure.

use vstd::prelude::*;

use crate::prelude::obs_indices;
use crate::prelude::state_indices;
use crate::prelude::MapEstimate;
use crate::prelude::Observation;
use crate::prelude::State;
use crate::score::Prob;
use crate::score::Score;

verus! {

/// Why a model could not be built or a signal could not be decoded.
#[derive(Clone, Copy, Debug, PartialEq, Eq, Structural)]
pub enum HmmError {
    /// The three matrices do not have the shape `S`, `S x S`, `S x O` for
    /// some `S >= 1`, `O >= 1`.
    MismatchedDimensions,
    /// The observation sequence to decode is empty.
    EmptySignal,
    /// An observation in the signal is not an index below `O`.
    SymbolOutOfRange,
}

/// A sequence of observation or state indices, as mathematical integers.
pub open spec fn index_view(s: Seq<usize>) -> Seq<int> {
    Seq::new(s.len(), |t: int| s[t] as int)
}

/// Every entry of the signal is an observation index below `O`.
pub open spec fn valid_signal(m: Hmm, signal: Seq<int>) -> bool {
    forall|t: int| 0 <= t < signal.len() ==> 0 <= #[trigger] signal[t] < m.o()
}

/// Every entry of the path is a state index below `S`.
pub open spec fn valid_path(m: Hmm, path: Seq<int>) -> bool {
    forall|t: int| 0 <= t < path.len() ==> 0 <= #[trigger] path[t] < m.s()
}

/// The hidden Markov model: the three probability matrices, sized by the
/// state count `S` and the observation count `O`, both fixed when the model
/// is built. The entries are taken as given: no row is checked to sum to
/// one, and a malformed row yields meaningless but well-defined results.
pub struct Hmm {
    /// Probability of the chain starting in each state; length `S`.
    pub pr_initial: Vec<Prob>,
    /// Probability of moving from state `i` to state `j`; `S` rows of `S`.
    pub pr_transition: Vec<Vec<Prob>>,
    /// Probability that state `i` emits observation `j`; `S` rows of `O`.
    pub pr_emission: Vec<Vec<Prob>>,
}

impl Hmm {
    /// The state count `S`.
    pub open spec fn s(self) -> int {
        self.pr_initial@.len() as int
    }

    /// The observation count `O`.
    pub open spec fn o(self) -> int {
        self.pr_emission@[0]@.len() as int
    }

    /// The matrices have the declared shape, with at least one state and
    /// one observation.
    pub open spec fn wf(self) -> bool {
        &&& self.s() >= 1
        &&& self.o() >= 1
        &&& self.pr_transition@.len() == self.s()
        &&& forall|i: int|
            0 <= i < self.s() ==> (#[trigger] self.pr_transition@[i])@.len() == self.s()
        &&& self.pr_emission@.len() == self.s()
        &&& forall|i: int|
            0 <= i < self.s() ==> (#[trigger] self.pr_emission@[i])@.len() == self.o()
    }

    /// The log-score of starting in state `i`.
    pub open spec fn init(self, i: int) -> Score {
        self.pr_initial@[i].log_pr
    }

    /// The log-score of moving from state `i` to state `j`.
    pub open spec fn trans(self, i: int, j: int) -> Score {
        self.pr_transition@[i]@[j].log_pr
    }

    /// The log-score of state `i` emitting observation `j`.
    pub open spec fn emis(self, i: int, j: int) -> Score {
        self.pr_emission@[i]@[j].log_pr
    }

    /// Builds a model from the three matrices, checking only their shape:
    /// `pr_initial` fixes the state count `S`, the first emission row fixes
    /// the observation count `O`, and the matrices must be `S`, `S x S` and
    /// `S x O` with `S >= 1`, `O >= 1`. Entries are stored unchanged.
    pub fn new(pr_initial: Vec<Prob>, pr_transition: Vec<Vec<Prob>>, pr_emission: Vec<Vec<Prob>>) -> (r:
        Result<Hmm, HmmError>)
        ensures
            r is Ok <==> (Hmm { pr_initial, pr_transition, pr_emission }).wf(),
            r matches Ok(h) ==> h == (Hmm { pr_initial, pr_transition, pr_emission }),
            r matches Err(e) ==> e == HmmError::MismatchedDimensions,
    {
        let s = pr_initial.len();
        if s == 0 || pr_transition.len() != s || pr_emission.len() != s {
            return Err(HmmError::MismatchedDimensions);
        }
        let o = pr_emission[0].len();
        if o == 0 {
            return Err(HmmError::MismatchedDimensions);
        }
        let mut i: usize = 0;
        while i < s
            invariant
                0 <= i <= s,
                s == pr_initial@.len(),
                s == pr_transition@.len(),
                s == pr_emission@.len(),
                o == pr_emission@[0]@.len(),
                forall|k: int| 0 <= k < i ==> (#[trigger] pr_transition@[k])@.len() == s,
                forall|k: int| 0 <= k < i ==> (#[trigger] pr_emission@[k])@.len() == o,
            decreases s - i,
        {
            if pr_transition[i].len() != s || pr_emission[i].len() != o {
                return Err(HmmError::MismatchedDimensions);
            }
            i += 1;
        }
        Ok(Hmm { pr_initial, pr_transition, pr_emission })
    }

    /// Decodes a signal of observation symbols into the estimated
    /// log-probability and state-symbol path, by the strategy `A`. The
    /// model must have been built for the two alphabets (`S` states, `O`
    /// observations); an empty signal is rejected.
    pub fn map_estimate<A: MapEstimate, S: State, O: Observation>(&self, signal: &Vec<O>) -> (r:
        Result<(Score, Vec<S>), HmmError>)
        requires
            self.wf(),
            self.s() == S::count_spec(),
            self.o() == O::count_spec(),
        ensures
            r is Ok <==> signal@.len() >= 1,
            r matches Ok(p) ==> p.1@.len() == signal@.len(),
            r matches Ok(p) ==> A::decoded(*self, obs_indices(signal@), p.0, state_indices(p.1@)),
            r matches Err(e) ==> e == HmmError::EmptySignal,
    {
        if signal.len() == 0 {
            return Err(HmmError::EmptySignal);
        }
        let mut idx: Vec<usize> = Vec::new();
        let mut t: usize = 0;
        while t < signal.len()
            invariant
                self.wf(),
                self.o() == O::count_spec(),
                t <= signal@.len(),
                idx@.len() == t,
                forall|u: int| 0 <= u < t ==> (#[trigger] idx@[u]) as int == obs_indices(signal@)[u],
                forall|u: int| 0 <= u < t ==> #[trigger] idx@[u] < self.o(),
            decreases signal@.len() - t,
        {
            let o = signal[t].as_usize();
            idx.push(o);
            t += 1;
        }
        let (sc, path_idx) = A::map_estimate(self, &idx);
        proof {
            assert(index_view(idx@) =~= obs_indices(signal@));
        }
        let mut path: Vec<S> = Vec::new();
        let mut u: usize = 0;
        while u < path_idx.len()
            invariant
                self.wf(),
                self.s() == S::count_spec(),
                valid_path(*self, index_view(path_idx@)),
                u <= path_idx@.len(),
                path@.len() == u,
                forall|w: int|
                    0 <= w < u ==> (#[trigger] path@[w]).index_spec() == index_view(path_idx@)[w],
            decreases path_idx@.len() - u,
        {
            proof {
                assert(index_view(path_idx@)[u as int] < self.s());
            }
            let st = S::from_usize(path_idx[u]);
            path.push(st);
            u += 1;
        }
        proof {
            assert(state_indices(path@) =~= index_view(path_idx@));
        }
        Ok((sc, path))
    }

    /// The state count `S`, as a value.
    pub fn n_states(&self) -> (r: usize)
        ensures
            r == self.s(),
    {
        self.pr_initial.len()
    }

    /// The observation count `O`, as a value.
    pub fn n_observations(&self) -> (r: usize)
        requires
            self.wf(),
        ensures
            r == self.o(),
    {
        self.pr_emission[0].len()
    }
}

} // verus!

//! Generative sampling: drawing an observation signal from the model by
//! simulating the Markov chain, with the weighted draws made by the `rand`
//! crate behind trusted wrappers.

use vstd::prelude::*;

use crate::hmm::Hmm;
use crate::prelude::Observation;
use crate::score::Prob;

verus! {

/// A weighted-index distribution over `u64` weights. It holds `rand`'s
/// distribution opaquely: the verifier sees the value only through
/// [`weights_of`] and the two wrappers below.
#[verifier::external_body]
pub struct WeightedDist {
    dist: rand::distributions::WeightedIndex<u64>,
}

/// `rand`'s handle to the thread-local generator, declared as an opaque
/// type.
#[verifier::external_type_specification]
#[verifier::external_body]
pub struct ExThreadRng(rand::rngs::ThreadRng);

/// The weights a weighted-index distribution was built over.
pub uninterp spec fn weights_of(d: WeightedDist) -> Seq<u64>;

/// The sum of a sequence of weights.
pub open spec fn weight_sum(w: Seq<u64>) -> int
    decreases w.len(),
{
    if w.len() == 0 {
        0
    } else {
        weight_sum(w.drop_last()) + w.last()
    }
}

/// Relies on rand::thread_rng: a handle to the calling thread's generator.
#[verifier::external_body]
pub(crate) fn fresh_rng() -> rand::rngs::ThreadRng {
    rand::thread_rng()
}

/// Relies on rand::distributions::WeightedIndex::new: building the
/// distribution fails exactly on an empty or an all-zero row (a `u64`
/// weight cannot be negative). The weight sum must fit the weight type,
/// since `new` accumulates it.
#[verifier::external_body]
pub(crate) fn weighted_new(w: &Vec<u64>) -> (r: Option<WeightedDist>)
    requires
        weight_sum(w@) <= u64::MAX,
    ensures
        r is Some <==> (w@.len() > 0 && weight_sum(w@) > 0),
        r matches Some(d) ==> weights_of(d) == w@,
{
    match rand::distributions::WeightedIndex::new(w.iter()) {
        Ok(dist) => Some(WeightedDist { dist }),
        Err(_) => None,
    }
}

/// Relies on WeightedIndex::sample (rand's Distribution): one weighted
/// draw, always an index below the number of weights.
#[verifier::external_body]
pub(crate) fn weighted_draw(d: &WeightedDist, rng: &mut rand::rngs::ThreadRng) -> (r: usize)
    requires
        weights_of(*d).len() > 0,
    ensures
        r < weights_of(*d).len(),
{
    rand::distributions::Distribution::sample(&d.dist, rng)
}

/// Summing one more entry extends a prefix sum.
proof fn lemma_weight_sum_take_succ(w: Seq<u64>, i: int)
    requires
        0 <= i < w.len(),
    ensures
        weight_sum(w.take(i + 1)) == weight_sum(w.take(i)) + w[i],
{
    assert(w.take(i + 1).drop_last() =~= w.take(i));
}

/// A prefix never sums to more than the whole row.
proof fn lemma_weight_sum_prefix(w: Seq<u64>, i: int)
    requires
        0 <= i <= w.len(),
    ensures
        weight_sum(w.take(i)) <= weight_sum(w),
    decreases w.len() - i,
{
    if i == w.len() {
        assert(w.take(i) =~= w);
    } else {
        lemma_weight_sum_take_succ(w, i);
        lemma_weight_sum_prefix(w, i + 1);
    }
}

/// The linear-domain weights of a probability row.
pub open spec fn weight_row(row: Seq<Prob>) -> Seq<u64> {
    Seq::new(row.len(), |i: int| row[i].weight)
}

/// A categorical row can be drawn from: it is nonempty and its weight sum
/// is positive and fits the weight type.
pub open spec fn row_sampleable(row: Seq<Prob>) -> bool {
    row.len() > 0 && 0 < weight_sum(weight_row(row)) <= u64::MAX
}

/// The weights of a probability row, as a vector.
fn row_weights(row: &Vec<Prob>) -> (r: Vec<u64>)
    ensures
        r@ == weight_row(row@),
{
    let mut w: Vec<u64> = Vec::new();
    let mut i: usize = 0;
    while i < row.len()
        invariant
            i <= row@.len(),
            w@.len() == i,
            forall|k: int| 0 <= k < i ==> #[trigger] w@[k] == row@[k].weight,
        decreases row@.len() - i,
    {
        w.push(row[i].weight);
        i += 1;
    }
    proof {
        assert(w@ =~= weight_row(row@));
    }
    w
}

/// The sum of a weight row, or `None` when it does not fit the weight
/// type.
fn sum_weights(w: &Vec<u64>) -> (r: Option<u64>)
    ensures
        r matches Some(s) ==> s == weight_sum(w@),
        r is Some <==> weight_sum(w@) <= u64::MAX,
{
    let mut total: u64 = 0;
    let mut i: usize = 0;
    while i < w.len()
        invariant
            i <= w@.len(),
            total == weight_sum(w@.take(i as int)),
        decreases w@.len() - i,
    {
        let x = w[i];
        proof {
            lemma_weight_sum_take_succ(w@, i as int);
        }
        if total > u64::MAX - x {
            proof {
                lemma_weight_sum_prefix(w@, i + 1);
            }
            return None;
        }
        total = total + x;
        i += 1;
    }
    proof {
        assert(w@.take(w@.len() as int) =~= w@);
    }
    Some(total)
}

impl Hmm {
    /// Every categorical row of the model can be drawn from.
    pub open spec fn sampleable(self) -> bool {
        &&& row_sampleable(self.pr_initial@)
        &&& forall|i: int|
            0 <= i < self.s() ==> row_sampleable((#[trigger] self.pr_transition@[i])@)
        &&& forall|i: int|
            0 <= i < self.s() ==> row_sampleable((#[trigger] self.pr_emission@[i])@)
    }

    /// Draws `length` observation symbols by simulating the chain: an
    /// initial state from `pr_initial`, then at each step an emission from
    /// the current state's row followed by a transition to the next state.
    /// A zero length yields the empty signal outright; otherwise the draw
    /// fails exactly when some row of the model has a zero or overflowing
    /// weight sum.
    pub fn sample<O: Observation>(&self, length: usize) -> (r: Option<Vec<O>>)
        requires
            self.wf(),
            self.o() == O::count_spec(),
        ensures
            r is Some <==> (length == 0 || self.sampleable()),
            r matches Some(v) ==> v@.len() == length,
    {
        let mut out: Vec<O> = Vec::new();
        if length == 0 {
            return Some(out);
        }
        let s = self.n_states();

        let init_w = row_weights(&self.pr_initial);
        let init_d = match sum_weights(&init_w) {
            None => {
                proof {
                    assert(!row_sampleable(self.pr_initial@));
                }
                return None;
            },
            Some(_) => match weighted_new(&init_w) {
                None => {
                    proof {
                        assert(!row_sampleable(self.pr_initial@));
                    }
                    return None;
                },
                Some(d) => d,
            },
        };

        let mut trans_d: Vec<WeightedDist> = Vec::new();
        let mut i: usize = 0;
        while i < s
            invariant
                self.wf(),
                s == self.s(),
                length >= 1,
                trans_d@.len() == i,
                i <= s,
                forall|k: int|
                    0 <= k < i ==> weights_of(#[trigger] trans_d@[k]) == weight_row(
                        self.pr_transition@[k]@,
                    ),
                forall|k: int| 0 <= k < i ==> row_sampleable((#[trigger] self.pr_transition@[k])@),
            decreases s - i,
        {
            let w = row_weights(&self.pr_transition[i]);
            match sum_weights(&w) {
                None => {
                    proof {
                        assert(!row_sampleable(self.pr_transition@[i as int]@));
                        assert(!self.sampleable());
                    }
                    return None;
                },
                Some(_) => {},
            }
            match weighted_new(&w) {
                None => {
                    proof {
                        assert(!row_sampleable(self.pr_transition@[i as int]@));
                        assert(!self.sampleable());
                    }
                    return None;
                },
                Some(d) => trans_d.push(d),
            }
            i += 1;
        }

        let mut emis_d: Vec<WeightedDist> = Vec::new();
        let mut i2: usize = 0;
        while i2 < s
            invariant
                self.wf(),
                s == self.s(),
                length >= 1,
                emis_d@.len() == i2,
                i2 <= s,
                forall|k: int|
                    0 <= k < i2 ==> weights_of(#[trigger] emis_d@[k]) == weight_row(
                        self.pr_emission@[k]@,
                    ),
                forall|k: int| 0 <= k < i2 ==> row_sampleable((#[trigger] self.pr_emission@[k])@),
            decreases s - i2,
        {
            let w = row_weights(&self.pr_emission[i2]);
            match sum_weights(&w) {
                None => {
                    proof {
                        assert(!row_sampleable(self.pr_emission@[i2 as int]@));
                        assert(!self.sampleable());
                    }
                    return None;
                },
                Some(_) => {},
            }
            match weighted_new(&w) {
                None => {
                    proof {
                        assert(!row_sampleable(self.pr_emission@[i2 as int]@));
                        assert(!self.sampleable());
                    }
                    return None;
                },
                Some(d) => emis_d.push(d),
            }
            i2 += 1;
        }

        let mut rng = fresh_rng();
        let mut state = weighted_draw(&init_d, &mut rng);
        let mut step: usize = 0;
        while step < length
            invariant
                self.wf(),
                s == self.s(),
                self.o() == O::count_spec(),
                trans_d@.len() == s,
                emis_d@.len() == s,
                forall|k: int|
                    0 <= k < s ==> weights_of(#[trigger] trans_d@[k]) == weight_row(
                        self.pr_transition@[k]@,
                    ),
                forall|k: int|
                    0 <= k < s ==> weights_of(#[trigger] emis_d@[k]) == weight_row(
                        self.pr_emission@[k]@,
                    ),
                state < s,
                step <= length,
                out@.len() == step,
            decreases length - step,
        {
            let obs = weighted_draw(&emis_d[state], &mut rng);
            out.push(O::from_usize(obs));
            state = weighted_draw(&trans_d[state], &mut rng);
            step += 1;
        }
        Some(out)
    }
}

} // verus!

//! Convenience functions for building the probability matrices from a
//! function of symbol values, removing manual index bookkeeping.

use vstd::prelude::*;

use crate::prelude::Observation;
use crate::prelude::State;
use crate::score::Prob;

verus! {

/// The entry is what the seed function returns on the state symbol with
/// index `i`.
pub open spec fn seeded_initial<S: State, F: Fn(S) -> Prob>(f: F, i: int, p: Prob) -> bool {
    exists|s: S| s.index_spec() == i && #[trigger] f.ensures((s,), p)
}

/// The entry is what the seed function returns on the pair of state
/// symbols with indices `i` and `j`.
pub open spec fn seeded_transition<S: State, F: Fn(S, S) -> Prob>(
    f: F,
    i: int,
    j: int,
    p: Prob,
) -> bool {
    exists|a: S, b: S| a.index_spec() == i && b.index_spec() == j && #[trigger] f.ensures((a, b), p)
}

/// The entry is what the seed function returns on the state symbol with
/// index `i` and the observation symbol with index `j`.
pub open spec fn seeded_emission<S: State, O: Observation, F: Fn(S, O) -> Prob>(
    f: F,
    i: int,
    j: int,
    p: Prob,
) -> bool {
    exists|s: S, o: O| s.index_spec() == i && o.index_spec() == j && #[trigger] f.ensures((s, o), p)
}

/// Seeds an initial probability row by calling the closure on every state
/// symbol, in index order.
pub fn pr_i<S: State, F: Fn(S) -> Prob>(seed_function: F) -> (r: Vec<Prob>)
    requires
        forall|s: S| #[trigger] seed_function.requires((s,)),
    ensures
        r@.len() == S::count_spec(),
        forall|i: int| 0 <= i < r@.len() ==> #[trigger] seeded_initial(seed_function, i, r@[i]),
{
    let n = S::count();
    let mut pr: Vec<Prob> = Vec::new();
    let mut i: usize = 0;
    while i < n
        invariant
            n == S::count_spec(),
            forall|s: S| #[trigger] seed_function.requires((s,)),
            i <= n,
            pr@.len() == i,
            forall|k: int| 0 <= k < i ==> #[trigger] seeded_initial(seed_function, k, pr@[k]),
        decreases n - i,
    {
        let s = S::from_usize(i);
        let ghost s_spec = s;
        let p = seed_function(s);
        proof {
            assert(s_spec.index_spec() == i && seed_function.ensures((s_spec,), p));
            assert(seeded_initial(seed_function, i as int, p));
        }
        pr.push(p);
        i += 1;
    }
    pr
}

/// Seeds a transition probability matrix by calling the closure on every
/// ordered pair of state symbols, in index order.
pub fn pr_t<S: State, F: Fn(S, S) -> Prob>(seed_function: F) -> (r: Vec<Vec<Prob>>)
    requires
        forall|a: S, b: S| #[trigger] seed_function.requires((a, b)),
    ensures
        r@.len() == S::count_spec(),
        forall|i: int| 0 <= i < r@.len() ==> (#[trigger] r@[i])@.len() == S::count_spec(),
        forall|i: int, j: int|
            0 <= i < r@.len() && 0 <= j < r@.len() ==> #[trigger] seeded_transition(
                seed_function,
                i,
                j,
                r@[i]@[j],
            ),
{
    let n = S::count();
    let mut pr: Vec<Vec<Prob>> = Vec::new();
    let mut i: usize = 0;
    while i < n
        invariant
            n == S::count_spec(),
            forall|a: S, b: S| #[trigger] seed_function.requires((a, b)),
            i <= n,
            pr@.len() == i,
            forall|k: int| 0 <= k < i ==> (#[trigger] pr@[k])@.len() == n,
            forall|k: int, j: int|
                0 <= k < i && 0 <= j < n ==> #[trigger] seeded_transition(
                    seed_function,
                    k,
                    j,
                    pr@[k]@[j],
                ),
        decreases n - i,
    {
        let mut row: Vec<Prob> = Vec::new();
        let mut j: usize = 0;
        while j < n
            invariant
                n == S::count_spec(),
                forall|a: S, b: S| #[trigger] seed_function.requires((a, b)),
                i < n,
                j <= n,
                row@.len() == j,
                forall|l: int|
                    0 <= l < j ==> #[trigger] seeded_transition(seed_function, i as int, l, row@[l]),
            decreases n - j,
        {
            let a = S::from_usize(i);
            let b = S::from_usize(j);
            let ghost a_spec = a;
            let ghost b_spec = b;
            let p = seed_function(a, b);
            proof {
                assert(a_spec.index_spec() == i && b_spec.index_spec() == j
                    && seed_function.ensures((a_spec, b_spec), p));
                assert(seeded_transition(seed_function, i as int, j as int, p));
            }
            row.push(p);
            j += 1;
        }
        pr.push(row);
        i += 1;
    }
    pr
}

/// Seeds an emission probability matrix by calling the closure on every
/// pair of a state and an observation symbol, in index order.
pub fn pr_e<S: State, O: Observation, F: Fn(S, O) -> Prob>(seed_function: F) -> (r: Vec<
    Vec<Prob>,
>)
    requires
        forall|s: S, o: O| #[trigger] seed_function.requires((s, o)),
    ensures
        r@.len() == S::count_spec(),
        forall|i: int| 0 <= i < r@.len() ==> (#[trigger] r@[i])@.len() == O::count_spec(),
        forall|i: int, j: int|
            0 <= i < r@.len() && 0 <= j < O::count_spec() ==> #[trigger] seeded_emission(
                seed_function,
                i,
                j,
                r@[i]@[j],
            ),
{
    let n = S::count();
    let m = O::count();
    let mut pr: Vec<Vec<Prob>> = Vec::new();
    let mut i: usize = 0;
    while i < n
        invariant
            n == S::count_spec(),
            m == O::count_spec(),
            forall|s: S, o: O| #[trigger] seed_function.requires((s, o)),
            i <= n,
            pr@.len() == i,
            forall|k: int| 0 <= k < i ==> (#[trigger] pr@[k])@.len() == m,
            forall|k: int, j: int|
                0 <= k < i && 0 <= j < m ==> #[trigger] seeded_emission(
                    seed_function,
                    k,
                    j,
                    pr@[k]@[j],
                ),
        decreases n - i,
    {
        let mut row: Vec<Prob> = Vec::new();
        let mut j: usize = 0;
        while j < m
            invariant
                n == S::count_spec(),
                m == O::count_spec(),
                forall|s: S, o: O| #[trigger] seed_function.requires((s, o)),
                i < n,
                j <= m,
                row@.len() == j,
                forall|l: int|
                    0 <= l < j ==> #[trigger] seeded_emission(seed_function, i as int, l, row@[l]),
            decreases m - j,
        {
            let s = S::from_usize(i);
            let o = O::from_usize(j);
            let ghost s_spec = s;
            let ghost o_spec = o;
            let p = seed_function(s, o);
            proof {
                assert(s_spec.index_spec() == i && o_spec.index_spec() == j
                    && seed_function.ensures((s_spec, o_spec), p));
                assert(seeded_emission(seed_function, i as int, j as int, p));
            }
            row.push(p);
            j += 1;
        }
        pr.push(row);
        i += 1;
    }
    pr
}

} // verus!

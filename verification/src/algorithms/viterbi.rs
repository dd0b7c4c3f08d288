//! Viterbi decoding: the exact MAP estimate by dynamic programming in log
//! space.
//!
//! The decoder fills a lattice of cells `(i, t)`, one per state `i` and
//! signal step `t`, each holding the best log-score of any state path that
//! ends in `i` after explaining the first `t + 1` observations, together
//! with the predecessor state that achieves it. Ties always keep the
//! earliest predecessor index. The decoded path is read back from the
//! predecessors, starting at the best final cell.

use vstd::prelude::*;

use crate::hmm::index_view;
use crate::hmm::valid_path;
use crate::hmm::valid_signal;
use crate::hmm::Hmm;
use crate::prelude::MapEstimate;
use crate::score::score_add;
use crate::score::score_le;
use crate::score::score_lt;
use crate::score::Score;

verus! {

/// Viterbi decoding as a [`crate::prelude::MapEstimate`] strategy.
pub struct Viterbi;

/// The log-score of the first `t` steps of `path` explaining the first `t`
/// observations of `signal`: the initial, transition and emission scores
/// summed along the path, in the decoder's association order.
pub open spec fn path_score(m: Hmm, signal: Seq<int>, path: Seq<int>, t: int) -> Score
    decreases t,
{
    if t <= 1 {
        score_add(m.init(path[0]), m.emis(path[0], signal[0]))
    } else {
        score_add(
            score_add(path_score(m, signal, path, t - 1), m.trans(path[t - 2], path[t - 1])),
            m.emis(path[t - 1], signal[t - 1]),
        )
    }
}

/// The score of extending a best path that ends in state `k` at step
/// `t - 1` by the transition from `k` to `i`.
pub open spec fn cand(m: Hmm, signal: Seq<int>, i: int, t: int, k: int) -> Score
    decreases t, 0int, 0int,
{
    if t >= 1 {
        score_add(best(m, signal, k, t - 1), m.trans(k, i))
    } else {
        Score::NegInf
    }
}

/// The first index in `[0, n)` whose candidate score for the cell `(i, t)`
/// is maximal: a later candidate replaces the current one only when
/// strictly greater, so equal scores keep the earliest predecessor.
pub open spec fn arg_pred(m: Hmm, signal: Seq<int>, i: int, t: int, n: int) -> int
    decreases t, 1int, n,
{
    if n <= 1 {
        0
    } else if score_lt(
        cand(m, signal, i, t, arg_pred(m, signal, i, t, n - 1)),
        cand(m, signal, i, t, n - 1),
    ) {
        n - 1
    } else {
        arg_pred(m, signal, i, t, n - 1)
    }
}

/// The best log-score of any state path of length `t + 1` that ends in
/// state `i` and explains the first `t + 1` observations.
pub open spec fn best(m: Hmm, signal: Seq<int>, i: int, t: int) -> Score
    decreases t, 2int, 0int,
{
    if t <= 0 {
        score_add(m.init(i), m.emis(i, signal[0]))
    } else {
        score_add(
            cand(m, signal, i, t, arg_pred(m, signal, i, t, m.s())),
            m.emis(i, signal[t]),
        )
    }
}

/// The first state index in `[0, n)` whose final-column score is maximal,
/// with the same earliest-index tie-break as [`arg_pred`].
pub open spec fn arg_final(m: Hmm, signal: Seq<int>, n: int) -> int
    decreases n,
{
    if n <= 1 {
        0
    } else if score_lt(
        best(m, signal, arg_final(m, signal, n - 1), signal.len() - 1),
        best(m, signal, n - 1, signal.len() - 1),
    ) {
        n - 1
    } else {
        arg_final(m, signal, n - 1)
    }
}

/// The decoded log-probability: the best score over the final column.
pub open spec fn best_final(m: Hmm, signal: Seq<int>) -> Score {
    best(m, signal, arg_final(m, signal, m.s()), signal.len() - 1)
}

/// The state path reconstructed by following best predecessors back from
/// state `i` at step `t`.
pub open spec fn opt_path(m: Hmm, signal: Seq<int>, i: int, t: int) -> Seq<int>
    decreases t,
{
    if t <= 0 {
        seq![i]
    } else {
        opt_path(m, signal, arg_pred(m, signal, i, t, m.s()), t - 1).push(i)
    }
}

/// The decoded state path: best predecessors followed back from the best
/// final state.
pub open spec fn viterbi_path(m: Hmm, signal: Seq<int>) -> Seq<int> {
    opt_path(m, signal, arg_final(m, signal, m.s()), signal.len() - 1)
}

/// The chosen predecessor index is in range, its candidate is maximal
/// among the first `n`, and every earlier candidate is strictly smaller
/// (the tie-break rule).
pub proof fn lemma_arg_pred(m: Hmm, signal: Seq<int>, i: int, t: int, n: int)
    requires
        1 <= n,
    ensures
        0 <= arg_pred(m, signal, i, t, n) < n,
        forall|k: int|
            0 <= k < n ==> score_le(
                #[trigger] cand(m, signal, i, t, k),
                cand(m, signal, i, t, arg_pred(m, signal, i, t, n)),
            ),
        forall|k: int|
            0 <= k < arg_pred(m, signal, i, t, n) ==> score_lt(
                #[trigger] cand(m, signal, i, t, k),
                cand(m, signal, i, t, arg_pred(m, signal, i, t, n)),
            ),
    decreases n,
{
    if n > 1 {
        lemma_arg_pred(m, signal, i, t, n - 1);
    }
}

/// The chosen final state index is in range, its final-column score is
/// maximal among the first `n`, and every earlier final-column score is
/// strictly smaller (the tie-break rule).
pub proof fn lemma_arg_final(m: Hmm, signal: Seq<int>, n: int)
    requires
        1 <= n,
    ensures
        0 <= arg_final(m, signal, n) < n,
        forall|k: int|
            0 <= k < n ==> score_le(
                #[trigger] best(m, signal, k, signal.len() - 1),
                best(m, signal, arg_final(m, signal, n), signal.len() - 1),
            ),
        forall|k: int|
            0 <= k < arg_final(m, signal, n) ==> score_lt(
                #[trigger] best(m, signal, k, signal.len() - 1),
                best(m, signal, arg_final(m, signal, n), signal.len() - 1),
            ),
    decreases n,
{
    if n > 1 {
        lemma_arg_final(m, signal, n - 1);
    }
}

/// The score of a path prefix depends only on the entries of that prefix.
proof fn lemma_path_score_prefix(m: Hmm, signal: Seq<int>, p1: Seq<int>, p2: Seq<int>, t: int)
    requires
        1 <= t,
        forall|u: int| 0 <= u < t ==> p1[u] == p2[u],
    ensures
        path_score(m, signal, p1, t) == path_score(m, signal, p2, t),
    decreases t,
{
    if t > 1 {
        lemma_path_score_prefix(m, signal, p1, p2, t - 1);
    }
}

/// No path of `t` steps that ends in state `path[t - 1]` scores more than
/// that state's lattice cell at step `t - 1`.
proof fn lemma_path_le_best(m: Hmm, signal: Seq<int>, path: Seq<int>, t: int)
    requires
        m.wf(),
        1 <= t <= signal.len(),
        t <= path.len(),
        valid_path(m, path),
    ensures
        score_le(path_score(m, signal, path, t), best(m, signal, path[t - 1], t - 1)),
    decreases t,
{
    if t > 1 {
        lemma_path_le_best(m, signal, path, t - 1);
        let ps = path_score(m, signal, path, t - 1);
        let b = best(m, signal, path[t - 2], t - 2);
        let tr = m.trans(path[t - 2], path[t - 1]);
        crate::score::lemma_score_add_mono(ps, b, tr);
        lemma_arg_pred(m, signal, path[t - 1], t - 1, m.s());
        let a = arg_pred(m, signal, path[t - 1], t - 1, m.s());
        assert(score_add(b, tr) == cand(m, signal, path[t - 1], t - 1, path[t - 2]));
        assert(score_le(
            cand(m, signal, path[t - 1], t - 1, path[t - 2]),
            cand(m, signal, path[t - 1], t - 1, a),
        ));
        crate::score::lemma_score_add_mono(
            score_add(ps, tr),
            cand(m, signal, path[t - 1], t - 1, a),
            m.emis(path[t - 1], signal[t - 1]),
        );
    }
}

/// Probability monotonicity: no valid state path of the signal's length
/// scores higher than the decoded log-probability.
pub proof fn lemma_viterbi_optimal(m: Hmm, signal: Seq<int>, path: Seq<int>)
    requires
        m.wf(),
        signal.len() >= 1,
        valid_path(m, path),
        path.len() == signal.len(),
    ensures
        score_le(path_score(m, signal, path, signal.len() as int), best_final(m, signal)),
{
    let t = signal.len() as int;
    lemma_path_le_best(m, signal, path, t);
    lemma_arg_final(m, signal, m.s());
}

/// The reconstructed path for a cell has the cell's step count, ends in the
/// cell's state, stays inside the state alphabet, and achieves exactly the
/// cell's best score.
pub proof fn lemma_opt_path_achieves(m: Hmm, signal: Seq<int>, i: int, t: int)
    requires
        m.wf(),
        0 <= i < m.s(),
        0 <= t < signal.len(),
    ensures
        opt_path(m, signal, i, t).len() == t + 1,
        opt_path(m, signal, i, t)[t] == i,
        valid_path(m, opt_path(m, signal, i, t)),
        path_score(m, signal, opt_path(m, signal, i, t), t + 1) == best(m, signal, i, t),
    decreases t,
{
    if t > 0 {
        lemma_arg_pred(m, signal, i, t, m.s());
        let a = arg_pred(m, signal, i, t, m.s());
        lemma_opt_path_achieves(m, signal, a, t - 1);
        let p0 = opt_path(m, signal, a, t - 1);
        let p = opt_path(m, signal, i, t);
        assert(p == p0.push(i));
        lemma_path_score_prefix(m, signal, p, p0, t);
        assert(p[t - 1] == a);
        assert(path_score(m, signal, p, t + 1) == score_add(
            score_add(best(m, signal, a, t - 1), m.trans(a, i)),
            m.emis(i, signal[t]),
        ));
        assert(score_add(best(m, signal, a, t - 1), m.trans(a, i)) == cand(m, signal, i, t, a));
    }
}

/// The decoded path achieves the decoded log-probability: together with
/// [`lemma_viterbi_optimal`], the decoder returns a maximal-score path.
pub proof fn lemma_viterbi_path_achieves(m: Hmm, signal: Seq<int>)
    requires
        m.wf(),
        signal.len() >= 1,
    ensures
        viterbi_path(m, signal).len() == signal.len(),
        valid_path(m, viterbi_path(m, signal)),
        path_score(m, signal, viterbi_path(m, signal), signal.len() as int) == best_final(
            m,
            signal,
        ),
{
    lemma_arg_final(m, signal, m.s());
    lemma_opt_path_achieves(m, signal, arg_final(m, signal, m.s()), signal.len() - 1);
}

/// A model with no zero entries decodes to a finite log-probability: the
/// lattice never leaves the finite scores, so no undefined value can arise.
pub proof fn lemma_best_finite(m: Hmm, signal: Seq<int>, i: int, t: int)
    requires
        m.wf(),
        valid_signal(m, signal),
        0 <= i < m.s(),
        0 <= t < signal.len(),
        forall|k: int| 0 <= k < m.s() ==> (#[trigger] m.init(k)) is Fin,
        forall|k: int, l: int|
            0 <= k < m.s() && 0 <= l < m.s() ==> (#[trigger] m.trans(k, l)) is Fin,
        forall|k: int, l: int|
            0 <= k < m.s() && 0 <= l < m.o() ==> (#[trigger] m.emis(k, l)) is Fin,
    ensures
        best(m, signal, i, t) is Fin,
    decreases t,
{
    if t > 0 {
        lemma_arg_pred(m, signal, i, t, m.s());
        let a = arg_pred(m, signal, i, t, m.s());
        lemma_best_finite(m, signal, a, t - 1);
    }
}

/// Strictly positive models decode to a finite log-probability.
pub proof fn lemma_finite_model_finite_score(m: Hmm, signal: Seq<int>)
    requires
        m.wf(),
        valid_signal(m, signal),
        signal.len() >= 1,
        forall|k: int| 0 <= k < m.s() ==> (#[trigger] m.init(k)) is Fin,
        forall|k: int, l: int|
            0 <= k < m.s() && 0 <= l < m.s() ==> (#[trigger] m.trans(k, l)) is Fin,
        forall|k: int, l: int|
            0 <= k < m.s() && 0 <= l < m.o() ==> (#[trigger] m.emis(k, l)) is Fin,
    ensures
        best_final(m, signal) is Fin,
{
    lemma_arg_final(m, signal, m.s());
    lemma_best_finite(m, signal, arg_final(m, signal, m.s()), signal.len() - 1);
}

/// Decoding is deterministic: the decoded score and path are functions of
/// the model and the signal alone, so any two results that meet the
/// decoder's contract on the same inputs are equal.
pub proof fn lemma_decode_deterministic(
    m: Hmm,
    signal: Seq<int>,
    a: (Score, Seq<int>),
    b: (Score, Seq<int>),
)
    requires
        a.0 == best_final(m, signal),
        a.1 == viterbi_path(m, signal),
        b.0 == best_final(m, signal),
        b.1 == viterbi_path(m, signal),
    ensures
        a == b,
{
}

/// The state at step `u` on the backpointer chain that starts in state `i`
/// at step `t`: the decoded path, read from the back.
pub open spec fn back_state(m: Hmm, signal: Seq<int>, i: int, t: int, u: int) -> int
    decreases t - u,
{
    if u >= t {
        i
    } else {
        arg_pred(m, signal, back_state(m, signal, i, t, u + 1), u + 1, m.s())
    }
}

/// Up to step `t - 1`, the backpointer chain from `(i, t)` coincides with
/// the chain from the chosen predecessor cell.
proof fn lemma_back_state_step(m: Hmm, signal: Seq<int>, i: int, t: int, u: int)
    requires
        0 <= u <= t - 1,
    ensures
        back_state(m, signal, i, t, u) == back_state(
            m,
            signal,
            arg_pred(m, signal, i, t, m.s()),
            t - 1,
            u,
        ),
    decreases t - u,
{
    let a = arg_pred(m, signal, i, t, m.s());
    if u == t - 1 {
        assert(back_state(m, signal, i, t, t) == i);
        assert(back_state(m, signal, i, t, t - 1) == arg_pred(m, signal, i, t, m.s()));
        assert(back_state(m, signal, a, t - 1, t - 1) == a);
    } else {
        lemma_back_state_step(m, signal, i, t, u + 1);
        assert(back_state(m, signal, i, t, u) == arg_pred(
            m,
            signal,
            back_state(m, signal, i, t, u + 1),
            u + 1,
            m.s(),
        ));
        assert(back_state(m, signal, a, t - 1, u) == arg_pred(
            m,
            signal,
            back_state(m, signal, a, t - 1, u + 1),
            u + 1,
            m.s(),
        ));
    }
}

/// Each entry of the reconstructed path is the corresponding state on the
/// backpointer chain.
pub proof fn lemma_opt_path_index(m: Hmm, signal: Seq<int>, i: int, t: int, u: int)
    requires
        0 <= u <= t,
    ensures
        opt_path(m, signal, i, t).len() == t + 1,
        opt_path(m, signal, i, t)[u] == back_state(m, signal, i, t, u),
    decreases t,
{
    if t > 0 {
        let a = arg_pred(m, signal, i, t, m.s());
        if u <= t - 1 {
            lemma_opt_path_index(m, signal, a, t - 1, u);
            lemma_back_state_step(m, signal, i, t, u);
        } else {
            lemma_opt_path_index(m, signal, a, t - 1, 0);
        }
    }
}

impl MapEstimate for Viterbi {
    /// The decoded score is the best final lattice score, and the decoded
    /// path is the backpointer reconstruction from the best final state.
    open spec fn decoded(hmm: Hmm, signal: Seq<int>, score: Score, path: Seq<int>) -> bool {
        &&& score == best_final(hmm, signal)
        &&& path == viterbi_path(hmm, signal)
    }

    fn map_estimate(hmm: &Hmm, signal: &Vec<usize>) -> (r: (Score, Vec<usize>)) {
        let s = hmm.n_states();
        let t_len = signal.len();
        let ghost sigv = index_view(signal@);

        // Lattice column for step 0.
        let mut prev: Vec<Score> = Vec::new();
        let mut i: usize = 0;
        while i < s
            invariant
                hmm.wf(),
                s == hmm.s(),
                t_len == signal@.len(),
                t_len >= 1,
                sigv == index_view(signal@),
                forall|t: int| 0 <= t < signal@.len() ==> #[trigger] signal@[t] < hmm.o(),
                i <= s,
                prev@.len() == i,
                forall|k: int| 0 <= k < i ==> #[trigger] prev@[k] == best(*hmm, sigv, k, 0),
            decreases s - i,
        {
            let e = hmm.pr_emission[i][signal[0]].log_pr;
            let sc = hmm.pr_initial[i].log_pr.add(e);
            proof {
                assert(sc == best(*hmm, sigv, i as int, 0));
            }
            prev.push(sc);
            i += 1;
        }

        // Later columns; `traces[j][i]` is the predecessor chosen for the
        // cell `(i, j)`. Step 0 has no predecessors.
        let mut traces: Vec<Vec<usize>> = Vec::new();
        let col0: Vec<usize> = Vec::new();
        traces.push(col0);
        let mut j: usize = 1;
        while j < t_len
            invariant
                hmm.wf(),
                s == hmm.s(),
                t_len == signal@.len(),
                t_len >= 1,
                sigv == index_view(signal@),
                forall|t: int| 0 <= t < signal@.len() ==> #[trigger] signal@[t] < hmm.o(),
                1 <= j <= t_len,
                prev@.len() == s,
                forall|k: int| 0 <= k < s ==> #[trigger] prev@[k] == best(*hmm, sigv, k, j - 1),
                traces@.len() == j,
                forall|jj: int| 1 <= jj < j ==> (#[trigger] traces@[jj])@.len() == s,
                forall|jj: int, k: int|
                    1 <= jj < j && 0 <= k < s ==> (#[trigger] traces@[jj]@[k]) as int == arg_pred(
                        *hmm,
                        sigv,
                        k,
                        jj,
                        s as int,
                    ),
            decreases t_len - j,
        {
            let mut cur: Vec<Score> = Vec::new();
            let mut tcol: Vec<usize> = Vec::new();
            let mut i: usize = 0;
            while i < s
                invariant
                    hmm.wf(),
                    s == hmm.s(),
                    t_len == signal@.len(),
                    sigv == index_view(signal@),
                    forall|t: int| 0 <= t < signal@.len() ==> #[trigger] signal@[t] < hmm.o(),
                    1 <= j < t_len,
                    prev@.len() == s,
                    forall|k: int| 0 <= k < s ==> #[trigger] prev@[k] == best(*hmm, sigv, k, j - 1),
                    i <= s,
                    cur@.len() == i,
                    tcol@.len() == i,
                    forall|k: int| 0 <= k < i ==> #[trigger] cur@[k] == best(*hmm, sigv, k, j as int),
                    forall|k: int|
                        0 <= k < i ==> (#[trigger] tcol@[k]) as int == arg_pred(
                            *hmm,
                            sigv,
                            k,
                            j as int,
                            s as int,
                        ),
                decreases s - i,
            {
                let mut best_k: usize = 0;
                let mut best_p: Score = prev[0].add(hmm.pr_transition[0][i].log_pr);
                proof {
                    assert(best_p == cand(*hmm, sigv, i as int, j as int, 0));
                }
                let mut k: usize = 1;
                while k < s
                    invariant
                        hmm.wf(),
                        s == hmm.s(),
                        t_len == signal@.len(),
                        sigv == index_view(signal@),
                        1 <= j < t_len,
                        i < s,
                        prev@.len() == s,
                        forall|kk: int|
                            0 <= kk < s ==> #[trigger] prev@[kk] == best(*hmm, sigv, kk, j - 1),
                        1 <= k <= s,
                        best_k < k,
                        best_k as int == arg_pred(*hmm, sigv, i as int, j as int, k as int),
                        best_p == cand(*hmm, sigv, i as int, j as int, best_k as int),
                    decreases s - k,
                {
                    let c = prev[k].add(hmm.pr_transition[k][i].log_pr);
                    proof {
                        assert(c == cand(*hmm, sigv, i as int, j as int, k as int));
                    }
                    if best_p.lt(c) {
                        best_p = c;
                        best_k = k;
                    }
                    k += 1;
                }
                let e = hmm.pr_emission[i][signal[j]].log_pr;
                let b = best_p.add(e);
                proof {
                    assert(b == best(*hmm, sigv, i as int, j as int));
                }
                cur.push(b);
                tcol.push(best_k);
                i += 1;
            }
            traces.push(tcol);
            prev = cur;
            j += 1;
        }

        // The best final cell, scanned with the earliest-index tie-break.
        let mut k_star: usize = 0;
        let mut p_star: Score = prev[0];
        let mut i2: usize = 1;
        while i2 < s
            invariant
                hmm.wf(),
                s == hmm.s(),
                t_len == signal@.len(),
                t_len >= 1,
                sigv == index_view(signal@),
                prev@.len() == s,
                forall|k: int| 0 <= k < s ==> #[trigger] prev@[k] == best(*hmm, sigv, k, t_len - 1),
                1 <= i2 <= s,
                k_star < i2,
                k_star as int == arg_final(*hmm, sigv, i2 as int),
                p_star == best(*hmm, sigv, k_star as int, t_len - 1),
            decreases s - i2,
        {
            let c = prev[i2];
            if p_star.lt(c) {
                p_star = c;
                k_star = i2;
            }
            i2 += 1;
        }
        proof {
            assert(k_star as int == arg_final(*hmm, sigv, s as int));
            assert(p_star == best_final(*hmm, sigv));
        }

        // Walk the backpointers from the best final cell; `rev` collects the
        // path from its last state to its first.
        let mut rev: Vec<usize> = Vec::new();
        rev.push(k_star);
        let mut cur_state: usize = k_star;
        let mut t = t_len - 1;
        while t >= 1
            invariant
                hmm.wf(),
                s == hmm.s(),
                t_len == signal@.len(),
                t_len >= 1,
                sigv == index_view(signal@),
                traces@.len() == t_len,
                forall|jj: int| 1 <= jj < t_len ==> (#[trigger] traces@[jj])@.len() == s,
                forall|jj: int, k: int|
                    1 <= jj < t_len && 0 <= k < s ==> (#[trigger] traces@[jj]@[k]) as int == arg_pred(
                        *hmm,
                        sigv,
                        k,
                        jj,
                        s as int,
                    ),
                t <= t_len - 1,
                k_star < s,
                cur_state < s,
                cur_state as int == back_state(*hmm, sigv, k_star as int, t_len - 1, t as int),
                rev@.len() == t_len - t,
                forall|u: int|
                    0 <= u < rev@.len() ==> (#[trigger] rev@[u]) as int == back_state(
                        *hmm,
                        sigv,
                        k_star as int,
                        t_len - 1,
                        t_len - 1 - u,
                    ),
                forall|u: int| 0 <= u < rev@.len() ==> #[trigger] rev@[u] < s,
            decreases t,
        {
            let pred = traces[t][cur_state];
            proof {
                assert(pred as int == arg_pred(*hmm, sigv, cur_state as int, t as int, s as int));
                lemma_arg_pred(*hmm, sigv, cur_state as int, t as int, s as int);
                assert(back_state(*hmm, sigv, k_star as int, t_len - 1, t - 1) == pred as int);
            }
            rev.push(pred);
            cur_state = pred;
            t -= 1;
        }

        // Reverse into forward time order.
        let mut path: Vec<usize> = Vec::new();
        let mut u = t_len;
        while u > 0
            invariant
                t_len >= 1,
                rev@.len() == t_len,
                forall|w: int|
                    0 <= w < rev@.len() ==> (#[trigger] rev@[w]) as int == back_state(
                        *hmm,
                        sigv,
                        k_star as int,
                        t_len - 1,
                        t_len - 1 - w,
                    ),
                forall|w: int| 0 <= w < rev@.len() ==> #[trigger] rev@[w] < s,
                u <= t_len,
                path@.len() == t_len - u,
                forall|w: int| 0 <= w < path@.len() ==> #[trigger] path@[w] == rev@[t_len - 1 - w],
            decreases u,
        {
            u -= 1;
            path.push(rev[u]);
        }

        proof {
            let m = *hmm;
            let kf = arg_final(m, sigv, m.s());
            assert(k_star as int == kf);
            assert forall|w: int| 0 <= w < t_len implies viterbi_path(m, sigv)[w] == path@[w] as int by {
                lemma_opt_path_index(m, sigv, kf, t_len - 1, w);
                assert(path@[w] == rev@[t_len - 1 - w]);
                assert(rev@[t_len - 1 - w] as int == back_state(m, sigv, kf, t_len - 1, w));
            };
            lemma_opt_path_index(m, sigv, kf, t_len - 1, 0);
            assert(index_view(path@) =~= viterbi_path(m, sigv));
        }
        (p_star, path)
    }
}

} // verus!

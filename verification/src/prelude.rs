//! Trait contracts: the enumerable-index adapters that tie a symbol
//! alphabet to the index range `[0, COUNT)`, and the decoding-strategy
//! abstraction.

use vstd::prelude::*;

use crate::hmm::index_view;
use crate::hmm::valid_path;
use crate::hmm::Hmm;
use crate::score::Score;

verus! {

/// A finite state alphabet: `count()` distinct symbols, each tied to an
/// index in `[0, count())`. Mapping an index to its symbol and back is the
/// identity, so the decoder can work over indices alone.
pub trait State: Sized {
    /// The symbol's index, as a mathematical integer. Verified
    /// implementations override this; left alone it stays unspecified.
    open spec fn index_spec(&self) -> int {
        arbitrary()
    }

    /// The alphabet's cardinality, as a mathematical integer. Verified
    /// implementations override this; left alone it stays unspecified.
    open spec fn count_spec() -> int {
        arbitrary()
    }

    /// The fixed, positive number of symbols in the alphabet.
    fn count() -> (r: usize)
        ensures
            r == Self::count_spec(),
            r >= 1,
    ;

    /// The symbol's index in `[0, count())`.
    fn as_usize(&self) -> (r: usize)
        ensures
            r == self.index_spec(),
            0 <= r < Self::count_spec(),
    ;

    /// The unique symbol with the given index; converting the result back
    /// with [`State::as_usize`] yields `value` again.
    fn from_usize(value: usize) -> (r: Self)
        requires
            value < Self::count_spec(),
        ensures
            r.index_spec() == value,
    ;

    /// The symbol's index, narrowed to a byte.
    fn as_u8(&self) -> (r: u8)
        requires
            Self::count_spec() <= 256,
        ensures
            r == self.index_spec(),
    ;

    /// The unique symbol with the given byte index.
    fn from_u8(value: u8) -> (r: Self)
        requires
            value < Self::count_spec(),
        ensures
            r.index_spec() == value,
    ;
}

/// A finite observation alphabet, with the same index contract as
/// [`State`].
pub trait Observation: Sized {
    /// The symbol's index, as a mathematical integer. Verified
    /// implementations override this; left alone it stays unspecified.
    open spec fn index_spec(&self) -> int {
        arbitrary()
    }

    /// The alphabet's cardinality, as a mathematical integer. Verified
    /// implementations override this; left alone it stays unspecified.
    open spec fn count_spec() -> int {
        arbitrary()
    }

    /// The fixed, positive number of symbols in the alphabet.
    fn count() -> (r: usize)
        ensures
            r == Self::count_spec(),
            r >= 1,
    ;

    /// The symbol's index in `[0, count())`.
    fn as_usize(&self) -> (r: usize)
        ensures
            r == self.index_spec(),
            0 <= r < Self::count_spec(),
    ;

    /// The unique symbol with the given index; converting the result back
    /// with [`Observation::as_usize`] yields `value` again.
    fn from_usize(value: usize) -> (r: Self)
        requires
            value < Self::count_spec(),
        ensures
            r.index_spec() == value,
    ;

    /// The symbol's index, narrowed to a byte.
    fn as_u8(&self) -> (r: u8)
        requires
            Self::count_spec() <= 256,
        ensures
            r == self.index_spec(),
    ;

    /// The unique symbol with the given byte index.
    fn from_u8(value: u8) -> (r: Self)
        requires
            value < Self::count_spec(),
        ensures
            r.index_spec() == value,
    ;
}

/// Round-trip law for state alphabets: converting a valid index to its
/// symbol and back yields the index again.
pub fn state_round_trip<S: State>(value: usize) -> (r: usize)
    requires
        value < S::count_spec(),
    ensures
        r == value,
{
    S::from_usize(value).as_usize()
}

/// Round-trip law for observation alphabets: converting a valid index to
/// its symbol and back yields the index again.
pub fn observation_round_trip<O: Observation>(value: usize) -> (r: usize)
    requires
        value < O::count_spec(),
    ensures
        r == value,
{
    O::from_usize(value).as_usize()
}

/// The indices of a sequence of observation symbols.
pub open spec fn obs_indices<O: Observation>(s: Seq<O>) -> Seq<int> {
    Seq::new(s.len(), |t: int| s[t].index_spec())
}

/// The indices of a sequence of state symbols.
pub open spec fn state_indices<S: State>(s: Seq<S>) -> Seq<int> {
    Seq::new(s.len(), |t: int| s[t].index_spec())
}

/// A decoding strategy: an algorithm that maps a model and a non-empty
/// signal of observation indices to a log-probability and a state path of
/// the signal's length. Each strategy states what it promises of its result
/// in its own `decoded` relation.
pub trait MapEstimate {
    /// What the strategy promises of its result, over the model and the
    /// signal and path as integer sequences.
    spec fn decoded(hmm: Hmm, signal: Seq<int>, score: Score, path: Seq<int>) -> bool;

    /// Decodes the signal against the model into the estimated
    /// log-probability and state path.
    fn map_estimate(hmm: &Hmm, signal: &Vec<usize>) -> (r: (Score, Vec<usize>))
        requires
            hmm.wf(),
            signal@.len() >= 1,
            forall|t: int| 0 <= t < signal@.len() ==> #[trigger] signal@[t] < hmm.o(),
        ensures
            r.1@.len() == signal@.len(),
            valid_path(*hmm, index_view(r.1@)),
            Self::decoded(*hmm, index_view(signal@), r.0, index_view(r.1@)),
    ;
}

} // verus!

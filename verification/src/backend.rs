//! What the allocation table asks of a solver backend.

use vstd::prelude::*;

verus! {

/// A handle on a solver context, as a solver backend provides it. `BV` is
/// the backend's type of symbolic bit-vectors.
///
/// A backend implements this trait for its own handle: what
/// [`matching`](SolverRef::matching) is for a given handle is the
/// backend's to say. Nothing holds an implementation to the contract of
/// [`match_bv`](SolverRef::match_bv) but the backend's author: a backend
/// that is not verified writes `matching` as the function that its
/// `match_bv` computes.
pub trait SolverRef<BV> {
    /// The bit-vector of this handle's context that corresponds to `bv`, a
    /// bit-vector of the context that this one was duplicated from; `None`
    /// where this context holds no such bit-vector.
    spec fn matching(&self, bv: BV) -> Option<BV>;

    /// Finds the bit-vector of this handle's context that corresponds to
    /// `bv`.
    fn match_bv(&self, bv: &BV) -> (found: Option<BV>)
        ensures
            found == self.matching(*bv),
    ;
}

} // verus!

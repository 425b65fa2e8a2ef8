//! Eligibility tokens: proof that a signer may vote in a view, and with what
//! weight.

use vstd::prelude::*;

verus! {

/// What the accumulator asks of an eligibility token: its voting weight.
/// Everything else about a token is the election's business.
///
/// The weight is stated twice, once for contracts and once for running code.
/// An implementation gives the same number in both places.
pub trait VoteToken {
    /// The stake that a vote cast with this token contributes.
    spec fn weight(&self) -> u64;

    /// The stake that a vote cast with this token contributes.
    fn vote_count(&self) -> (count: u64)
        ensures
            count == self.weight(),
    ;
}

} // verus!

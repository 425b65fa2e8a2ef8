//! The threshold signature scheme, as far as the accumulator uses it.
//!
//! The accumulator neither signs nor checks signatures: votes reach it already
//! authenticated. It asks the scheme for two things only, to read a signature
//! share from its wire form and to aggregate the shares it has collected. What
//! either call answers is the scheme's business, and nothing in this crate
//! rests on it: every contract here holds whatever the scheme returns.

use crate::bitmask::SignerBitmask;
use crate::data::{EncodedSignature, StakeTableEntry};
use vstd::prelude::*;

verus! {

/// A threshold signature scheme whose shares can be aggregated over a bitmask
/// of signers.
pub trait SignatureScheme {
    /// A signature share in the scheme's own representation.
    type Share;

    /// An aggregated signature.
    type Aggregate;

    /// Reads a share from its wire form, or gives `None` where the bytes are
    /// not a share.
    fn decode_share(encoded: &EncodedSignature) -> Option<Self::Share>;

    /// Aggregates `shares`, given in the order in which they arrived, into one
    /// signature for the signers marked in `signers`. `entries` is the round's
    /// whole stake table and `threshold` the stake that a certificate needs.
    /// The answer is `None` where the scheme cannot produce a valid aggregate.
    fn aggregate(
        entries: &Vec<StakeTableEntry>,
        threshold: u64,
        signers: &SignerBitmask,
        shares: &Vec<Self::Share>,
    ) -> Option<Self::Aggregate>;
}

} // verus!

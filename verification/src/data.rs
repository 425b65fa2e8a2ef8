//! The plain values that votes are made of.

use vstd::prelude::*;

verus! {

/// A 32-byte content hash naming what a vote is about: a block payload, a
/// proposed leaf or a view-sync target.
#[derive(Clone, Copy, Debug, PartialEq, Eq, Hash)]
pub struct Commitment {
    /// The hash itself.
    pub bytes: [u8; 32],
}

impl View for Commitment {
    type V = Seq<u8>;

    open spec fn view(&self) -> Seq<u8> {
        self.bytes@
    }
}

impl Commitment {
    /// The commitment made of exactly these bytes.
    pub fn from_raw(bytes: [u8; 32]) -> (commitment: Commitment)
        ensures
            commitment.bytes == bytes,
    {
        Commitment { bytes }
    }

    /// Whether both commitments hold the same hash.
    pub fn matches(&self, other: &Commitment) -> (same: bool)
        ensures
            same <==> self@ == other@,
    {
        let mut i: usize = 0;
        while i < 32
            invariant
                i <= 32,
                forall|j: int| 0 <= j < i ==> self.bytes@[j] == other.bytes@[j],
            decreases 32 - i,
        {
            if self.bytes[i] != other.bytes[i] {
                return false;
            }
            i += 1;
        }
        assert(self.bytes@ =~= other.bytes@);
        true
    }
}

/// A signer's public key in its wire encoding.
#[derive(Clone, Debug, PartialEq, Eq, PartialOrd, Ord, Hash)]
pub struct EncodedPublicKey(pub Vec<u8>);

impl View for EncodedPublicKey {
    type V = Seq<u8>;

    open spec fn view(&self) -> Seq<u8> {
        self.0@
    }
}

/// A signature share in its wire encoding.
#[derive(Clone, Debug, PartialEq, Eq, Hash)]
pub struct EncodedSignature(pub Vec<u8>);

impl View for EncodedSignature {
    type V = Seq<u8>;

    open spec fn view(&self) -> Seq<u8> {
        self.0@
    }
}

/// A copy of `bytes`.
pub fn copy_bytes(bytes: &Vec<u8>) -> (copy: Vec<u8>)
    ensures
        copy@ == bytes@,
{
    let mut copy: Vec<u8> = Vec::new();
    let mut i: usize = 0;
    while i < bytes.len()
        invariant
            i <= bytes@.len(),
            copy@ == bytes@.take(i as int),
        decreases bytes@.len() - i,
    {
        copy.push(bytes[i]);
        assert(bytes@.take(i + 1) =~= bytes@.take(i as int).push(bytes@[i as int]));
        i += 1;
    }
    assert(bytes@.take(i as int) =~= bytes@);
    copy
}

/// The number of a view, the protocol's unit of time.
#[derive(Clone, Copy, Debug, PartialEq, Eq, PartialOrd, Ord, Hash, Structural)]
pub struct ViewNumber(pub u64);

/// One line of a round's stake table: a verification key and the stake behind
/// it. The accumulator hands these on to the aggregation and reads neither.
#[derive(Clone, Debug, PartialEq, Eq, Hash)]
pub struct StakeTableEntry {
    /// The verification key in its wire encoding.
    pub stake_key: Vec<u8>,
    /// The stake as a 256-bit number, least significant limb first.
    pub stake_amount: [u64; 4],
}

/// The stage of view synchronisation that a view-sync vote belongs to.
#[derive(Clone, Copy, Debug, PartialEq, Eq, Hash, Structural)]
pub enum ViewSyncPhase {
    /// The first round of votes.
    PreCommit,
    /// The second round of votes.
    Commit,
    /// The closing round of votes.
    Finalize,
}

/// What a vote says, and about what. A vote has exactly one category.
#[derive(Clone, Copy, Debug, PartialEq, Eq, Hash)]
pub enum VoteData {
    /// The data of this block is available.
    DA(Commitment),
    /// This leaf is accepted.
    Yes(Commitment),
    /// This leaf is refused.
    No(Commitment),
    /// This view has timed out.
    Timeout(ViewNumber),
    /// The network should move to this view-sync target.
    ViewSync(ViewSyncPhase, Commitment),
}

impl VoteData {
    /// Whether votes of this category are tallied: only the three categories
    /// that can be certified are.
    pub open spec fn is_tallied(self) -> bool {
        self is DA || self is Yes || self is No
    }

    /// Whether votes of this category are tallied.
    pub fn tallied(&self) -> (tallied: bool)
        ensures
            tallied == self.is_tallied(),
    {
        match self {
            VoteData::DA(_) => true,
            VoteData::Yes(_) => true,
            VoteData::No(_) => true,
            VoteData::Timeout(_) => false,
            VoteData::ViewSync(_, _) => false,
        }
    }
}

} // verus!

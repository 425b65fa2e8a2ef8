//! The votes that nodes send each other.
//!
//! A vote is a value: it is built from its parts without any check, and never
//! changes. Whether its signature is authentic is settled before it reaches
//! an accumulator.

use crate::certificate::QuorumCertificate;
use crate::data::{
    Commitment, EncodedPublicKey, EncodedSignature, StakeTableEntry, ViewNumber, VoteData,
};
use vstd::prelude::*;

verus! {

/// What every kind of vote can tell: the view it was cast for.
pub trait VoteType {
    /// The view this vote was cast for.
    spec fn view_number(&self) -> ViewNumber;

    /// The view this vote was cast for.
    fn current_view(&self) -> (view: ViewNumber)
        ensures
            view == self.view_number(),
    ;
}

/// What a signer puts under a vote.
#[derive(Clone, Debug, PartialEq, Eq, Hash)]
pub struct VoteSignature {
    /// The signer's public key in its wire encoding.
    pub key: EncodedPublicKey,
    /// The signature share in its wire encoding.
    pub signature: EncodedSignature,
    /// The signer's line of the stake table, which holds the key that the
    /// aggregation needs.
    pub entry: StakeTableEntry,
}

/// A vote on the availability of a block's data.
#[derive(Clone, Debug, PartialEq)]
pub struct DAVote<TOKEN> {
    /// The commitment of the certificate that justifies the proposal.
    pub justify_qc_commitment: Commitment,
    /// The signer's key, signature share and line of the stake table.
    pub signature: VoteSignature,
    /// The block voted on.
    pub block_commitment: Commitment,
    /// The view this vote was cast for.
    pub current_view: ViewNumber,
    /// The token that entitles the signer to the vote.
    pub vote_token: TOKEN,
    /// What the signature is over.
    pub vote_data: VoteData,
}

/// A vote for or against a proposed leaf.
#[derive(Clone, Debug, PartialEq)]
pub struct YesOrNoVote<TOKEN> {
    /// The commitment of the certificate that justifies the proposal.
    pub justify_qc_commitment: Commitment,
    /// The signer's key, signature share and line of the stake table.
    pub signature: VoteSignature,
    /// The leaf voted on.
    pub leaf_commitment: Commitment,
    /// The view this vote was cast for.
    pub current_view: ViewNumber,
    /// The token that entitles the signer to the vote.
    pub vote_token: TOKEN,
    /// What the signature is over.
    pub vote_data: VoteData,
}

/// A vote to give up on a view.
#[derive(Clone, Debug, PartialEq)]
pub struct TimeoutVote<TOKEN, AGG> {
    /// The certificate that justifies the view.
    pub justify_qc: QuorumCertificate<AGG>,
    /// The signer's key, signature share and line of the stake table.
    pub signature: VoteSignature,
    /// The view this vote was cast for.
    pub current_view: ViewNumber,
    /// The token that entitles the signer to the vote.
    pub vote_token: TOKEN,
    /// What the signature is over.
    pub vote_data: VoteData,
}

/// What the three kinds of view-sync vote hold.
#[derive(Clone, Debug, PartialEq)]
pub struct ViewSyncVoteInternal<TOKEN> {
    /// The relay this vote is meant for.
    pub relay: EncodedPublicKey,
    /// The view to synchronise on.
    pub round: ViewNumber,
    /// The signer's key, signature share and line of the stake table.
    pub signature: VoteSignature,
    /// The token that entitles the signer to the vote.
    pub vote_token: TOKEN,
    /// What the signature is over.
    pub vote_data: VoteData,
}

/// What a view-sync vote is signed over.
#[derive(Clone, Debug, PartialEq, Eq, Hash)]
pub struct ViewSyncData {
    /// The relay the vote is meant for.
    pub relay: EncodedPublicKey,
    /// The view to synchronise on.
    pub round: ViewNumber,
}

/// A vote to synchronise the network on one view.
#[derive(Clone, Debug, PartialEq)]
pub enum ViewSyncVote<TOKEN> {
    /// A vote of the first round.
    PreCommit(ViewSyncVoteInternal<TOKEN>),
    /// A vote of the second round.
    Commit(ViewSyncVoteInternal<TOKEN>),
    /// A vote of the closing round.
    Finalize(ViewSyncVoteInternal<TOKEN>),
}

/// A vote on a proposed leaf.
#[derive(Clone, Debug, PartialEq)]
pub enum QuorumVote<TOKEN, AGG> {
    /// The leaf is accepted.
    Yes(YesOrNoVote<TOKEN>),
    /// The leaf is refused.
    No(YesOrNoVote<TOKEN>),
    /// The view has timed out.
    Timeout(TimeoutVote<TOKEN, AGG>),
}

impl<TOKEN> VoteType for DAVote<TOKEN> {
    open spec fn view_number(&self) -> ViewNumber {
        self.current_view
    }

    fn current_view(&self) -> (view: ViewNumber) {
        self.current_view
    }
}

impl<TOKEN, AGG> VoteType for QuorumVote<TOKEN, AGG> {
    open spec fn view_number(&self) -> ViewNumber {
        match self {
            QuorumVote::Yes(vote) => vote.current_view,
            QuorumVote::No(vote) => vote.current_view,
            QuorumVote::Timeout(vote) => vote.current_view,
        }
    }

    fn current_view(&self) -> (view: ViewNumber) {
        match self {
            QuorumVote::Yes(vote) => vote.current_view,
            QuorumVote::No(vote) => vote.current_view,
            QuorumVote::Timeout(vote) => vote.current_view,
        }
    }
}

impl<TOKEN> VoteType for ViewSyncVote<TOKEN> {
    open spec fn view_number(&self) -> ViewNumber {
        match self {
            ViewSyncVote::PreCommit(vote) => vote.round,
            ViewSyncVote::Commit(vote) => vote.round,
            ViewSyncVote::Finalize(vote) => vote.round,
        }
    }

    fn current_view(&self) -> (view: ViewNumber) {
        match self {
            ViewSyncVote::PreCommit(vote) => vote.round,
            ViewSyncVote::Commit(vote) => vote.round,
            ViewSyncVote::Finalize(vote) => vote.round,
        }
    }
}

} // verus!

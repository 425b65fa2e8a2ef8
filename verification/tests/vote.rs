use vote_accumulator::certificate::{CertificateKind, QuorumCertificate};
use vote_accumulator::data::{
    Commitment, EncodedPublicKey, EncodedSignature, StakeTableEntry, ViewNumber, ViewSyncPhase,
    VoteData,
};
use vote_accumulator::vote::{
    DAVote, QuorumVote, TimeoutVote, ViewSyncData, ViewSyncVote, ViewSyncVoteInternal, VoteSignature,
    VoteType, YesOrNoVote,
};

fn signature() -> VoteSignature {
    VoteSignature {
        key: EncodedPublicKey(vec![1, 2]),
        signature: EncodedSignature(vec![3, 4]),
        entry: StakeTableEntry { stake_key: vec![1, 2], stake_amount: [1, 0, 0, 0] },
    }
}

fn subject() -> Commitment {
    Commitment::from_raw([9u8; 32])
}

fn yes_or_no(view: u64, data: VoteData) -> YesOrNoVote<u64> {
    YesOrNoVote {
        justify_qc_commitment: Commitment::from_raw([0u8; 32]),
        signature: signature(),
        leaf_commitment: subject(),
        current_view: ViewNumber(view),
        vote_token: 1,
        vote_data: data,
    }
}

fn sync(round: u64) -> ViewSyncVoteInternal<u64> {
    ViewSyncVoteInternal {
        relay: EncodedPublicKey(vec![7]),
        round: ViewNumber(round),
        signature: signature(),
        vote_token: 1,
        vote_data: VoteData::ViewSync(ViewSyncPhase::PreCommit, subject()),
    }
}

#[test]
fn da_vote_tells_its_view() {
    let vote: DAVote<u64> = DAVote {
        justify_qc_commitment: Commitment::from_raw([0u8; 32]),
        signature: signature(),
        block_commitment: subject(),
        current_view: ViewNumber(12),
        vote_token: 1,
        vote_data: VoteData::DA(subject()),
    };
    assert_eq!(vote.current_view(), ViewNumber(12));
    assert_eq!(vote.clone(), vote);
}

#[test]
fn quorum_vote_tells_the_view_of_the_vote_inside() {
    let yes: QuorumVote<u64, u8> = QuorumVote::Yes(yes_or_no(3, VoteData::Yes(subject())));
    let no: QuorumVote<u64, u8> = QuorumVote::No(yes_or_no(4, VoteData::No(subject())));
    let timeout: QuorumVote<u64, u8> = QuorumVote::Timeout(TimeoutVote {
        justify_qc: QuorumCertificate::new(CertificateKind::Yes, 42u8),
        signature: signature(),
        current_view: ViewNumber(5),
        vote_token: 1,
        vote_data: VoteData::Timeout(ViewNumber(5)),
    });
    assert_eq!(yes.current_view(), ViewNumber(3));
    assert_eq!(no.current_view(), ViewNumber(4));
    assert_eq!(timeout.current_view(), ViewNumber(5));
    assert_ne!(yes, no);
}

#[test]
fn view_sync_vote_tells_its_round() {
    let pre: ViewSyncVote<u64> = ViewSyncVote::PreCommit(sync(1));
    let commit: ViewSyncVote<u64> = ViewSyncVote::Commit(sync(2));
    let finalize: ViewSyncVote<u64> = ViewSyncVote::Finalize(sync(3));
    assert_eq!(pre.current_view(), ViewNumber(1));
    assert_eq!(commit.current_view(), ViewNumber(2));
    assert_eq!(finalize.current_view(), ViewNumber(3));
}

#[test]
fn votes_are_equal_when_their_parts_are() {
    assert_eq!(yes_or_no(3, VoteData::Yes(subject())), yes_or_no(3, VoteData::Yes(subject())));
    assert_ne!(yes_or_no(3, VoteData::Yes(subject())), yes_or_no(4, VoteData::Yes(subject())));
    assert_ne!(yes_or_no(3, VoteData::Yes(subject())), yes_or_no(3, VoteData::No(subject())));
    let data = ViewSyncData { relay: EncodedPublicKey(vec![7]), round: ViewNumber(2) };
    assert_eq!(data.clone(), data);
}

#[test]
fn certificate_keeps_what_it_was_built_from() {
    let certificate = QuorumCertificate::new(CertificateKind::DA, vec![1u8, 2, 3]);
    assert_eq!(certificate.kind(), CertificateKind::DA);
    assert_eq!(certificate.aggregated_signature(), &vec![1u8, 2, 3]);
    assert_eq!(certificate.into_aggregated_signature(), vec![1u8, 2, 3]);
}

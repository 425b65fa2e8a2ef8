use vote_accumulator::accumulator::{
    Accumulator, AccumulatorError, Ballot, Progress, Rejection, VoteAccumulator,
};
use vote_accumulator::bitmask::SignerBitmask;
use vote_accumulator::certificate::{CertificateKind, QuorumCertificate};
use vote_accumulator::data::{
    Commitment, EncodedPublicKey, EncodedSignature, StakeTableEntry, ViewNumber, ViewSyncPhase,
    VoteData,
};
use vote_accumulator::scheme::SignatureScheme;
use vote_accumulator::token::VoteToken;

#[derive(Clone, Debug, PartialEq)]
struct Stake(u64);

impl VoteToken for Stake {
    fn weight(&self) -> u64 {
        self.0
    }

    fn vote_count(&self) -> u64 {
        self.0
    }
}

/// What the stand-in scheme makes of a round: the sum of the shares, and what
/// it was given besides them.
#[derive(Clone, Debug, PartialEq)]
struct Sum {
    total: u64,
    signers: Vec<bool>,
    threshold: u64,
    table_size: usize,
}

/// A stand-in for a signature scheme. A share is one byte. Shares are
/// aggregated by adding them up, which does not depend on their order. The
/// aggregation fails where the number of shares is not the number of signers
/// marked.
struct Adding;

impl SignatureScheme for Adding {
    type Share = u8;
    type Aggregate = Sum;

    fn decode_share(encoded: &EncodedSignature) -> Option<u8> {
        if encoded.0.len() == 1 {
            Some(encoded.0[0])
        } else {
            None
        }
    }

    fn aggregate(
        entries: &Vec<StakeTableEntry>,
        threshold: u64,
        signers: &SignerBitmask,
        shares: &Vec<u8>,
    ) -> Option<Sum> {
        if signers.count_ones() != shares.len() {
            return None;
        }
        let mut total: u64 = 0;
        for share in shares {
            total += u64::from(*share);
        }
        Some(Sum { total, signers: signers.to_vec(), threshold, table_size: entries.len() })
    }
}

type Acc = VoteAccumulator<Stake, Adding>;

fn h1() -> Commitment {
    Commitment::from_raw([1u8; 32])
}

fn h2() -> Commitment {
    Commitment::from_raw([2u8; 32])
}

fn key_of(signer: usize) -> EncodedPublicKey {
    EncodedPublicKey(vec![0xA0, signer as u8])
}

fn table() -> Vec<StakeTableEntry> {
    let mut entries = Vec::new();
    for signer in 0..4u8 {
        entries.push(StakeTableEntry { stake_key: vec![0xA0, signer], stake_amount: [1, 0, 0, 0] });
    }
    entries
}

fn ballot(subject: Commitment, signer: usize, share: Vec<u8>, data: VoteData, weight: u64) -> Ballot<Stake> {
    Ballot {
        commitment: subject,
        key: key_of(signer),
        signature: EncodedSignature(share),
        entry: StakeTableEntry { stake_key: vec![0xA0, signer as u8], stake_amount: [1, 0, 0, 0] },
        entries: table(),
        node_id: signer,
        vote_data: data,
        token: Stake(weight),
    }
}

fn yes(signer: usize) -> Ballot<Stake> {
    ballot(h1(), signer, vec![10 + signer as u8], VoteData::Yes(h1()), 1)
}

fn no(signer: usize) -> Ballot<Stake> {
    ballot(h1(), signer, vec![10 + signer as u8], VoteData::No(h1()), 1)
}

fn da(signer: usize) -> Ballot<Stake> {
    ballot(h1(), signer, vec![10 + signer as u8], VoteData::DA(h1()), 1)
}

fn fresh() -> Acc {
    match Acc::new(3, 2, 4) {
        Some(acc) => acc,
        None => panic!("thresholds 3 and 2 over 4 signers make an accumulator"),
    }
}

fn collecting(result: Result<Progress<Acc, QuorumCertificate<Sum>>, Rejection<Acc>>) -> Acc {
    match result {
        Ok(Progress::Collecting(acc)) => acc,
        Ok(Progress::Certified(_)) => panic!("certified too early"),
        Err(rejection) => panic!("rejected: {:?}", rejection.error),
    }
}

fn certified(
    result: Result<Progress<Acc, QuorumCertificate<Sum>>, Rejection<Acc>>,
) -> QuorumCertificate<Sum> {
    match result {
        Ok(Progress::Certified(certificate)) => certificate,
        Ok(Progress::Collecting(_)) => panic!("still collecting"),
        Err(rejection) => panic!("rejected: {:?}", rejection.error),
    }
}

fn rejected(
    result: Result<Progress<Acc, QuorumCertificate<Sum>>, Rejection<Acc>>,
) -> (Acc, AccumulatorError) {
    match result {
        Ok(_) => panic!("the call should have failed"),
        Err(rejection) => (rejection.accumulator, rejection.error),
    }
}

#[test]
fn three_yes_votes_certify_yes() {
    let acc = fresh();
    let acc = collecting(acc.append(yes(0)));
    let acc = collecting(acc.append(yes(1)));
    let certificate = certified(acc.append(yes(2)));
    assert_eq!(certificate.kind(), CertificateKind::Yes);
    let sum = certificate.into_aggregated_signature();
    assert_eq!(sum.total, 10 + 11 + 12);
    assert_eq!(sum.signers, vec![true, true, true, false]);
    assert_eq!(sum.threshold, 3);
    assert_eq!(sum.table_size, 4);
}

#[test]
fn split_votes_certify_no_on_the_fourth() {
    let acc = fresh();
    let acc = collecting(acc.append(yes(0)));
    let acc = collecting(acc.append(yes(1)));
    let acc = collecting(acc.append(no(2)));
    assert_eq!(acc.total_vote_outcomes().stake(&h1()), 3);
    assert_eq!(acc.yes_vote_outcomes().stake(&h1()), 2);
    assert_eq!(acc.no_vote_outcomes().stake(&h1()), 1);
    assert!(acc.quorum_reached(&h1()));
    let certificate = certified(acc.append(no(3)));
    assert_eq!(certificate.kind(), CertificateKind::No);
    assert_eq!(certificate.aggregated_signature().total, 10 + 11 + 12 + 13);
    assert_eq!(certificate.aggregated_signature().signers, vec![true, true, true, true]);
}

#[test]
fn malformed_share_is_reported_and_changes_nothing() {
    let acc = fresh();
    let acc = collecting(acc.append(yes(0)));
    let broken = ballot(h1(), 1, vec![1, 2, 3], VoteData::Yes(h1()), 1);
    let (acc, error) = rejected(acc.append(broken));
    assert_eq!(error, AccumulatorError::MalformedShare);
    assert_eq!(acc.total_vote_outcomes().stake(&h1()), 1);
    assert_eq!(acc.yes_vote_outcomes().stake(&h1()), 1);
    assert_eq!(acc.no_vote_outcomes().stake(&h1()), 0);
    assert_eq!(acc.da_vote_outcomes().stake(&h1()), 0);
    assert_eq!(acc.sig_lists(), &vec![10u8]);
    assert_eq!(acc.signers().to_vec(), vec![true, false, false, false]);
    assert!(acc.total_vote_outcomes().get(&h1()).unwrap().votes.get(&key_of(1)).is_none());

    let empty = ballot(h1(), 1, vec![], VoteData::Yes(h1()), 1);
    let (acc, error) = rejected(acc.append(empty));
    assert_eq!(error, AccumulatorError::MalformedShare);
    assert_eq!(acc.total_vote_outcomes().stake(&h1()), 1);
}

#[test]
fn second_vote_of_a_signer_counts_again_and_replaces_the_first() {
    let acc = match Acc::new(10, 10, 4) {
        Some(acc) => acc,
        None => panic!("no accumulator"),
    };
    let first = ballot(h1(), 0, vec![7], VoteData::Yes(h1()), 1);
    let second = ballot(h1(), 0, vec![9], VoteData::Yes(h1()), 1);
    let acc = collecting(acc.append(first));
    let acc = collecting(acc.append(second));
    assert_eq!(acc.total_vote_outcomes().stake(&h1()), 2);
    assert_eq!(acc.yes_vote_outcomes().stake(&h1()), 2);
    let total = acc.total_vote_outcomes().get(&h1()).unwrap();
    assert_eq!(total.votes.len(), 1);
    assert_eq!(total.votes.get(&key_of(0)).unwrap().signature, EncodedSignature(vec![9]));
    let accepted = acc.yes_vote_outcomes().get(&h1()).unwrap();
    assert_eq!(accepted.votes.len(), 1);
    assert_eq!(accepted.votes.get(&key_of(0)).unwrap().signature, EncodedSignature(vec![9]));
    assert_eq!(accepted.votes.get(&key_of(0)).unwrap().token, Stake(1));
    assert_eq!(accepted.votes.get(&key_of(0)).unwrap().vote_data, VoteData::Yes(h1()));
    assert_eq!(acc.sig_lists(), &vec![7u8, 9u8]);
    assert_eq!(acc.signers().count_ones(), 1);
}

#[test]
fn three_da_votes_certify_da() {
    let acc = fresh();
    let acc = collecting(acc.append(da(3)));
    let acc = collecting(acc.append(da(1)));
    let certificate = certified(acc.append(da(0)));
    assert_eq!(certificate.kind(), CertificateKind::DA);
    assert_eq!(certificate.aggregated_signature().signers, vec![true, true, false, true]);
}

#[test]
fn da_goes_before_yes_and_yes_before_no() {
    let acc = match Acc::new(2, 1, 4) {
        Some(acc) => acc,
        None => panic!("no accumulator"),
    };
    let acc = collecting(acc.append(ballot(h1(), 0, vec![1], VoteData::No(h1()), 1)));
    let certificate = certified(acc.append(ballot(h1(), 1, vec![1], VoteData::Yes(h1()), 2)));
    assert_eq!(certificate.kind(), CertificateKind::Yes);

    let acc = match Acc::new(2, 1, 4) {
        Some(acc) => acc,
        None => panic!("no accumulator"),
    };
    let acc = collecting(acc.append(ballot(h1(), 0, vec![1], VoteData::Yes(h1()), 1)));
    let acc = match acc.record(ballot(h1(), 1, vec![1], VoteData::Yes(h1()), 1), 1) {
        Ok(acc) => acc,
        Err(_) => panic!("refused"),
    };
    let certificate = certified(acc.append(ballot(h1(), 2, vec![1], VoteData::DA(h1()), 2)));
    assert_eq!(certificate.kind(), CertificateKind::DA);
}

#[test]
fn stake_of_a_subject_is_the_sum_of_its_votes_and_never_falls() {
    let acc = match Acc::new(100, 100, 4) {
        Some(acc) => acc,
        None => panic!("no accumulator"),
    };
    let weights = [5u64, 7, 11, 13];
    let mut acc = acc;
    let mut expected = 0;
    for signer in 0..4 {
        let before = acc.total_vote_outcomes().stake(&h1());
        let data = if signer % 2 == 0 { VoteData::Yes(h1()) } else { VoteData::No(h1()) };
        acc = collecting(acc.append(ballot(h1(), signer, vec![1], data, weights[signer])));
        expected += weights[signer];
        let after = acc.total_vote_outcomes().stake(&h1());
        assert!(after >= before);
        assert_eq!(after, expected);
    }
    assert_eq!(acc.total_vote_outcomes().stake(&h1()), 36);
    assert_eq!(acc.yes_vote_outcomes().stake(&h1()), 16);
    assert_eq!(acc.no_vote_outcomes().stake(&h1()), 20);
    assert_eq!(acc.da_vote_outcomes().stake(&h1()), 0);
    assert_eq!(acc.total_vote_outcomes().stake(&h2()), 0);
}

#[test]
fn subjects_are_tallied_apart() {
    let acc = fresh();
    let acc = collecting(acc.append(yes(0)));
    let acc = collecting(acc.append(ballot(h2(), 1, vec![1], VoteData::Yes(h2()), 1)));
    let acc = collecting(acc.append(yes(2)));
    assert_eq!(acc.total_vote_outcomes().stake(&h1()), 2);
    assert_eq!(acc.total_vote_outcomes().stake(&h2()), 1);
    assert_eq!(acc.total_vote_outcomes().len(), 2);
    assert_eq!(acc.yes_vote_outcomes().len(), 2);
    assert_eq!(acc.no_vote_outcomes().len(), 0);
    assert!(acc.no_vote_outcomes().get(&h1()).is_none());
    assert!(!acc.quorum_reached(&h1()));
    let mut subjects: Vec<Commitment> =
        acc.total_vote_outcomes().entries().iter().map(|entry| entry.0).collect();
    subjects.sort_by_key(|subject| subject.bytes);
    assert_eq!(subjects, vec![h1(), h2()]);
}

#[test]
fn nothing_is_certified_below_the_success_threshold() {
    let acc = match Acc::new(3, 1, 4) {
        Some(acc) => acc,
        None => panic!("no accumulator"),
    };
    let acc = collecting(acc.append(no(0)));
    assert_eq!(acc.no_vote_outcomes().stake(&h1()), 1);
    let acc = collecting(acc.append(no(1)));
    assert_eq!(acc.total_vote_outcomes().stake(&h1()), 2);
    let certificate = certified(acc.append(no(2)));
    assert_eq!(certificate.kind(), CertificateKind::No);
}

#[test]
fn each_signer_sets_the_bit_at_its_position() {
    let acc = match Acc::new(100, 100, 6) {
        Some(acc) => acc,
        None => panic!("no accumulator"),
    };
    assert_eq!(acc.signers().len(), 6);
    assert_eq!(acc.signers().count_ones(), 0);
    let acc = collecting(acc.append(yes(4)));
    let acc = collecting(acc.append(yes(1)));
    let acc = collecting(acc.append(yes(5)));
    assert_eq!(acc.signers().count_ones(), 3);
    assert_eq!(acc.signers().to_vec(), vec![false, true, false, false, true, true]);
    assert!(acc.signers().is_set(4));
    assert!(!acc.signers().is_set(0));
    assert_eq!(acc.sig_lists().len(), 3);
}

#[test]
fn arrival_order_does_not_change_the_aggregate() {
    let acc = fresh();
    let acc = collecting(acc.append(yes(0)));
    let acc = collecting(acc.append(yes(1)));
    let one = certified(acc.append(yes(2)));

    let acc = fresh();
    let acc = collecting(acc.append(yes(2)));
    let acc = collecting(acc.append(yes(0)));
    let other = certified(acc.append(yes(1)));

    assert_eq!(one.kind(), other.kind());
    assert_eq!(one.aggregated_signature(), other.aggregated_signature());
}

#[test]
fn arrival_order_does_not_change_the_tallies() {
    let acc = match Acc::new(100, 100, 4) {
        Some(acc) => acc,
        None => panic!("no accumulator"),
    };
    let one = collecting(collecting(collecting(acc.append(yes(0))).append(no(1))).append(da(2)));
    let acc = match Acc::new(100, 100, 4) {
        Some(acc) => acc,
        None => panic!("no accumulator"),
    };
    let other = collecting(collecting(collecting(acc.append(da(2))).append(yes(0))).append(no(1)));
    assert_eq!(one.signers().to_vec(), other.signers().to_vec());
    assert_eq!(one.total_vote_outcomes().stake(&h1()), other.total_vote_outcomes().stake(&h1()));
    assert_eq!(one.da_vote_outcomes().stake(&h1()), other.da_vote_outcomes().stake(&h1()));
    assert_eq!(one.yes_vote_outcomes().stake(&h1()), other.yes_vote_outcomes().stake(&h1()));
    assert_eq!(one.no_vote_outcomes().stake(&h1()), other.no_vote_outcomes().stake(&h1()));
    let mut left = one.sig_lists().clone();
    let mut right = other.sig_lists().clone();
    left.sort();
    right.sort();
    assert_eq!(left, right);
    assert_eq!(one.sig_lists(), &vec![10u8, 11, 12]);
    assert_eq!(other.sig_lists(), &vec![12u8, 10, 11]);
}

#[test]
fn round_ends_with_its_first_certificate() {
    let votes = vec![yes(0), no(1), yes(2), yes(3)];
    let mut state = Some(fresh());
    let mut certificates = Vec::new();
    let mut appended = 0;
    for vote in votes {
        let acc = match state.take() {
            Some(acc) => acc,
            None => break,
        };
        appended += 1;
        match acc.append(vote) {
            Ok(Progress::Collecting(acc)) => state = Some(acc),
            Ok(Progress::Certified(certificate)) => certificates.push(certificate.kind()),
            Err(rejection) => panic!("rejected: {:?}", rejection.error),
        }
    }
    assert_eq!(appended, 4);
    assert_eq!(certificates, vec![CertificateKind::Yes]);
    assert!(state.is_none());
}

#[test]
fn signer_beyond_the_stake_table_is_refused() {
    let acc = fresh();
    let (acc, error) = rejected(acc.append(yes(4)));
    assert_eq!(error, AccumulatorError::SignerOutOfRange);
    assert_eq!(acc.total_vote_outcomes().stake(&h1()), 0);
    assert_eq!(acc.total_vote_outcomes().len(), 0);
    assert_eq!(acc.sig_lists().len(), 0);
    assert_eq!(acc.signers().count_ones(), 0);
    let acc = collecting(acc.append(yes(3)));
    assert_eq!(acc.signers().to_vec(), vec![false, false, false, true]);
}

#[test]
fn stake_beyond_64_bits_is_refused() {
    let acc = match Acc::new(u64::MAX, u64::MAX, 4) {
        Some(acc) => acc,
        None => panic!("no accumulator"),
    };
    let acc = collecting(acc.append(ballot(h1(), 0, vec![1], VoteData::Yes(h1()), u64::MAX - 1)));
    let (acc, error) = rejected(acc.append(ballot(h1(), 1, vec![1], VoteData::Yes(h1()), 2)));
    assert_eq!(error, AccumulatorError::StakeOverflow);
    assert_eq!(acc.total_vote_outcomes().stake(&h1()), u64::MAX - 1);
    assert_eq!(acc.signers().to_vec(), vec![true, false, false, false]);
    let certificate = certified(acc.append(ballot(h1(), 1, vec![1], VoteData::Yes(h1()), 1)));
    assert_eq!(certificate.kind(), CertificateKind::Yes);
}

#[test]
fn timeout_and_view_sync_votes_are_refused() {
    let acc = fresh();
    let timeout = ballot(h1(), 0, vec![1], VoteData::Timeout(ViewNumber(7)), 1);
    let (acc, error) = rejected(acc.append(timeout));
    assert_eq!(error, AccumulatorError::UnsupportedCategory);
    assert_eq!(acc.total_vote_outcomes().len(), 0);
    assert_eq!(acc.signers().count_ones(), 0);
    let sync = ballot(h1(), 0, vec![1], VoteData::ViewSync(ViewSyncPhase::Commit, h1()), 1);
    let (acc, error) = rejected(acc.append(sync));
    assert_eq!(error, AccumulatorError::UnsupportedCategory);
    assert_eq!(acc.total_vote_outcomes().stake(&h1()), 0);
    assert_eq!(acc.sig_lists().len(), 0);
}

#[test]
fn reasons_to_refuse_are_looked_for_in_order() {
    let acc = fresh();
    let all_wrong = ballot(h1(), 9, vec![], VoteData::Timeout(ViewNumber(1)), 1);
    let (acc, error) = rejected(acc.append(all_wrong));
    assert_eq!(error, AccumulatorError::MalformedShare);
    let beyond = ballot(h1(), 9, vec![1], VoteData::Timeout(ViewNumber(1)), 1);
    let (acc, error) = rejected(acc.append(beyond));
    assert_eq!(error, AccumulatorError::SignerOutOfRange);
    let acc = collecting(acc.append(ballot(h1(), 0, vec![1], VoteData::Yes(h1()), 2)));
    let heavy = ballot(h1(), 1, vec![1], VoteData::Timeout(ViewNumber(1)), u64::MAX);
    let (_, error) = rejected(acc.append(heavy));
    assert_eq!(error, AccumulatorError::StakeOverflow);
}

#[test]
fn failed_aggregation_is_an_error_and_keeps_the_vote() {
    let acc = fresh();
    let acc = collecting(acc.append(yes(0)));
    let acc = collecting(acc.append(yes(0)));
    let (acc, error) = rejected(acc.append(yes(1)));
    assert_eq!(error, AccumulatorError::AggregationFailed);
    assert_eq!(acc.total_vote_outcomes().stake(&h1()), 3);
    assert_eq!(acc.yes_vote_outcomes().stake(&h1()), 3);
    assert_eq!(acc.sig_lists(), &vec![10u8, 10, 11]);
    assert_eq!(acc.signers().to_vec(), vec![true, true, false, false]);
}

#[test]
fn thresholds_must_be_positive() {
    assert!(Acc::new(0, 2, 4).is_none());
    assert!(Acc::new(3, 0, 4).is_none());
    assert!(Acc::new(0, 0, 0).is_none());
    assert!(Acc::new(1, 1, 0).is_some());
    assert!(Acc::new(3, 2, usize::MAX).is_none());
    let acc = fresh();
    assert_eq!(acc.success_threshold(), 3);
    assert_eq!(acc.failure_threshold(), 2);
    assert_eq!(acc.signers().len(), 4);
    assert_eq!(acc.total_vote_outcomes().len(), 0);
}

#[test]
fn record_takes_the_decoded_share_as_given() {
    let acc = fresh();
    let acc = match acc.record(yes(2), 99) {
        Ok(acc) => acc,
        Err(_) => panic!("refused"),
    };
    assert_eq!(acc.sig_lists(), &vec![99u8]);
    assert_eq!(acc.signers().to_vec(), vec![false, false, true, false]);
    assert_eq!(acc.total_vote_outcomes().stake(&h1()), 1);
    assert_eq!(acc.yes_vote_outcomes().stake(&h1()), 1);
    match acc.record(yes(7), 1) {
        Ok(_) => panic!("accepted a signer beyond the table"),
        Err(rejection) => {
            assert_eq!(rejection.error, AccumulatorError::SignerOutOfRange);
            assert_eq!(rejection.accumulator.sig_lists(), &vec![99u8]);
        },
    }
}

fn sum_of(total: u64) -> Sum {
    Sum { total, signers: vec![], threshold: 0, table_size: 0 }
}

#[test]
fn conclude_checks_the_thresholds_in_order() {
    let acc = fresh();
    let acc = match acc.record(yes(0), 1) {
        Ok(acc) => acc,
        Err(_) => panic!("refused"),
    };
    let acc = collecting(acc.conclude(&h1(), Some(sum_of(5))));
    let acc = collecting(acc.conclude(&h1(), None));
    let acc = match acc.record(no(1), 1) {
        Ok(acc) => acc,
        Err(_) => panic!("refused"),
    };
    let acc = match acc.record(yes(2), 1) {
        Ok(acc) => acc,
        Err(_) => panic!("refused"),
    };
    assert!(acc.quorum_reached(&h1()));
    assert!(!acc.quorum_reached(&h2()));
    let acc = collecting(acc.conclude(&h2(), None));
    let (acc, error) = rejected(acc.conclude(&h1(), None));
    assert_eq!(error, AccumulatorError::AggregationFailed);
    let acc = collecting(acc.conclude(&h1(), Some(sum_of(5))));
    let acc = match acc.record(no(3), 1) {
        Ok(acc) => acc,
        Err(_) => panic!("refused"),
    };
    let certificate = certified(acc.conclude(&h1(), Some(sum_of(6))));
    assert_eq!(certificate.kind(), CertificateKind::No);
    assert_eq!(certificate.into_aggregated_signature(), sum_of(6));
}

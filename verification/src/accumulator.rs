//! The vote accumulator: from single signed votes to a quorum certificate.
//!
//! An accumulator belongs to one round. Votes are appended to it one at a
//! time. Each accepted vote marks its signer in the bitmask, adds its
//! signature share to the list of shares and its stake to the tallies of its
//! subject. Once the stake cast for a subject reaches the success threshold
//! the shares are aggregated, and the accumulator looks for the outcome that
//! this stake supports: data availability first, then acceptance, then
//! refusal. Where it finds one it gives way to the certificate.

use crate::bitmask::{
    count_set, lemma_count_after_set, lemma_count_of_clear, max_bits, SignerBitmask,
};
use crate::certificate::{CertificateKind, QuorumCertificate};
use crate::data::{
    copy_bytes, Commitment, EncodedPublicKey, EncodedSignature, StakeTableEntry, VoteData,
};
use crate::scheme::SignatureScheme;
use crate::signer_map::{RecordView, SignerRecord};
use crate::token::VoteToken;
use crate::vote_map::{stake_in, with_vote, TallyView, VoteMap};
use vstd::prelude::*;

verus! {

/// One vote as the accumulator takes it: what was voted on, by whom, with
/// what weight, and the round's stake table to aggregate over.
pub struct Ballot<TOKEN> {
    /// The subject of the vote.
    pub commitment: Commitment,
    /// The signer's public key in its wire encoding.
    pub key: EncodedPublicKey,
    /// The signer's signature share in its wire encoding.
    pub signature: EncodedSignature,
    /// The signer's own line of the stake table.
    pub entry: StakeTableEntry,
    /// The round's whole stake table.
    pub entries: Vec<StakeTableEntry>,
    /// The signer's position in the stake table, which is also the signer's
    /// bit in the bitmask.
    pub node_id: usize,
    /// The vote's category.
    pub vote_data: VoteData,
    /// The token that entitles the signer to the vote and gives its weight.
    pub token: TOKEN,
}

/// Why a vote was not turned into progress.
#[derive(Clone, Copy, Debug, PartialEq, Eq, Hash, Structural)]
pub enum AccumulatorError {
    /// The signature share is not in valid wire form.
    MalformedShare,
    /// The signer's position lies beyond the stake table.
    SignerOutOfRange,
    /// The stake cast for the subject would no longer fit in 64 bits.
    StakeOverflow,
    /// Votes of this category are not tallied by the accumulator.
    UnsupportedCategory,
    /// The stake for a certificate is there, but the shares could not be
    /// aggregated.
    AggregationFailed,
}

/// How an accepted vote leaves the round.
pub enum Progress<A, C> {
    /// More votes are needed: the accumulator goes on collecting.
    Collecting(A),
    /// A threshold was reached: the accumulator is gone and this certificate
    /// stands in its place.
    Certified(C),
}

/// An accumulator handed back with the reason why a call failed.
pub struct Rejection<A> {
    /// The accumulator to go on with.
    pub accumulator: A,
    /// What went wrong.
    pub error: AccumulatorError,
}

/// The aggregation of items of type `T` into a result of type `U`.
pub trait Accumulator<T, U>: Sized {
    /// Accumulates `val`. Where a threshold is reached the answer is the
    /// result, else the accumulator to continue with.
    fn append(self, val: T) -> Result<Progress<Self, U>, Rejection<Self>>;
}

/// The state of an accumulator as plain values.
pub struct AccumulatorView<TOKEN, SHARE> {
    /// The tally of every vote, whatever its category, by subject.
    pub total: Map<Seq<u8>, TallyView<TOKEN>>,
    /// The tally of the data-availability votes.
    pub da: Map<Seq<u8>, TallyView<TOKEN>>,
    /// The tally of the accepting votes.
    pub yes: Map<Seq<u8>, TallyView<TOKEN>>,
    /// The tally of the refusing votes.
    pub no: Map<Seq<u8>, TallyView<TOKEN>>,
    /// The stake that certifies data availability or acceptance.
    pub success_threshold: u64,
    /// The stake that certifies refusal.
    pub failure_threshold: u64,
    /// The signature share of every accepted vote, in order of arrival.
    pub shares: Seq<SHARE>,
    /// One bit per line of the stake table, set for those who have voted.
    pub signers: Seq<bool>,
}

impl<TOKEN, SHARE> AccumulatorView<TOKEN, SHARE> {
    /// What holds of every accumulator: both thresholds are positive, the
    /// three category tallies of a subject add up to its total, and no more
    /// signers are marked than shares were collected.
    pub open spec fn valid(self) -> bool {
        &&& self.success_threshold > 0
        &&& self.failure_threshold > 0
        &&& forall|subject: Seq<u8>|
            stake_in(self.da, subject) + stake_in(self.yes, subject) + stake_in(self.no, subject)
                == #[trigger] stake_in(self.total, subject)
        &&& count_set(self.signers) <= self.shares.len()
    }
}

/// The state in which a round begins: no tally, no share, and a clear bit for
/// each of the `size` lines of the stake table.
pub open spec fn initial<TOKEN, SHARE>(
    success_threshold: u64,
    failure_threshold: u64,
    size: nat,
) -> AccumulatorView<TOKEN, SHARE> {
    AccumulatorView {
        total: Map::empty(),
        da: Map::empty(),
        yes: Map::empty(),
        no: Map::empty(),
        success_threshold,
        failure_threshold,
        shares: Seq::empty(),
        signers: Seq::new(size, |i: int| false),
    }
}

/// Why the accumulator `acc` refuses `ballot` although its share is well
/// formed, or `None` where it accepts it. The reasons are looked for in this
/// order.
pub open spec fn refusal<TOKEN: VoteToken, SHARE>(
    acc: AccumulatorView<TOKEN, SHARE>,
    ballot: Ballot<TOKEN>,
) -> Option<AccumulatorError> {
    if ballot.node_id >= acc.signers.len() {
        Some(AccumulatorError::SignerOutOfRange)
    } else if stake_in(acc.total, ballot.commitment@) + ballot.token.weight() > u64::MAX {
        Some(AccumulatorError::StakeOverflow)
    } else if !ballot.vote_data.is_tallied() {
        Some(AccumulatorError::UnsupportedCategory)
    } else {
        None
    }
}

/// The state `acc` after `ballot` is recorded with its decoded `share`.
///
/// The signer's bit is set and the share joins the list. The weight of the
/// token is added to the subject's total and to the tally of the ballot's
/// category, and in both the ballot becomes the signer's vote. The total
/// keeps a clone of the token, `kept`, and the category tally the token
/// itself.
pub open spec fn recorded<TOKEN: VoteToken, SHARE>(
    acc: AccumulatorView<TOKEN, SHARE>,
    ballot: Ballot<TOKEN>,
    share: SHARE,
    kept: TOKEN,
) -> AccumulatorView<TOKEN, SHARE> {
    let subject = ballot.commitment@;
    let signer = ballot.key@;
    let weight = ballot.token.weight() as nat;
    let in_total = RecordView {
        signature: ballot.signature@,
        vote_data: ballot.vote_data,
        token: kept,
    };
    let in_category = RecordView {
        signature: ballot.signature@,
        vote_data: ballot.vote_data,
        token: ballot.token,
    };
    AccumulatorView {
        total: with_vote(acc.total, subject, signer, in_total, weight),
        da: if ballot.vote_data is DA {
            with_vote(acc.da, subject, signer, in_category, weight)
        } else {
            acc.da
        },
        yes: if ballot.vote_data is Yes {
            with_vote(acc.yes, subject, signer, in_category, weight)
        } else {
            acc.yes
        },
        no: if ballot.vote_data is No {
            with_vote(acc.no, subject, signer, in_category, weight)
        } else {
            acc.no
        },
        success_threshold: acc.success_threshold,
        failure_threshold: acc.failure_threshold,
        shares: acc.shares.push(share),
        signers: acc.signers.update(ballot.node_id as int, true),
    }
}

/// The token that the total tally of `acc` keeps for the signer and subject
/// of `ballot`.
pub open spec fn kept_token<TOKEN, SHARE>(
    acc: AccumulatorView<TOKEN, SHARE>,
    ballot: Ballot<TOKEN>,
) -> TOKEN {
    acc.total[ballot.commitment@].votes[ballot.key@].token
}

/// Recording an accepted ballot leaves a valid state valid.
pub proof fn lemma_recorded_is_valid<TOKEN: VoteToken, SHARE>(
    acc: AccumulatorView<TOKEN, SHARE>,
    ballot: Ballot<TOKEN>,
    share: SHARE,
    kept: TOKEN,
)
    requires
        acc.valid(),
        ballot.node_id < acc.signers.len(),
        ballot.vote_data.is_tallied(),
    ensures
        recorded(acc, ballot, share, kept).valid(),
{
    let next = recorded(acc, ballot, share, kept);
    assert forall|subject: Seq<u8>|
        stake_in(next.da, subject) + stake_in(next.yes, subject) + stake_in(next.no, subject)
            == #[trigger] stake_in(next.total, subject) by {
        assert(stake_in(acc.da, subject) + stake_in(acc.yes, subject) + stake_in(acc.no, subject)
            == stake_in(acc.total, subject));
    }
    lemma_count_after_set(acc.signers, ballot.node_id as int);
}

/// The stake cast for `subject`, whatever the category, has reached the
/// success threshold.
pub open spec fn quorum_reached<TOKEN, SHARE>(
    acc: AccumulatorView<TOKEN, SHARE>,
    subject: Seq<u8>,
) -> bool {
    stake_in(acc.total, subject) >= acc.success_threshold
}

/// The outcome for `subject` that the stake in `acc` certifies, if any.
///
/// None is certified before the subject's total stake has reached the success
/// threshold. From then on data availability is certified where its tally has
/// reached the success threshold, else acceptance where its tally has, else
/// refusal where its tally has reached the failure threshold.
pub open spec fn verdict<TOKEN, SHARE>(
    acc: AccumulatorView<TOKEN, SHARE>,
    subject: Seq<u8>,
) -> Option<CertificateKind> {
    if !quorum_reached(acc, subject) {
        None
    } else if stake_in(acc.da, subject) >= acc.success_threshold {
        Some(CertificateKind::DA)
    } else if stake_in(acc.yes, subject) >= acc.success_threshold {
        Some(CertificateKind::Yes)
    } else if stake_in(acc.no, subject) >= acc.failure_threshold {
        Some(CertificateKind::No)
    } else {
        None
    }
}

/// How a call on an accumulator ends, as plain values.
pub enum Outcome<TOKEN, SHARE, AGG> {
    /// The accumulator goes on collecting, in this state.
    Collecting(AccumulatorView<TOKEN, SHARE>),
    /// The accumulator gave way to a certificate of this kind, resting on this
    /// aggregated signature.
    Certified(CertificateKind, AGG),
    /// The call failed for this reason and left the accumulator in this state.
    Rejected(AccumulatorView<TOKEN, SHARE>, AccumulatorError),
}

/// How the check of the thresholds for `subject` ends in the state `acc`,
/// where an attempt to aggregate the shares gives `aggregated`.
///
/// Below the success threshold the accumulator goes on collecting, and
/// nothing is aggregated. At or above it a failed aggregation fails the call,
/// and a successful one becomes the certificate of the outcome that the stake
/// certifies, or is dropped where the stake certifies none yet.
pub open spec fn conclusion<TOKEN, SHARE, AGG>(
    acc: AccumulatorView<TOKEN, SHARE>,
    subject: Seq<u8>,
    aggregated: Option<AGG>,
) -> Outcome<TOKEN, SHARE, AGG> {
    if !quorum_reached(acc, subject) {
        Outcome::Collecting(acc)
    } else {
        match aggregated {
            None => Outcome::Rejected(acc, AccumulatorError::AggregationFailed),
            Some(signature) => match verdict(acc, subject) {
                Some(kind) => Outcome::Certified(kind, signature),
                None => Outcome::Collecting(acc),
            },
        }
    }
}

/// How appending `ballot` to the state `acc` ends, where decoding the ballot's
/// share gives `decoded`, the total tally keeps the clone `kept` of the
/// ballot's token, and an attempt to aggregate gives `aggregated`.
///
/// A share that does not decode and a ballot that is refused leave the state
/// as it was. Any other ballot is recorded, and the thresholds of its subject
/// are checked in the state that results.
pub open spec fn append_outcome<TOKEN: VoteToken, SHARE, AGG>(
    acc: AccumulatorView<TOKEN, SHARE>,
    ballot: Ballot<TOKEN>,
    decoded: Option<SHARE>,
    kept: TOKEN,
    aggregated: Option<AGG>,
) -> Outcome<TOKEN, SHARE, AGG> {
    match decoded {
        None => Outcome::Rejected(acc, AccumulatorError::MalformedShare),
        Some(share) => match refusal(acc, ballot) {
            Some(error) => Outcome::Rejected(acc, error),
            None => conclusion(recorded(acc, ballot, share, kept), ballot.commitment@, aggregated),
        },
    }
}

/// Collects signed votes on block or leaf commitments until the stake behind
/// one outcome suffices for a certificate.
pub struct VoteAccumulator<TOKEN, S: SignatureScheme> {
    total_vote_outcomes: VoteMap<TOKEN>,
    da_vote_outcomes: VoteMap<TOKEN>,
    yes_vote_outcomes: VoteMap<TOKEN>,
    no_vote_outcomes: VoteMap<TOKEN>,
    success_threshold: u64,
    failure_threshold: u64,
    sig_lists: Vec<S::Share>,
    signers: SignerBitmask,
}

impl<TOKEN, S: SignatureScheme> View for VoteAccumulator<TOKEN, S> {
    type V = AccumulatorView<TOKEN, S::Share>;

    closed spec fn view(&self) -> AccumulatorView<TOKEN, S::Share> {
        AccumulatorView {
            total: self.total_vote_outcomes@,
            da: self.da_vote_outcomes@,
            yes: self.yes_vote_outcomes@,
            no: self.no_vote_outcomes@,
            success_threshold: self.success_threshold,
            failure_threshold: self.failure_threshold,
            shares: self.sig_lists@,
            signers: self.signers@,
        }
    }
}

impl<TOKEN, S: SignatureScheme> VoteAccumulator<TOKEN, S> {
    #[verifier::type_invariant]
    spec fn sound(self) -> bool {
        self@.valid()
    }
}

/// `decoded` is what the scheme answered when asked to decode the share of
/// `ballot`, and `aggregated` what it answered when asked to aggregate, where
/// it was asked.
///
/// The scheme is asked to aggregate only after an accepted ballot has carried
/// its subject's stake to the success threshold. It is then given the stake
/// table of the ballot, the success threshold, and the bitmask and the list
/// of shares as they stand with the ballot recorded.
pub open spec fn answered_by<TOKEN: VoteToken, S: SignatureScheme>(
    acc: AccumulatorView<TOKEN, S::Share>,
    ballot: Ballot<TOKEN>,
    decoded: Option<S::Share>,
    kept: TOKEN,
    aggregated: Option<S::Aggregate>,
) -> bool {
    &&& call_ensures(S::decode_share, (&ballot.signature,), decoded)
    &&& decoded matches Some(share) ==> {
        let next = recorded(acc, ballot, share, kept);
        refusal(acc, ballot) is None && quorum_reached(next, ballot.commitment@) ==> exists|
            signers: SignerBitmask,
            shares: Vec<S::Share>,
        |
            signers@ == next.signers && shares@ == next.shares && #[trigger] call_ensures(
                S::aggregate,
                (&ballot.entries, acc.success_threshold, &signers, &shares),
                aggregated,
            )
    }
}

/// What a call on an accumulator returned, as plain values.
pub open spec fn outcome_of<TOKEN, S: SignatureScheme>(
    result: Result<
        Progress<VoteAccumulator<TOKEN, S>, QuorumCertificate<S::Aggregate>>,
        Rejection<VoteAccumulator<TOKEN, S>>,
    >,
) -> Outcome<TOKEN, S::Share, S::Aggregate> {
    match result {
        Ok(Progress::Collecting(acc)) => Outcome::Collecting(acc@),
        Ok(Progress::Certified(certificate)) => Outcome::Certified(
            certificate.kind(),
            certificate.spec_aggregated_signature(),
        ),
        Err(rejection) => Outcome::Rejected(rejection.accumulator@, rejection.error),
    }
}

impl<TOKEN: VoteToken + Clone, S: SignatureScheme> VoteAccumulator<TOKEN, S> {
    /// An accumulator for a round whose stake table has `stake_table_size`
    /// lines. Both thresholds must be positive, and the table no longer than
    /// a bitmask can be: else there is no accumulator.
    pub fn new(success_threshold: u64, failure_threshold: u64, stake_table_size: usize) -> (made:
        Option<Self>)
        ensures
            made is Some <==> success_threshold > 0 && failure_threshold > 0 && stake_table_size
                <= max_bits(),
            made matches Some(acc) ==> acc@ == initial::<TOKEN, S::Share>(
                success_threshold,
                failure_threshold,
                stake_table_size as nat,
            ) && acc@.valid(),
    {
        if success_threshold == 0 || failure_threshold == 0 {
            return None;
        }
        match SignerBitmask::new(stake_table_size) {
            None => None,
            Some(signers) => {
                proof {
                    lemma_count_of_clear(stake_table_size as nat);
                }
                Some(
                    VoteAccumulator {
                        total_vote_outcomes: VoteMap::new(),
                        da_vote_outcomes: VoteMap::new(),
                        yes_vote_outcomes: VoteMap::new(),
                        no_vote_outcomes: VoteMap::new(),
                        success_threshold,
                        failure_threshold,
                        sig_lists: Vec::new(),
                        signers,
                    },
                )
            },
        }
    }

    /// The tally of every vote, whatever its category.
    pub fn total_vote_outcomes(&self) -> (tallies: &VoteMap<TOKEN>)
        ensures
            tallies@ == self@.total,
    {
        &self.total_vote_outcomes
    }

    /// The tally of the data-availability votes.
    pub fn da_vote_outcomes(&self) -> (tallies: &VoteMap<TOKEN>)
        ensures
            tallies@ == self@.da,
    {
        &self.da_vote_outcomes
    }

    /// The tally of the accepting votes.
    pub fn yes_vote_outcomes(&self) -> (tallies: &VoteMap<TOKEN>)
        ensures
            tallies@ == self@.yes,
    {
        &self.yes_vote_outcomes
    }

    /// The tally of the refusing votes.
    pub fn no_vote_outcomes(&self) -> (tallies: &VoteMap<TOKEN>)
        ensures
            tallies@ == self@.no,
    {
        &self.no_vote_outcomes
    }

    /// A quorum's worth of stake: what certifies data availability or
    /// acceptance.
    pub fn success_threshold(&self) -> (threshold: u64)
        ensures
            threshold == self@.success_threshold,
            threshold > 0,
    {
        proof {
            use_type_invariant(self);
        }
        self.success_threshold
    }

    /// The stake that certifies refusal: enough to know that acceptance
    /// cannot reach a quorum.
    pub fn failure_threshold(&self) -> (threshold: u64)
        ensures
            threshold == self@.failure_threshold,
            threshold > 0,
    {
        proof {
            use_type_invariant(self);
        }
        self.failure_threshold
    }

    /// The decoded signature share of every accepted vote, in order of
    /// arrival.
    pub fn sig_lists(&self) -> (shares: &Vec<S::Share>)
        ensures
            shares@ == self@.shares,
    {
        &self.sig_lists
    }

    /// The bitmask of the signers whose votes were accepted.
    pub fn signers(&self) -> (signers: &SignerBitmask)
        ensures
            signers@ == self@.signers,
    {
        &self.signers
    }

    /// Records `ballot`, whose signature share was decoded to `share`, or
    /// refuses it and changes nothing.
    ///
    /// A ballot is refused where its signer lies beyond the stake table, where
    /// its weight would carry the subject's stake beyond 64 bits, or where
    /// its category is not one that is tallied.
    pub fn record(self, ballot: Ballot<TOKEN>, share: S::Share) -> (result: Result<
        Self,
        Rejection<Self>,
    >)
        ensures
            match result {
                Ok(acc) => {
                    &&& refusal(self@, ballot) is None
                    &&& cloned(ballot.token, kept_token(acc@, ballot))
                    &&& acc@ == recorded(self@, ballot, share, kept_token(acc@, ballot))
                    &&& acc@.valid()
                },
                Err(rejection) => {
                    &&& refusal(self@, ballot) == Some(rejection.error)
                    &&& rejection.accumulator@ == self@
                },
            },
    {
        proof {
            use_type_invariant(&self);
        }
        if ballot.node_id >= self.signers.len() {
            return Err(
                Rejection { accumulator: self, error: AccumulatorError::SignerOutOfRange },
            );
        }
        let weight = ballot.token.vote_count();
        if weight > u64::MAX - self.total_vote_outcomes.stake(&ballot.commitment) {
            return Err(Rejection { accumulator: self, error: AccumulatorError::StakeOverflow });
        }
        if !ballot.vote_data.tallied() {
            return Err(
                Rejection { accumulator: self, error: AccumulatorError::UnsupportedCategory },
            );
        }
        let ghost before = self@;
        let VoteAccumulator {
            mut total_vote_outcomes,
            mut da_vote_outcomes,
            mut yes_vote_outcomes,
            mut no_vote_outcomes,
            success_threshold,
            failure_threshold,
            mut sig_lists,
            mut signers,
        } = self;
        let Ballot { commitment, key, signature, entry: _, entries: _, node_id, vote_data, token } =
            ballot;
        assert(stake_in(before.da, commitment@) + stake_in(before.yes, commitment@) + stake_in(
            before.no,
            commitment@,
        ) == stake_in(before.total, commitment@));

        let kept = token.clone();
        let in_total = SignerRecord {
            signature: EncodedSignature(copy_bytes(&signature.0)),
            vote_data,
            token: kept,
        };
        let in_category = SignerRecord { signature, vote_data, token };
        total_vote_outcomes.record(
            commitment,
            weight,
            EncodedPublicKey(copy_bytes(&key.0)),
            in_total,
        );
        match vote_data {
            VoteData::DA(_) => {
                da_vote_outcomes.record(commitment, weight, key, in_category);
            },
            VoteData::Yes(_) => {
                yes_vote_outcomes.record(commitment, weight, key, in_category);
            },
            VoteData::No(_) => {
                no_vote_outcomes.record(commitment, weight, key, in_category);
            },
            VoteData::Timeout(_) => {},
            VoteData::ViewSync(_, _) => {},
        }
        signers.mark(node_id);
        sig_lists.push(share);
        proof {
            lemma_recorded_is_valid(before, ballot, share, kept);
        }
        Ok(
            VoteAccumulator {
                total_vote_outcomes,
                da_vote_outcomes,
                yes_vote_outcomes,
                no_vote_outcomes,
                success_threshold,
                failure_threshold,
                sig_lists,
                signers,
            },
        )
    }

    /// Whether the stake cast for `subject` has reached the success
    /// threshold, so that a certificate may be due.
    pub fn quorum_reached(&self, subject: &Commitment) -> (reached: bool)
        ensures
            reached == quorum_reached(self@, subject@),
    {
        self.total_vote_outcomes.stake(subject) >= self.success_threshold
    }

    /// Checks the thresholds for `subject`, given what an attempt to
    /// aggregate the collected shares came to.
    ///
    /// Below the success threshold the accumulator is handed back whatever
    /// `aggregated` holds. At or above it a failed aggregation is an error,
    /// and the accumulator is handed back with it. With an aggregate the
    /// tallies are tried in the order data availability, acceptance, refusal:
    /// the first to have reached its threshold names the certificate, and
    /// where none has, the accumulator is handed back to collect more.
    pub fn conclude(self, subject: &Commitment, aggregated: Option<S::Aggregate>) -> (result:
        Result<
            Progress<Self, QuorumCertificate<S::Aggregate>>,
            Rejection<Self>,
        >)
        ensures
            outcome_of(result) == conclusion(self@, subject@, aggregated),
            result matches Ok(Progress::Collecting(acc)) ==> acc@.valid(),
            result matches Err(rejection) ==> rejection.accumulator@.valid(),
    {
        proof {
            use_type_invariant(&self);
        }
        if !self.quorum_reached(subject) {
            return Ok(Progress::Collecting(self));
        }
        match aggregated {
            None => Err(
                Rejection { accumulator: self, error: AccumulatorError::AggregationFailed },
            ),
            Some(signature) => {
                if self.da_vote_outcomes.stake(subject) >= self.success_threshold {
                    Ok(Progress::Certified(QuorumCertificate::new(CertificateKind::DA, signature)))
                } else if self.yes_vote_outcomes.stake(subject) >= self.success_threshold {
                    Ok(
                        Progress::Certified(
                            QuorumCertificate::new(CertificateKind::Yes, signature),
                        ),
                    )
                } else if self.no_vote_outcomes.stake(subject) >= self.failure_threshold {
                    Ok(Progress::Certified(QuorumCertificate::new(CertificateKind::No, signature)))
                } else {
                    Ok(Progress::Collecting(self))
                }
            },
        }
    }
}

impl<TOKEN: VoteToken + Clone, S: SignatureScheme> Accumulator<
    Ballot<TOKEN>,
    QuorumCertificate<S::Aggregate>,
> for VoteAccumulator<TOKEN, S> {
    /// Appends one vote.
    ///
    /// The share is decoded first: a share that does not decode fails the
    /// call. Then the ballot is recorded, unless it is refused. Only where the
    /// subject's stake has reached the success threshold are the shares
    /// aggregated, once, over the whole bitmask and list of shares, with the
    /// ballot's stake table and the success threshold as parameters. What the
    /// scheme answers to either call is not known here, so the contract says
    /// what is returned for every answer it can give.
    fn append(self, val: Ballot<TOKEN>) -> (result: Result<
        Progress<Self, QuorumCertificate<S::Aggregate>>,
        Rejection<Self>,
    >)
        ensures
            exists|decoded: Option<S::Share>, kept: TOKEN, aggregated: Option<S::Aggregate>|
                answered_by::<TOKEN, S>(self@, val, decoded, kept, aggregated) && cloned(
                    val.token,
                    kept,
                ) && outcome_of(result) == #[trigger] append_outcome(
                    self@,
                    val,
                    decoded,
                    kept,
                    aggregated,
                ),
            result matches Ok(Progress::Certified(_)) ==> refusal(self@, val) is None && stake_in(
                self@.total,
                val.commitment@,
            ) + val.token.weight() >= self@.success_threshold,
            result matches Ok(Progress::Collecting(acc)) ==> acc@.valid(),
            result matches Err(rejection) ==> rejection.accumulator@.valid(),
    {
        proof {
            use_type_invariant(&self);
        }
        let ghost before = self@;
        let Ballot { commitment, key, signature, entry, entries, node_id, vote_data, token } = val;
        match S::decode_share(&signature) {
            None => {
                assert(outcome_of::<TOKEN, S>(
                    Err(Rejection { accumulator: self, error: AccumulatorError::MalformedShare }),
                ) == append_outcome::<TOKEN, S::Share, S::Aggregate>(
                    before,
                    val,
                    None,
                    val.token,
                    None,
                ));
                Err(Rejection { accumulator: self, error: AccumulatorError::MalformedShare })
            },
            Some(share) => {
                let stripped = Ballot {
                    commitment,
                    key,
                    signature,
                    entry,
                    entries: Vec::new(),
                    node_id,
                    vote_data,
                    token,
                };
                assert(refusal(before, stripped) == refusal(before, val));
                match self.record(stripped, share) {
                    Err(rejection) => {
                        assert(outcome_of::<TOKEN, S>(Err(rejection)) == append_outcome::<
                            TOKEN,
                            S::Share,
                            S::Aggregate,
                        >(before, val, Some(share), val.token, None));
                        Err(rejection)
                    },
                    Ok(acc) => {
                        let ghost kept = kept_token(acc@, stripped);
                        assert(acc@ == recorded(before, val, share, kept));
                        if acc.quorum_reached(&commitment) {
                            let aggregated = S::aggregate(
                                &entries,
                                acc.success_threshold,
                                &acc.signers,
                                &acc.sig_lists,
                            );
                            assert(answered_by::<TOKEN, S>(
                                before,
                                val,
                                Some(share),
                                kept,
                                aggregated,
                            )) by {
                                assert(call_ensures(
                                    S::aggregate,
                                    (
                                        &val.entries,
                                        before.success_threshold,
                                        &acc.signers,
                                        &acc.sig_lists,
                                    ),
                                    aggregated,
                                ));
                            }
                            let result = acc.conclude(&commitment, aggregated);
                            assert(outcome_of(result) == append_outcome(
                                before,
                                val,
                                Some(share),
                                kept,
                                aggregated,
                            ));
                            result
                        } else {
                            let result = Ok(Progress::Collecting(acc));
                            assert(outcome_of::<TOKEN, S>(result) == append_outcome::<
                                TOKEN,
                                S::Share,
                                S::Aggregate,
                            >(before, val, Some(share), kept, None));
                            result
                        }
                    },
                }
            },
        }
    }
}

} // verus!

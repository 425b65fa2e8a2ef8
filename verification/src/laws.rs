//! What holds of every accumulator, whatever votes it is given.
//!
//! The statements here are about the plain-value model that the contracts of
//! [`crate::accumulator`] are written in: [`recorded`] for one accepted vote,
//! [`append_outcome`] for one call, and their repetition over a sequence of
//! votes. Each is proved from those definitions alone.

use crate::accumulator::{
    append_outcome, quorum_reached, recorded, refusal, verdict, AccumulatorView, Ballot, Outcome,
};
use crate::bitmask::{count_set, lemma_count_after_set};
use crate::certificate::CertificateKind;
use crate::reorder::{
    lemma_mapped_reordered, lemma_reordered_same_elements, lemma_sum_reordered, reordered, sum_by,
};
use crate::token::VoteToken;
use crate::vote_map::{stake_in, TallyView};
use vstd::multiset::Multiset;
use vstd::prelude::*;
use vstd::seq_lib::lemma_multiset_commutative;

verus! {

/// An accepted vote: a ballot, the share that its signature decoded to, and
/// the clone of its token that the total tally keeps.
pub struct CastVote<TOKEN, SHARE> {
    /// The ballot as it was appended.
    pub ballot: Ballot<TOKEN>,
    /// The decoded signature share.
    pub share: SHARE,
    /// The clone of the ballot's token.
    pub kept: TOKEN,
}

/// The state `acc` after each of `votes` is recorded, first vote first.
pub open spec fn record_all<TOKEN: VoteToken, SHARE>(
    acc: AccumulatorView<TOKEN, SHARE>,
    votes: Seq<CastVote<TOKEN, SHARE>>,
) -> AccumulatorView<TOKEN, SHARE>
    decreases votes.len(),
{
    if votes.len() == 0 {
        acc
    } else {
        let vote = votes.last();
        recorded(record_all(acc, votes.drop_last()), vote.ballot, vote.share, vote.kept)
    }
}

/// The tally of `acc` in which votes of the given kind are counted.
pub open spec fn tally_of<TOKEN, SHARE>(
    acc: AccumulatorView<TOKEN, SHARE>,
    kind: CertificateKind,
) -> Map<Seq<u8>, TallyView<TOKEN>> {
    match kind {
        CertificateKind::DA => acc.da,
        CertificateKind::Yes => acc.yes,
        CertificateKind::No => acc.no,
    }
}

/// The weight that `vote` brings to `subject`: that of its token where the
/// vote is for this subject, none where it is for another.
pub open spec fn weight_for<TOKEN: VoteToken, SHARE>(
    vote: CastVote<TOKEN, SHARE>,
    subject: Seq<u8>,
) -> nat {
    if vote.ballot.commitment@ == subject {
        vote.ballot.token.weight() as nat
    } else {
        0
    }
}

/// Whether `vote` is counted in the tally of the given kind.
pub open spec fn is_of_kind<TOKEN, SHARE>(
    vote: CastVote<TOKEN, SHARE>,
    kind: CertificateKind,
) -> bool {
    match kind {
        CertificateKind::DA => vote.ballot.vote_data is DA,
        CertificateKind::Yes => vote.ballot.vote_data is Yes,
        CertificateKind::No => vote.ballot.vote_data is No,
    }
}

/// For each vote, the weight that it brings to `subject`.
pub open spec fn weight_for_subject<TOKEN: VoteToken, SHARE>(subject: Seq<u8>) -> spec_fn(
    CastVote<TOKEN, SHARE>,
) -> nat {
    |vote: CastVote<TOKEN, SHARE>| weight_for(vote, subject)
}

/// For each vote, the weight that it brings to the tally of `subject` of the
/// given kind: its weight for the subject where it is of that kind, else none.
pub open spec fn weight_for_subject_as<TOKEN: VoteToken, SHARE>(
    subject: Seq<u8>,
    kind: CertificateKind,
) -> spec_fn(CastVote<TOKEN, SHARE>) -> nat {
    |vote: CastVote<TOKEN, SHARE>|
        if is_of_kind(vote, kind) {
            weight_for(vote, subject)
        } else {
            0
        }
}

/// The sum of the weights that `votes` bring to `subject`.
pub open spec fn weight_cast<TOKEN: VoteToken, SHARE>(
    votes: Seq<CastVote<TOKEN, SHARE>>,
    subject: Seq<u8>,
) -> nat {
    sum_by(votes, weight_for_subject(subject))
}

/// The sum of the weights that the votes of the given kind among `votes`
/// bring to `subject`.
pub open spec fn weight_cast_as<TOKEN: VoteToken, SHARE>(
    votes: Seq<CastVote<TOKEN, SHARE>>,
    subject: Seq<u8>,
    kind: CertificateKind,
) -> nat {
    sum_by(votes, weight_for_subject_as(subject, kind))
}

/// The stake accumulated for a subject is the stake that was there before
/// plus the weight of every vote recorded for it since.
pub proof fn lemma_stake_is_sum_of_weights<TOKEN: VoteToken, SHARE>(
    acc: AccumulatorView<TOKEN, SHARE>,
    votes: Seq<CastVote<TOKEN, SHARE>>,
    subject: Seq<u8>,
)
    ensures
        stake_in(record_all(acc, votes).total, subject) == stake_in(acc.total, subject)
            + weight_cast(votes, subject),
    decreases votes.len(),
{
    if votes.len() > 0 {
        lemma_stake_is_sum_of_weights(acc, votes.drop_last(), subject);
    }
}

/// The stake accumulated for a subject in one category is the stake that was
/// there before plus the weight of every vote of that category recorded for
/// the subject since.
pub proof fn lemma_category_stake_is_sum_of_weights<TOKEN: VoteToken, SHARE>(
    acc: AccumulatorView<TOKEN, SHARE>,
    votes: Seq<CastVote<TOKEN, SHARE>>,
    subject: Seq<u8>,
    kind: CertificateKind,
)
    ensures
        stake_in(tally_of(record_all(acc, votes), kind), subject) == stake_in(
            tally_of(acc, kind),
            subject,
        ) + weight_cast_as(votes, subject, kind),
    decreases votes.len(),
{
    if votes.len() > 0 {
        lemma_category_stake_is_sum_of_weights(acc, votes.drop_last(), subject, kind);
    }
}

/// The stake accumulated for a subject never falls: after any number of the
/// votes it is at most what it is after all of them.
pub proof fn lemma_stake_never_falls<TOKEN: VoteToken, SHARE>(
    acc: AccumulatorView<TOKEN, SHARE>,
    votes: Seq<CastVote<TOKEN, SHARE>>,
    count: int,
    subject: Seq<u8>,
)
    requires
        0 <= count <= votes.len(),
    ensures
        stake_in(record_all(acc, votes.take(count)).total, subject) <= stake_in(
            record_all(acc, votes).total,
            subject,
        ),
    decreases votes.len(),
{
    if count == votes.len() {
        assert(votes.take(count) =~= votes);
    } else {
        assert(votes.drop_last().take(count) =~= votes.take(count));
        lemma_stake_never_falls(acc, votes.drop_last(), count, subject);
    }
}

/// The state that a call leaves behind, if it leaves one: a certificate
/// leaves none.
pub open spec fn state_of<TOKEN, SHARE, AGG>(outcome: Outcome<TOKEN, SHARE, AGG>) -> Option<
    AccumulatorView<TOKEN, SHARE>,
> {
    match outcome {
        Outcome::Collecting(acc) => Some(acc),
        Outcome::Certified(_, _) => None,
        Outcome::Rejected(acc, _) => Some(acc),
    }
}

/// One call of `append` never lowers the stake of any subject. It raises the
/// stake of the ballot's subject by the ballot's weight where the ballot is
/// accepted, and changes no stake where it is not.
pub proof fn lemma_append_never_lowers_stake<TOKEN: VoteToken, SHARE, AGG>(
    acc: AccumulatorView<TOKEN, SHARE>,
    ballot: Ballot<TOKEN>,
    decoded: Option<SHARE>,
    kept: TOKEN,
    aggregated: Option<AGG>,
    subject: Seq<u8>,
)
    ensures
        state_of(append_outcome(acc, ballot, decoded, kept, aggregated)) matches Some(next)
            ==> stake_in(next.total, subject) == stake_in(acc.total, subject) + if decoded
            is Some && refusal(acc, ballot) is None && ballot.commitment@ == subject {
            ballot.token.weight() as nat
        } else {
            0
        },
{
}

/// No certificate is returned while the stake cast for the subject, counting
/// the vote just appended, is below the success threshold. A certificate
/// rests on an accepted vote and on the aggregate that was made, and the
/// tally of its own kind has reached that kind's threshold.
pub proof fn lemma_certificate_needs_quorum<TOKEN: VoteToken, SHARE, AGG>(
    acc: AccumulatorView<TOKEN, SHARE>,
    ballot: Ballot<TOKEN>,
    decoded: Option<SHARE>,
    kept: TOKEN,
    aggregated: Option<AGG>,
)
    ensures
        append_outcome(acc, ballot, decoded, kept, aggregated) matches Outcome::Certified(
            kind,
            signature,
        ) ==> {
            let next = recorded(acc, ballot, decoded->Some_0, kept);
            &&& decoded is Some
            &&& refusal(acc, ballot) is None
            &&& aggregated == Some(signature)
            &&& stake_in(acc.total, ballot.commitment@) + ballot.token.weight()
                >= acc.success_threshold
            &&& verdict(next, ballot.commitment@) == Some(kind)
            &&& stake_in(tally_of(next, kind), ballot.commitment@) >= if kind
                == CertificateKind::No {
                acc.failure_threshold
            } else {
                acc.success_threshold
            }
        },
{
}

/// The outcome certified for a subject is the first, in the order data
/// availability, acceptance, refusal, whose tally has reached its threshold:
/// a certificate of one kind means that no kind before it was due.
pub proof fn lemma_verdict_is_first_due<TOKEN, SHARE>(
    acc: AccumulatorView<TOKEN, SHARE>,
    subject: Seq<u8>,
)
    ensures
        verdict(acc, subject) == Some(CertificateKind::DA) <==> quorum_reached(acc, subject)
            && stake_in(acc.da, subject) >= acc.success_threshold,
        verdict(acc, subject) == Some(CertificateKind::Yes) <==> quorum_reached(acc, subject)
            && stake_in(acc.da, subject) < acc.success_threshold && stake_in(acc.yes, subject)
            >= acc.success_threshold,
        verdict(acc, subject) == Some(CertificateKind::No) <==> quorum_reached(acc, subject)
            && stake_in(acc.da, subject) < acc.success_threshold && stake_in(acc.yes, subject)
            < acc.success_threshold && stake_in(acc.no, subject) >= acc.failure_threshold,
{
}

/// One call of `append` as plain values: the ballot and what the signature
/// scheme answered.
pub struct Attempt<TOKEN, SHARE, AGG> {
    /// The ballot appended.
    pub ballot: Ballot<TOKEN>,
    /// What decoding the ballot's share gave.
    pub decoded: Option<SHARE>,
    /// The clone of the ballot's token.
    pub kept: TOKEN,
    /// What aggregating the shares gave, where it was tried.
    pub aggregated: Option<AGG>,
}

/// How a round ends that starts in the state `acc` and appends `attempts` one
/// after the other. After a call that failed the round goes on with the
/// accumulator handed back. After a certificate there is no accumulator to
/// go on with, and the certificate stays the round's outcome.
pub open spec fn run<TOKEN: VoteToken, SHARE, AGG>(
    acc: AccumulatorView<TOKEN, SHARE>,
    attempts: Seq<Attempt<TOKEN, SHARE, AGG>>,
) -> Outcome<TOKEN, SHARE, AGG>
    decreases attempts.len(),
{
    if attempts.len() == 0 {
        Outcome::Collecting(acc)
    } else {
        let before = run(acc, attempts.drop_last());
        let attempt = attempts.last();
        match state_of(before) {
            Some(state) => append_outcome(
                state,
                attempt.ballot,
                attempt.decoded,
                attempt.kept,
                attempt.aggregated,
            ),
            None => before,
        }
    }
}

/// A round yields at most one certificate: once some number of the attempts
/// have led to a certificate, every further attempt leaves that certificate
/// as the outcome.
pub proof fn lemma_certificate_is_final<TOKEN: VoteToken, SHARE, AGG>(
    acc: AccumulatorView<TOKEN, SHARE>,
    attempts: Seq<Attempt<TOKEN, SHARE, AGG>>,
    count: int,
)
    requires
        0 <= count <= attempts.len(),
        run(acc, attempts.take(count)) is Certified,
    ensures
        run(acc, attempts) == run(acc, attempts.take(count)),
    decreases attempts.len(),
{
    if count == attempts.len() {
        assert(attempts.take(count) =~= attempts);
    } else {
        assert(attempts.drop_last().take(count) =~= attempts.take(count));
        lemma_certificate_is_final(acc, attempts.drop_last(), count);
    }
}

/// The votes of `attempts`, each with the share that its signature decoded
/// to.
pub open spec fn cast_votes<TOKEN, SHARE, AGG>(attempts: Seq<Attempt<TOKEN, SHARE, AGG>>) -> Seq<
    CastVote<TOKEN, SHARE>,
> {
    Seq::new(
        attempts.len(),
        |i: int|
            CastVote {
                ballot: attempts[i].ballot,
                share: attempts[i].decoded->Some_0,
                kept: attempts[i].kept,
            },
    )
}

/// Where a round goes on collecting after every one of its attempts, its
/// state is that of recording each attempt's vote in turn.
pub proof fn lemma_collecting_round_records_all<TOKEN: VoteToken, SHARE, AGG>(
    acc: AccumulatorView<TOKEN, SHARE>,
    attempts: Seq<Attempt<TOKEN, SHARE, AGG>>,
)
    requires
        forall|count: int|
            0 <= count <= attempts.len() ==> #[trigger] run(acc, attempts.take(count))
                is Collecting,
    ensures
        run(acc, attempts) == Outcome::<TOKEN, SHARE, AGG>::Collecting(
            record_all(acc, cast_votes(attempts)),
        ),
    decreases attempts.len(),
{
    if attempts.len() > 0 {
        let shorter = attempts.drop_last();
        assert forall|count: int| 0 <= count <= shorter.len() implies #[trigger] run(
            acc,
            shorter.take(count),
        ) is Collecting by {
            assert(shorter.take(count) =~= attempts.take(count));
        }
        lemma_collecting_round_records_all(acc, shorter);
        assert(cast_votes(attempts).drop_last() =~= cast_votes(shorter));
        assert(attempts.take(attempts.len() as int) =~= attempts);
        assert(run(acc, attempts.take(attempts.len() as int)) is Collecting);
    }
}

/// Some vote among `votes` was cast by the signer at `position` of the stake
/// table.
pub open spec fn signed_by<TOKEN, SHARE>(
    votes: Seq<CastVote<TOKEN, SHARE>>,
    position: int,
) -> bool {
    exists|i: int| 0 <= i < votes.len() && (#[trigger] votes[i]).ballot.node_id == position
}

/// Every vote among `votes` was cast by a signer of a stake table with `size`
/// lines.
pub open spec fn signers_within<TOKEN, SHARE>(
    votes: Seq<CastVote<TOKEN, SHARE>>,
    size: nat,
) -> bool {
    forall|i: int| 0 <= i < votes.len() ==> (#[trigger] votes[i]).ballot.node_id < size
}

/// The bitmask keeps its length, and after any votes a bit is set exactly
/// where it was set before or belongs to the signer of one of the votes.
pub proof fn lemma_bit_set_iff_signed<TOKEN: VoteToken, SHARE>(
    acc: AccumulatorView<TOKEN, SHARE>,
    votes: Seq<CastVote<TOKEN, SHARE>>,
    position: int,
)
    requires
        signers_within(votes, acc.signers.len()),
        0 <= position < acc.signers.len(),
    ensures
        record_all(acc, votes).signers.len() == acc.signers.len(),
        record_all(acc, votes).signers[position] <==> acc.signers[position] || signed_by(
            votes,
            position,
        ),
    decreases votes.len(),
{
    if votes.len() > 0 {
        let shorter = votes.drop_last();
        assert forall|i: int| 0 <= i < shorter.len() implies (#[trigger] shorter[i]).ballot.node_id
            < acc.signers.len() by {
            assert(shorter[i] == votes[i]);
        }
        lemma_bit_set_iff_signed(acc, shorter, position);
        let last = votes.len() - 1;
        assert(votes[last].ballot.node_id < acc.signers.len());
        if signed_by(shorter, position) {
            let i = choose|i: int|
                0 <= i < shorter.len() && (#[trigger] shorter[i]).ballot.node_id == position;
            assert(votes[i].ballot.node_id == position);
        }
        if signed_by(votes, position) {
            let i = choose|i: int|
                0 <= i < votes.len() && (#[trigger] votes[i]).ballot.node_id == position;
            if i < last {
                assert(shorter[i].ballot.node_id == position);
            }
        }
    }
}

/// After votes from as many different signers, none of whom was marked
/// before, the bitmask has exactly that many more bits set, and the bit of
/// each of the signers is among them.
pub proof fn lemma_one_bit_for_each_signer<TOKEN: VoteToken, SHARE>(
    acc: AccumulatorView<TOKEN, SHARE>,
    votes: Seq<CastVote<TOKEN, SHARE>>,
)
    requires
        signers_within(votes, acc.signers.len()),
        forall|i: int|
            0 <= i < votes.len() ==> !acc.signers[(#[trigger] votes[i]).ballot.node_id as int],
        forall|i: int, j: int|
            0 <= i < j < votes.len() ==> (#[trigger] votes[i]).ballot.node_id != (
            #[trigger] votes[j]).ballot.node_id,
    ensures
        count_set(record_all(acc, votes).signers) == count_set(acc.signers) + votes.len(),
        forall|i: int|
            0 <= i < votes.len() ==> record_all(acc, votes).signers[(
            #[trigger] votes[i]).ballot.node_id as int],
    decreases votes.len(),
{
    if votes.len() > 0 {
        let shorter = votes.drop_last();
        let last = votes.len() - 1;
        let position = votes[last].ballot.node_id as int;
        assert forall|i: int| 0 <= i < shorter.len() implies (#[trigger] shorter[i]).ballot.node_id
            < acc.signers.len() && !acc.signers[shorter[i].ballot.node_id as int] by {
            assert(shorter[i] == votes[i]);
        }
        assert forall|i: int, j: int| 0 <= i < j < shorter.len() implies (
        #[trigger] shorter[i]).ballot.node_id != (#[trigger] shorter[j]).ballot.node_id by {
            assert(shorter[i] == votes[i]);
            assert(shorter[j] == votes[j]);
        }
        lemma_one_bit_for_each_signer(acc, shorter);
        lemma_bit_set_iff_signed(acc, shorter, position);
        if signed_by(shorter, position) {
            let i = choose|i: int|
                0 <= i < shorter.len() && (#[trigger] shorter[i]).ballot.node_id == position;
            assert(votes[i].ballot.node_id != votes[last].ballot.node_id);
        }
        lemma_count_after_set(record_all(acc, shorter).signers, position);
        assert forall|i: int| 0 <= i < votes.len() implies record_all(acc, votes).signers[(
        #[trigger] votes[i]).ballot.node_id as int] by {
            if i < last {
                assert(shorter[i] == votes[i]);
                lemma_bit_set_iff_signed(acc, shorter, votes[i].ballot.node_id as int);
            }
        }
    }
}

/// For each vote, its decoded share.
pub open spec fn share_of<TOKEN, SHARE>() -> spec_fn(CastVote<TOKEN, SHARE>) -> SHARE {
    |vote: CastVote<TOKEN, SHARE>| vote.share
}

/// The list of shares grows by the share of each vote, in the order of the
/// votes.
pub proof fn lemma_shares_follow_votes<TOKEN: VoteToken, SHARE>(
    acc: AccumulatorView<TOKEN, SHARE>,
    votes: Seq<CastVote<TOKEN, SHARE>>,
)
    ensures
        record_all(acc, votes).shares == acc.shares + votes.map_values(share_of()),
        record_all(acc, votes).success_threshold == acc.success_threshold,
        record_all(acc, votes).failure_threshold == acc.failure_threshold,
    decreases votes.len(),
{
    if votes.len() == 0 {
        assert(acc.shares + votes.map_values(share_of()) =~= acc.shares);
    } else {
        lemma_shares_follow_votes(acc, votes.drop_last());
        assert(acc.shares + votes.map_values(share_of()) =~= (acc.shares
            + votes.drop_last().map_values(share_of())).push(votes.last().share));
    }
}

/// The order in which votes arrive does not matter to what is aggregated nor
/// to what is certified. Two arrival orders of the same votes leave the same
/// bitmask, the same shares up to their order, and the same stake in every
/// tally of every subject, so that the same outcome is certified.
pub proof fn lemma_arrival_order_is_immaterial<TOKEN: VoteToken, SHARE>(
    acc: AccumulatorView<TOKEN, SHARE>,
    first: Seq<CastVote<TOKEN, SHARE>>,
    second: Seq<CastVote<TOKEN, SHARE>>,
    subject: Seq<u8>,
)
    requires
        reordered(first, second),
        signers_within(first, acc.signers.len()),
    ensures
        record_all(acc, first).signers == record_all(acc, second).signers,
        reordered(record_all(acc, first).shares, record_all(acc, second).shares),
        stake_in(record_all(acc, first).total, subject) == stake_in(
            record_all(acc, second).total,
            subject,
        ),
        forall|kind: CertificateKind|
            stake_in(#[trigger] tally_of(record_all(acc, first), kind), subject) == stake_in(
                tally_of(record_all(acc, second), kind),
                subject,
            ),
        verdict(record_all(acc, first), subject) == verdict(record_all(acc, second), subject),
{
    let one = record_all(acc, first);
    let other = record_all(acc, second);
    assert forall|i: int| 0 <= i < second.len() implies (#[trigger] second[i]).ballot.node_id
        < acc.signers.len() by {
        assert(second.contains(second[i]));
        lemma_reordered_same_elements(first, second, second[i]);
        let j = choose|j: int| 0 <= j < first.len() && first[j] == second[i];
        assert(first[j].ballot.node_id < acc.signers.len());
    }
    assert forall|position: int| 0 <= position < acc.signers.len() implies one.signers[position]
        == other.signers[position] by {
        lemma_bit_set_iff_signed(acc, first, position);
        lemma_bit_set_iff_signed(acc, second, position);
        if signed_by(first, position) {
            let i = choose|i: int|
                0 <= i < first.len() && (#[trigger] first[i]).ballot.node_id == position;
            assert(first.contains(first[i]));
            lemma_reordered_same_elements(first, second, first[i]);
            let j = choose|j: int| 0 <= j < second.len() && second[j] == first[i];
            assert(second[j].ballot.node_id == position);
        }
        if signed_by(second, position) {
            let i = choose|i: int|
                0 <= i < second.len() && (#[trigger] second[i]).ballot.node_id == position;
            assert(second.contains(second[i]));
            lemma_reordered_same_elements(first, second, second[i]);
            let j = choose|j: int| 0 <= j < first.len() && first[j] == second[i];
            assert(first[j].ballot.node_id == position);
        }
    }
    if acc.signers.len() > 0 {
        lemma_bit_set_iff_signed(acc, first, 0);
        lemma_bit_set_iff_signed(acc, second, 0);
    } else {
        lemma_no_votes_without_signers(acc, first);
        lemma_no_votes_without_signers(acc, second);
    }
    assert(one.signers =~= other.signers);

    lemma_shares_follow_votes(acc, first);
    lemma_shares_follow_votes(acc, second);
    lemma_mapped_reordered(first, second, share_of());
    lemma_multiset_commutative(acc.shares, first.map_values(share_of()));
    lemma_multiset_commutative(acc.shares, second.map_values(share_of()));

    lemma_stake_is_sum_of_weights(acc, first, subject);
    lemma_stake_is_sum_of_weights(acc, second, subject);
    lemma_sum_reordered(first, second, weight_for_subject(subject));
    assert forall|kind: CertificateKind|
        stake_in(#[trigger] tally_of(one, kind), subject) == stake_in(
            tally_of(other, kind),
            subject,
        ) by {
        lemma_category_stake_is_sum_of_weights(acc, first, subject, kind);
        lemma_category_stake_is_sum_of_weights(acc, second, subject, kind);
        lemma_sum_reordered(first, second, weight_for_subject_as(subject, kind));
    }
    assert(tally_of(one, CertificateKind::DA) == one.da);
    assert(tally_of(one, CertificateKind::Yes) == one.yes);
    assert(tally_of(one, CertificateKind::No) == one.no);
    assert(tally_of(other, CertificateKind::DA) == other.da);
    assert(tally_of(other, CertificateKind::Yes) == other.yes);
    assert(tally_of(other, CertificateKind::No) == other.no);
}

/// Where aggregation is a function of the threshold, the bitmask and the
/// shares in whatever order they stand, two arrival orders of the same votes
/// give the same aggregate.
pub proof fn lemma_aggregate_is_order_invariant<TOKEN: VoteToken, SHARE, AGG>(
    acc: AccumulatorView<TOKEN, SHARE>,
    first: Seq<CastVote<TOKEN, SHARE>>,
    second: Seq<CastVote<TOKEN, SHARE>>,
    aggregate: spec_fn(u64, Seq<bool>, Multiset<SHARE>) -> AGG,
)
    requires
        reordered(first, second),
        signers_within(first, acc.signers.len()),
    ensures
        ({
            let one = record_all(acc, first);
            let other = record_all(acc, second);
            aggregate(one.success_threshold, one.signers, one.shares.to_multiset()) == aggregate(
                other.success_threshold,
                other.signers,
                other.shares.to_multiset(),
            )
        }),
{
    lemma_arrival_order_is_immaterial(acc, first, second, Seq::empty());
    lemma_shares_follow_votes(acc, first);
    lemma_shares_follow_votes(acc, second);
}

/// A stake table without lines has no signers, so no vote can come from it.
proof fn lemma_no_votes_without_signers<TOKEN: VoteToken, SHARE>(
    acc: AccumulatorView<TOKEN, SHARE>,
    votes: Seq<CastVote<TOKEN, SHARE>>,
)
    requires
        signers_within(votes, acc.signers.len()),
        acc.signers.len() == 0,
    ensures
        record_all(acc, votes).signers.len() == 0,
{
    if votes.len() > 0 {
        assert(votes[0].ballot.node_id < 0);
    }
}

} // verus!

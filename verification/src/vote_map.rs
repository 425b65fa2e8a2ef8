//! Tallies by subject: for each commitment voted on, the stake cast for it
//! and the votes that cast it.

use crate::assoc::{
    as_map, distinct_keys, holds_key, key_at, lemma_empty_list, lemma_insert_new_key,
    lemma_one_entry_per_pair, lemma_pair_is_entry, lemma_replace_value, position,
};
use crate::data::{Commitment, EncodedPublicKey};
use crate::signer_map::{RecordView, SignerMap, SignerRecord};
use vstd::prelude::*;

verus! {

/// The votes for one subject and the stake they add up to.
pub struct Tally<TOKEN> {
    /// The stake accumulated by the votes appended for the subject.
    pub stake: u64,
    /// The latest vote of each signer.
    pub votes: SignerMap<TOKEN>,
}

/// A tally as plain values.
pub struct TallyView<TOKEN> {
    /// The stake accumulated by the votes appended for the subject.
    pub stake: nat,
    /// The latest vote of each signer, by the signer's key bytes.
    pub votes: Map<Seq<u8>, RecordView<TOKEN>>,
}

impl<TOKEN> View for Tally<TOKEN> {
    type V = TallyView<TOKEN>;

    open spec fn view(&self) -> TallyView<TOKEN> {
        TallyView { stake: self.stake as nat, votes: self.votes@ }
    }
}

/// The stake that `tallies` holds for the subject `subject`: none where the
/// subject has no tally.
pub open spec fn stake_in<TOKEN>(tallies: Map<Seq<u8>, TallyView<TOKEN>>, subject: Seq<u8>) -> nat {
    if tallies.contains_key(subject) {
        tallies[subject].stake
    } else {
        0
    }
}

/// The votes that `tallies` holds for the subject `subject`, by signer.
pub open spec fn votes_in<TOKEN>(
    tallies: Map<Seq<u8>, TallyView<TOKEN>>,
    subject: Seq<u8>,
) -> Map<Seq<u8>, RecordView<TOKEN>> {
    if tallies.contains_key(subject) {
        tallies[subject].votes
    } else {
        Map::empty()
    }
}

/// `tallies` after one more vote for `subject`: the subject's stake grows by
/// `weight`, and `record` becomes the vote of the signer `signer`, whatever
/// that signer had voted before.
pub open spec fn with_vote<TOKEN>(
    tallies: Map<Seq<u8>, TallyView<TOKEN>>,
    subject: Seq<u8>,
    signer: Seq<u8>,
    record: RecordView<TOKEN>,
    weight: nat,
) -> Map<Seq<u8>, TallyView<TOKEN>> {
    tallies.insert(
        subject,
        TallyView {
            stake: stake_in(tallies, subject) + weight,
            votes: votes_in(tallies, subject).insert(signer, record),
        },
    )
}

/// The commitment bytes and tally of each entry, in the entries' order.
pub open spec fn tallies_of<TOKEN>(entries: Seq<(Commitment, Tally<TOKEN>)>) -> Seq<
    (Seq<u8>, TallyView<TOKEN>),
> {
    Seq::new(entries.len(), |i: int| (entries[i].0@, entries[i].1@))
}

/// A map from commitments to tallies.
pub struct VoteMap<TOKEN> {
    entries: Vec<(Commitment, Tally<TOKEN>)>,
}

impl<TOKEN> View for VoteMap<TOKEN> {
    type V = Map<Seq<u8>, TallyView<TOKEN>>;

    closed spec fn view(&self) -> Map<Seq<u8>, TallyView<TOKEN>> {
        as_map(tallies_of(self.entries@))
    }
}

/// The position of the entry for `subject`, if there is one.
fn find<TOKEN>(entries: &Vec<(Commitment, Tally<TOKEN>)>, subject: &Commitment) -> (place: Option<
    usize,
>)
    ensures
        place matches Some(i) ==> i < entries@.len() && entries@[i as int].0@ == subject@,
        place is None <==> !holds_key(tallies_of(entries@), subject@),
{
    let ghost pairs = tallies_of(entries@);
    let mut i: usize = 0;
    while i < entries.len()
        invariant
            pairs == tallies_of(entries@),
            i <= entries@.len(),
            forall|j: int| 0 <= j < i ==> #[trigger] entries@[j].0@ != subject@,
        decreases entries@.len() - i,
    {
        if entries[i].0.matches(subject) {
            assert(key_at(pairs, i as int, subject@));
            return Some(i);
        }
        i += 1;
    }
    proof {
        if holds_key(pairs, subject@) {
            let p = position(pairs, subject@);
            assert(key_at(pairs, p, subject@));
            assert(entries@[p].0@ != subject@);
        }
    }
    None
}

impl<TOKEN> VoteMap<TOKEN> {
    #[verifier::type_invariant]
    spec fn unique(self) -> bool {
        distinct_keys(tallies_of(self.entries@))
    }

    /// A map without tallies.
    pub fn new() -> (map: VoteMap<TOKEN>)
        ensures
            map@ == Map::<Seq<u8>, TallyView<TOKEN>>::empty(),
    {
        let map = VoteMap { entries: Vec::new() };
        proof {
            lemma_empty_list(tallies_of(map.entries@));
        }
        map
    }

    /// The number of subjects with a tally.
    pub fn len(&self) -> (len: usize)
        ensures
            self@.dom().finite(),
            len == self@.len(),
    {
        proof {
            use_type_invariant(self);
            lemma_one_entry_per_pair(tallies_of(self.entries@));
        }
        self.entries.len()
    }

    /// The subjects and their tallies, each subject once, in no order that
    /// callers may rely on.
    pub fn entries(&self) -> (entries: &Vec<(Commitment, Tally<TOKEN>)>)
        ensures
            distinct_keys(tallies_of(entries@)),
            as_map(tallies_of(entries@)) == self@,
    {
        proof {
            use_type_invariant(self);
        }
        &self.entries
    }

    /// The tally kept for `subject`, if any vote for it was recorded.
    pub fn get(&self, subject: &Commitment) -> (found: Option<&Tally<TOKEN>>)
        ensures
            found is Some <==> self@.contains_key(subject@),
            found matches Some(tally) ==> tally@ == self@[subject@],
    {
        proof {
            use_type_invariant(self);
        }
        match find(&self.entries, subject) {
            Some(i) => {
                proof {
                    lemma_pair_is_entry(tallies_of(self.entries@), i as int);
                }
                Some(&self.entries[i].1)
            },
            None => None,
        }
    }

    /// The stake accumulated for `subject`: zero where no vote for it was
    /// recorded.
    pub fn stake(&self, subject: &Commitment) -> (stake: u64)
        ensures
            stake == stake_in(self@, subject@),
    {
        match self.get(subject) {
            Some(tally) => tally.stake,
            None => 0,
        }
    }

    /// Records one vote for `subject`: adds `weight` to the subject's stake
    /// and keeps `record` as the vote of the signer `signer`, creating the
    /// subject's tally if this is its first vote. Where the stake would no
    /// longer fit in a `u64` nothing is recorded and the answer is `false`.
    pub fn record(
        &mut self,
        subject: Commitment,
        weight: u64,
        signer: EncodedPublicKey,
        record: SignerRecord<TOKEN>,
    ) -> (recorded: bool)
        ensures
            recorded <==> stake_in(old(self)@, subject@) + weight <= u64::MAX,
            recorded ==> final(self)@ == with_vote(
                old(self)@,
                subject@,
                signer@,
                record@,
                weight as nat,
            ),
            !recorded ==> final(self)@ == old(self)@,
    {
        proof {
            use_type_invariant(&*self);
        }
        let ghost before = tallies_of(self.entries@);
        match find(&self.entries, &subject) {
            Some(i) => {
                proof {
                    lemma_pair_is_entry(before, i as int);
                }
                if weight > u64::MAX - self.entries[i].1.stake {
                    return false;
                }
                let mut entries: Vec<(Commitment, Tally<TOKEN>)> = Vec::new();
                proof {
                    lemma_empty_list(tallies_of(entries@));
                }
                std::mem::swap(&mut entries, &mut self.entries);
                let (commitment, mut tally) = entries.remove(i);
                tally.stake = tally.stake + weight;
                tally.votes.insert(signer, record);
                let ghost pair = (commitment@, tally@);
                entries.insert(i, (commitment, tally));
                proof {
                    assert(tallies_of(entries@) =~= before.update(i as int, pair));
                    lemma_replace_value(before, i as int, pair.1);
                }
                self.entries = entries;
                true
            },
            None => {
                let mut votes = SignerMap::new();
                votes.insert(signer, record);
                let tally = Tally { stake: weight, votes };
                let ghost pair = (subject@, tally@);
                let mut entries: Vec<(Commitment, Tally<TOKEN>)> = Vec::new();
                proof {
                    lemma_empty_list(tallies_of(entries@));
                }
                std::mem::swap(&mut entries, &mut self.entries);
                entries.push((subject, tally));
                proof {
                    assert(tallies_of(entries@) =~= before.insert(before.len() as int, pair));
                    lemma_insert_new_key(before, before.len() as int, pair.0, pair.1);
                }
                self.entries = entries;
                true
            },
        }
    }
}

} // verus!

//! The votes cast for one subject, by signer.
//!
//! A signer's later vote replaces their earlier one. The entries are kept in
//! ascending order of the signers' encoded public keys, so that walking the
//! map visits the signers in that order.

use crate::assoc::{
    as_map, distinct_keys, holds_key, key_at, lemma_empty_list, lemma_insert_new_key,
    lemma_one_entry_per_pair, lemma_pair_is_entry, lemma_replace_value, position,
};
use crate::bytes::{compare_bytes, lemma_lex_irreflexive, lemma_lex_transitive, lex_less, ByteOrder};
use crate::data::{EncodedPublicKey, EncodedSignature, VoteData};
use vstd::prelude::*;

verus! {

/// What is kept of a signer's vote.
pub struct SignerRecord<TOKEN> {
    /// The signature share as it came over the wire.
    pub signature: EncodedSignature,
    /// The vote's category and subject.
    pub vote_data: VoteData,
    /// The token that entitled the signer to the vote.
    pub token: TOKEN,
}

/// A signer's record as plain values.
pub struct RecordView<TOKEN> {
    /// The bytes of the signature share.
    pub signature: Seq<u8>,
    /// The vote's category and subject.
    pub vote_data: VoteData,
    /// The token that entitled the signer to the vote.
    pub token: TOKEN,
}

impl<TOKEN> View for SignerRecord<TOKEN> {
    type V = RecordView<TOKEN>;

    open spec fn view(&self) -> RecordView<TOKEN> {
        RecordView { signature: self.signature@, vote_data: self.vote_data, token: self.token }
    }
}

/// The key bytes and record of each entry, in the entries' order.
pub open spec fn pairs_of<TOKEN>(entries: Seq<(EncodedPublicKey, SignerRecord<TOKEN>)>) -> Seq<
    (Seq<u8>, RecordView<TOKEN>),
> {
    Seq::new(entries.len(), |i: int| (entries[i].0@, entries[i].1@))
}

/// The keys of `pairs` stand in strictly ascending order.
pub open spec fn ascending<V>(pairs: Seq<(Seq<u8>, V)>) -> bool {
    forall|i: int, j: int| 0 <= i < j < pairs.len() ==> lex_less(pairs[i].0, pairs[j].0)
}

/// Keys in strictly ascending order are all different.
pub proof fn lemma_ascending_is_distinct<V>(pairs: Seq<(Seq<u8>, V)>)
    requires
        ascending(pairs),
    ensures
        distinct_keys(pairs),
{
    assert forall|i: int, j: int| 0 <= i < j < pairs.len() implies pairs[i].0 != pairs[j].0 by {
        lemma_lex_irreflexive(pairs[i].0);
    }
}

/// A map from encoded public keys to the records of their votes, ordered by
/// key.
pub struct SignerMap<TOKEN> {
    entries: Vec<(EncodedPublicKey, SignerRecord<TOKEN>)>,
}

impl<TOKEN> View for SignerMap<TOKEN> {
    type V = Map<Seq<u8>, RecordView<TOKEN>>;

    closed spec fn view(&self) -> Map<Seq<u8>, RecordView<TOKEN>> {
        as_map(pairs_of(self.entries@))
    }
}

/// Where `key` stands, or would stand, among the ascending `entries`: the
/// position of the first entry whose key does not sort before it, and whether
/// that entry holds `key` itself.
fn locate<TOKEN>(entries: &Vec<(EncodedPublicKey, SignerRecord<TOKEN>)>, key: &[u8]) -> (place: (
    usize,
    bool,
))
    requires
        ascending(pairs_of(entries@)),
    ensures
        place.0 <= entries@.len(),
        forall|j: int| 0 <= j < place.0 ==> lex_less(#[trigger] entries@[j].0@, key@),
        place.1 ==> place.0 < entries@.len() && entries@[place.0 as int].0@ == key@,
        !place.1 ==> forall|j: int|
            place.0 <= j < entries@.len() ==> lex_less(key@, #[trigger] entries@[j].0@),
        place.1 <==> holds_key(pairs_of(entries@), key@),
{
    let ghost pairs = pairs_of(entries@);
    let mut i: usize = 0;
    let mut found = false;
    let mut passed = false;
    while i < entries.len() && !found && !passed
        invariant
            pairs == pairs_of(entries@),
            ascending(pairs),
            i <= entries@.len(),
            forall|j: int| 0 <= j < i ==> lex_less(#[trigger] entries@[j].0@, key@),
            found ==> i < entries@.len() && entries@[i as int].0@ == key@,
            passed ==> i < entries@.len() && lex_less(key@, entries@[i as int].0@),
            !(found && passed),
        decreases entries@.len() - i + (if found || passed { 0int } else { 1int }),
    {
        match compare_bytes(entries[i].0.0.as_slice(), key) {
            ByteOrder::Before => {
                i += 1;
            },
            ByteOrder::Same => {
                found = true;
            },
            ByteOrder::After => {
                passed = true;
            },
        }
    }
    proof {
        if !found {
            assert forall|j: int| i <= j < entries@.len() implies lex_less(
                key@,
                #[trigger] entries@[j].0@,
            ) by {
                if j > i {
                    assert(lex_less(pairs[i as int].0, pairs[j].0));
                    lemma_lex_transitive(key@, entries@[i as int].0@, entries@[j].0@);
                }
            }
            if holds_key(pairs, key@) {
                let p = position(pairs, key@);
                assert(key_at(pairs, p, key@));
                lemma_lex_irreflexive(key@);
                if p < i {
                    assert(lex_less(entries@[p].0@, key@));
                } else {
                    assert(lex_less(key@, entries@[p].0@));
                }
            }
        } else {
            assert(key_at(pairs, i as int, key@));
        }
    }
    (i, found)
}

impl<TOKEN> SignerMap<TOKEN> {
    #[verifier::type_invariant]
    spec fn ordered(self) -> bool {
        ascending(pairs_of(self.entries@))
    }

    /// A map without entries.
    pub fn new() -> (map: SignerMap<TOKEN>)
        ensures
            map@ == Map::<Seq<u8>, RecordView<TOKEN>>::empty(),
    {
        let map = SignerMap { entries: Vec::new() };
        proof {
            lemma_empty_list(pairs_of(map.entries@));
        }
        map
    }

    /// The number of signers with a record.
    pub fn len(&self) -> (len: usize)
        ensures
            self@.dom().finite(),
            len == self@.len(),
    {
        proof {
            use_type_invariant(self);
            lemma_ascending_is_distinct(pairs_of(self.entries@));
            lemma_one_entry_per_pair(pairs_of(self.entries@));
        }
        self.entries.len()
    }

    /// The signers and their records, in ascending order of the signers'
    /// keys.
    pub fn entries(&self) -> (entries: &Vec<(EncodedPublicKey, SignerRecord<TOKEN>)>)
        ensures
            ascending(pairs_of(entries@)),
            as_map(pairs_of(entries@)) == self@,
    {
        proof {
            use_type_invariant(self);
        }
        &self.entries
    }

    /// The record kept for `key`, if there is one.
    pub fn get(&self, key: &EncodedPublicKey) -> (found: Option<&SignerRecord<TOKEN>>)
        ensures
            found is Some <==> self@.contains_key(key@),
            found matches Some(record) ==> record@ == self@[key@],
    {
        proof {
            use_type_invariant(self);
            lemma_ascending_is_distinct(pairs_of(self.entries@));
        }
        let (i, found) = locate(&self.entries, key.0.as_slice());
        if found {
            proof {
                lemma_pair_is_entry(pairs_of(self.entries@), i as int);
            }
            Some(&self.entries[i].1)
        } else {
            None
        }
    }

    /// Keeps `record` as the vote of the signer `key`, in place of any record
    /// kept for that signer before.
    pub fn insert(&mut self, key: EncodedPublicKey, record: SignerRecord<TOKEN>)
        ensures
            final(self)@ == old(self)@.insert(key@, record@),
    {
        proof {
            use_type_invariant(&*self);
        }
        let mut entries: Vec<(EncodedPublicKey, SignerRecord<TOKEN>)> = Vec::new();
        proof {
            lemma_empty_list(pairs_of(entries@));
        }
        std::mem::swap(&mut entries, &mut self.entries);
        let ghost before = pairs_of(entries@);
        let ghost pair = (key@, record@);
        proof {
            lemma_ascending_is_distinct(before);
        }
        let (i, found) = locate(&entries, key.0.as_slice());
        if found {
            entries.set(i, (key, record));
            proof {
                assert(pairs_of(entries@) =~= before.update(i as int, pair));
                lemma_replace_value(before, i as int, pair.1);
                assert forall|a: int, b: int| 0 <= a < b < entries@.len() implies lex_less(
                    pairs_of(entries@)[a].0,
                    pairs_of(entries@)[b].0,
                ) by {
                    assert(lex_less(before[a].0, before[b].0));
                }
            }
        } else {
            entries.insert(i, (key, record));
            proof {
                assert(pairs_of(entries@) =~= before.insert(i as int, pair));
                lemma_insert_new_key(before, i as int, pair.0, pair.1);
                assert forall|a: int, b: int| 0 <= a < b < entries@.len() implies lex_less(
                    pairs_of(entries@)[a].0,
                    pairs_of(entries@)[b].0,
                ) by {
                    let oa = if a < i { a } else { a - 1 };
                    let ob = if b < i { b } else { b - 1 };
                    if a == i {
                        assert(pairs_of(entries@)[b].0 == before[ob].0);
                    } else if b == i {
                        assert(pairs_of(entries@)[a].0 == before[oa].0);
                    } else {
                        assert(lex_less(before[oa].0, before[ob].0));
                    }
                }
            }
        }
        self.entries = entries;
    }
}

} // verus!

use vote_accumulator::bytes::{bytes_equal, compare_bytes, ByteOrder};
use vote_accumulator::data::{
    copy_bytes, Commitment, EncodedPublicKey, EncodedSignature, ViewNumber, VoteData,
};
use vote_accumulator::signer_map::{SignerMap, SignerRecord};
use vote_accumulator::vote_map::VoteMap;

#[test]
fn byte_strings_compare_lexicographically() {
    assert_eq!(compare_bytes(&[], &[]), ByteOrder::Same);
    assert_eq!(compare_bytes(&[], &[0]), ByteOrder::Before);
    assert_eq!(compare_bytes(&[0], &[]), ByteOrder::After);
    assert_eq!(compare_bytes(&[1, 2, 3], &[1, 2, 3]), ByteOrder::Same);
    assert_eq!(compare_bytes(&[1, 2], &[1, 2, 0]), ByteOrder::Before);
    assert_eq!(compare_bytes(&[1, 2, 0], &[1, 2]), ByteOrder::After);
    assert_eq!(compare_bytes(&[1, 9], &[2]), ByteOrder::Before);
    assert_eq!(compare_bytes(&[2], &[1, 9]), ByteOrder::After);
    assert_eq!(compare_bytes(&[5, 0, 255], &[5, 1, 0]), ByteOrder::Before);
}

#[test]
fn byte_order_agrees_with_the_order_of_vectors() {
    let samples: Vec<Vec<u8>> =
        vec![vec![], vec![0], vec![0, 0], vec![0, 1], vec![1], vec![1, 0], vec![255], vec![3, 3, 3]];
    for a in &samples {
        for b in &samples {
            let expected = if a < b {
                ByteOrder::Before
            } else if a == b {
                ByteOrder::Same
            } else {
                ByteOrder::After
            };
            assert_eq!(compare_bytes(a, b), expected);
            assert_eq!(bytes_equal(a, b), a == b);
        }
    }
}

#[test]
fn copies_hold_the_same_bytes() {
    assert_eq!(copy_bytes(&vec![]), Vec::<u8>::new());
    assert_eq!(copy_bytes(&vec![4, 5, 6]), vec![4, 5, 6]);
}

#[test]
fn commitments_match_on_all_bytes() {
    let mut bytes = [7u8; 32];
    let a = Commitment::from_raw(bytes);
    assert_eq!(a.bytes, bytes);
    assert!(a.matches(&Commitment::from_raw([7u8; 32])));
    bytes[31] = 8;
    assert!(!a.matches(&Commitment::from_raw(bytes)));
    bytes[31] = 7;
    bytes[0] = 0;
    assert!(!a.matches(&Commitment::from_raw(bytes)));
}

#[test]
fn only_three_categories_are_tallied() {
    let subject = Commitment::from_raw([0u8; 32]);
    assert!(VoteData::DA(subject).tallied());
    assert!(VoteData::Yes(subject).tallied());
    assert!(VoteData::No(subject).tallied());
    assert!(!VoteData::Timeout(ViewNumber(0)).tallied());
    assert!(!VoteData::ViewSync(vote_accumulator::data::ViewSyncPhase::PreCommit, subject).tallied());
}

fn record(share: u8) -> SignerRecord<u64> {
    SignerRecord {
        signature: EncodedSignature(vec![share]),
        vote_data: VoteData::Yes(Commitment::from_raw([0u8; 32])),
        token: 1,
    }
}

#[test]
fn signer_map_keeps_its_keys_in_ascending_order() {
    let mut map: SignerMap<u64> = SignerMap::new();
    assert_eq!(map.len(), 0);
    assert!(map.get(&EncodedPublicKey(vec![1])).is_none());
    map.insert(EncodedPublicKey(vec![5]), record(50));
    map.insert(EncodedPublicKey(vec![1, 2]), record(12));
    map.insert(EncodedPublicKey(vec![9]), record(90));
    map.insert(EncodedPublicKey(vec![1]), record(10));
    map.insert(EncodedPublicKey(vec![]), record(0));
    assert_eq!(map.len(), 5);
    let keys: Vec<Vec<u8>> = map.entries().iter().map(|entry| entry.0 .0.clone()).collect();
    assert_eq!(keys, vec![vec![], vec![1], vec![1, 2], vec![5], vec![9]]);
    assert_eq!(map.get(&EncodedPublicKey(vec![1, 2])).unwrap().signature, EncodedSignature(vec![12]));
    assert!(map.get(&EncodedPublicKey(vec![1, 3])).is_none());
}

#[test]
fn signer_map_replaces_the_record_of_a_known_key() {
    let mut map: SignerMap<u64> = SignerMap::new();
    map.insert(EncodedPublicKey(vec![5]), record(50));
    map.insert(EncodedPublicKey(vec![6]), record(60));
    map.insert(EncodedPublicKey(vec![5]), record(51));
    assert_eq!(map.len(), 2);
    assert_eq!(map.get(&EncodedPublicKey(vec![5])).unwrap().signature, EncodedSignature(vec![51]));
    assert_eq!(map.get(&EncodedPublicKey(vec![6])).unwrap().signature, EncodedSignature(vec![60]));
    assert_eq!(map.entries()[0].0, EncodedPublicKey(vec![5]));
}

#[test]
fn vote_map_adds_up_stake_by_subject() {
    let a = Commitment::from_raw([1u8; 32]);
    let b = Commitment::from_raw([2u8; 32]);
    let mut map: VoteMap<u64> = VoteMap::new();
    assert_eq!(map.len(), 0);
    assert_eq!(map.stake(&a), 0);
    assert!(map.get(&a).is_none());
    assert!(map.record(a, 3, EncodedPublicKey(vec![1]), record(1)));
    assert!(map.record(b, 4, EncodedPublicKey(vec![1]), record(2)));
    assert!(map.record(a, 5, EncodedPublicKey(vec![2]), record(3)));
    assert_eq!(map.len(), 2);
    assert_eq!(map.stake(&a), 8);
    assert_eq!(map.stake(&b), 4);
    assert_eq!(map.get(&a).unwrap().stake, 8);
    assert_eq!(map.get(&a).unwrap().votes.len(), 2);
    assert_eq!(map.get(&b).unwrap().votes.len(), 1);
}

#[test]
fn vote_map_refuses_stake_that_does_not_fit() {
    let a = Commitment::from_raw([1u8; 32]);
    let mut map: VoteMap<u64> = VoteMap::new();
    assert!(map.record(a, u64::MAX, EncodedPublicKey(vec![1]), record(1)));
    assert!(!map.record(a, 1, EncodedPublicKey(vec![2]), record(2)));
    assert_eq!(map.stake(&a), u64::MAX);
    assert_eq!(map.get(&a).unwrap().votes.len(), 1);
    assert!(map.record(a, 0, EncodedPublicKey(vec![2]), record(2)));
    assert_eq!(map.get(&a).unwrap().votes.len(), 2);
}

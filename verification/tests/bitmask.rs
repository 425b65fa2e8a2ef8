use vote_accumulator::bitmask::SignerBitmask;

fn mask(len: usize) -> SignerBitmask {
    match SignerBitmask::new(len) {
        Some(mask) => mask,
        None => panic!("a mask of {} bits can be made", len),
    }
}

#[test]
fn new_bitmask_is_clear() {
    let bits = mask(4);
    assert_eq!(bits.len(), 4);
    assert_eq!(bits.count_ones(), 0);
    assert!(!bits.is_set(0));
    assert!(!bits.is_set(3));
    assert!(!bits.is_set(4));
    assert_eq!(bits.to_vec(), vec![false, false, false, false]);
    assert_eq!(mask(0).len(), 0);
    assert_eq!(mask(0).to_vec(), Vec::<bool>::new());
}

#[test]
fn bitmask_has_a_largest_length() {
    assert!(SignerBitmask::new(usize::MAX).is_none());
    assert!(SignerBitmask::new(usize::MAX / 8 + 1).is_none());
    assert!(SignerBitmask::new(100).is_some());
}

#[test]
fn mark_sets_one_bit() {
    let mut bits = mask(70);
    assert!(bits.mark(2));
    assert!(bits.is_set(2));
    assert!(!bits.is_set(1));
    assert!(!bits.is_set(3));
    assert!(bits.mark(69));
    assert!(bits.is_set(69));
    assert_eq!(bits.count_ones(), 2);
    assert_eq!(bits.len(), 70);
}

#[test]
fn mark_beyond_the_mask_changes_nothing() {
    let mut bits = mask(4);
    assert!(!bits.mark(4));
    assert!(!bits.mark(usize::MAX));
    assert_eq!(bits.count_ones(), 0);
    assert_eq!(bits.len(), 4);
}

#[test]
fn marking_twice_is_marking_once() {
    let mut bits = mask(4);
    assert!(bits.mark(1));
    assert!(bits.mark(1));
    assert_eq!(bits.count_ones(), 1);
    assert_eq!(bits.to_vec(), vec![false, true, false, false]);
}

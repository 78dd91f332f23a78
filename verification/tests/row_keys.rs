use ui_core::row_keys::ByteOrder;
use std::collections::hash_map::DefaultHasher;
use std::hash::{Hash, Hasher};
use ui_core::row_keys::{Occurrences, index_by_key};

#[test]
fn a_first_occurrence_keeps_its_key() {
    let mut o = Occurrences::new();
    assert_eq!(o.identify(7), 7);
    assert_eq!(o.identify(8), 8);
}

#[test]
fn a_repeated_key_gets_an_identity_of_its_own() {
    let mut o = Occurrences::new();
    let first = o.identify(7);
    let second = o.identify(7);
    let third = o.identify(7);
    assert_eq!(first, 7);
    assert_ne!(second, 7);
    assert_ne!(third, second);
    // A new pass derives the same identities again.
    let mut again = Occurrences::new();
    assert_eq!(again.identify(7), first);
    assert_eq!(again.identify(7), second);
    assert_eq!(again.identify(7), third);
}

#[test]
fn the_first_row_to_carry_a_key_is_indexed_and_the_rest_handed_back() {
    let (indexed, strays) = index_by_key(vec![1, 2, 1, 3, 2], vec!["a", "b", "c", "d", "e"]);
    assert_eq!(indexed.len(), 3);
    assert_eq!(indexed[&1], "a");
    assert_eq!(indexed[&2], "b");
    assert_eq!(indexed[&3], "d");
    assert_eq!(strays, vec!["c", "e"]);
}

#[test]
fn pairs_past_the_shorter_list_are_not_read() {
    let (indexed, strays) = index_by_key(vec![1, 2, 3], vec!["a"]);
    assert_eq!(indexed.len(), 1);
    assert!(strays.is_empty());
    let (indexed, strays) = index_by_key(vec![4], vec!["a", "b"]);
    assert_eq!(indexed[&4], "a");
    assert!(strays.is_empty());
}

#[test]
fn a_repeat_is_known_by_the_hash_of_its_key_and_occurrence() {
    let expected = |key: u64, occurrence: u64| {
        let mut h = DefaultHasher::new();
        (key, occurrence).hash(&mut h);
        h.finish()
    };
    let mut o = Occurrences::new();
    assert_eq!(o.identify(0x0102_0304_0506_0708), 0x0102_0304_0506_0708);
    assert_eq!(o.identify(0x0102_0304_0506_0708), expected(0x0102_0304_0506_0708, 1));
    assert_eq!(o.identify(0x0102_0304_0506_0708), expected(0x0102_0304_0506_0708, 2));
}

#[test]
fn a_pass_in_a_given_order_hashes_in_it() {
    let mut little = Occurrences::with_order(ByteOrder::Little);
    let mut big = Occurrences::with_order(ByteOrder::Big);
    assert_eq!(little.identify(3), 3);
    assert_eq!(big.identify(3), 3);
    assert_ne!(little.identify(3), big.identify(3), "the two orders hash different bytes");
}

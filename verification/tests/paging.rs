use bf_machine::paging::{encode_segment, materialize, record_key, PagingStore};

#[test]
fn record_key_is_the_numeral_and_the_suffix() {
    assert_eq!(record_key(0), "0mem.txt");
    assert_eq!(record_key(7), "7mem.txt");
    assert_eq!(record_key(10), "10mem.txt");
    assert_eq!(record_key(30_000), "30000mem.txt");
    assert_eq!(record_key(1_000_000_007), "1000000007mem.txt");
}

#[test]
fn record_key_of_the_highest_identity() {
    assert_eq!(
        record_key(u128::MAX),
        "340282366920938463463374607431768211455mem.txt"
    );
}

#[test]
fn record_key_agrees_with_the_standard_numeral() {
    for identity in [1u128, 9, 11, 99, 100, 101, 12345678901234567890, u128::MAX - 1] {
        assert_eq!(record_key(identity), format!("{}mem.txt", identity));
    }
}

#[test]
fn record_keys_differ() {
    let keys: Vec<String> = (0..200u128).map(record_key).collect();
    for a in 0..keys.len() {
        for b in (a + 1)..keys.len() {
            assert_ne!(keys[a], keys[b]);
        }
    }
}

#[test]
fn record_holds_the_cells_byte_for_byte() {
    let segment: Vec<u8> = (0..=255u8).collect();
    assert_eq!(encode_segment(&segment), segment);
    assert_eq!(encode_segment(&vec![]), Vec::<u8>::new());
    assert_eq!(encode_segment(&vec![0, 255, 7]), vec![0, 255, 7]);
}

#[test]
fn record_is_a_copy_of_its_own() {
    let mut segment = vec![1u8, 2, 3];
    let record = encode_segment(&segment);
    segment[0] = 9;
    assert_eq!(record, vec![1, 2, 3]);
}

#[test]
fn materialize_returns_the_record() {
    assert_eq!(materialize(Some(vec![4, 5, 6]), 3), vec![4, 5, 6]);
    assert_eq!(materialize(Some(vec![4]), 3), vec![4]);
}

#[test]
fn materialize_creates_on_miss() {
    assert_eq!(materialize(None, 3), vec![0, 0, 0]);
    assert_eq!(materialize(None, 0), Vec::<u8>::new());
}

#[test]
fn store_loads_what_was_archived() {
    let mut store = PagingStore::new(3);
    assert_eq!(store.window(), 3);
    assert!(!store.holds(5));
    store.archive(5, &vec![1, 2, 3]);
    assert!(store.holds(5));
    assert_eq!(store.load(5), vec![1, 2, 3]);
    assert_eq!(store.load(5), vec![1, 2, 3]);
}

#[test]
fn store_creates_zeroed_segments_on_miss() {
    let store = PagingStore::new(4);
    assert_eq!(store.load(0), vec![0, 0, 0, 0]);
    assert_eq!(store.load(u128::MAX), vec![0, 0, 0, 0]);
    assert!(!store.holds(0));
}

#[test]
fn archive_overwrites() {
    let mut store = PagingStore::new(2);
    store.archive(1, &vec![1, 1]);
    store.archive(1, &vec![2, 2]);
    assert_eq!(store.load(1), vec![2, 2]);
}

#[test]
fn records_do_not_disturb_each_other() {
    let mut store = PagingStore::new(2);
    store.archive(1, &vec![1, 1]);
    store.archive(2, &vec![2, 2]);
    store.archive(u128::MAX, &vec![9, 9]);
    assert_eq!(store.load(1), vec![1, 1]);
    assert_eq!(store.load(2), vec![2, 2]);
    assert_eq!(store.load(u128::MAX), vec![9, 9]);
    assert_eq!(store.load(3), vec![0, 0]);
}

#[test]
fn purge_drops_every_record() {
    let mut store = PagingStore::new(2);
    store.archive(1, &vec![1, 1]);
    store.archive(2, &vec![2, 2]);
    store.purge();
    assert!(!store.holds(1));
    assert!(!store.holds(2));
    assert_eq!(store.load(1), vec![0, 0]);
    assert_eq!(store.window(), 2);
}

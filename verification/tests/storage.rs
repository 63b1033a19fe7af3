use credi::storage::{
    covers, covers_record, record_space, ACCOUNT_FIELDS, ACCOUNT_SPACE, EXTENSION_RESERVE,
    MINT_FIELDS, MINT_SPACE, RECORD_HEADER,
};

#[test]
fn mint_record_takes_98_bytes() {
    assert_eq!(MINT_SPACE, 98);
    assert_eq!(record_space(MINT_FIELDS, true), Some(98));
    assert_eq!(record_space(MINT_FIELDS, false), Some(90));
    assert_eq!(RECORD_HEADER + MINT_FIELDS + EXTENSION_RESERVE, MINT_SPACE);
}

#[test]
fn account_record_takes_181_bytes() {
    assert_eq!(ACCOUNT_SPACE, 181);
    assert_eq!(record_space(ACCOUNT_FIELDS, true), Some(181));
    assert_eq!(record_space(ACCOUNT_FIELDS, false), Some(173));
}

#[test]
fn record_space_counts_the_reserve_whatever_the_fields() {
    assert_eq!(record_space(0, true), Some(16));
    assert_eq!(record_space(0, false), Some(8));
    assert_eq!(record_space(1000, true), Some(1016));
}

#[test]
fn record_space_is_none_when_it_does_not_fit() {
    assert_eq!(record_space(u64::MAX, false), None);
    assert_eq!(record_space(u64::MAX - 8, false), Some(u64::MAX));
    assert_eq!(record_space(u64::MAX - 8, true), None);
    assert_eq!(record_space(u64::MAX - 16, true), Some(u64::MAX));
    assert_eq!(record_space(u64::MAX - 15, true), None);
}

#[test]
fn covers_compares_funds_with_price_times_space() {
    assert!(covers(980, 10, 98));
    assert!(covers(981, 10, 98));
    assert!(!covers(979, 10, 98));
    assert!(covers(0, 0, 98));
    assert!(covers(0, 10, 0));
    assert!(!covers(0, 1, 1));
}

#[test]
fn covers_does_not_wrap_on_large_prices() {
    assert!(!covers(u64::MAX, u64::MAX, 2));
    assert!(covers(u64::MAX, u64::MAX, 1));
    assert!(!covers(u64::MAX, u64::MAX, u64::MAX));
    assert!(!covers(0, 1 << 63, 2));
    assert!(!covers(5, 1 << 32, 1 << 32));
}

#[test]
fn covers_record_prices_the_fields_with_header_and_reserve() {
    assert!(covers_record(980, 10, MINT_FIELDS));
    assert!(!covers_record(979, 10, MINT_FIELDS));
    assert!(covers_record(1810, 10, ACCOUNT_FIELDS));
    assert!(!covers_record(1809, 10, ACCOUNT_FIELDS));
    assert!(covers_record(16, 1, 0));
    assert!(!covers_record(15, 1, 0));
    assert!(covers_record(0, 0, u64::MAX));
    assert!(!covers_record(u64::MAX, 1, u64::MAX));
    assert!(!covers_record(u64::MAX, 1, u64::MAX - 15));
    assert!(covers_record(u64::MAX, 1, u64::MAX - 16));
}

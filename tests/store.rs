use gifportal::capacity::{region_size_for, BASE_ACCOUNT_SPACE, MAX_ITEMS, MAX_URL_LEN, REGION_CEILING};
use gifportal::store::{add_gif, start_stuff_off, AddGif, BaseAccount, ItemStruct, StartStuffOff, StoreError};

const ALICE: [u8; 32] = [7u8; 32];
const BOB: [u8; 32] = [9u8; 32];

fn fresh_store() -> BaseAccount {
    let mut ctx = StartStuffOff { base_account: None, user: ALICE };
    assert_eq!(start_stuff_off(&mut ctx), Ok(()));
    ctx.base_account.unwrap()
}

fn append(store: BaseAccount, user: [u8; 32], link: &str) -> (BaseAccount, Result<(), StoreError>) {
    let mut ctx = AddGif { base_account: Some(store), user };
    let r = add_gif(&mut ctx, link.to_string());
    (ctx.base_account.unwrap(), r)
}

#[test]
fn region_size_for_default_limits() {
    assert_eq!(region_size_for(200, 40), Some(9460));
    assert_eq!(region_size_for(MAX_URL_LEN as u64, MAX_ITEMS as u64), Some(BASE_ACCOUNT_SPACE as u64));
    assert_eq!(BASE_ACCOUNT_SPACE, 9460);
    assert!(BASE_ACCOUNT_SPACE <= REGION_CEILING);
}

#[test]
fn region_size_for_small_and_overflowing_limits() {
    assert_eq!(region_size_for(0, 0), Some(20));
    assert_eq!(region_size_for(10, 1), Some(66));
    assert_eq!(region_size_for(u64::MAX, 0), Some(20));
    assert_eq!(region_size_for(u64::MAX, 1), None);
    assert_eq!(region_size_for(0, u64::MAX), None);
}

#[test]
fn initialize_creates_empty_store() {
    let store = fresh_store();
    assert_eq!(store.total_gifs, 0);
    assert!(store.gif_list.is_empty());
    assert_eq!(store.count(), 0);
}

#[test]
fn initialize_twice_fails_and_keeps_store() {
    let (store, r) = append(fresh_store(), BOB, "https://a.example/x.gif");
    assert_eq!(r, Ok(()));
    let mut ctx = StartStuffOff { base_account: Some(store.clone()), user: ALICE };
    assert_eq!(start_stuff_off(&mut ctx), Err(StoreError::AlreadyInitialized));
    assert_eq!(ctx.base_account, Some(store));
}

#[test]
fn add_gif_without_store_fails() {
    let mut ctx = AddGif { base_account: None, user: BOB };
    assert_eq!(add_gif(&mut ctx, "x".to_string()), Err(StoreError::NotInitialized));
    assert!(ctx.base_account.is_none());
}

#[test]
fn append_increases_count_by_one() {
    let (store, r) = append(fresh_store(), BOB, "first");
    assert_eq!(r, Ok(()));
    let (store, r) = append(store, ALICE, "second");
    assert_eq!(r, Ok(()));
    assert_eq!(store.total_gifs, 2);
    assert_eq!(store.gif_list[1], ItemStruct { gif_link: "second".to_string(), user_address: ALICE });
}

#[test]
fn records_follow_call_order() {
    let long = "a".repeat(MAX_URL_LEN + 1);
    let (store, _) = append(fresh_store(), BOB, "one");
    let (store, r) = append(store, ALICE, &long);
    assert_eq!(r, Err(StoreError::LinkTooLong));
    let (store, _) = append(store, ALICE, "two");
    let (store, _) = append(store, BOB, "one");
    let links: Vec<&str> = store.records().iter().map(|i| i.gif_link.as_str()).collect();
    assert_eq!(links, vec!["one", "two", "one"]);
    let users: Vec<[u8; 32]> = store.records().iter().map(|i| i.user_address).collect();
    assert_eq!(users, vec![BOB, ALICE, BOB]);
    assert_eq!(store.total_gifs, 3);
}

#[test]
fn full_store_rejects_next_append() {
    let mut store = fresh_store();
    for k in 0..MAX_ITEMS {
        let (s, r) = append(store, BOB, &format!("link-{}", k));
        assert_eq!(r, Ok(()));
        store = s;
    }
    assert_eq!(store.total_gifs, MAX_ITEMS as u64);
    let before = store.clone();
    let (store, r) = append(store, ALICE, "one more");
    assert_eq!(r, Err(StoreError::StoreFull));
    assert_eq!(store, before);
    assert_eq!(store.gif_list.len(), MAX_ITEMS);
    assert!(store.encoded_len() <= BASE_ACCOUNT_SPACE);
}

#[test]
fn link_one_byte_over_limit_is_rejected() {
    let before = fresh_store();
    let (store, r) = append(before.clone(), BOB, &"a".repeat(MAX_URL_LEN + 1));
    assert_eq!(r, Err(StoreError::LinkTooLong));
    assert_eq!(store, before);
    let (store, r) = append(store, BOB, &"a".repeat(MAX_URL_LEN));
    assert_eq!(r, Ok(()));
    assert_eq!(store.total_gifs, 1);
}

#[test]
fn link_length_counts_bytes_not_chars() {
    let (store, r) = append(fresh_store(), BOB, &"\u{e9}".repeat(MAX_URL_LEN / 2 + 1));
    assert_eq!(r, Err(StoreError::LinkTooLong));
    let (store, r) = append(store, BOB, &"\u{e9}".repeat(MAX_URL_LEN / 2));
    assert_eq!(r, Ok(()));
    assert_eq!(store.total_gifs, 1);
}

#[test]
fn duplicate_records_are_kept() {
    let (store, _) = append(fresh_store(), BOB, "same");
    let (store, r) = append(store, BOB, "same");
    assert_eq!(r, Ok(()));
    assert_eq!(store.gif_list[0], store.gif_list[1]);
    assert_eq!(store.total_gifs, 2);
}

#[test]
fn reading_records_twice_gives_same_records() {
    let (store, _) = append(fresh_store(), BOB, "x");
    let (store, _) = append(store, ALICE, "y");
    let first: Vec<ItemStruct> = store.records().to_vec();
    let second: Vec<ItemStruct> = store.records().to_vec();
    assert_eq!(first, second);
    assert_eq!(first, store.gif_list);
}

#[test]
fn full_store_with_long_link_reports_length() {
    let mut store = fresh_store();
    for _ in 0..MAX_ITEMS {
        store = append(store, BOB, "l").0;
    }
    let (_, r) = append(store, BOB, &"a".repeat(MAX_URL_LEN + 1));
    assert_eq!(r, Err(StoreError::LinkTooLong));
}

#[test]
fn is_valid_checks_the_invariant() {
    let (store, _) = append(fresh_store(), BOB, "ok");
    assert!(store.is_valid());
    let mut miscounted = store.clone();
    miscounted.total_gifs = 5;
    assert!(!miscounted.is_valid());
    let mut too_long = store.clone();
    too_long.gif_list[0].gif_link = "a".repeat(MAX_URL_LEN + 1);
    assert!(!too_long.is_valid());
}

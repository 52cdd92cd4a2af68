use resman::BorrowFail;
use resman::Resources;

const KEY_A: u64 = 1;
const KEY_B: u64 = 2;

#[derive(Debug, PartialEq)]
struct A(usize);

#[derive(Debug, Default, PartialEq)]
struct Res;

#[test]
fn entry_or_insert_inserts_value() {
    let mut resources = Resources::new();
    let a_ref = resources.entry(KEY_A).or_insert(&mut resources, A(1));

    let prior = resources.replace(KEY_A, A(2));
    assert_eq!(A(1), prior);

    resources.release_mut(KEY_A, a_ref);

    let r = resources.borrow(KEY_A);
    assert_eq!(&A(2), resources.get(KEY_A).unwrap());
    resources.release(KEY_A, r);
}

#[test]
fn entry_or_insert_keeps_existing_value() {
    let mut resources = Resources::new();
    resources.insert(KEY_A, A(5));

    let a_ref = resources.entry(KEY_A).or_insert(&mut resources, A(9));

    let v = resources.replace(KEY_A, A(0));
    assert_eq!(A(5), v);
    resources.set(KEY_A, v);

    resources.release_mut(KEY_A, a_ref);
}

#[test]
fn entry_or_insert_with_does_not_call_producer_when_present() {
    let mut resources = Resources::new();
    resources.insert(KEY_A, A(5));

    let a_ref = resources.entry(KEY_A).or_insert_with(&mut resources, || {
        panic!("producer must not run for a present entry")
    });

    let v = resources.replace(KEY_A, A(0));
    assert_eq!(A(5), v);
    resources.set(KEY_A, v);

    resources.release_mut(KEY_A, a_ref);
}

#[test]
fn entry_or_insert_with_inserts_produced_value() {
    let mut resources = Resources::new();

    let a_ref = resources.entry(KEY_A).or_insert_with(&mut resources, || A(3));

    let v = resources.replace(KEY_A, A(0));
    assert_eq!(A(3), v);
    resources.set(KEY_A, v);

    resources.release_mut(KEY_A, a_ref);
}

#[test]
fn with_capacity_reserves_enough_capacity() {
    let map: Resources<Res> = Resources::with_capacity(100);
    assert!(map.capacity() >= 100);
}

#[test]
fn insert() {
    let mut resources = Resources::new();
    resources.insert(KEY_A, Res);

    assert!(resources.contains(KEY_A));
    assert!(!resources.contains(KEY_B));
}

#[test]
fn remove_insert() {
    let mut resources = Resources::new();
    resources.insert(KEY_A, Res);

    assert!(resources.contains(KEY_A));

    resources.remove(KEY_A).unwrap();

    assert!(!resources.contains(KEY_A));

    resources.insert(KEY_A, Res);

    assert!(resources.contains(KEY_A));
}

#[test]
fn remove_returns_inserted_value() {
    let mut resources = Resources::new();
    resources.insert(KEY_A, A(11));

    assert_eq!(Some(A(11)), resources.remove(KEY_A));
    assert_eq!(None, resources.remove(KEY_A));
    assert!(!resources.contains(KEY_A));
}

#[test]
fn insert_overwrites_existing_value() {
    let mut resources = Resources::new();
    resources.insert(KEY_A, A(1));
    resources.insert(KEY_A, A(7));

    assert_eq!(&A(7), resources.get(KEY_A).unwrap());
    assert_eq!(1, resources.len());
}

#[test]
fn borrow_mut_try_borrow_returns_err() {
    let mut resources = Resources::new();
    resources.insert(KEY_A, Res);

    let res = resources.borrow_mut(KEY_A);

    assert!(matches!(resources.try_borrow(KEY_A), Err(BorrowFail::BorrowConflictImm)));

    resources.release_mut(KEY_A, res);
}

#[test]
fn borrow_try_borrow_mut_returns_err() {
    let mut resources = Resources::new();
    resources.insert(KEY_A, Res);

    let res = resources.borrow(KEY_A);

    assert!(matches!(resources.try_borrow_mut(KEY_A), Err(BorrowFail::BorrowConflictMut)));

    resources.release(KEY_A, res);
}

#[test]
fn borrow_mut_borrow_mut_returns_err() {
    let mut resources = Resources::new();
    resources.insert(KEY_A, Res);

    let res = resources.borrow_mut(KEY_A);

    assert!(matches!(resources.try_borrow_mut(KEY_A), Err(BorrowFail::BorrowConflictMut)));

    resources.release_mut(KEY_A, res);
}

#[test]
fn try_borrow_missing_entry_returns_value_not_found() {
    let mut resources: Resources<Res> = Resources::new();

    assert!(matches!(resources.try_borrow(KEY_A), Err(BorrowFail::ValueNotFound)));
    assert!(matches!(resources.try_borrow_mut(KEY_A), Err(BorrowFail::ValueNotFound)));
}

#[test]
fn get_raw_returns_some() {
    let mut resources = Resources::new();
    resources.insert(KEY_A, Res);

    assert!(resources.get_raw(KEY_A).is_some());
    assert!(resources.get_raw(KEY_B).is_none());
}

#[test]
fn replace_swaps_value_under_exclusive_claim() {
    let mut resources = Resources::new();
    resources.insert(KEY_A, A(1));

    let w = resources.borrow_mut(KEY_A);
    let prior = resources.replace(KEY_A, A(8));
    resources.release_mut(KEY_A, w);

    assert_eq!(A(1), prior);
    assert_eq!(&A(8), resources.get(KEY_A).unwrap());
}

#[test]
fn keys_of_empty_map_is_empty() {
    let resources: Resources<Res> = Resources::new();

    assert!(resources.keys().is_empty());
    assert_eq!(0, resources.len());
}

#[test]
fn keys_lists_each_stored_key_once() {
    let mut resources = Resources::new();
    resources.insert(KEY_A, 1u32);
    resources.insert(KEY_B, 2u32);
    resources.insert(KEY_A, 3u32);

    let mut keys = resources.keys();
    keys.sort_unstable();

    assert_eq!(vec![KEY_A, KEY_B], keys);
}

#[test]
fn shared_claims_coexist_and_exclude_writer() {
    let mut resources = Resources::new();
    resources.insert(KEY_A, A(4));

    let r1 = resources.borrow(KEY_A);
    let r2 = resources.try_borrow(KEY_A).unwrap();

    assert_eq!(&A(4), resources.get(KEY_A).unwrap());
    assert!(matches!(resources.try_borrow_mut(KEY_A), Err(BorrowFail::BorrowConflictMut)));

    resources.release(KEY_A, r1);
    assert!(matches!(resources.try_borrow_mut(KEY_A), Err(BorrowFail::BorrowConflictMut)));

    resources.release(KEY_A, r2);
    let w = resources.try_borrow_mut(KEY_A).unwrap();
    resources.release_mut(KEY_A, w);
}

#[test]
fn exclusive_claim_excludes_all_until_released() {
    let mut resources = Resources::new();
    resources.insert(KEY_A, A(4));

    let w = resources.borrow_mut(KEY_A);

    assert!(matches!(resources.try_borrow(KEY_A), Err(BorrowFail::BorrowConflictImm)));
    assert!(matches!(resources.try_borrow_mut(KEY_A), Err(BorrowFail::BorrowConflictMut)));

    resources.release_mut(KEY_A, w);

    let r = resources.try_borrow(KEY_A).unwrap();
    resources.release(KEY_A, r);
    let w = resources.try_borrow_mut(KEY_A).unwrap();
    resources.release_mut(KEY_A, w);
}

#[test]
fn scenario_two_entries_mixed_claims() {
    let mut resources = Resources::new();
    resources.insert(KEY_A, 1u32);
    resources.insert(KEY_B, 2u32);

    let a = resources.borrow_mut(KEY_A);
    let b = resources.borrow_mut(KEY_B);

    resources.set(KEY_A, 2);
    resources.set(KEY_B, 3);

    resources.release_mut(KEY_A, a);
    resources.release_mut(KEY_B, b);

    let a_0 = resources.borrow(KEY_A);
    let a_1 = resources.borrow(KEY_A);

    assert_eq!(&2, resources.get(KEY_A).unwrap());
    assert_eq!(&3, resources.get(KEY_B).unwrap());

    assert!(matches!(resources.try_borrow_mut(KEY_A), Err(BorrowFail::BorrowConflictMut)));

    resources.release(KEY_A, a_0);
    resources.release(KEY_A, a_1);
}

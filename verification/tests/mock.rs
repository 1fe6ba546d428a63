use rambit::key::Key;
use rambit::kv::{Bound, KvError, TransactionError};
use rambit::mock::MockStore;
use rambit::slug::StrictSlug;
use rambit::starc::Starc;
use rambit::value::Value;

fn key(s: &str) -> Key {
    Key::new(Starc::new_owned(StrictSlug::new(s)))
}

fn value(s: &str) -> Value {
    Value::new(s.as_bytes().to_vec())
}

#[test]
fn test_optimistic_transaction() {
    let mut store = MockStore::new();
    let mut txn = store.begin_optimistic_transaction().unwrap();

    let key = key("key1");
    let value = value("value1");
    txn.put(&store, &key, value.clone()).unwrap();

    txn.commit(&mut store).unwrap();

    let read_value = store.peek(&key);
    assert_eq!(read_value, Some(value));
}

#[test]
fn test_pessimistic_transaction() {
    let mut store = MockStore::new();
    let mut txn = store.begin_pessimistic_transaction().unwrap();

    let key = key("key2");
    let value = value("value2");
    txn.put(&mut store, &key, value.clone()).unwrap();

    txn.commit(&mut store).unwrap();

    let read_value = store.peek(&key);
    assert_eq!(read_value, Some(value));
}

#[test]
fn test_conflict_in_optimistic_transaction() {
    let mut store = MockStore::new();
    store.screw_with_internal_data(key("key3"), value("value3"));

    let mut txn = store.begin_optimistic_transaction().unwrap();
    txn.get(&store, &key("key3")).unwrap().unwrap();

    let mut txn2 = store.begin_optimistic_transaction().unwrap();
    txn2.put(&store, &key("key3"), value("other_value")).unwrap();
    txn2.commit(&mut store).unwrap();

    let commit_result = txn.commit(&mut store);
    assert!(commit_result.is_err());
    match commit_result {
        Err(KvError::PlatformError(TransactionError::KeyConflict(k))) => {
            assert_eq!(k.to_string(), "key3")
        },
        _ => panic!("expected a key conflict"),
    }

    txn.rollback().unwrap();
}

#[test]
fn test_lock_in_pessimistic_transaction() {
    let mut store = MockStore::new();
    let mut txn1 = store.begin_pessimistic_transaction().unwrap();
    let mut txn2 = store.begin_pessimistic_transaction().unwrap();

    let key = key("key4");

    txn1.put(&mut store, &key, value("value4")).unwrap();

    let result = txn2.put(&mut store, &key, value("other_value"));
    assert!(result.is_err());

    txn1.commit(&mut store).unwrap();

    let result = txn2.put(&mut store, &key, value("other_value"));
    assert!(result.is_ok());

    txn2.rollback(&mut store).unwrap();
}

#[test]
fn test_scan_operation() {
    let mut store = MockStore::new();
    let keys_values = vec![(key("a"), value("1")), (key("b"), value("2")), (key("c"), value("3"))];
    for (k, v) in &keys_values {
        store.screw_with_internal_data(k.clone(), v.clone());
    }

    let mut txn = store.begin_optimistic_transaction().unwrap();
    let result = txn
        .scan(&store, Bound::Included(key("a")), Bound::Included(key("b")), None)
        .unwrap();

    assert_eq!(result.len(), 2);

    let mut got: Vec<(String, Value)> =
        result.into_iter().map(|(k, v)| (k.to_string(), v)).collect();
    got.sort_by(|a, b| a.0.cmp(&b.0));
    let expected: Vec<(String, Value)> = keys_values
        .iter()
        .filter(|(k, _)| *(k.to_string()) <= *"b")
        .map(|(k, v)| (k.to_string(), v.clone()))
        .collect();
    assert_eq!(got, expected);

    txn.commit(&mut store).unwrap();
}

#[test]
fn optimistic_insert_refuses_existing_key() {
    let mut store = MockStore::new();
    store.screw_with_internal_data(key("k"), value("v"));
    let mut txn = store.begin_optimistic_transaction().unwrap();
    match txn.insert(&store, &key("k"), value("w")) {
        Err(KvError::PlatformError(TransactionError::Other(m))) => {
            assert_eq!(m, "Key already exists")
        },
        _ => panic!("expected an error"),
    }
    assert!(txn.insert(&store, &key("fresh"), value("w")).is_ok());
    txn.commit(&mut store).unwrap();
    assert_eq!(store.peek(&key("fresh")), Some(value("w")));
}

#[test]
fn optimistic_delete_writes_empty_value() {
    let mut store = MockStore::new();
    store.screw_with_internal_data(key("k"), value("v"));
    let mut txn = store.begin_optimistic_transaction().unwrap();
    assert!(txn.delete(&store, &key("k")).unwrap());
    txn.commit(&mut store).unwrap();
    assert_eq!(store.peek(&key("k")), Some(Value::new(vec![])));
}

#[test]
fn optimistic_rollback_leaves_store_unchanged() {
    let mut store = MockStore::new();
    let mut txn = store.begin_optimistic_transaction().unwrap();
    txn.put(&store, &key("k"), value("v")).unwrap();
    txn.rollback().unwrap();
    assert_eq!(store.peek(&key("k")), None);
    txn.commit(&mut store).unwrap();
    assert_eq!(store.peek(&key("k")), None);
}

#[test]
fn optimistic_read_of_absent_key_conflicts_with_later_insert() {
    let mut store = MockStore::new();
    let mut txn = store.begin_optimistic_transaction().unwrap();
    assert_eq!(txn.get(&store, &key("k")).unwrap(), None);
    store.screw_with_internal_data(key("k"), value("v"));
    assert!(txn.commit(&mut store).is_err());
}

#[test]
fn scan_respects_limit_and_bounds() {
    let mut store = MockStore::new();
    for s in ["a", "b", "c", "d"] {
        store.screw_with_internal_data(key(s), value(s));
    }
    let txn = store.begin_pessimistic_transaction().unwrap();
    let r = txn.scan(&store, Bound::Excluded(key("a")), Bound::Unbounded, Some(2)).unwrap();
    let names: Vec<String> = r.iter().map(|(k, _)| k.to_string()).collect();
    assert_eq!(names, vec!["b", "c"]);
    let r = txn.scan(&store, Bound::Unbounded, Bound::Excluded(key("c")), Some(0)).unwrap();
    assert_eq!(r.len(), 2);
    let r = txn.scan(&store, Bound::Unbounded, Bound::Unbounded, None).unwrap();
    assert_eq!(r.len(), 4);
}

#[test]
fn pessimistic_insert_and_get() {
    let mut store = MockStore::new();
    store.screw_with_internal_data(key("k"), value("v"));
    let mut txn = store.begin_pessimistic_transaction().unwrap();
    assert_eq!(txn.get(&mut store, &key("k")).unwrap(), Some(value("v")));
    assert!(txn.insert(&mut store, &key("k"), value("w")).is_err());
    assert!(txn.insert(&mut store, &key("n"), value("w")).is_ok());
    assert!(txn.delete(&mut store, &key("k")).unwrap());
    let mut other = store.begin_pessimistic_transaction().unwrap();
    match other.get(&mut store, &key("n")) {
        Err(KvError::PlatformError(TransactionError::KeyLocked(k))) => assert_eq!(k.to_string(), "n"),
        _ => panic!("expected the key to be locked"),
    }
    txn.commit(&mut store).unwrap();
    assert_eq!(store.peek(&key("n")), Some(value("w")));
    assert_eq!(store.peek(&key("k")), Some(Value::new(vec![])));
    assert!(other.get(&mut store, &key("n")).is_ok());
    other.rollback(&mut store).unwrap();
}

#[test]
fn transactions_are_finished_after_commit_or_rollback() {
    let mut store = MockStore::new();

    let mut txn = store.begin_optimistic_transaction().unwrap();
    assert!(txn.is_finished());
    txn.get(&store, &key("a")).unwrap();
    assert!(!txn.is_finished());
    txn.rollback().unwrap();
    assert!(txn.is_finished());

    let mut txn = store.begin_optimistic_transaction().unwrap();
    txn.put(&store, &key("a"), value("1")).unwrap();
    assert!(!txn.is_finished());
    txn.commit(&mut store).unwrap();
    assert!(txn.is_finished());

    let mut ptxn = store.begin_pessimistic_transaction().unwrap();
    assert!(ptxn.is_finished());
    ptxn.get(&mut store, &key("a")).unwrap();
    assert!(!ptxn.is_finished());
    ptxn.rollback(&mut store).unwrap();
    assert!(ptxn.is_finished());

    let mut ptxn = store.begin_pessimistic_transaction().unwrap();
    ptxn.put(&mut store, &key("b"), value("2")).unwrap();
    assert!(!ptxn.is_finished());
    ptxn.commit(&mut store).unwrap();
    assert!(ptxn.is_finished());
}

#[test]
fn value_converts_to_and_from_bytes() {
    let v = vec![1u8, 2, 3];
    assert_eq!(Value::new(v.clone()).into_inner(), v);
    assert_eq!(Vec::<u8>::from(Value::from(v.clone())), v);
    assert_eq!(Value::from(v.clone()), Value::new(v));
}

#[test]
fn unlimited_scan_pages_concatenate() {
    let mut results = vec![(key("a"), value("1"))];
    let next = rambit::kv::absorb_scan_page(&mut results, vec![(key("b"), value("2")), (key("c"), value("3"))]);
    assert!(matches!(next, Some(Bound::Excluded(k)) if k == key("c")));
    assert_eq!(results.len(), 3);
    assert_eq!(results[2].0, key("c"));
    let done = rambit::kv::absorb_scan_page(&mut results, vec![]);
    assert!(done.is_none());
    assert_eq!(results.len(), 3);
}

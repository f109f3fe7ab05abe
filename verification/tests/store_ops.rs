use workspaces::store::{MemStore, Store, StoreError};

const NOW: i64 = 1_700_000_000;

#[test]
fn create_record_inserts_and_conflicts_on_duplicate() {
    let mut s = MemStore::new();
    assert_eq!(s.create_record("p", "alice", "ws1", NOW), Ok(()));
    assert_eq!(s.create_record("p", "alice", "ws1", NOW + 5), Err(StoreError::Conflict));
    assert_eq!(s.get_expiration("p", "alice", "ws1"), Some(NOW));
    // a different name under the same owner is a different key
    assert_eq!(s.create_record("p", "alice", "ws2", NOW), Ok(()));
    assert_eq!(s.list_records(&None, &None).len(), 2);
}

#[test]
fn rename_record_moves_key_and_keeps_expiration() {
    let mut s = MemStore::new();
    s.create_record("p", "alice", "ws1", NOW).unwrap();
    assert_eq!(s.rename_record("p", "alice", "ws1", "ws2"), Ok(()));
    assert_eq!(s.get_expiration("p", "alice", "ws1"), None);
    assert_eq!(s.get_expiration("p", "alice", "ws2"), Some(NOW));
}

#[test]
fn rename_record_not_found_and_conflict() {
    let mut s = MemStore::new();
    s.create_record("p", "alice", "ws1", NOW).unwrap();
    s.create_record("p", "alice", "ws2", NOW + 1).unwrap();
    assert_eq!(s.rename_record("p", "alice", "nope", "ws3"), Err(StoreError::NotFound));
    assert_eq!(s.rename_record("p", "alice", "ws1", "ws2"), Err(StoreError::Conflict));
    // renaming a record to its own name succeeds and changes nothing
    assert_eq!(s.rename_record("p", "alice", "ws1", "ws1"), Ok(()));
    assert_eq!(s.get_expiration("p", "alice", "ws1"), Some(NOW));
}

#[test]
fn extend_record_takes_the_later_time() {
    let mut s = MemStore::new();
    s.create_record("p", "alice", "ws1", NOW).unwrap();
    assert_eq!(s.extend_record("p", "alice", "ws1", NOW + 100), Ok(()));
    assert_eq!(s.get_expiration("p", "alice", "ws1"), Some(NOW + 100));
    // a smaller target leaves the expiration alone
    assert_eq!(s.extend_record("p", "alice", "ws1", NOW + 50), Ok(()));
    assert_eq!(s.get_expiration("p", "alice", "ws1"), Some(NOW + 100));
    assert_eq!(s.extend_record("p", "alice", "nope", NOW), Err(StoreError::NotFound));
}

#[test]
fn expire_record_takes_the_earlier_time() {
    let mut s = MemStore::new();
    s.create_record("p", "alice", "ws1", NOW + 100).unwrap();
    assert_eq!(s.expire_record("p", "alice", "ws1", NOW), Ok(()));
    assert_eq!(s.get_expiration("p", "alice", "ws1"), Some(NOW));
    // a larger target leaves the expiration alone
    assert_eq!(s.expire_record("p", "alice", "ws1", NOW + 100), Ok(()));
    assert_eq!(s.get_expiration("p", "alice", "ws1"), Some(NOW));
    assert_eq!(s.expire_record("p", "alice", "nope", NOW), Err(StoreError::NotFound));
}

#[test]
fn delete_record_removes_only_its_key() {
    let mut s = MemStore::new();
    s.create_record("p", "alice", "ws1", NOW).unwrap();
    s.create_record("p", "bob", "ws1", NOW).unwrap();
    s.delete_record("p", "alice", "ws1");
    assert_eq!(s.get_expiration("p", "alice", "ws1"), None);
    assert_eq!(s.get_expiration("p", "bob", "ws1"), Some(NOW));
    // deleting an absent key is harmless
    s.delete_record("p", "alice", "ws1");
    assert_eq!(s.list_records(&None, &None).len(), 1);
}

#[test]
fn list_records_applies_both_filters() {
    let mut s = MemStore::new();
    s.create_record("p", "alice", "ws1", NOW).unwrap();
    s.create_record("p", "bob", "ws2", NOW).unwrap();
    s.create_record("q", "alice", "ws3", NOW).unwrap();

    assert_eq!(s.list_records(&None, &None).len(), 3);
    let alice_only = s.list_records(&Some(vec![String::from("alice")]), &None);
    assert_eq!(alice_only.len(), 2);
    assert!(alice_only.iter().all(|r| r.user == "alice"));
    let alice_on_q = s.list_records(
        &Some(vec![String::from("alice")]),
        &Some(vec![String::from("q")]),
    );
    assert_eq!(alice_on_q.len(), 1);
    assert_eq!(alice_on_q[0].name, "ws3");
    let nobody = s.list_records(&Some(vec![]), &None);
    assert_eq!(nobody.len(), 0);
}

#[test]
fn sweep_candidates_are_strictly_expired() {
    let mut s = MemStore::new();
    s.create_record("p", "alice", "old", NOW - 1).unwrap();
    s.create_record("p", "alice", "edge", NOW).unwrap();
    s.create_record("p", "alice", "live", NOW + 1).unwrap();
    let cands = s.sweep_candidates(NOW);
    assert_eq!(cands.len(), 1);
    assert_eq!(cands[0].name, "old");
}

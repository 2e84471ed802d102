use account_service::store::{create, delete, read, update, Account, AccountStorage};

fn acct(username: &str, email: &str) -> Account {
    Account { id: 0, username: username.to_string(), email: email.to_string() }
}

#[test]
fn create_assigns_ascending_ids() {
    let mut storage = AccountStorage::new();
    for i in 1..=5usize {
        let r = create(acct("u", "u@x.com"), &mut storage);
        assert_eq!(r.id, i);
    }
}

#[test]
fn create_ignores_supplied_id() {
    let mut storage = AccountStorage::new();
    let mut candidate = acct("u", "u@x.com");
    candidate.id = 999;
    let r = create(candidate, &mut storage);
    assert_eq!(r.id, 1);
}

#[test]
fn read_after_create() {
    let mut storage = AccountStorage::new();
    let r = create(acct("alice", "alice@x.com"), &mut storage);
    let got = read(r.id, &storage).expect("created record must be readable");
    assert_eq!(got.id, r.id);
    assert_eq!(got.username, r.username);
    assert_eq!(got.email, r.email);
}

#[test]
fn read_absent_returns_none() {
    let storage = AccountStorage::new();
    assert!(read(1, &storage).is_none());
}

#[test]
fn update_preserves_id() {
    let mut storage = AccountStorage::new();
    let r = create(acct("alice", "alice@x.com"), &mut storage);
    let updated = update(r.id, acct("alice2", "alice2@x.com"), &mut storage)
        .expect("existing record must be updatable");
    assert_eq!(updated.id, r.id);
    assert_eq!(updated.username, "alice2");
    assert_eq!(updated.email, "alice2@x.com");
    let got = read(r.id, &storage).unwrap();
    assert_eq!(got.id, r.id);
    assert_eq!(got.username, "alice2");
    assert_eq!(got.email, "alice2@x.com");
}

#[test]
fn update_absent_returns_none_and_changes_nothing() {
    let mut storage = AccountStorage::new();
    let r = create(acct("alice", "alice@x.com"), &mut storage);
    assert!(update(42, acct("x", "x@x.com"), &mut storage).is_none());
    let got = read(r.id, &storage).unwrap();
    assert_eq!(got.username, "alice");
    assert_eq!(got.email, "alice@x.com");
}

#[test]
fn delete_removes_exactly_one() {
    let mut storage = AccountStorage::new();
    let first = create(acct("a", "a@x.com"), &mut storage);
    let second = create(acct("b", "b@x.com"), &mut storage);
    let removed = delete(first.id, &mut storage).expect("existing record must be removable");
    assert_eq!(removed.id, first.id);
    assert_eq!(removed.username, "a");
    assert!(read(first.id, &storage).is_none());
    assert!(delete(first.id, &mut storage).is_none());
    let kept = read(second.id, &storage).expect("the other record must survive");
    assert_eq!(kept.username, "b");
}

#[test]
fn creates_from_empty_yield_distinct_ids() {
    let k = 8usize;
    let mut storage = AccountStorage::new();
    let mut ids = Vec::new();
    for _ in 0..k {
        ids.push(create(acct("u", "u@x.com"), &mut storage).id);
    }
    let mut seen = vec![false; k + 1];
    for id in ids {
        assert!(1 <= id && id <= k, "id out of {{1..K}}");
        assert!(!seen[id], "duplicate id assigned");
        seen[id] = true;
    }
}

#[test]
fn crud_scenario() {
    let mut storage = AccountStorage::new();
    let a = create(acct("a", "a@x.com"), &mut storage);
    assert_eq!(a.id, 1);
    assert_eq!(a.username, "a");
    assert_eq!(a.email, "a@x.com");
    let b = create(acct("b", "b@x.com"), &mut storage);
    assert_eq!(b.id, 2);
    let a2 = update(1, acct("a2", "a2@x.com"), &mut storage).unwrap();
    assert_eq!(a2.id, 1);
    assert_eq!(a2.username, "a2");
    assert_eq!(a2.email, "a2@x.com");
    let removed = delete(2, &mut storage).unwrap();
    assert_eq!(removed.id, 2);
    assert!(read(2, &storage).is_none());
}

#[test]
fn size_plus_one_policy_reuses_id_after_delete() {
    // The documented quirk of the size-plus-one assignment rule: deleting
    // record 2 of 3 shrinks the store to two records, so the next create is
    // assigned id 3 again and overwrites the surviving record 3.
    let mut storage = AccountStorage::new();
    for _ in 0..3 {
        create(acct("u", "u@x.com"), &mut storage);
    }
    delete(2, &mut storage).unwrap();
    let r = create(acct("fresh", "fresh@x.com"), &mut storage);
    assert_eq!(r.id, 3);
    let got = read(3, &storage).unwrap();
    assert_eq!(got.username, "fresh");
}

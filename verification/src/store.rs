//! The record store: an in-memory mapping from numeric key to account record,
//! exposing create, read, update and delete.
//!
//! The store is the sole writer of the mapping. Exclusive access for the full
//! duration of each operation is enforced through Rust's `&mut` discipline:
//! every mutating operation takes the store by exclusive reference, so no two
//! read-modify-write operations can interleave. A caller that shares the store
//! across threads wraps it in a mutual-exclusion guard and holds the guard for
//! the whole call.

use vstd::prelude::*;
use std::collections::HashMap;

verus! {

broadcast use vstd::std_specs::hash::group_hash_axioms;

/// A stored record: a numeric key assigned by the store, plus two string
/// fields supplied by the client.
#[derive(Debug)]
pub struct Account {
    pub id: usize,
    pub username: String,
    pub email: String,
}

impl Clone for Account {
    fn clone(&self) -> (res: Self)
        ensures
            res == *self,
    {
        Account {
            id: self.id,
            username: self.username.clone(),
            email: self.email.clone(),
        }
    }
}

/// In-memory storage for accounts. The abstract value of a store is the
/// mapping from assigned key to record.
pub struct AccountStorage {
    accounts: HashMap<usize, Account>,
}

impl View for AccountStorage {
    type V = Map<usize, Account>;

    closed spec fn view(&self) -> Map<usize, Account> {
        self.accounts@
    }
}

impl AccountStorage {
    /// A fresh store holds no records.
    pub fn new() -> (s: Self)
        ensures
            s@ == Map::<usize, Account>::empty(),
    {
        AccountStorage { accounts: HashMap::new() }
    }

    /// The number of records currently stored.
    pub fn len(&self) -> (n: usize)
        ensures
            n == self@.len(),
    {
        self.accounts.len()
    }
}

/// Inserts a new record. Any id supplied by the caller is ignored: the store
/// assigns the new id as the current number of records plus one, atomically
/// with the insertion. Returns the stored record including its assigned id.
///
/// Note that the size-plus-one policy deliberately mirrors the documented
/// assignment rule: after deletions it can assign a key that is still mapped,
/// overwriting that record (the mapping is `old@.insert(r.id, r)` either way).
pub fn create(account: Account, storage: &mut AccountStorage) -> (r: Account)
    requires
        old(storage)@.len() < usize::MAX,
    ensures
        r.id == old(storage)@.len() + 1,
        r.username == account.username,
        r.email == account.email,
        final(storage)@ == old(storage)@.insert(r.id, r),
{
    let new_id = storage.accounts.len() + 1;
    let mut new_account = account;
    new_account.id = new_id;
    storage.accounts.insert(new_id, new_account.clone());
    new_account
}

/// Looks a record up by id. Returns the matching record if present, else
/// `None`; never errors and never changes the store.
pub fn read(id: usize, storage: &AccountStorage) -> (r: Option<Account>)
    ensures
        match r {
            Some(a) => storage@.contains_key(id) && a == storage@[id],
            None => !storage@.contains_key(id),
        },
{
    match storage.accounts.get(&id) {
        Some(a) => Some(a.clone()),
        None => None,
    }
}

/// Overwrites the `username` and `email` of the record stored under `id`,
/// keeping the id itself immutable, and returns the updated record. If no
/// record exists for `id`, returns `None` and makes no change.
pub fn update(id: usize, account: Account, storage: &mut AccountStorage) -> (r: Option<Account>)
    ensures
        match r {
            Some(a) => {
                &&& old(storage)@.contains_key(id)
                &&& a.id == id
                &&& a.username == account.username
                &&& a.email == account.email
                &&& final(storage)@ == old(storage)@.insert(id, a)
            },
            None => {
                &&& !old(storage)@.contains_key(id)
                &&& final(storage)@ == old(storage)@
            },
        },
{
    if storage.accounts.contains_key(&id) {
        let mut patched = account;
        patched.id = id;
        storage.accounts.insert(id, patched.clone());
        Some(patched)
    } else {
        None
    }
}

/// Removes and returns the record stored under `id`, or returns `None` when
/// no such record exists (in which case the store is unchanged, since removal
/// of an absent key leaves the mapping as it was).
pub fn delete(id: usize, storage: &mut AccountStorage) -> (r: Option<Account>)
    ensures
        final(storage)@ == old(storage)@.remove(id),
        match r {
            Some(a) => old(storage)@.contains_key(id) && a == old(storage)@[id],
            None => !old(storage)@.contains_key(id),
        },
{
    storage.accounts.remove(&id)
}

/// The id discipline a store kept free of deletions obeys: the assigned keys
/// are exactly 1 through the number of records.
pub open spec fn ascending_ids(m: Map<usize, Account>) -> bool {
    forall|k: usize| #[trigger] m.contains_key(k) <==> 1 <= k <= m.len()
}

/// A fresh store obeys the ascending-id discipline.
pub proof fn lemma_empty_ascending()
    ensures
        ascending_ids(Map::<usize, Account>::empty()),
{
}

/// Sequential creates assign ascending ids: a create on a store whose keys
/// are exactly 1 through its size (as every deletion-free history leaves
/// them) assigns the next id, keeps that discipline, and grows the store by
/// one. Applied after each of N creates on an initially empty store, this
/// gives the i-th create the id i.
pub proof fn lemma_create_ascending(pre: Map<usize, Account>, post: Map<usize, Account>, r: Account)
    requires
        pre.dom().finite(),
        ascending_ids(pre),
        pre.len() < usize::MAX,
        r.id == pre.len() + 1,
        post == pre.insert(r.id, r),
    ensures
        !pre.contains_key(r.id),
        post.len() == pre.len() + 1,
        ascending_ids(post),
{
    assert(!pre.contains_key(r.id));
    assert(post.dom() == pre.dom().insert(r.id));
    assert forall|k: usize| #[trigger] post.contains_key(k) <==> 1 <= k <= post.len() by {
        if k != r.id {
            assert(post.contains_key(k) <==> pre.contains_key(k));
        }
    }
}

/// Read-after-create: the store a create leaves behind holds the created
/// record under its assigned id, so a read of that id returns a record equal
/// to the created one.
pub proof fn lemma_read_after_create(pre: Map<usize, Account>, r: Account)
    ensures
        pre.insert(r.id, r).contains_key(r.id),
        pre.insert(r.id, r)[r.id] == r,
{
}

/// Delete removes exactly one record: the key deleted is gone (a read of it
/// reports absence), deleting it again changes nothing (idempotent failure),
/// every other key keeps its record, and the store shrinks by exactly one.
pub proof fn lemma_delete_removes_exactly_one(pre: Map<usize, Account>, id: usize)
    requires
        pre.dom().finite(),
        pre.contains_key(id),
    ensures
        !pre.remove(id).contains_key(id),
        pre.remove(id).remove(id) == pre.remove(id),
        forall|k: usize|
            k != id ==> (#[trigger] pre.remove(id).contains_key(k) <==> pre.contains_key(k)),
        forall|k: usize| k != id && pre.contains_key(k) ==> pre.remove(id)[k] == pre[k],
        pre.remove(id).len() == pre.len() - 1,
{
    assert(pre.remove(id).remove(id) =~= pre.remove(id));
    assert(pre.remove(id).dom() == pre.dom().remove(id));
}

/// Linearized creates produce unique ids: after K creates on an initially
/// empty store with no interleaved deletions (each create reflected by
/// `lemma_create_ascending`, the whole history serialized by the store's
/// exclusive-access discipline), the set of assigned ids is exactly
/// {1, ..., K} — in particular the K ids are pairwise distinct.
pub proof fn lemma_ids_exactly_one_to_size(m: Map<usize, Account>)
    requires
        ascending_ids(m),
    ensures
        m.dom() == Set::new(|k: usize| 1 <= k <= m.len()),
{
    assert forall|k: usize| m.dom().contains(k) <==> 1 <= k <= m.len() by {
        assert(m.contains_key(k) <==> 1 <= k <= m.len());
    }
    assert(m.dom() =~= Set::new(|k: usize| 1 <= k <= m.len()));
}

} // verus!

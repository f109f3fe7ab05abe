//! The metadata store port: a durable table of workspace records keyed by
//! `(filesystem, user, name)`, with transactional, constraint-checked
//! mutation — and `MemStore`, its verified in-memory implementation.
//!
//! The contracts speak about the induced map from keys to expiration
//! times.  `extend_record` and `expire_record` apply `later`/`earlier`
//! against the store's current value in one atomic update, so concurrent
//! callers converge to the monotonic bound instead of losing updates.

use vstd::prelude::*;

use crate::mapmodel::{lemma_contains, lemma_push, lemma_remove, lemma_update, lemma_value_at,
    pairs_to_map, unique_keys};
use crate::naming::str_equal;
use crate::schedule::{earlier, later};

verus! {

/// How a store mutation can fail.
#[derive(Clone, Copy, Debug, PartialEq, Eq, Structural)]
pub enum StoreError {
    /// The unique key `(filesystem, user, name)` is already taken.
    Conflict,
    /// No row matched the key, even if one existed moments earlier.
    NotFound,
}

/// The key of a workspace record, as it appears in contracts.
pub type WsKey = (Seq<char>, Seq<char>, Seq<char>);

/// One row of the workspace table.
#[derive(Debug)]
pub struct WorkspaceRecord {
    /// The filesystem the workspace lives on.
    pub filesystem: String,
    /// The owner of the workspace.
    pub user: String,
    /// The workspace's name, unique per filesystem and owner.
    pub name: String,
    /// When the workspace expires, in seconds.
    pub expiration_time: i64,
}

impl WorkspaceRecord {
    /// The record's unique key.
    pub open spec fn key(&self) -> WsKey {
        (self.filesystem@, self.user@, self.name@)
    }

    /// The record as a key-value entry of the store's map.
    pub open spec fn entry(&self) -> (WsKey, i64) {
        (self.key(), self.expiration_time)
    }
}

impl Clone for WorkspaceRecord {
    fn clone(&self) -> (r: Self)
        ensures
            r.key() == self.key(),
            r.expiration_time == self.expiration_time,
    {
        WorkspaceRecord {
            filesystem: self.filesystem.clone(),
            user: self.user.clone(),
            name: self.name.clone(),
            expiration_time: self.expiration_time,
        }
    }
}

/// Whether `x` passes an optional name filter: no filter admits every
/// name, a filter admits the names it lists.
pub open spec fn name_selected(filter: Option<Seq<Seq<char>>>, x: Seq<char>) -> bool {
    match filter {
        Option::None => true,
        Option::Some(names) => names.contains(x),
    }
}

/// The spec-level content of an optional list of names.
pub open spec fn filter_view(filter: &Option<Vec<String>>) -> Option<Seq<Seq<char>>> {
    if (*filter) is Some {
        Option::Some((*filter)->Some_0.deep_view())
    } else {
        Option::None
    }
}

/// Whether a record key passes the owner and filesystem filters.
pub open spec fn record_selected(
    k: WsKey,
    filter_users: Option<Seq<Seq<char>>>,
    filter_filesystems: Option<Seq<Seq<char>>>,
) -> bool {
    name_selected(filter_users, k.1) && name_selected(filter_filesystems, k.0)
}

/// Whether `x` is one of the names in the optional filter.
pub fn name_selected_exec(filter: &Option<Vec<String>>, x: &str) -> (b: bool)
    ensures
        b == name_selected(filter_view(filter), x@),
{
    match filter {
        Option::None => true,
        Option::Some(names) => {
            let mut i: usize = 0;
            while i < names.len()
                invariant
                    i <= names.len(),
                    filter_view(filter) == Option::Some(names.deep_view()),
                    forall|j: int| 0 <= j < i ==> names.deep_view()[j] != x@,
                decreases names.len() - i,
            {
                if str_equal(names[i].as_str(), x) {
                    proof {
                        assert(names.deep_view()[i as int] == x@);
                        assert(names.deep_view().contains(x@));
                    }
                    return true;
                }
                i = i + 1;
            }
            proof {
                if names.deep_view().contains(x@) {
                    let j = choose|j: int|
                        0 <= j < names.deep_view().len() && names.deep_view()[j] == x@;
                    assert(names.deep_view()[j] != x@);
                }
            }
            false
        },
    }
}

/// The metadata store port.
///
/// `model()` is the induced map from record keys to expiration times;
/// `inv()` is whatever well-formedness the implementation maintains.
pub trait Store: Sized {
    /// The table's content as a map from keys to expiration times.  An
    /// implementation the verifier reads overrides this; for one it never
    /// reads, the model stays arbitrary and the contracts claim nothing.
    open spec fn model(&self) -> Map<WsKey, i64> {
        vstd::pervasive::arbitrary()
    }

    /// The implementation's well-formedness.
    open spec fn inv(&self) -> bool {
        true
    }

    /// Inserts a fresh record; reports `Conflict` iff the key exists.
    fn create_record(
        &mut self,
        filesystem: &str,
        user: &str,
        name: &str,
        expiration_time: i64,
    ) -> (r: Result<(), StoreError>)
        requires
            old(self).inv(),
        ensures
            final(self).inv(),
            match r {
                Result::Ok(()) => !old(self).model().contains_key((filesystem@, user@, name@))
                    && final(self).model() == old(self).model().insert(
                    (filesystem@, user@, name@),
                    expiration_time,
                ),
                Result::Err(StoreError::Conflict) => old(self).model().contains_key(
                    (filesystem@, user@, name@),
                ) && final(self).model() == old(self).model(),
                Result::Err(StoreError::NotFound) => false,
            },
    ;

    /// Renames `src` to `dest` under the same filesystem and user;
    /// reports `NotFound` iff `src` is absent, else `Conflict` iff `dest`
    /// is a different, existing key.
    fn rename_record(&mut self, filesystem: &str, user: &str, src: &str, dest: &str) -> (r: Result<
        (),
        StoreError,
    >)
        requires
            old(self).inv(),
        ensures
            final(self).inv(),
            match r {
                Result::Ok(()) => old(self).model().contains_key((filesystem@, user@, src@)) && (
                src@ == dest@ || !old(self).model().contains_key((filesystem@, user@, dest@)))
                    && final(self).model() == old(self).model().remove(
                    (filesystem@, user@, src@),
                ).insert(
                    (filesystem@, user@, dest@),
                    old(self).model()[(filesystem@, user@, src@)],
                ),
                Result::Err(StoreError::NotFound) => !old(self).model().contains_key(
                    (filesystem@, user@, src@),
                ) && final(self).model() == old(self).model(),
                Result::Err(StoreError::Conflict) => old(self).model().contains_key(
                    (filesystem@, user@, src@),
                ) && src@ != dest@ && old(self).model().contains_key((filesystem@, user@, dest@))
                    && final(self).model() == old(self).model(),
            },
    ;

    /// Moves the record's expiration time forward to `target` if that is
    /// later than the current value, atomically; reports `NotFound` iff
    /// the key is absent.
    fn extend_record(&mut self, filesystem: &str, user: &str, name: &str, target: i64) -> (r:
        Result<(), StoreError>)
        requires
            old(self).inv(),
        ensures
            final(self).inv(),
            match r {
                Result::Ok(()) => old(self).model().contains_key((filesystem@, user@, name@))
                    && final(self).model() == old(self).model().insert(
                    (filesystem@, user@, name@),
                    later(old(self).model()[(filesystem@, user@, name@)], target),
                ),
                Result::Err(StoreError::NotFound) => !old(self).model().contains_key(
                    (filesystem@, user@, name@),
                ) && final(self).model() == old(self).model(),
                Result::Err(StoreError::Conflict) => false,
            },
    ;

    /// Moves the record's expiration time back to `target` if that is
    /// earlier than the current value, atomically; reports `NotFound` iff
    /// the key is absent.
    fn expire_record(&mut self, filesystem: &str, user: &str, name: &str, target: i64) -> (r:
        Result<(), StoreError>)
        requires
            old(self).inv(),
        ensures
            final(self).inv(),
            match r {
                Result::Ok(()) => old(self).model().contains_key((filesystem@, user@, name@))
                    && final(self).model() == old(self).model().insert(
                    (filesystem@, user@, name@),
                    earlier(old(self).model()[(filesystem@, user@, name@)], target),
                ),
                Result::Err(StoreError::NotFound) => !old(self).model().contains_key(
                    (filesystem@, user@, name@),
                ) && final(self).model() == old(self).model(),
                Result::Err(StoreError::Conflict) => false,
            },
    ;

    /// Removes the record with the key, if any.
    fn delete_record(&mut self, filesystem: &str, user: &str, name: &str)
        requires
            old(self).inv(),
        ensures
            final(self).inv(),
            final(self).model() == old(self).model().remove((filesystem@, user@, name@)),
    ;

    /// Every record passing the optional owner and filesystem filters,
    /// each exactly once, in no particular order.
    fn list_records(
        &self,
        filter_users: &Option<Vec<String>>,
        filter_filesystems: &Option<Vec<String>>,
    ) -> (r: Vec<WorkspaceRecord>)
        requires
            self.inv(),
        ensures
            forall|a: int|
                0 <= a < r.len() ==> self.model().contains_key(#[trigger] r[a].key())
                    && self.model()[r[a].key()] == r[a].expiration_time && record_selected(
                    r[a].key(),
                    filter_view(filter_users),
                    filter_view(filter_filesystems),
                ),
            forall|a: int, b: int|
                0 <= a < b < r.len() ==> (#[trigger] r[a]).key() != (#[trigger] r[b]).key(),
            forall|k: WsKey|
                #[trigger] self.model().contains_key(k) && record_selected(
                    k,
                    filter_view(filter_users),
                    filter_view(filter_filesystems),
                ) ==> exists|a: int| 0 <= a < r.len() && (#[trigger] r[a].key()) == k,
    ;

    /// Every record whose expiration time is before `now`, each exactly
    /// once, in no particular order.
    fn sweep_candidates(&self, now: i64) -> (r: Vec<WorkspaceRecord>)
        requires
            self.inv(),
        ensures
            forall|a: int|
                0 <= a < r.len() ==> self.model().contains_key(#[trigger] r[a].key())
                    && self.model()[r[a].key()] == r[a].expiration_time && r[a].expiration_time
                    < now,
            forall|a: int, b: int|
                0 <= a < b < r.len() ==> (#[trigger] r[a]).key() != (#[trigger] r[b]).key(),
            forall|k: WsKey|
                #[trigger] self.model().contains_key(k) && self.model()[k] < now ==> exists|a: int|
                    0 <= a < r.len() && (#[trigger] r[a].key()) == k,
    ;
}

/// An in-memory store: the whole table as a vector of records with
/// pairwise distinct keys.
pub struct MemStore {
    records: Vec<WorkspaceRecord>,
}

impl MemStore {
    /// The table as a sequence of key-value entries.
    pub closed spec fn entries(&self) -> Seq<(WsKey, i64)> {
        self.records@.map_values(|r: WorkspaceRecord| r.entry())
    }

    /// An empty store.
    pub fn new() -> (s: Self)
        ensures
            s.inv(),
            s.model() == Map::<WsKey, i64>::empty(),
    {
        let s = MemStore { records: Vec::new() };
        proof {
            assert(s.entries() =~= Seq::<(WsKey, i64)>::empty());
        }
        s
    }

    /// The index of the record with the key, if any.
    fn find_index(&self, filesystem: &str, user: &str, name: &str) -> (r: Option<usize>)
        ensures
            match r {
                Option::Some(i) => i < self.records@.len() && self.records@[i as int].key() == (
                filesystem@,
                user@,
                name@,
                ),
                Option::None => forall|j: int|
                    0 <= j < self.records@.len() ==> (#[trigger] self.records@[j].key()) != (
                    filesystem@,
                    user@,
                    name@,
                    ),
            },
    {
        let mut i: usize = 0;
        while i < self.records.len()
            invariant
                i <= self.records@.len(),
                forall|j: int|
                    0 <= j < i ==> (#[trigger] self.records@[j].key()) != (
                    filesystem@,
                    user@,
                    name@,
                    ),
            decreases self.records@.len() - i,
        {
            let rec = &self.records[i];
            if str_equal(rec.filesystem.as_str(), filesystem) && str_equal(rec.user.as_str(), user)
                && str_equal(rec.name.as_str(), name) {
                return Option::Some(i);
            }
            i = i + 1;
        }
        Option::None
    }

    /// The expiration time stored under the key, if any.
    pub fn get_expiration(&self, filesystem: &str, user: &str, name: &str) -> (r: Option<i64>)
        requires
            self.inv(),
        ensures
            match r {
                Option::Some(v) => self.model().contains_key((filesystem@, user@, name@))
                    && v == self.model()[(filesystem@, user@, name@)],
                Option::None => !self.model().contains_key((filesystem@, user@, name@)),
            },
    {
        let ghost k: WsKey = (filesystem@, user@, name@);
        proof {
            self.lemma_entry_keys();
            lemma_contains(self.entries(), k);
        }
        match self.find_index(filesystem, user, name) {
            Option::Some(i) => {
                proof {
                    assert(self.entries()[i as int].0 == k);
                    lemma_value_at(self.entries(), i as int);
                }
                Option::Some(self.records[i].expiration_time)
            },
            Option::None => Option::None,
        }
    }

    /// Bridges a record-level key statement to the entry sequence.
    proof fn lemma_entry_keys(&self)
        ensures
            self.entries().len() == self.records@.len(),
            forall|j: int|
                0 <= j < self.records@.len() ==> (#[trigger] self.entries()[j]) == self.records@[
                j].entry(),
    {
    }
}

impl Store for MemStore {
    closed spec fn model(&self) -> Map<WsKey, i64> {
        pairs_to_map(self.entries())
    }

    closed spec fn inv(&self) -> bool {
        unique_keys(self.entries())
    }

    fn create_record(
        &mut self,
        filesystem: &str,
        user: &str,
        name: &str,
        expiration_time: i64,
    ) -> (r: Result<(), StoreError>) {
        let ghost k: WsKey = (filesystem@, user@, name@);
        match self.find_index(filesystem, user, name) {
            Option::Some(i) => {
                proof {
                    self.lemma_entry_keys();
                    assert(self.entries()[i as int].0 == k);
                    lemma_contains(self.entries(), k);
                }
                Result::Err(StoreError::Conflict)
            },
            Option::None => {
                proof {
                    self.lemma_entry_keys();
                    lemma_contains(self.entries(), k);
                }
                let ghost old_entries = self.entries();
                let rec = WorkspaceRecord {
                    filesystem: filesystem.to_owned(),
                    user: user.to_owned(),
                    name: name.to_owned(),
                    expiration_time,
                };
                self.records.push(rec);
                proof {
                    assert(self.entries() =~= old_entries.push((k, expiration_time)));
                    lemma_push(old_entries, k, expiration_time);
                }
                Result::Ok(())
            },
        }
    }

    fn rename_record(&mut self, filesystem: &str, user: &str, src: &str, dest: &str) -> (r: Result<
        (),
        StoreError,
    >) {
        let ghost srck: WsKey = (filesystem@, user@, src@);
        let ghost destk: WsKey = (filesystem@, user@, dest@);
        match self.find_index(filesystem, user, src) {
            Option::None => {
                proof {
                    self.lemma_entry_keys();
                    lemma_contains(self.entries(), srck);
                }
                Result::Err(StoreError::NotFound)
            },
            Option::Some(i) => {
                proof {
                    self.lemma_entry_keys();
                    lemma_value_at(self.entries(), i as int);
                }
                if str_equal(src, dest) {
                    proof {
                        assert(self.model().remove(srck).insert(destk, self.model()[srck])
                            =~= self.model());
                    }
                    return Result::Ok(());
                }
                match self.find_index(filesystem, user, dest) {
                    Option::Some(di) => {
                        proof {
                            assert(self.entries()[di as int].0 == destk);
                            lemma_contains(self.entries(), destk);
                        }
                        Result::Err(StoreError::Conflict)
                    },
                    Option::None => {
                        proof {
                            lemma_contains(self.entries(), destk);
                        }
                        let ghost old_entries = self.entries();
                        let ghost v = self.model()[srck];
                        let mut rec = self.records.remove(i);
                        rec.name = dest.to_owned();
                        self.records.insert(i, rec);
                        proof {
                            assert(self.records@ =~= old(self).records@.update(
                                i as int,
                                self.records@[i as int],
                            ));
                            assert(self.entries() =~= old_entries.update(i as int, (destk, v)));
                            lemma_update(old_entries, i as int, destk, v);
                        }
                        Result::Ok(())
                    },
                }
            },
        }
    }

    fn extend_record(&mut self, filesystem: &str, user: &str, name: &str, target: i64) -> (r:
        Result<(), StoreError>) {
        let ghost k: WsKey = (filesystem@, user@, name@);
        match self.find_index(filesystem, user, name) {
            Option::None => {
                proof {
                    self.lemma_entry_keys();
                    lemma_contains(self.entries(), k);
                }
                Result::Err(StoreError::NotFound)
            },
            Option::Some(i) => {
                proof {
                    self.lemma_entry_keys();
                    lemma_value_at(self.entries(), i as int);
                }
                let ghost old_entries = self.entries();
                let cur = self.records[i].expiration_time;
                let newv = if cur >= target {
                    cur
                } else {
                    target
                };
                let mut rec = self.records.remove(i);
                rec.expiration_time = newv;
                self.records.insert(i, rec);
                proof {
                    assert(self.records@ =~= old(self).records@.update(
                        i as int,
                        self.records@[i as int],
                    ));
                    assert(self.entries() =~= old_entries.update(i as int, (k, newv)));
                    lemma_update(old_entries, i as int, k, newv);
                    assert(pairs_to_map(old_entries).remove(k).insert(k, newv) =~= pairs_to_map(
                        old_entries,
                    ).insert(k, newv));
                }
                Result::Ok(())
            },
        }
    }

    fn expire_record(&mut self, filesystem: &str, user: &str, name: &str, target: i64) -> (r:
        Result<(), StoreError>) {
        let ghost k: WsKey = (filesystem@, user@, name@);
        match self.find_index(filesystem, user, name) {
            Option::None => {
                proof {
                    self.lemma_entry_keys();
                    lemma_contains(self.entries(), k);
                }
                Result::Err(StoreError::NotFound)
            },
            Option::Some(i) => {
                proof {
                    self.lemma_entry_keys();
                    lemma_value_at(self.entries(), i as int);
                }
                let ghost old_entries = self.entries();
                let cur = self.records[i].expiration_time;
                let newv = if cur <= target {
                    cur
                } else {
                    target
                };
                let mut rec = self.records.remove(i);
                rec.expiration_time = newv;
                self.records.insert(i, rec);
                proof {
                    assert(self.records@ =~= old(self).records@.update(
                        i as int,
                        self.records@[i as int],
                    ));
                    assert(self.entries() =~= old_entries.update(i as int, (k, newv)));
                    lemma_update(old_entries, i as int, k, newv);
                    assert(pairs_to_map(old_entries).remove(k).insert(k, newv) =~= pairs_to_map(
                        old_entries,
                    ).insert(k, newv));
                }
                Result::Ok(())
            },
        }
    }

    fn delete_record(&mut self, filesystem: &str, user: &str, name: &str) {
        let ghost k: WsKey = (filesystem@, user@, name@);
        match self.find_index(filesystem, user, name) {
            Option::None => {
                proof {
                    self.lemma_entry_keys();
                    lemma_contains(self.entries(), k);
                    assert(self.model().remove(k) =~= self.model());
                }
            },
            Option::Some(i) => {
                let ghost old_entries = self.entries();
                self.records.remove(i);
                proof {
                    assert(self.entries() =~= old_entries.remove(i as int));
                    lemma_remove(old_entries, i as int);
                }
            },
        }
    }

    #[verifier::rlimit(60)]
    fn list_records(
        &self,
        filter_users: &Option<Vec<String>>,
        filter_filesystems: &Option<Vec<String>>,
    ) -> (r: Vec<WorkspaceRecord>) {
        proof {
            self.lemma_entry_keys();
        }
        let ghost fu = filter_view(filter_users);
        let ghost ff = filter_view(filter_filesystems);
        let mut out: Vec<WorkspaceRecord> = Vec::new();
        let mut i: usize = 0;
        while i < self.records.len()
            invariant
                self.inv(),
                i <= self.records@.len(),
                fu == filter_view(filter_users),
                ff == filter_view(filter_filesystems),
                self.entries().len() == self.records@.len(),
                forall|j: int|
                    0 <= j < self.records@.len() ==> (#[trigger] self.entries()[j])
                        == self.records@[j].entry(),
                forall|a: int|
                    0 <= a < out.len() ==> self.model().contains_key(#[trigger] out[a].key())
                        && self.model()[out[a].key()] == out[a].expiration_time && record_selected(
                        out[a].key(),
                        fu,
                        ff,
                    ),
                forall|a: int, b: int|
                    0 <= a < b < out.len() ==> (#[trigger] out[a].key()) != (
                    #[trigger] out[b].key()),
                forall|a: int|
                    0 <= a < out.len() ==> exists|j: int|
                        0 <= j < i && (#[trigger] out[a].key()) == self.records@[j].key(),
                forall|j: int|
                    0 <= j < i && record_selected(#[trigger] self.records@[j].key(), fu, ff)
                        ==> exists|a: int|
                        0 <= a < out.len() && (#[trigger] out[a].key()) == self.records@[j].key(),
            decreases self.records@.len() - i,
        {
            let rec = &self.records[i];
            let selected = name_selected_exec(filter_users, rec.user.as_str())
                && name_selected_exec(filter_filesystems, rec.filesystem.as_str());
            if selected {
                proof {
                    lemma_value_at(self.entries(), i as int);
                    assert forall|a: int| 0 <= a < out.len() implies (#[trigger] out[a].key())
                        != self.records@[i as int].key() by {
                        let j = choose|j: int|
                            0 <= j < i && (#[trigger] out[a].key()) == self.records@[j].key();
                        assert(self.entries()[j].0 != self.entries()[i as int].0);
                    }
                }
                let ghost old_out = out@;
                out.push(rec.clone());
                proof {
                    assert(out@[old_out.len() as int].key() == self.records@[i as int].key());
                    assert(forall|a: int| 0 <= a < old_out.len() ==> out@[a] == old_out[a]);
                    assert forall|a: int| 0 <= a < out@.len() implies exists|j: int|
                        0 <= j < i + 1 && (#[trigger] out@[a].key()) == self.records@[j].key() by {
                        if a < old_out.len() {
                            let j = choose|j: int|
                                0 <= j < i && (#[trigger] old_out[a].key()) == self.records@[
                                j].key();
                            assert(out@[a].key() == self.records@[j].key());
                        } else {
                            assert(out@[a].key() == self.records@[i as int].key());
                        }
                    }
                    assert forall|j: int|
                        0 <= j < i + 1 && record_selected(
                            #[trigger] self.records@[j].key(),
                            fu,
                            ff,
                        ) implies exists|a: int|
                        0 <= a < out@.len() && (#[trigger] out@[a].key()) == self.records@[
                    j].key() by {
                        if j < i {
                            let a = choose|a: int|
                                0 <= a < old_out.len() && (#[trigger] old_out[a].key())
                                    == self.records@[j].key();
                            assert(out@[a].key() == self.records@[j].key());
                        } else {
                            assert(out@[old_out.len() as int].key() == self.records@[j].key());
                        }
                    }
                }
            }
            i = i + 1;
        }
        proof {
            assert forall|k: WsKey|
                #[trigger] self.model().contains_key(k) && record_selected(
                    k,
                    fu,
                    ff,
                ) implies exists|a: int| 0 <= a < out.len() && (#[trigger] out[a].key()) == k by {
                lemma_contains(self.entries(), k);
                let j = choose|j: int|
                    0 <= j < self.entries().len() && (#[trigger] self.entries()[j]).0 == k;
                assert(self.records@[j].key() == k);
                assert(record_selected(self.records@[j].key(), fu, ff));
            }
        }
        out
    }

    #[verifier::rlimit(60)]
    fn sweep_candidates(&self, now: i64) -> (r: Vec<WorkspaceRecord>) {
        proof {
            self.lemma_entry_keys();
        }
        let mut out: Vec<WorkspaceRecord> = Vec::new();
        let mut i: usize = 0;
        while i < self.records.len()
            invariant
                self.inv(),
                i <= self.records@.len(),
                self.entries().len() == self.records@.len(),
                forall|j: int|
                    0 <= j < self.records@.len() ==> (#[trigger] self.entries()[j])
                        == self.records@[j].entry(),
                forall|a: int|
                    0 <= a < out.len() ==> self.model().contains_key(#[trigger] out[a].key())
                        && self.model()[out[a].key()] == out[a].expiration_time && out[
                    a].expiration_time < now,
                forall|a: int, b: int|
                    0 <= a < b < out.len() ==> (#[trigger] out[a].key()) != (
                    #[trigger] out[b].key()),
                forall|a: int|
                    0 <= a < out.len() ==> exists|j: int|
                        0 <= j < i && (#[trigger] out[a].key()) == self.records@[j].key(),
                forall|j: int|
                    0 <= j < i && self.records@[j].expiration_time < now ==> exists|a: int|
                        0 <= a < out.len() && (#[trigger] out[a].key()) == (
                        #[trigger] self.records@[j]).key(),
            decreases self.records@.len() - i,
        {
            let rec = &self.records[i];
            if rec.expiration_time < now {
                proof {
                    lemma_value_at(self.entries(), i as int);
                    assert forall|a: int| 0 <= a < out.len() implies (#[trigger] out[a].key())
                        != self.records@[i as int].key() by {
                        let j = choose|j: int|
                            0 <= j < i && (#[trigger] out[a].key()) == self.records@[j].key();
                        assert(self.entries()[j].0 != self.entries()[i as int].0);
                    }
                }
                let ghost old_out = out@;
                out.push(rec.clone());
                proof {
                    assert(out@[old_out.len() as int].key() == self.records@[i as int].key());
                    assert(forall|a: int| 0 <= a < old_out.len() ==> out@[a] == old_out[a]);
                    assert forall|a: int| 0 <= a < out@.len() implies exists|j: int|
                        0 <= j < i + 1 && (#[trigger] out@[a].key()) == self.records@[j].key() by {
                        if a < old_out.len() {
                            let j = choose|j: int|
                                0 <= j < i && (#[trigger] old_out[a].key()) == self.records@[
                                j].key();
                            assert(out@[a].key() == self.records@[j].key());
                        } else {
                            assert(out@[a].key() == self.records@[i as int].key());
                        }
                    }
                    assert forall|j: int|
                        0 <= j < i + 1 && (#[trigger] self.records@[j]).expiration_time
                            < now implies exists|a: int|
                        0 <= a < out@.len() && (#[trigger] out@[a].key()) == self.records@[
                    j].key() by {
                        if j < i {
                            let a = choose|a: int|
                                0 <= a < old_out.len() && (#[trigger] old_out[a].key())
                                    == self.records@[j].key();
                            assert(out@[a].key() == self.records@[j].key());
                        } else {
                            assert(out@[old_out.len() as int].key() == self.records@[j].key());
                        }
                    }
                }
            }
            i = i + 1;
        }
        proof {
            assert forall|k: WsKey| #[trigger] self.model().contains_key(k) && self.model()[k]
                < now implies exists|a: int| 0 <= a < out.len() && (#[trigger] out[a].key())
                == k by {
                lemma_contains(self.entries(), k);
                let j = choose|j: int|
                    0 <= j < self.entries().len() && (#[trigger] self.entries()[j]).0 == k;
                assert(self.records@[j].key() == k);
                lemma_value_at(self.entries(), j);
                assert(self.records@[j].expiration_time < now);
            }
        }
        out
    }
}

} // verus!

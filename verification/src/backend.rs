//! The volume-manager port: create, destroy, rename, property reads and
//! the read-only toggle — and `MemVolumeBackend`, its verified in-memory
//! implementation.
//!
//! The contracts speak about the induced map from volume paths to their
//! read-only flag.  A real backend drives an external process, so every
//! call may fail; the contracts promise only what each reported outcome
//! means, never that an outcome is reached.

use vstd::prelude::*;
use vstd::string::*;

use crate::mapmodel::{lemma_contains, lemma_push, lemma_remove, lemma_update, lemma_value_at,
    pairs_to_map, unique_keys};
use crate::naming::str_equal;

verus! {

/// Why a volume-manager call failed.
///
/// Every backend call is synchronous; it either could not be invoked at all
/// (`Transport`), was invoked and rejected (`Status`), or returned output of
/// an unexpected shape (`Parse`).
#[derive(Clone, Copy, Debug, PartialEq, Eq, Structural)]
pub enum Error {
    /// The volume-manager process could not be invoked.
    Transport,
    /// The volume manager ran but rejected the operation.
    Status,
    /// The volume manager's output could not be parsed.
    Parse,
}

/// The volume-manager port.
///
/// `model()` maps each existing volume path to whether it is read-only;
/// `inv()` is whatever well-formedness the implementation maintains.
pub trait VolumeBackend: Sized {
    /// The managed volumes, each with its read-only flag.  An
    /// implementation the verifier reads overrides this; for one it never
    /// reads, the model stays arbitrary and the contracts claim nothing.
    open spec fn model(&self) -> Map<Seq<char>, bool> {
        vstd::pervasive::arbitrary()
    }

    /// The implementation's well-formedness.
    open spec fn inv(&self) -> bool {
        true
    }

    /// Whether every call succeeds whenever its model-level precondition
    /// holds.  A real backend drives an external process and can fail at
    /// any time, so this defaults to false and its contracts stay
    /// conditional; the in-memory backend overrides it, which is what
    /// lets whole lifecycles be proved to go through against it.
    open spec fn obeys_model(&self) -> bool {
        false
    }

    /// Provisions a volume, writable; fails if it already exists.
    fn create(&mut self, volume: &str) -> (r: Result<(), Error>)
        requires
            old(self).inv(),
        ensures
            final(self).inv(),
            final(self).obeys_model() == old(self).obeys_model(),
            old(self).model().contains_key(volume@) ==> r is Err,
            old(self).obeys_model() && !old(self).model().contains_key(volume@) ==> r is Ok,
            match r {
                Result::Ok(()) => !old(self).model().contains_key(volume@) && final(self).model()
                    == old(self).model().insert(volume@, false),
                Result::Err(_) => final(self).model() == old(self).model(),
            },
    ;

    /// Removes a volume and its data; fails if it is absent or busy.
    fn destroy(&mut self, volume: &str) -> (r: Result<(), Error>)
        requires
            old(self).inv(),
        ensures
            final(self).inv(),
            final(self).obeys_model() == old(self).obeys_model(),
            !old(self).model().contains_key(volume@) ==> r is Err,
            old(self).obeys_model() && old(self).model().contains_key(volume@) ==> r is Ok,
            match r {
                Result::Ok(()) => old(self).model().contains_key(volume@) && final(self).model()
                    == old(self).model().remove(volume@),
                Result::Err(_) => final(self).model() == old(self).model(),
            },
    ;

    /// Renames a volume; fails if the destination exists or the source is
    /// absent.
    fn rename(&mut self, src_volume: &str, dest_volume: &str) -> (r: Result<(), Error>)
        requires
            old(self).inv(),
        ensures
            final(self).inv(),
            final(self).obeys_model() == old(self).obeys_model(),
            !old(self).model().contains_key(src_volume@) || old(self).model().contains_key(
                dest_volume@,
            ) ==> r is Err,
            old(self).obeys_model() && old(self).model().contains_key(src_volume@) && !old(
                self,
            ).model().contains_key(dest_volume@) ==> r is Ok,
            match r {
                Result::Ok(()) => old(self).model().contains_key(src_volume@) && !old(
                    self,
                ).model().contains_key(dest_volume@) && final(self).model() == old(
                    self,
                ).model().remove(src_volume@).insert(
                    dest_volume@,
                    old(self).model()[src_volume@],
                ),
                Result::Err(_) => final(self).model() == old(self).model(),
            },
    ;

    /// Toggles the volume's read-only attribute; fails if it is absent.
    fn set_readonly(&mut self, volume: &str, readonly: bool) -> (r: Result<(), Error>)
        requires
            old(self).inv(),
        ensures
            final(self).inv(),
            final(self).obeys_model() == old(self).obeys_model(),
            !old(self).model().contains_key(volume@) ==> r is Err,
            old(self).obeys_model() && old(self).model().contains_key(volume@) ==> r is Ok,
            match r {
                Result::Ok(()) => old(self).model().contains_key(volume@) && final(self).model()
                    == old(self).model().insert(volume@, readonly),
                Result::Err(_) => final(self).model() == old(self).model(),
            },
    ;

    /// Where the volume is mounted; fails if it is absent.  Which path
    /// comes back depends on the machine, so nothing is claimed about it.
    fn mountpoint(&self, volume: &str) -> (r: Result<String, Error>)
        requires
            self.inv(),
        ensures
            !self.model().contains_key(volume@) ==> r is Err,
            self.obeys_model() && self.model().contains_key(volume@) ==> r is Ok,
    ;

    /// Bytes used under the volume; a live measurement, so nothing is
    /// claimed about the value.
    fn used_bytes(&self, volume: &str) -> (r: Result<u64, Error>)
        requires
            self.inv(),
        ensures
            !self.model().contains_key(volume@) ==> r is Err,
            self.obeys_model() && self.model().contains_key(volume@) ==> r is Ok,
    ;

    /// Bytes still available to the volume; a live measurement.
    fn available_bytes(&self, volume: &str) -> (r: Result<u64, Error>)
        requires
            self.inv(),
        ensures
            !self.model().contains_key(volume@) ==> r is Err,
            self.obeys_model() && self.model().contains_key(volume@) ==> r is Ok,
    ;

    /// Bytes referenced by the volume's data; a live measurement.
    fn referenced_bytes(&self, volume: &str) -> (r: Result<u64, Error>)
        requires
            self.inv(),
        ensures
            !self.model().contains_key(volume@) ==> r is Err,
            self.obeys_model() && self.model().contains_key(volume@) ==> r is Ok,
    ;

    /// Restricts the mounted directory to owner-only access.  This touches
    /// permissions, not volumes, so the model is unchanged.
    fn restrict_mount(&mut self, mountpoint: &str, user: &str) -> (r: Result<(), Error>)
        requires
            old(self).inv(),
        ensures
            final(self).inv(),
            final(self).obeys_model() == old(self).obeys_model(),
            final(self).model() == old(self).model(),
            old(self).obeys_model() ==> r is Ok,
    ;
}

/// One volume of the in-memory backend.
pub struct VolumeEntry {
    /// The volume's path.
    pub path: String,
    /// Whether the volume is read-only.
    pub readonly: bool,
}

/// An in-memory volume backend.  It overrides `obeys_model`: every call
/// succeeds when its model-level precondition holds, so tests and proofs
/// can drive the engine through whole lifecycles.
pub struct MemVolumeBackend {
    volumes: Vec<VolumeEntry>,
}

impl MemVolumeBackend {
    /// The volumes as a sequence of path-flag entries.
    pub closed spec fn entries(&self) -> Seq<(Seq<char>, bool)> {
        self.volumes@.map_values(|e: VolumeEntry| (e.path@, e.readonly))
    }

    /// An empty backend.
    pub fn new() -> (s: Self)
        ensures
            s.inv(),
            s.model() == Map::<Seq<char>, bool>::empty(),
    {
        let s = MemVolumeBackend { volumes: Vec::new() };
        proof {
            assert(s.entries() =~= Seq::<(Seq<char>, bool)>::empty());
        }
        s
    }

    /// The index of the volume with the path, if any.
    fn find_volume(&self, volume: &str) -> (r: Option<usize>)
        ensures
            match r {
                Option::Some(i) => i < self.volumes@.len() && self.volumes@[i as int].path@
                    == volume@,
                Option::None => forall|j: int|
                    0 <= j < self.volumes@.len() ==> (#[trigger] self.volumes@[j].path@)
                        != volume@,
            },
    {
        let mut i: usize = 0;
        while i < self.volumes.len()
            invariant
                i <= self.volumes@.len(),
                forall|j: int| 0 <= j < i ==> (#[trigger] self.volumes@[j].path@) != volume@,
            decreases self.volumes@.len() - i,
        {
            if str_equal(self.volumes[i].path.as_str(), volume) {
                return Option::Some(i);
            }
            i = i + 1;
        }
        Option::None
    }

    /// Bridges a volume-level path statement to the entry sequence.
    proof fn lemma_entry_paths(&self)
        ensures
            self.entries().len() == self.volumes@.len(),
            forall|j: int|
                0 <= j < self.volumes@.len() ==> (#[trigger] self.entries()[j]) == (
                self.volumes@[j].path@,
                self.volumes@[j].readonly,
            ),
    {
    }

    /// Whether a volume with the path exists.
    pub fn has_volume(&self, volume: &str) -> (b: bool)
        requires
            self.inv(),
        ensures
            b == self.model().contains_key(volume@),
    {
        proof {
            self.lemma_entry_paths();
            lemma_contains(self.entries(), volume@);
        }
        match self.find_volume(volume) {
            Option::Some(i) => {
                proof {
                    assert(self.entries()[i as int].0 == volume@);
                }
                true
            },
            Option::None => false,
        }
    }

    /// The volume's read-only flag, if the volume exists.
    pub fn readonly_flag(&self, volume: &str) -> (r: Option<bool>)
        requires
            self.inv(),
        ensures
            match r {
                Option::Some(b) => self.model().contains_key(volume@) && b == self.model()[volume@],
                Option::None => !self.model().contains_key(volume@),
            },
    {
        proof {
            self.lemma_entry_paths();
            lemma_contains(self.entries(), volume@);
        }
        match self.find_volume(volume) {
            Option::Some(i) => {
                proof {
                    assert(self.entries()[i as int].0 == volume@);
                    lemma_value_at(self.entries(), i as int);
                }
                Option::Some(self.volumes[i].readonly)
            },
            Option::None => Option::None,
        }
    }
}

impl VolumeBackend for MemVolumeBackend {
    closed spec fn model(&self) -> Map<Seq<char>, bool> {
        pairs_to_map(self.entries())
    }

    closed spec fn inv(&self) -> bool {
        unique_keys(self.entries())
    }

    open spec fn obeys_model(&self) -> bool {
        true
    }

    fn create(&mut self, volume: &str) -> (r: Result<(), Error>) {
        match self.find_volume(volume) {
            Option::Some(i) => {
                proof {
                    self.lemma_entry_paths();
                    assert(self.entries()[i as int].0 == volume@);
                    lemma_contains(self.entries(), volume@);
                }
                Result::Err(Error::Status)
            },
            Option::None => {
                proof {
                    self.lemma_entry_paths();
                    lemma_contains(self.entries(), volume@);
                }
                let ghost old_entries = self.entries();
                self.volumes.push(VolumeEntry { path: volume.to_owned(), readonly: false });
                proof {
                    assert(self.entries() =~= old_entries.push((volume@, false)));
                    lemma_push(old_entries, volume@, false);
                }
                Result::Ok(())
            },
        }
    }

    fn destroy(&mut self, volume: &str) -> (r: Result<(), Error>) {
        match self.find_volume(volume) {
            Option::None => {
                proof {
                    self.lemma_entry_paths();
                    lemma_contains(self.entries(), volume@);
                }
                Result::Err(Error::Status)
            },
            Option::Some(i) => {
                proof {
                    self.lemma_entry_paths();
                    assert(self.entries()[i as int].0 == volume@);
                    lemma_contains(self.entries(), volume@);
                }
                let ghost old_entries = self.entries();
                self.volumes.remove(i);
                proof {
                    assert(self.entries() =~= old_entries.remove(i as int));
                    lemma_remove(old_entries, i as int);
                }
                Result::Ok(())
            },
        }
    }

    fn rename(&mut self, src_volume: &str, dest_volume: &str) -> (r: Result<(), Error>) {
        match self.find_volume(src_volume) {
            Option::None => {
                proof {
                    self.lemma_entry_paths();
                    lemma_contains(self.entries(), src_volume@);
                }
                Result::Err(Error::Status)
            },
            Option::Some(i) => {
                proof {
                    self.lemma_entry_paths();
                    assert(self.entries()[i as int].0 == src_volume@);
                    lemma_contains(self.entries(), src_volume@);
                    lemma_value_at(self.entries(), i as int);
                }
                match self.find_volume(dest_volume) {
                    Option::Some(di) => {
                        proof {
                            assert(self.entries()[di as int].0 == dest_volume@);
                            lemma_contains(self.entries(), dest_volume@);
                        }
                        Result::Err(Error::Status)
                    },
                    Option::None => {
                        proof {
                            lemma_contains(self.entries(), dest_volume@);
                        }
                        let ghost old_entries = self.entries();
                        let ghost v = self.model()[src_volume@];
                        let mut entry = self.volumes.remove(i);
                        entry.path = dest_volume.to_owned();
                        self.volumes.insert(i, entry);
                        proof {
                            assert(self.entries() =~= old_entries.update(
                                i as int,
                                (dest_volume@, v),
                            ));
                            lemma_update(old_entries, i as int, dest_volume@, v);
                        }
                        Result::Ok(())
                    },
                }
            },
        }
    }

    fn set_readonly(&mut self, volume: &str, readonly: bool) -> (r: Result<(), Error>) {
        match self.find_volume(volume) {
            Option::None => {
                proof {
                    self.lemma_entry_paths();
                    lemma_contains(self.entries(), volume@);
                }
                Result::Err(Error::Status)
            },
            Option::Some(i) => {
                proof {
                    self.lemma_entry_paths();
                    assert(self.entries()[i as int].0 == volume@);
                    lemma_contains(self.entries(), volume@);
                    lemma_value_at(self.entries(), i as int);
                }
                let ghost old_entries = self.entries();
                let mut entry = self.volumes.remove(i);
                entry.readonly = readonly;
                self.volumes.insert(i, entry);
                proof {
                    assert(self.entries() =~= old_entries.update(i as int, (volume@, readonly)));
                    lemma_update(old_entries, i as int, volume@, readonly);
                    assert(pairs_to_map(old_entries).remove(volume@).insert(volume@, readonly)
                        =~= pairs_to_map(old_entries).insert(volume@, readonly));
                }
                Result::Ok(())
            },
        }
    }

    fn mountpoint(&self, volume: &str) -> (r: Result<String, Error>) {
        match self.find_volume(volume) {
            Option::None => {
                proof {
                    self.lemma_entry_paths();
                    lemma_contains(self.entries(), volume@);
                }
                Result::Err(Error::Status)
            },
            Option::Some(i) => {
                proof {
                    self.lemma_entry_paths();
                    assert(self.entries()[i as int].0 == volume@);
                    lemma_contains(self.entries(), volume@);
                }
                let mut m = String::new();
                m.append("/");
                m.append(volume);
                Result::Ok(m)
            },
        }
    }

    fn used_bytes(&self, volume: &str) -> (r: Result<u64, Error>) {
        match self.find_volume(volume) {
            Option::None => {
                proof {
                    self.lemma_entry_paths();
                    lemma_contains(self.entries(), volume@);
                }
                Result::Err(Error::Status)
            },
            Option::Some(i) => {
                proof {
                    self.lemma_entry_paths();
                    assert(self.entries()[i as int].0 == volume@);
                    lemma_contains(self.entries(), volume@);
                }
                Result::Ok(0)
            },
        }
    }

    fn available_bytes(&self, volume: &str) -> (r: Result<u64, Error>) {
        match self.find_volume(volume) {
            Option::None => {
                proof {
                    self.lemma_entry_paths();
                    lemma_contains(self.entries(), volume@);
                }
                Result::Err(Error::Status)
            },
            Option::Some(i) => {
                proof {
                    self.lemma_entry_paths();
                    assert(self.entries()[i as int].0 == volume@);
                    lemma_contains(self.entries(), volume@);
                }
                Result::Ok(0)
            },
        }
    }

    fn referenced_bytes(&self, volume: &str) -> (r: Result<u64, Error>) {
        match self.find_volume(volume) {
            Option::None => {
                proof {
                    self.lemma_entry_paths();
                    lemma_contains(self.entries(), volume@);
                }
                Result::Err(Error::Status)
            },
            Option::Some(i) => {
                proof {
                    self.lemma_entry_paths();
                    assert(self.entries()[i as int].0 == volume@);
                    lemma_contains(self.entries(), volume@);
                }
                Result::Ok(0)
            },
        }
    }

    fn restrict_mount(&mut self, mountpoint: &str, user: &str) -> (r: Result<(), Error>) {
        Result::Ok(())
    }
}

} // verus!

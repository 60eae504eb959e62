use vstd::prelude::*;
use crate::atomic_index::AtomicNoKeys;
use crate::atomic_store::AtomicStore;
use crate::decide::{
    live_decision, live_outcome, revive_decision, revive_outcome, show_decision,
};
use crate::error::ErrorKind;
use crate::mphf::{
    in_range, mphf_build, mphf_builds, mphf_len, perfect_on, slot_index, slot_of, texts, Mphf,
};
use std::sync::Arc;

verus! {

/// The concurrent map that keeps no keys: every access goes to the slot that
/// the hash function gives to the key, whatever key the slot was built for.
/// Reading, upserting, dropping, reaping and rehydrating need only shared
/// access. The hash function never changes, and the contracts speak of it;
/// of the alive flags and the values, which another thread may change
/// between any two steps, they say what holds whatever was read.
#[verifier::reject_recursive_types(V)]
pub struct AtomicUnverifiedFrozenMap<V> {
    mphf: Mphf,
    keys: AtomicNoKeys,
    store: AtomicStore<V>,
}

impl<V> AtomicUnverifiedFrozenMap<V> {
    /// The hash function, fixed at the build.
    pub closed spec fn hash(&self) -> Mphf {
        self.mphf
    }

    /// Flags and values have the same slots, one for each key that the hash
    /// function was built over.
    pub closed spec fn wf(&self) -> bool {
        &&& in_range(self.mphf)
        &&& mphf_len(self.mphf) == self.keys.capacity()
        &&& self.keys.capacity() <= usize::MAX
        &&& self.store.capacity() == self.keys.capacity()
    }

    /// The slot of `key`: one for every key, of the build or not, unless the
    /// map has no slots at all.
    pub open spec fn slot(&self, key: Seq<char>) -> Option<usize> {
        slot_of(self.hash(), key)
    }

    /// Builds the map over `keys`, every slot alive and without a value.
    pub fn from_vec(keys: Vec<String>) -> (r: Result<Self, ErrorKind>)
        ensures
            r is Ok <==> mphf_builds(texts(keys@)),
            match r {
                Ok(map) => map.wf() && perfect_on(map.hash(), texts(keys@)),
                Err(e) => e == ErrorKind::BuildFailed,
            },
    {
        let built = mphf_build(&keys);
        Self::from_built(&keys, built)
    }

    /// The second half of `from_vec`: the map over `keys` once the hash
    /// function has been asked for. Without a function there is no map.
    pub fn from_built(keys: &Vec<String>, built: Option<Mphf>) -> (r: Result<Self, ErrorKind>)
        requires
            built matches Some(f) ==> perfect_on(f, texts(keys@)),
        ensures
            r is Ok <==> built is Some,
            match r {
                Ok(map) => map.wf() && Some(map.hash()) == built,
                Err(e) => e == ErrorKind::BuildFailed,
            },
    {
        let len = keys.len();
        match built {
            None => Err(ErrorKind::BuildFailed),
            Some(f) => Ok(Self { mphf: f, keys: AtomicNoKeys::new(len), store: AtomicStore::new(len) }),
        }
    }

    /// A share of what the slot of `key` holds, if the slot is read as alive
    /// and holds a value at the moment it is read. In a map without slots
    /// no key has a value.
    pub fn get(&self, key: &String) -> (r: Option<Arc<V>>)
        requires
            self.wf(),
        ensures
            r is Some ==> self.slot(key@) is Some,
    {
        match slot_index(&self.mphf, key, self.store.len()) {
            None => None,
            Some(idx) => {
                if show_decision(self.keys.dead_key(idx), true) {
                    self.store.get_value(idx)
                } else {
                    None
                }
            },
        }
    }

    /// Puts `value` into the slot of `key`, in place of what was there. A
    /// slot that is read as reaped is left alone and answered `KeyDead`.
    pub fn upsert(&self, key: String, value: V) -> (r: Result<(), ErrorKind>)
        requires
            self.wf(),
        ensures
            match self.slot(key@) {
                Some(_) => r == live_outcome(true, true) || r == live_outcome(false, true),
                None => r == Err::<(), ErrorKind>(ErrorKind::KeyUnknown),
            },
    {
        match slot_index(&self.mphf, &key, self.store.len()) {
            None => Err(ErrorKind::KeyUnknown),
            Some(idx) => {
                let verdict = live_decision(self.keys.dead_key(idx), true);
                if verdict.is_ok() {
                    self.store.update(idx, value);
                }
                verdict
            },
        }
    }

    /// Empties the slot of `key`, alive or not. In a map without slots
    /// nothing changes.
    pub fn drop_value(&self, key: &String)
        requires
            self.wf(),
    {
        match slot_index(&self.mphf, key, self.store.len()) {
            None => {},
            Some(idx) => {
                self.store.remove_value(idx);
            },
        }
    }

    /// Reaps the slot of `key`. A slot that is read as reaped is answered
    /// `KeyDead`.
    pub fn reap_key(&self, key: &String) -> (r: Result<(), ErrorKind>)
        requires
            self.wf(),
        ensures
            match self.slot(key@) {
                Some(_) => r == live_outcome(true, true) || r == live_outcome(false, true),
                None => r == Err::<(), ErrorKind>(ErrorKind::KeyUnknown),
            },
    {
        match slot_index(&self.mphf, key, self.store.len()) {
            None => Err(ErrorKind::KeyUnknown),
            Some(idx) => {
                let verdict = live_decision(self.keys.dead_key(idx), true);
                if verdict.is_ok() {
                    self.keys.kill(idx);
                }
                verdict
            },
        }
    }

    /// Brings the slot of `key` back to life. A slot that is read as alive
    /// is answered `KeyAlive`.
    pub fn rehydrate_key(&self, key: &String) -> (r: Result<(), ErrorKind>)
        requires
            self.wf(),
        ensures
            match self.slot(key@) {
                Some(_) => r == revive_outcome(true, true) || r == revive_outcome(false, true),
                None => r == Err::<(), ErrorKind>(ErrorKind::KeyUnknown),
            },
    {
        match slot_index(&self.mphf, key, self.store.len()) {
            None => Err(ErrorKind::KeyUnknown),
            Some(idx) => {
                let verdict = revive_decision(self.keys.dead_key(idx), true);
                if verdict.is_ok() {
                    self.keys.rehydrate(idx);
                }
                verdict
            },
        }
    }

    /// The number of slots counted alive at the moment of the call.
    pub fn len(&self) -> (r: usize) {
        self.keys.len()
    }
}

} // verus!

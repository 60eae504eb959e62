use vstd::prelude::*;
use crate::atomic_index::AtomicWithKeys;
use crate::atomic_store::AtomicStore;
use crate::decide::{
    live_decision, live_outcome, revive_decision, revive_outcome, show_decision,
};
use crate::error::ErrorKind;
use crate::mphf::{
    in_range, mphf_build, mphf_builds, mphf_len, perfect_on, slot_index, slot_of, texts, Mphf,
};
use crate::scatter::scatter_keys;
use std::sync::Arc;

verus! {

/// The concurrent map that keeps its keys. Reading, upserting, dropping,
/// reaping and rehydrating need only shared access, so any number of threads
/// may do them at once. The keys and the hash function never change, and the
/// contracts speak of them; of the alive flags and the values, which another
/// thread may change between any two steps, they say what holds whatever was
/// read.
#[verifier::reject_recursive_types(V)]
pub struct AtomicVerifiedFrozenMap<V> {
    mphf: Mphf,
    keys: AtomicWithKeys,
    store: AtomicStore<V>,
}

impl<V> AtomicVerifiedFrozenMap<V> {
    /// The hash function, fixed at the build.
    pub closed spec fn hash(&self) -> Mphf {
        self.mphf
    }

    /// The key of each slot, fixed at the build.
    pub closed spec fn key_seq(&self) -> Seq<Seq<char>> {
        self.keys.stored()
    }

    /// Keys, flags and values have the same slots, one for each key that the
    /// hash function was built over, and every key sits in the slot that the
    /// function gives it.
    pub closed spec fn wf(&self) -> bool {
        &&& self.keys.wf()
        &&& in_range(self.mphf)
        &&& mphf_len(self.mphf) == self.keys.capacity()
        &&& self.keys.capacity() <= usize::MAX
        &&& self.keys.stored().len() == self.keys.capacity()
        &&& self.store.capacity() == self.keys.capacity()
        &&& forall|i: int|
            0 <= i < self.keys.stored().len() ==> slot_of(
                self.mphf,
                #[trigger] self.keys.stored()[i],
            ) == Some(i as usize)
    }

    /// The slot of `key`: one for every key, of the build or not, unless the
    /// map has no slots at all.
    pub open spec fn slot(&self, key: Seq<char>) -> Option<usize> {
        slot_of(self.hash(), key)
    }

    /// `key` is the key of the slot that the hash function gives it.
    pub open spec fn holds(&self, key: Seq<char>) -> bool {
        self.slot(key) matches Some(idx) && idx < self.key_seq().len() && self.key_seq()[idx as int]
            == key
    }

    /// `map` is built over `keys`: its hash function is perfect on them, and
    /// each of them is the key of its slot.
    pub open spec fn built_over(map: Self, keys: Seq<String>) -> bool {
        &&& map.wf()
        &&& perfect_on(map.hash(), texts(keys))
        &&& map.key_seq().len() == keys.len()
        &&& forall|j: int| 0 <= j < keys.len() ==> map.holds(#[trigger] keys[j]@)
    }

    /// The keys of the map are the keys that it holds: a key occurs among
    /// the keys of the slots if and only if it is the key of its own slot.
    pub proof fn lemma_holds_own_keys(&self, key: Seq<char>)
        requires
            self.wf(),
        ensures
            self.key_seq().contains(key) <==> self.holds(key),
    {
        if self.key_seq().contains(key) {
            let i = choose|i: int| 0 <= i < self.key_seq().len() && self.key_seq()[i] == key;
            assert(self.slot(self.key_seq()[i]) == Some(i as usize));
        }
    }

    /// Builds the map over `keys`, every slot alive and without a value.
    pub fn from_vec(keys: Vec<String>) -> (r: Result<Self, ErrorKind>)
        ensures
            r is Ok <==> mphf_builds(texts(keys@)),
            match r {
                Ok(map) => Self::built_over(map, keys@),
                Err(e) => e == ErrorKind::BuildFailed,
            },
    {
        let built = mphf_build(&keys);
        Self::from_built(keys, built)
    }

    /// The second half of `from_vec`: the map over `keys` once the hash
    /// function has been asked for. Without a function there is no map.
    pub fn from_built(keys: Vec<String>, built: Option<Mphf>) -> (r: Result<Self, ErrorKind>)
        requires
            built matches Some(f) ==> perfect_on(f, texts(keys@)),
        ensures
            r is Ok <==> built is Some,
            match r {
                Ok(map) => Self::built_over(map, keys@) && Some(map.hash()) == built,
                Err(e) => e == ErrorKind::BuildFailed,
            },
    {
        let len = keys.len();
        match built {
            None => Err(ErrorKind::BuildFailed),
            Some(f) => {
                let sorted = scatter_keys(&f, keys);
                let storage = AtomicWithKeys::new(sorted);
                let store = AtomicStore::new(len);
                let map = Self { mphf: f, keys: storage, store };
                Ok(map)
            },
        }
    }

    /// A share of the value of `key`, if its slot is read as alive, belongs
    /// to this key and holds a value at the moment it is read. Under a key
    /// that the map does not hold there is never a value.
    pub fn get(&self, key: &String) -> (r: Option<Arc<V>>)
        requires
            self.wf(),
        ensures
            r is Some ==> self.holds(key@),
    {
        match slot_index(&self.mphf, key, self.store.len()) {
            None => None,
            Some(idx) => {
                let dead = self.keys.dead_key(idx);
                let same = *self.keys.get(idx) == *key;
                if show_decision(dead, same) {
                    self.store.get_value(idx)
                } else {
                    None
                }
            },
        }
    }

    /// Whether `key` is a key of the map and read as alive. For a key that
    /// the map does not hold the answer is always no.
    pub fn contains(&self, key: &String) -> (r: bool)
        requires
            self.wf(),
        ensures
            r ==> self.holds(key@),
    {
        match slot_index(&self.mphf, key, self.store.len()) {
            None => false,
            Some(idx) => {
                let dead = self.keys.dead_key(idx);
                let same = *self.keys.get(idx) == *key;
                show_decision(dead, same)
            },
        }
    }

    /// Puts `value` under `key`, in place of what was there. A key whose slot
    /// is read as reaped is answered `KeyDead`; a key that the map does not
    /// hold is never accepted.
    pub fn upsert(&self, key: String, value: V) -> (r: Result<(), ErrorKind>)
        requires
            self.wf(),
        ensures
            match self.slot(key@) {
                Some(_) => r == live_outcome(true, self.holds(key@)) || r == live_outcome(
                    false,
                    self.holds(key@),
                ),
                None => r == Err::<(), ErrorKind>(ErrorKind::KeyUnknown),
            },
    {
        match slot_index(&self.mphf, &key, self.store.len()) {
            None => Err(ErrorKind::KeyUnknown),
            Some(idx) => {
                let dead = self.keys.dead_key(idx);
                let same = *self.keys.get(idx) == key;
                let verdict = live_decision(dead, same);
                if verdict.is_ok() {
                    self.store.update(idx, value);
                }
                verdict
            },
        }
    }

    /// Drops the value of `key`, alive or not. A key that the map does not
    /// hold is turned away.
    pub fn drop_value(&self, key: &String) -> (r: Result<(), ErrorKind>)
        requires
            self.wf(),
        ensures
            r == (if self.holds(key@) {
                Ok::<(), ErrorKind>(())
            } else {
                Err::<(), ErrorKind>(ErrorKind::KeyUnknown)
            }),
    {
        match slot_index(&self.mphf, key, self.store.len()) {
            None => Err(ErrorKind::KeyUnknown),
            Some(idx) => {
                if *self.keys.get(idx) == *key {
                    self.store.remove_value(idx);
                    Ok(())
                } else {
                    Err(ErrorKind::KeyUnknown)
                }
            },
        }
    }

    /// Reaps `key`. A key whose slot is read as reaped is answered `KeyDead`;
    /// a key that the map does not hold is never accepted.
    pub fn reap_key(&self, key: &String) -> (r: Result<(), ErrorKind>)
        requires
            self.wf(),
        ensures
            match self.slot(key@) {
                Some(_) => r == live_outcome(true, self.holds(key@)) || r == live_outcome(
                    false,
                    self.holds(key@),
                ),
                None => r == Err::<(), ErrorKind>(ErrorKind::KeyUnknown),
            },
    {
        match slot_index(&self.mphf, key, self.store.len()) {
            None => Err(ErrorKind::KeyUnknown),
            Some(idx) => {
                let dead = self.keys.dead_key(idx);
                let same = *self.keys.get(idx) == *key;
                let verdict = live_decision(dead, same);
                if verdict.is_ok() {
                    self.keys.kill(idx);
                }
                verdict
            },
        }
    }

    /// Brings `key` back to life. A key whose slot is read as alive is
    /// answered `KeyAlive`; a key that the map does not hold is never
    /// accepted.
    pub fn rehydrate(&self, key: &String) -> (r: Result<(), ErrorKind>)
        requires
            self.wf(),
        ensures
            match self.slot(key@) {
                Some(_) => r == revive_outcome(true, self.holds(key@)) || r == revive_outcome(
                    false,
                    self.holds(key@),
                ),
                None => r == Err::<(), ErrorKind>(ErrorKind::KeyUnknown),
            },
    {
        match slot_index(&self.mphf, key, self.store.len()) {
            None => Err(ErrorKind::KeyUnknown),
            Some(idx) => {
                let dead = self.keys.dead_key(idx);
                let same = *self.keys.get(idx) == *key;
                let verdict = revive_decision(dead, same);
                if verdict.is_ok() {
                    self.keys.rehydrate(idx);
                }
                verdict
            },
        }
    }

    /// The number of keys counted alive at the moment of the call.
    pub fn len(&self) -> (r: usize) {
        self.keys.len()
    }

    /// Verified rejection: a key that the map was not built over is not held
    /// by it, so `get` finds nothing under it and `contains` answers no; and
    /// whatever is read of its slot, `upsert`, `reap_key` and `rehydrate`
    /// answer with an error.
    pub proof fn law_rejects_foreign_key(&self, key: Seq<char>, dead: bool)
        requires
            self.wf(),
            !self.key_seq().contains(key),
        ensures
            !self.holds(key),
            live_outcome(dead, self.holds(key)) is Err,
            revive_outcome(dead, self.holds(key)) is Err,
    {
        self.lemma_holds_own_keys(key);
    }
}

} // verus!

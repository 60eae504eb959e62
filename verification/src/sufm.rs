use vstd::prelude::*;
use crate::bits::{bit_limit, bits_repeat, count_true, lemma_count_true_update};
use crate::error::ErrorKind;
use crate::index::{FrozenIndex, NoKeys, UnverifiedIndex};
use crate::mphf::{mphf_build, mphf_builds, mphf_slots, perfect_on, slot_of, texts, Mphf};
use crate::scatter::{empty_slots, scatter_values};
use crate::store::SyncStore;

verus! {

/// The single-threaded map that keeps no keys: every access goes to the slot
/// that the hash function gives to the key, whatever key the slot was built
/// for. The caller sees to it that only keys of the build are asked for.
pub struct SyncUnverifiedFrozenMap<V> {
    index: UnverifiedIndex,
    store: SyncStore<V>,
}

/// A second name of `SyncUnverifiedFrozenMap`, for callers to whom the lack
/// of key checks matters more than the threading.
pub type UnsafeFrozenMap<V> = SyncUnverifiedFrozenMap<V>;

impl<V> SyncUnverifiedFrozenMap<V> {
    /// The hash function, fixed at the build.
    pub closed spec fn hash(&self) -> Mphf {
        self.index.hash()
    }

    /// One entry per slot: whether the slot is alive.
    pub closed spec fn alive(&self) -> Seq<bool> {
        self.index.alive()
    }

    /// One entry per slot: the value that is present there, if any.
    pub closed spec fn values(&self) -> Seq<Option<V>> {
        self.store@
    }

    /// Index and store have the same slots.
    pub closed spec fn wf(&self) -> bool {
        &&& self.index.wf()
        &&& self.store.wf()
        &&& self.index.stored() is None
        &&& self.store@.len() == self.index.alive().len()
    }

    /// The slot of `key`: one for every key, of the build or not, unless the
    /// map has no slots at all.
    pub open spec fn slot(&self, key: Seq<char>) -> Option<usize> {
        slot_of(self.hash(), key)
    }

    /// What `get` finds for `key`: the value in the slot of the key, unless
    /// the slot is reaped or the map has no slots.
    pub open spec fn lookup(&self, key: Seq<char>) -> Option<V> {
        match self.slot(key) {
            Some(idx) => if self.alive()[idx as int] {
                self.values()[idx as int]
            } else {
                None
            },
            None => None,
        }
    }

    /// What `upsert` answers for `key`.
    pub open spec fn upsert_verdict(&self, key: Seq<char>) -> Result<(), ErrorKind> {
        match self.slot(key) {
            Some(idx) => if self.alive()[idx as int] {
                Ok(())
            } else {
                Err(ErrorKind::KeyDead)
            },
            None => Err(ErrorKind::KeyUnknown),
        }
    }

    /// What `reap_key` answers for `key`.
    pub open spec fn reap_verdict(&self, key: Seq<char>) -> Result<(), ErrorKind> {
        match self.slot(key) {
            Some(idx) => if self.alive()[idx as int] {
                Ok(())
            } else {
                Err(ErrorKind::KeyDead)
            },
            None => Err(ErrorKind::KeyUnknown),
        }
    }

    /// What `rehydrate_key` answers for `key`.
    pub open spec fn rehydrate_verdict(&self, key: Seq<char>) -> Result<(), ErrorKind> {
        match self.slot(key) {
            Some(idx) => if self.alive()[idx as int] {
                Err(ErrorKind::KeyAlive)
            } else {
                Ok(())
            },
            None => Err(ErrorKind::KeyUnknown),
        }
    }

    /// `after` is this map once `upsert(key, value)` has run.
    pub open spec fn upserted(&self, after: Self, key: Seq<char>, value: V) -> bool {
        &&& after.wf()
        &&& after.hash() == self.hash()
        &&& after.alive() == self.alive()
        &&& after.values() == if self.upsert_verdict(key) is Ok {
            self.values().update(self.slot(key)->0 as int, Some(value))
        } else {
            self.values()
        }
    }

    /// `after` is this map once `drop_value(key)` has run.
    pub open spec fn dropped(&self, after: Self, key: Seq<char>) -> bool {
        &&& after.wf()
        &&& after.hash() == self.hash()
        &&& after.alive() == self.alive()
        &&& after.values() == match self.slot(key) {
            Some(idx) => self.values().update(idx as int, None),
            None => self.values(),
        }
    }

    /// `after` is this map once `reap_key(key)` has run.
    pub open spec fn reaped(&self, after: Self, key: Seq<char>) -> bool {
        &&& after.wf()
        &&& after.hash() == self.hash()
        &&& after.values() == self.values()
        &&& after.alive() == if self.reap_verdict(key) is Ok {
            self.alive().update(self.slot(key)->0 as int, false)
        } else {
            self.alive()
        }
    }

    /// `after` is this map once `rehydrate_key(key)` has run.
    pub open spec fn rehydrated(&self, after: Self, key: Seq<char>) -> bool {
        &&& after.wf()
        &&& after.hash() == self.hash()
        &&& after.values() == self.values()
        &&& after.alive() == if self.rehydrate_verdict(key) is Ok {
            self.alive().update(self.slot(key)->0 as int, true)
        } else {
            self.alive()
        }
    }

    /// In a well-formed map a slot of the hash function is a slot of the map.
    pub proof fn lemma_slot_in_range(&self, key: Seq<char>)
        requires
            self.wf(),
        ensures
            self.alive().len() == self.values().len(),
            self.alive().len() <= usize::MAX,
            self.slot(key) is Some <==> self.alive().len() > 0,
            self.slot(key) matches Some(idx) ==> idx < self.alive().len(),
    {
        self.index.lemma_slot_in_range(key);
    }

    /// Builds the map over `keys` and scatters `values` into it: the value at
    /// each position goes to the slot of the key at the same position. Every
    /// slot starts alive and with its value present.
    pub fn unsafe_init(keys: Vec<String>, values: Vec<V>) -> (r: Result<Self, ErrorKind>)
        ensures
            keys.len() != values.len() <==> r == Err::<Self, ErrorKind>(ErrorKind::LengthMismatch),
            r is Ok <==> keys.len() == values.len() && mphf_builds(texts(keys@)) && keys.len()
                <= bit_limit(),
            match r {
                Ok(map) => Self::initialised(map, keys@, values@),
                Err(e) => e == ErrorKind::LengthMismatch || e == ErrorKind::BuildFailed,
            },
    {
        if keys.len() != values.len() {
            return Err(ErrorKind::LengthMismatch);
        }
        let built = mphf_build(&keys);
        Self::init_built(&keys, values, built)
    }

    /// `map` is what `unsafe_init` builds from `keys` and `values`.
    pub open spec fn initialised(map: Self, keys: Seq<String>, values: Seq<V>) -> bool {
        &&& map.wf()
        &&& perfect_on(map.hash(), texts(keys))
        &&& map.alive() == Seq::new(keys.len(), |i: int| true)
        &&& map.values().len() == keys.len()
        &&& forall|j: int|
            0 <= j < keys.len() ==> map.values()[mphf_slots(map.hash())[#[trigger] keys[j]@] as int]
                == Some(values[j])
    }

    /// The second half of `unsafe_init`: the map over `keys` and `values`
    /// once the hash function has been asked for. Without a function, or with
    /// more keys than a bit vector holds, there is no map.
    pub fn init_built(keys: &Vec<String>, values: Vec<V>, built: Option<Mphf>) -> (r: Result<
        Self,
        ErrorKind,
    >)
        requires
            keys.len() == values.len(),
            built matches Some(f) ==> perfect_on(f, texts(keys@)),
        ensures
            r is Ok <==> built is Some && keys.len() <= bit_limit(),
            match r {
                Ok(map) => Self::initialised(map, keys@, values@) && Some(map.hash()) == built,
                Err(e) => e == ErrorKind::BuildFailed,
            },
    {
        let len = keys.len();
        match built {
            None => Err(ErrorKind::BuildFailed),
            Some(f) => {
                if len > usize::MAX / 8 {
                    return Err(ErrorKind::BuildFailed);
                }
                let slots = scatter_values(&f, keys, values);
                let present = bits_repeat(true, len);
                let store = SyncStore::new(slots, present);
                let index = FrozenIndex::new(f, NoKeys::new(len));
                let map = Self { index, store };
                Ok(map)
            },
        }
    }

    /// Builds the map over `keys`, every slot alive and without a value.
    pub fn from_vec(keys: Vec<String>) -> (r: Result<Self, ErrorKind>)
        ensures
            r is Ok <==> mphf_builds(texts(keys@)) && keys.len() <= bit_limit(),
            match r {
                Ok(map) => Self::fresh(map, keys@),
                Err(e) => e == ErrorKind::BuildFailed,
            },
    {
        let built = mphf_build(&keys);
        Self::from_built(&keys, built)
    }

    /// `map` is what `from_vec` builds from `keys`.
    pub open spec fn fresh(map: Self, keys: Seq<String>) -> bool {
        &&& map.wf()
        &&& perfect_on(map.hash(), texts(keys))
        &&& map.alive() == Seq::new(keys.len(), |i: int| true)
        &&& map.values() == Seq::new(keys.len(), |i: int| None::<V>)
    }

    /// The second half of `from_vec`: the map over `keys` once the hash
    /// function has been asked for. Without a function, or with more keys
    /// than a bit vector holds, there is no map.
    pub fn from_built(keys: &Vec<String>, built: Option<Mphf>) -> (r: Result<Self, ErrorKind>)
        requires
            built matches Some(f) ==> perfect_on(f, texts(keys@)),
        ensures
            r is Ok <==> built is Some && keys.len() <= bit_limit(),
            match r {
                Ok(map) => Self::fresh(map, keys@) && Some(map.hash()) == built,
                Err(e) => e == ErrorKind::BuildFailed,
            },
    {
        let len = keys.len();
        match built {
            None => Err(ErrorKind::BuildFailed),
            Some(f) => {
                if len > usize::MAX / 8 {
                    return Err(ErrorKind::BuildFailed);
                }
                let present = bits_repeat(false, len);
                let store = SyncStore::new(empty_slots(len), present);
                let index = FrozenIndex::new(f, NoKeys::new(len));
                let map = Self { index, store };
                assert(map.values() =~= Seq::new(keys.len() as nat, |i: int| None::<V>));
                Ok(map)
            },
        }
    }

    /// The value of `key`: what its slot holds, unless the slot is reaped.
    pub fn get(&self, key: &String) -> (r: Option<&V>)
        requires
            self.wf(),
        ensures
            match r {
                Some(v) => self.lookup(key@) == Some(*v),
                None => self.lookup(key@) is None,
            },
    {
        match self.index.find(key) {
            None => None,
            Some(idx) => {
                if self.index.dead_key(idx) {
                    None
                } else {
                    self.store.get_value(idx)
                }
            },
        }
    }

    /// The value of `key`, to be changed in place: what its slot holds, unless
    /// the slot is reaped.
    pub fn get_mut(&mut self, key: &String) -> (r: Option<&mut V>)
        requires
            old(self).wf(),
        ensures
            final(self).wf(),
            final(self).hash() == old(self).hash(),
            final(self).alive() == old(self).alive(),
            match r {
                Some(v) => old(self).lookup(key@) == Some(*v) && final(self).values() == old(
                    self,
                ).values().update(old(self).slot(key@)->0 as int, Some(*final(v))),
                None => old(self).lookup(key@) is None && final(self).values() == old(
                    self,
                ).values(),
            },
    {
        match self.index.find(key) {
            None => None,
            Some(idx) => {
                if self.index.dead_key(idx) {
                    None
                } else {
                    self.store.get_mut_value(idx)
                }
            },
        }
    }

    /// Whether the slot of `key` holds a value, alive or not.
    pub fn contains_value(&self, key: &String) -> (r: bool)
        requires
            self.wf(),
        ensures
            r == (self.slot(key@) matches Some(idx) && self.values()[idx as int] is Some),
    {
        match self.index.find(key) {
            None => false,
            Some(idx) => self.store.get_value(idx).is_some(),
        }
    }

    /// Puts `value` into the slot of `key`, in place of what was there.
    /// A reaped slot is left alone and reported.
    pub fn upsert(&mut self, key: String, value: V) -> (r: Result<(), ErrorKind>)
        requires
            old(self).wf(),
        ensures
            r == old(self).upsert_verdict(key@),
            old(self).upserted(*final(self), key@, value),
    {
        match self.index.find(&key) {
            None => Err(ErrorKind::KeyUnknown),
            Some(idx) => {
                if self.index.dead_key(idx) {
                    Err(ErrorKind::KeyDead)
                } else {
                    self.store.update(idx, value);
                    Ok(())
                }
            },
        }
    }

    /// Empties the slot of `key`, alive or not.
    pub fn drop_value(&mut self, key: &String)
        requires
            old(self).wf(),
        ensures
            old(self).dropped(*final(self), key@),
    {
        match self.index.find(key) {
            None => {},
            Some(idx) => {
                self.store.remove_value(idx);
            },
        }
    }

    /// Reaps the slot of `key`. The value in it stays where it is.
    pub fn reap_key(&mut self, key: &String) -> (r: Result<(), ErrorKind>)
        requires
            old(self).wf(),
        ensures
            r == old(self).reap_verdict(key@),
            old(self).reaped(*final(self), key@),
    {
        match self.index.find(key) {
            None => Err(ErrorKind::KeyUnknown),
            Some(idx) => {
                if self.index.dead_key(idx) {
                    Err(ErrorKind::KeyDead)
                } else {
                    self.index.kill(idx);
                    Ok(())
                }
            },
        }
    }

    /// Brings the slot of `key` back to life, with the value that it held.
    pub fn rehydrate_key(&mut self, key: &String) -> (r: Result<(), ErrorKind>)
        requires
            old(self).wf(),
        ensures
            r == old(self).rehydrate_verdict(key@),
            old(self).rehydrated(*final(self), key@),
    {
        match self.index.find(key) {
            None => Err(ErrorKind::KeyUnknown),
            Some(idx) => {
                if !self.index.dead_key(idx) {
                    Err(ErrorKind::KeyAlive)
                } else {
                    self.index.rehydrate(idx);
                    Ok(())
                }
            },
        }
    }

    /// The number of slots that are alive.
    pub fn len(&self) -> (r: usize)
        requires
            self.wf(),
        ensures
            r == count_true(self.alive()),
    {
        self.index.len()
    }
}

impl<V> SyncUnverifiedFrozenMap<V> {
    /// Insert, then get: `upsert` under a key whose slot is alive succeeds,
    /// and `get` under the same key then finds the value that was put.
    pub proof fn law_upsert_then_get(before: Self, after: Self, key: Seq<char>, value: V)
        requires
            before.wf(),
            before.slot(key) matches Some(idx) && before.alive()[idx as int],
            before.upserted(after, key, value),
        ensures
            before.upsert_verdict(key) is Ok,
            after.lookup(key) == Some(value),
    {
        before.lemma_slot_in_range(key);
    }

    /// Overwrite: of two values put under one key, `get` finds the second.
    pub proof fn law_overwrite(
        before: Self,
        between: Self,
        after: Self,
        key: Seq<char>,
        first: V,
        second: V,
    )
        requires
            before.wf(),
            before.slot(key) matches Some(idx) && before.alive()[idx as int],
            before.upserted(between, key, first),
            between.upserted(after, key, second),
        ensures
            between.upsert_verdict(key) is Ok,
            after.lookup(key) == Some(second),
    {
        before.lemma_slot_in_range(key);
        between.lemma_slot_in_range(key);
    }

    /// Drop value: once the value of a key is dropped, `get` finds nothing
    /// under the key, and a later `upsert` under it succeeds and is found.
    pub proof fn law_drop_value(
        before: Self,
        put: Self,
        emptied: Self,
        after: Self,
        key: Seq<char>,
        value: V,
        later: V,
    )
        requires
            before.wf(),
            before.slot(key) matches Some(idx) && before.alive()[idx as int],
            before.upserted(put, key, value),
            put.dropped(emptied, key),
            emptied.upserted(after, key, later),
        ensures
            emptied.lookup(key) is None,
            emptied.upsert_verdict(key) is Ok,
            after.lookup(key) == Some(later),
    {
        before.lemma_slot_in_range(key);
        put.lemma_slot_in_range(key);
        emptied.lemma_slot_in_range(key);
    }

    /// Reaping twice, rehydrating twice: after `reap_key` has succeeded a
    /// second `reap_key` answers `KeyDead`, and after `rehydrate_key` has
    /// succeeded a second `rehydrate_key` answers `KeyAlive`.
    pub proof fn law_reap_rehydrate_once(before: Self, after: Self, key: Seq<char>)
        requires
            before.wf(),
        ensures
            before.reap_verdict(key) is Ok && before.reaped(after, key) ==> after.reap_verdict(key)
                == Err::<(), ErrorKind>(ErrorKind::KeyDead),
            before.rehydrate_verdict(key) is Ok && before.rehydrated(after, key)
                ==> after.rehydrate_verdict(key) == Err::<(), ErrorKind>(ErrorKind::KeyAlive),
            before.slot(key) matches Some(idx) && !before.alive()[idx as int]
                ==> before.reap_verdict(key) == Err::<(), ErrorKind>(ErrorKind::KeyDead),
            before.slot(key) matches Some(idx) && before.alive()[idx as int]
                ==> before.rehydrate_verdict(key) == Err::<(), ErrorKind>(ErrorKind::KeyAlive),
    {
        before.lemma_slot_in_range(key);
    }

    /// Reaping hides a value and rehydrating shows it again: while the slot
    /// of a key is reaped `get` finds nothing under it, and once it is alive
    /// again `get` finds what the slot held before.
    pub proof fn law_reap_hides_rehydrate_restores(
        before: Self,
        dead: Self,
        after: Self,
        key: Seq<char>,
    )
        requires
            before.wf(),
            before.reap_verdict(key) is Ok,
            before.reaped(dead, key),
            dead.rehydrated(after, key),
        ensures
            dead.lookup(key) is None,
            dead.rehydrate_verdict(key) is Ok,
            after.lookup(key) == before.lookup(key),
            after.alive() == before.alive(),
    {
        before.lemma_slot_in_range(key);
        dead.lemma_slot_in_range(key);
        assert(after.alive() =~= before.alive());
    }

    /// Length accounting: a successful `reap_key` takes one from the number
    /// of slots alive, a successful `rehydrate_key` adds one, and a refused
    /// one of either leaves it as it is.
    pub proof fn law_len_accounting(before: Self, after: Self, key: Seq<char>)
        requires
            before.wf(),
        ensures
            before.reaped(after, key) ==> count_true(after.alive()) + (if before.reap_verdict(
                key,
            ) is Ok {
                1int
            } else {
                0int
            }) == count_true(before.alive()),
            before.rehydrated(after, key) ==> count_true(after.alive()) == count_true(
                before.alive(),
            ) + (if before.rehydrate_verdict(key) is Ok {
                1int
            } else {
                0int
            }),
    {
        before.lemma_slot_in_range(key);
        if before.slot(key) is Some {
            let idx = before.slot(key)->0 as int;
            lemma_count_true_update(before.alive(), idx, false);
            lemma_count_true_update(before.alive(), idx, true);
        }
    }
}

} // verus!

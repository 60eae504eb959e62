use vstd::prelude::*;
use crate::bits::{bit_limit, bits_repeat, count_true, lemma_count_true_update};
use crate::error::ErrorKind;
use crate::index::{FrozenIndex, VerifiedIndex, WithKeys};
use crate::mphf::{mphf_build, mphf_builds, mphf_slots, perfect_on, slot_of, texts, Mphf};
use crate::scatter::{empty_slots, scatter_keys, scatter_values};
use crate::store::SyncStore;

verus! {

/// The single-threaded map that keeps its keys: every access compares the
/// key it is given with the key of the slot, and turns away a key that the
/// map was not built over.
pub struct FrozenMap<V> {
    index: VerifiedIndex,
    store: SyncStore<V>,
}

/// The name of `FrozenMap` among the four variants.
pub type SyncVerifiedFrozenMap<V> = FrozenMap<V>;

impl<V> FrozenMap<V> {
    /// The hash function, fixed at the build.
    pub closed spec fn hash(&self) -> Mphf {
        self.index.hash()
    }

    /// The key of each slot, fixed at the build.
    pub closed spec fn key_seq(&self) -> Seq<Seq<char>> {
        self.index.stored()->0
    }

    /// One entry per slot: whether the slot is alive.
    pub closed spec fn alive(&self) -> Seq<bool> {
        self.index.alive()
    }

    /// One entry per slot: the value that is present there, if any.
    pub closed spec fn values(&self) -> Seq<Option<V>> {
        self.store@
    }

    /// Index and store have the same slots, and every key sits in the slot
    /// that the hash function gives it.
    pub closed spec fn wf(&self) -> bool {
        &&& self.index.wf()
        &&& self.store.wf()
        &&& self.index.stored() is Some
        &&& self.store@.len() == self.index.alive().len()
    }

    /// The slot of `key`: one for every key, of the build or not, unless the
    /// map has no slots at all.
    pub open spec fn slot(&self, key: Seq<char>) -> Option<usize> {
        slot_of(self.hash(), key)
    }

    /// `key` is the key of the slot that the hash function gives it.
    pub open spec fn holds(&self, key: Seq<char>) -> bool {
        self.slot(key) matches Some(idx) && self.key_seq()[idx as int] == key
    }

    /// What `contains` answers for `key`.
    pub open spec fn contains_spec(&self, key: Seq<char>) -> bool {
        self.slot(key) matches Some(idx) && self.alive()[idx as int] && self.key_seq()[idx as int]
            == key
    }

    /// What `get` finds for `key`: the value in its slot, unless the slot is
    /// reaped or belongs to another key.
    pub open spec fn lookup(&self, key: Seq<char>) -> Option<V> {
        match self.slot(key) {
            Some(idx) => if self.alive()[idx as int] && self.key_seq()[idx as int] == key {
                self.values()[idx as int]
            } else {
                None
            },
            None => None,
        }
    }

    /// What `upsert` answers for `key`.
    pub open spec fn upsert_verdict(&self, key: Seq<char>) -> Result<(), ErrorKind> {
        match self.slot(key) {
            Some(idx) => if !self.alive()[idx as int] {
                Err(ErrorKind::KeyDead)
            } else if self.key_seq()[idx as int] != key {
                Err(ErrorKind::KeyUnknown)
            } else {
                Ok(())
            },
            None => Err(ErrorKind::KeyUnknown),
        }
    }

    /// What `drop_value` answers for `key`.
    pub open spec fn drop_verdict(&self, key: Seq<char>) -> Result<(), ErrorKind> {
        if self.holds(key) {
            Ok(())
        } else {
            Err(ErrorKind::KeyUnknown)
        }
    }

    /// What `reap_key` answers for `key`.
    pub open spec fn reap_verdict(&self, key: Seq<char>) -> Result<(), ErrorKind> {
        match self.slot(key) {
            Some(idx) => if !self.alive()[idx as int] {
                Err(ErrorKind::KeyDead)
            } else if self.key_seq()[idx as int] != key {
                Err(ErrorKind::KeyUnknown)
            } else {
                Ok(())
            },
            None => Err(ErrorKind::KeyUnknown),
        }
    }

    /// What `rehydrate_key` answers for `key`.
    pub open spec fn rehydrate_verdict(&self, key: Seq<char>) -> Result<(), ErrorKind> {
        match self.slot(key) {
            Some(idx) => if self.alive()[idx as int] {
                Err(ErrorKind::KeyAlive)
            } else if self.key_seq()[idx as int] != key {
                Err(ErrorKind::KeyUnknown)
            } else {
                Ok(())
            },
            None => Err(ErrorKind::KeyUnknown),
        }
    }

    /// `after` has the hash function and the keys of this map.
    pub open spec fn same_keys(&self, after: Self) -> bool {
        &&& after.wf()
        &&& after.hash() == self.hash()
        &&& after.key_seq() == self.key_seq()
    }

    /// `after` is this map once `upsert(key, value)` has run.
    pub open spec fn upserted(&self, after: Self, key: Seq<char>, value: V) -> bool {
        &&& self.same_keys(after)
        &&& after.alive() == self.alive()
        &&& after.values() == if self.upsert_verdict(key) is Ok {
            self.values().update(self.slot(key)->0 as int, Some(value))
        } else {
            self.values()
        }
    }

    /// `after` is this map once `drop_value(key)` has run.
    pub open spec fn dropped(&self, after: Self, key: Seq<char>) -> bool {
        &&& self.same_keys(after)
        &&& after.alive() == self.alive()
        &&& after.values() == if self.drop_verdict(key) is Ok {
            self.values().update(self.slot(key)->0 as int, None)
        } else {
            self.values()
        }
    }

    /// `after` is this map once `reap_key(key)` has run.
    pub open spec fn reaped(&self, after: Self, key: Seq<char>) -> bool {
        &&& self.same_keys(after)
        &&& after.values() == self.values()
        &&& after.alive() == if self.reap_verdict(key) is Ok {
            self.alive().update(self.slot(key)->0 as int, false)
        } else {
            self.alive()
        }
    }

    /// `after` is this map once `rehydrate_key(key)` has run.
    pub open spec fn rehydrated(&self, after: Self, key: Seq<char>) -> bool {
        &&& self.same_keys(after)
        &&& after.values() == self.values()
        &&& after.alive() == if self.rehydrate_verdict(key) is Ok {
            self.alive().update(self.slot(key)->0 as int, true)
        } else {
            self.alive()
        }
    }

    /// `map` is built over `keys`: its hash function is perfect on them, and
    /// each of them is the key of its slot.
    pub open spec fn built_over(map: Self, keys: Seq<String>) -> bool {
        &&& map.wf()
        &&& perfect_on(map.hash(), texts(keys))
        &&& map.key_seq().len() == keys.len()
        &&& map.alive() == Seq::new(keys.len(), |i: int| true)
        &&& forall|j: int| 0 <= j < keys.len() ==> map.holds(#[trigger] keys[j]@)
    }

    /// `map` is what `from_vec` builds from `keys`.
    pub open spec fn fresh(map: Self, keys: Seq<String>) -> bool {
        &&& Self::built_over(map, keys)
        &&& map.values() == Seq::new(keys.len(), |i: int| None::<V>)
    }

    /// `map` is what `unsafe_init` builds from `keys` and `values`.
    pub open spec fn initialised(map: Self, keys: Seq<String>, values: Seq<V>) -> bool {
        &&& Self::built_over(map, keys)
        &&& map.values().len() == keys.len()
        &&& forall|j: int|
            0 <= j < keys.len() ==> map.values()[mphf_slots(map.hash())[#[trigger] keys[j]@] as int]
                == Some(values[j])
    }

    /// In a well-formed map every slot has its key, its alive bit and its
    /// value slot, a slot of the hash function is a slot of the map, and the
    /// key of a slot is given that slot.
    pub proof fn lemma_slots(&self, key: Seq<char>)
        requires
            self.wf(),
        ensures
            self.alive().len() == self.values().len(),
            self.alive().len() == self.key_seq().len(),
            self.alive().len() <= usize::MAX,
            self.slot(key) is Some <==> self.alive().len() > 0,
            self.slot(key) matches Some(idx) ==> idx < self.alive().len(),
            forall|i: int|
                0 <= i < self.key_seq().len() ==> self.slot(#[trigger] self.key_seq()[i]) == Some(
                    i as usize,
                ),
    {
        self.index.lemma_slot_in_range(key);
        assert forall|i: int| 0 <= i < self.key_seq().len() implies self.slot(
            #[trigger] self.key_seq()[i],
        ) == Some(i as usize) by {
            self.index.lemma_stored_slot(i);
        }
    }

    /// Builds the map over `keys`, every slot alive and without a value.
    pub fn from_vec(keys: Vec<String>) -> (r: Result<Self, ErrorKind>)
        ensures
            r is Ok <==> mphf_builds(texts(keys@)) && keys.len() <= bit_limit(),
            match r {
                Ok(map) => Self::fresh(map, keys@),
                Err(e) => e == ErrorKind::BuildFailed,
            },
    {
        let built = mphf_build(&keys);
        Self::from_built(keys, built)
    }

    /// The second half of `from_vec`: the map over `keys` once the hash
    /// function has been asked for. Without a function, or with more keys
    /// than a bit vector holds, there is no map.
    pub fn from_built(keys: Vec<String>, built: Option<Mphf>) -> (r: Result<Self, ErrorKind>)
        requires
            built matches Some(f) ==> perfect_on(f, texts(keys@)),
        ensures
            r is Ok <==> built is Some && keys.len() <= bit_limit(),
            match r {
                Ok(map) => Self::fresh(map, keys@) && Some(map.hash()) == built,
                Err(e) => e == ErrorKind::BuildFailed,
            },
    {
        let len = keys.len();
        match built {
            None => Err(ErrorKind::BuildFailed),
            Some(f) => {
                if len > usize::MAX / 8 {
                    return Err(ErrorKind::BuildFailed);
                }
                let sorted = scatter_keys(&f, keys);
                let present = bits_repeat(false, len);
                let store = SyncStore::new(empty_slots(len), present);
                let storage = WithKeys::new(sorted);
                let index = FrozenIndex::new(f, storage);
                let map = Self { index, store };
                assert(map.values() =~= Seq::new(len as nat, |i: int| None::<V>));
                Ok(map)
            },
        }
    }

    /// Builds the map over `keys` and scatters `values` into it: the value at
    /// each position goes to the slot of the key at the same position. Every
    /// slot starts alive and with its value present.
    pub fn unsafe_init(keys: Vec<String>, values: Vec<V>) -> (r: Result<Self, ErrorKind>)
        ensures
            keys.len() != values.len() <==> r == Err::<Self, ErrorKind>(ErrorKind::LengthMismatch),
            r is Ok <==> keys.len() == values.len() && mphf_builds(texts(keys@)) && keys.len()
                <= bit_limit(),
            match r {
                Ok(map) => Self::initialised(map, keys@, values@),
                Err(e) => e == ErrorKind::LengthMismatch || e == ErrorKind::BuildFailed,
            },
    {
        if keys.len() != values.len() {
            return Err(ErrorKind::LengthMismatch);
        }
        let built = mphf_build(&keys);
        Self::init_built(keys, values, built)
    }

    /// The second half of `unsafe_init`: the map over `keys` and `values`
    /// once the hash function has been asked for. Without a function, or with
    /// more keys than a bit vector holds, there is no map.
    pub fn init_built(keys: Vec<String>, values: Vec<V>, built: Option<Mphf>) -> (r: Result<
        Self,
        ErrorKind,
    >)
        requires
            keys.len() == values.len(),
            built matches Some(f) ==> perfect_on(f, texts(keys@)),
        ensures
            r is Ok <==> built is Some && keys.len() <= bit_limit(),
            match r {
                Ok(map) => Self::initialised(map, keys@, values@) && Some(map.hash()) == built,
                Err(e) => e == ErrorKind::BuildFailed,
            },
    {
        let len = keys.len();
        match built {
            None => Err(ErrorKind::BuildFailed),
            Some(f) => {
                if len > usize::MAX / 8 {
                    return Err(ErrorKind::BuildFailed);
                }
                let slots = scatter_values(&f, &keys, values);
                let sorted = scatter_keys(&f, keys);
                let present = bits_repeat(true, len);
                let store = SyncStore::new(slots, present);
                let storage = WithKeys::new(sorted);
                let index = FrozenIndex::new(f, storage);
                let map = Self { index, store };
                Ok(map)
            },
        }
    }

    /// The value of `key`, unless its slot is reaped or belongs to another
    /// key.
    pub fn get(&self, key: &String) -> (r: Option<&V>)
        requires
            self.wf(),
        ensures
            match r {
                Some(v) => self.lookup(key@) == Some(*v),
                None => self.lookup(key@) is None,
            },
    {
        match self.index.find(key) {
            None => None,
            Some(idx) => {
                if self.index.dead_key(idx) {
                    None
                } else if *self.index.key(idx) != *key {
                    None
                } else {
                    self.store.get_value(idx)
                }
            },
        }
    }

    /// The value of `key`, to be changed in place, unless its slot is reaped
    /// or belongs to another key.
    pub fn get_mut(&mut self, key: &String) -> (r: Option<&mut V>)
        requires
            old(self).wf(),
        ensures
            old(self).same_keys(*final(self)),
            final(self).alive() == old(self).alive(),
            match r {
                Some(v) => old(self).lookup(key@) == Some(*v) && final(self).values() == old(
                    self,
                ).values().update(old(self).slot(key@)->0 as int, Some(*final(v))),
                None => old(self).lookup(key@) is None && final(self).values() == old(
                    self,
                ).values(),
            },
    {
        match self.index.find(key) {
            None => None,
            Some(idx) => {
                if self.index.dead_key(idx) {
                    None
                } else if *self.index.key(idx) != *key {
                    None
                } else {
                    self.store.get_mut_value(idx)
                }
            },
        }
    }

    /// Whether `key` is a key of the map and alive.
    pub fn contains(&self, key: &String) -> (r: bool)
        requires
            self.wf(),
        ensures
            r == self.contains_spec(key@),
    {
        self.index.contains_key(key)
    }

    /// Whether the slot that the hash function gives to `key` holds a value,
    /// alive or not, and whatever key the slot belongs to.
    pub fn contains_value(&self, key: &String) -> (r: bool)
        requires
            self.wf(),
        ensures
            r == (self.slot(key@) matches Some(idx) && self.values()[idx as int] is Some),
    {
        match self.index.find(key) {
            None => false,
            Some(idx) => self.store.get_value(idx).is_some(),
        }
    }

    /// Puts `value` under `key`, in place of what was there. A reaped key and
    /// a key that the map was not built over are turned away.
    pub fn upsert(&mut self, key: String, value: V) -> (r: Result<(), ErrorKind>)
        requires
            old(self).wf(),
        ensures
            r == old(self).upsert_verdict(key@),
            old(self).upserted(*final(self), key@, value),
    {
        match self.index.find(&key) {
            None => Err(ErrorKind::KeyUnknown),
            Some(idx) => {
                if self.index.dead_key(idx) {
                    Err(ErrorKind::KeyDead)
                } else if *self.index.key(idx) == key {
                    self.store.update(idx, value);
                    Ok(())
                } else {
                    Err(ErrorKind::KeyUnknown)
                }
            },
        }
    }

    /// Drops the value of `key`, alive or not. A key that the map was not
    /// built over is turned away.
    pub fn drop_value(&mut self, key: &String) -> (r: Result<(), ErrorKind>)
        requires
            old(self).wf(),
        ensures
            r == old(self).drop_verdict(key@),
            old(self).dropped(*final(self), key@),
    {
        match self.index.find(key) {
            None => Err(ErrorKind::KeyUnknown),
            Some(idx) => {
                if *self.index.key(idx) == *key {
                    self.store.remove_value(idx);
                    Ok(())
                } else {
                    Err(ErrorKind::KeyUnknown)
                }
            },
        }
    }

    /// Reaps `key`. Its value stays where it is.
    pub fn reap_key(&mut self, key: &String) -> (r: Result<(), ErrorKind>)
        requires
            old(self).wf(),
        ensures
            r == old(self).reap_verdict(key@),
            old(self).reaped(*final(self), key@),
    {
        match self.index.find(key) {
            None => Err(ErrorKind::KeyUnknown),
            Some(idx) => {
                if self.index.dead_key(idx) {
                    Err(ErrorKind::KeyDead)
                } else if *self.index.key(idx) == *key {
                    self.index.kill(idx);
                    Ok(())
                } else {
                    Err(ErrorKind::KeyUnknown)
                }
            },
        }
    }

    /// Brings `key` back to life, with the value that it held.
    pub fn rehydrate_key(&mut self, key: &String) -> (r: Result<(), ErrorKind>)
        requires
            old(self).wf(),
        ensures
            r == old(self).rehydrate_verdict(key@),
            old(self).rehydrated(*final(self), key@),
    {
        match self.index.find(key) {
            None => Err(ErrorKind::KeyUnknown),
            Some(idx) => {
                if !self.index.dead_key(idx) {
                    Err(ErrorKind::KeyAlive)
                } else if *self.index.key(idx) == *key {
                    self.index.rehydrate(idx);
                    Ok(())
                } else {
                    Err(ErrorKind::KeyUnknown)
                }
            },
        }
    }

    /// The number of keys that are alive.
    pub fn len(&self) -> (r: usize)
        requires
            self.wf(),
        ensures
            r == count_true(self.alive()),
    {
        self.index.len()
    }
}

impl<V> FrozenMap<V> {
    /// Slot `idx` is shown by `iter`: it is alive and holds a value.
    pub open spec fn shown(&self, idx: int) -> bool {
        self.alive()[idx] && self.values()[idx] is Some
    }

    /// The slots below `upto` that `iter` shows, in rising order.
    pub open spec fn live_slots(&self, upto: nat) -> Seq<int>
        decreases upto,
    {
        if upto == 0 {
            Seq::empty()
        } else if self.shown(upto - 1) {
            self.live_slots((upto - 1) as nat).push(upto - 1)
        } else {
            self.live_slots((upto - 1) as nat)
        }
    }

    /// `iter` yields an entry with the key `key`.
    pub open spec fn yields(&self, key: Seq<char>) -> bool {
        exists|j: int|
            0 <= j < self.live_slots(self.key_seq().len()).len() && self.key_seq()[#[trigger] self.live_slots(
                self.key_seq().len(),
            )[j]] == key
    }

    /// The slots that `iter` shows are the slots that are alive and hold a
    /// value, each once.
    pub proof fn lemma_live_slots(&self, upto: nat)
        ensures
            self.live_slots(upto).len() <= upto,
            forall|j: int|
                0 <= j < self.live_slots(upto).len() ==> 0 <= (#[trigger] self.live_slots(upto)[j])
                    < upto && self.shown(self.live_slots(upto)[j]),
            forall|idx: int|
                0 <= idx < upto && self.shown(idx) ==> self.live_slots(upto).contains(idx),
        decreases upto,
    {
        if upto > 0 {
            let rest = self.live_slots((upto - 1) as nat);
            self.lemma_live_slots((upto - 1) as nat);
            if self.shown(upto - 1) {
                let all = rest.push(upto - 1);
                assert(all[rest.len() as int] == upto - 1);
                assert forall|idx: int| 0 <= idx < upto && self.shown(idx) implies all.contains(
                    idx,
                ) by {
                    if idx < upto - 1 {
                        let j = choose|j: int| 0 <= j < rest.len() && rest[j] == idx;
                        assert(all[j] == idx);
                    }
                }
            }
        }
    }

    /// The entries of the keys that are alive and have a value, in slot
    /// order: a copy of the key and a copy of the value each.
    pub fn iter(&self) -> (r: Vec<(String, V)>) where V: Clone
        requires
            self.wf(),
        ensures
            r.len() == self.live_slots(self.key_seq().len()).len(),
            forall|j: int|
                0 <= j < r.len() ==> {
                    let idx = self.live_slots(self.key_seq().len())[j];
                    (#[trigger] r[j]).0@ == self.key_seq()[idx] && cloned(
                        self.values()[idx]->0,
                        r[j].1,
                    )
                },
    {
        proof {
            self.lemma_slots(Seq::empty());
        }
        let n = self.store.len();
        let mut out: Vec<(String, V)> = Vec::new();
        let mut i: usize = 0;
        while i < n
            invariant
                self.wf(),
                n == self.key_seq().len(),
                n == self.alive().len(),
                n == self.values().len(),
                i <= n,
                out.len() == self.live_slots(i as nat).len(),
                forall|j: int|
                    0 <= j < out.len() ==> {
                        let idx = self.live_slots(i as nat)[j];
                        (#[trigger] out[j]).0@ == self.key_seq()[idx] && cloned(
                            self.values()[idx]->0,
                            out[j].1,
                        )
                    },
            decreases n - i,
        {
            let ghost before = self.live_slots(i as nat);
            if !self.index.dead_key(i) {
                match self.store.get_value(i) {
                    Some(v) => {
                        let entry = (self.index.key(i).clone(), v.clone());
                        out.push(entry);
                        assert(self.live_slots((i + 1) as nat) == before.push(i as int));
                    },
                    None => {
                        assert(self.live_slots((i + 1) as nat) == before);
                    },
                }
            } else {
                assert(self.live_slots((i + 1) as nat) == before);
            }
            i += 1;
        }
        out
    }

    /// A copy of every key of the build, in slot order, reaped or not.
    pub fn iter_keys(&self) -> (r: Vec<String>)
        requires
            self.wf(),
        ensures
            texts(r@) == self.key_seq(),
    {
        proof {
            self.lemma_slots(Seq::empty());
        }
        let n = self.store.len();
        let mut out: Vec<String> = Vec::with_capacity(n);
        let mut i: usize = 0;
        while i < n
            invariant
                self.wf(),
                n == self.key_seq().len(),
                n == self.alive().len(),
                i <= n,
                out.len() == i,
                forall|j: int| 0 <= j < i ==> (#[trigger] out[j])@ == self.key_seq()[j],
            decreases n - i,
        {
            out.push(self.index.key(i).clone());
            i += 1;
        }
        assert(texts(out@) =~= self.key_seq());
        out
    }
}

impl<V> FrozenMap<V> {
    /// The keys of the map are the keys that it holds: a key occurs among
    /// the keys of the slots if and only if it is the key of its own slot.
    pub proof fn lemma_holds_own_keys(&self, key: Seq<char>)
        requires
            self.wf(),
        ensures
            self.key_seq().contains(key) <==> self.holds(key),
    {
        self.lemma_slots(key);
        if self.key_seq().contains(key) {
            let i = choose|i: int| 0 <= i < self.key_seq().len() && self.key_seq()[i] == key;
            assert(self.slot(self.key_seq()[i]) == Some(i as usize));
        }
    }

    /// Insert, then get: `upsert` under a key of the map that is alive
    /// succeeds, and `get` under the same key then finds the value that was
    /// put.
    pub proof fn law_upsert_then_get(before: Self, after: Self, key: Seq<char>, value: V)
        requires
            before.wf(),
            before.contains_spec(key),
            before.upserted(after, key, value),
        ensures
            before.upsert_verdict(key) is Ok,
            after.lookup(key) == Some(value),
    {
        before.lemma_slots(key);
    }

    /// Overwrite: of two values put under one key, `get` finds the second.
    pub proof fn law_overwrite(
        before: Self,
        between: Self,
        after: Self,
        key: Seq<char>,
        first: V,
        second: V,
    )
        requires
            before.wf(),
            before.contains_spec(key),
            before.upserted(between, key, first),
            between.upserted(after, key, second),
        ensures
            between.upsert_verdict(key) is Ok,
            after.lookup(key) == Some(second),
    {
        before.lemma_slots(key);
        between.lemma_slots(key);
    }

    /// Drop value: once the value of a key is dropped, `get` finds nothing
    /// under the key, and a later `upsert` under it succeeds and is found.
    pub proof fn law_drop_value(
        before: Self,
        put: Self,
        emptied: Self,
        after: Self,
        key: Seq<char>,
        value: V,
        later: V,
    )
        requires
            before.wf(),
            before.contains_spec(key),
            before.upserted(put, key, value),
            put.dropped(emptied, key),
            emptied.upserted(after, key, later),
        ensures
            put.drop_verdict(key) is Ok,
            emptied.lookup(key) is None,
            emptied.upsert_verdict(key) is Ok,
            after.lookup(key) == Some(later),
    {
        before.lemma_slots(key);
        put.lemma_slots(key);
        emptied.lemma_slots(key);
    }

    /// Reaping twice, rehydrating twice: `reap_key` on a key that is reaped
    /// answers `KeyDead`, `rehydrate_key` on a key that is alive answers
    /// `KeyAlive`; so does each of them when it is repeated after it has
    /// succeeded.
    pub proof fn law_reap_rehydrate_once(before: Self, after: Self, key: Seq<char>)
        requires
            before.wf(),
        ensures
            before.slot(key) matches Some(idx) && !before.alive()[idx as int]
                ==> before.reap_verdict(key) == Err::<(), ErrorKind>(ErrorKind::KeyDead),
            before.slot(key) matches Some(idx) && before.alive()[idx as int]
                ==> before.rehydrate_verdict(key) == Err::<(), ErrorKind>(ErrorKind::KeyAlive),
            before.reap_verdict(key) is Ok && before.reaped(after, key) ==> after.reap_verdict(key)
                == Err::<(), ErrorKind>(ErrorKind::KeyDead),
            before.rehydrate_verdict(key) is Ok && before.rehydrated(after, key)
                ==> after.rehydrate_verdict(key) == Err::<(), ErrorKind>(ErrorKind::KeyAlive),
    {
        before.lemma_slots(key);
    }

    /// Verified rejection: under a key that the map was not built over `get`
    /// finds nothing, `contains` answers no, and no operation that changes
    /// the map succeeds.
    pub proof fn law_rejects_foreign_key(&self, key: Seq<char>)
        requires
            self.wf(),
            !self.key_seq().contains(key),
        ensures
            self.lookup(key) is None,
            !self.contains_spec(key),
            self.upsert_verdict(key) is Err,
            self.drop_verdict(key) is Err,
            self.reap_verdict(key) is Err,
            self.rehydrate_verdict(key) is Err,
    {
        self.lemma_holds_own_keys(key);
    }

    /// Iteration leaves out what is reaped: once a key is reaped `iter`
    /// yields no entry with it, though `get` finds nothing either; once it is
    /// rehydrated `iter` yields it again if and only if its slot holds a
    /// value.
    pub proof fn law_iter_excludes_reaped(before: Self, dead: Self, after: Self, key: Seq<char>)
        requires
            before.wf(),
            before.reap_verdict(key) is Ok,
            before.reaped(dead, key),
            dead.rehydrated(after, key),
        ensures
            !dead.yields(key),
            dead.lookup(key) is None,
            dead.rehydrate_verdict(key) is Ok,
            after.yields(key) <==> before.values()[before.slot(key)->0 as int] is Some,
            after.lookup(key) == before.lookup(key),
    {
        before.lemma_slots(key);
        dead.lemma_slots(key);
        after.lemma_slots(key);
        let n = before.key_seq().len();
        let idx = before.slot(key)->0 as int;
        dead.lemma_live_slots(n);
        after.lemma_live_slots(n);
        if dead.yields(key) {
            let j = choose|j: int|
                0 <= j < dead.live_slots(n).len() && dead.key_seq()[#[trigger] dead.live_slots(
                    n,
                )[j]] == key;
            let at = dead.live_slots(n)[j];
            assert(dead.slot(dead.key_seq()[at]) == Some(at as usize));
        }
        if after.yields(key) {
            let j = choose|j: int|
                0 <= j < after.live_slots(n).len() && after.key_seq()[#[trigger] after.live_slots(
                    n,
                )[j]] == key;
            let at = after.live_slots(n)[j];
            assert(after.slot(after.key_seq()[at]) == Some(at as usize));
        }
        if before.values()[idx] is Some {
            assert(after.shown(idx));
            let j = choose|j: int|
                0 <= j < after.live_slots(n).len() && after.live_slots(n)[j] == idx;
            assert(after.key_seq()[after.live_slots(n)[j]] == key);
        }
    }

    /// Length accounting: a successful `reap_key` takes one from the number
    /// of keys alive, a successful `rehydrate_key` adds one, and a refused
    /// one of either leaves it as it is.
    pub proof fn law_len_accounting(before: Self, after: Self, key: Seq<char>)
        requires
            before.wf(),
        ensures
            before.reaped(after, key) ==> count_true(after.alive()) + (if before.reap_verdict(
                key,
            ) is Ok {
                1int
            } else {
                0int
            }) == count_true(before.alive()),
            before.rehydrated(after, key) ==> count_true(after.alive()) == count_true(
                before.alive(),
            ) + (if before.rehydrate_verdict(key) is Ok {
                1int
            } else {
                0int
            }),
    {
        before.lemma_slots(key);
        if before.slot(key) is Some {
            let idx = before.slot(key)->0 as int;
            lemma_count_true_update(before.alive(), idx, false);
            lemma_count_true_update(before.alive(), idx, true);
        }
    }
}

} // verus!

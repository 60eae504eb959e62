use vstd::prelude::*;
use crate::bits::{
    bit_limit, bits_get, bits_len, bits_repeat, bits_set, count_true, lemma_count_true_bound,
    lemma_count_true_full, lemma_count_true_update, Bits,
};
use crate::mphf::{in_range, index_of, key_index, mphf_len, slot_of, texts, Mphf};

verus! {

/// What a frozen index keeps per slot besides the hash function: whether the
/// slot is alive, and, in the storage that has them, the key of the slot.
pub trait KeyStorage {
    /// One entry per slot: whether the slot is alive.
    spec fn alive(&self) -> Seq<bool>;

    /// The key of each slot, in a storage that keeps keys.
    spec fn stored(&self) -> Option<Seq<Seq<char>>>;

    /// The storage is consistent with itself.
    spec fn wf(&self) -> bool;

    /// The number of slots, alive or not.
    fn capacity(&self) -> (r: usize)
        requires
            self.wf(),
        ensures
            r == self.alive().len(),
    ;

    /// The number of slots that are alive.
    fn len(&self) -> (r: usize)
        requires
            self.wf(),
        ensures
            r == count_true(self.alive()),
    ;

    /// The key of slot `idx`. Only a storage that keeps keys can be asked.
    fn get(&self, idx: usize) -> (r: &String)
        requires
            self.wf(),
            self.stored() is Some,
            idx < self.alive().len(),
        ensures
            r@ == self.stored()->0[idx as int],
    ;

    /// Reaps slot `idx`. On a slot that is reaped already nothing changes.
    fn kill(&mut self, idx: usize)
        requires
            old(self).wf(),
            idx < old(self).alive().len(),
        ensures
            final(self).wf(),
            final(self).alive() == old(self).alive().update(idx as int, false),
            final(self).stored() == old(self).stored(),
    ;

    /// Brings slot `idx` back to life. On a slot that is alive nothing changes.
    fn rehydrate(&mut self, idx: usize)
        requires
            old(self).wf(),
            idx < old(self).alive().len(),
        ensures
            final(self).wf(),
            final(self).alive() == old(self).alive().update(idx as int, true),
            final(self).stored() == old(self).stored(),
    ;

    /// Whether slot `idx` is reaped.
    fn dead_key(&self, idx: usize) -> (r: bool)
        requires
            self.wf(),
            idx < self.alive().len(),
        ensures
            r == !self.alive()[idx as int],
    ;
}

/// Clears bit `idx` of `tombstone` and keeps `len` the number of set bits.
fn reap_bit(tombstone: &mut Bits, len: &mut usize, idx: usize)
    requires
        idx < old(tombstone)@.len(),
        *old(len) == count_true(old(tombstone)@),
    ensures
        final(tombstone)@ == old(tombstone)@.update(idx as int, false),
        *final(len) == count_true(final(tombstone)@),
{
    proof {
        lemma_count_true_update(tombstone@, idx as int, false);
    }
    if bits_get(tombstone, idx) {
        bits_set(tombstone, idx, false);
        *len = *len - 1;
    } else {
        assert(tombstone@.update(idx as int, false) =~= tombstone@);
    }
}

/// Sets bit `idx` of `tombstone` and keeps `len` the number of set bits.
fn revive_bit(tombstone: &mut Bits, len: &mut usize, idx: usize)
    requires
        idx < old(tombstone)@.len() <= usize::MAX,
        *old(len) == count_true(old(tombstone)@),
    ensures
        final(tombstone)@ == old(tombstone)@.update(idx as int, true),
        *final(len) == count_true(final(tombstone)@),
{
    proof {
        lemma_count_true_update(tombstone@, idx as int, true);
        lemma_count_true_bound(tombstone@.update(idx as int, true));
    }
    if !bits_get(tombstone, idx) {
        bits_set(tombstone, idx, true);
        *len = *len + 1;
    } else {
        assert(tombstone@.update(idx as int, true) =~= tombstone@);
    }
}

/// Key storage of the verified maps: the key of every slot and one alive bit
/// per slot.
pub struct WithKeys {
    keys: Vec<String>,
    tombstone: Bits,
    len: usize,
}

impl WithKeys {
    /// Adopts `keys`, one per slot and in slot order, with every slot alive.
    pub fn new(keys: Vec<String>) -> (r: Self)
        requires
            keys.len() <= bit_limit(),
        ensures
            r.wf(),
            r.stored() == Some(texts(keys@)),
            r.alive() == Seq::new(keys.len() as nat, |i: int| true),
    {
        let len = keys.len();
        let tombstone = bits_repeat(true, len);
        proof {
            lemma_count_true_full(tombstone@);
            assert(tombstone@ =~= Seq::new(len as nat, |i: int| true));
        }
        Self { keys, tombstone, len }
    }
}

impl WithKeys {
    /// Adopts slots that were filled one by one, in any order, once every one
    /// of them holds its key: the keys are moved out of the slots, in slot
    /// order, and every slot starts alive.
    pub fn new_from_uninit(keys: Vec<Option<String>>) -> (r: Self)
        requires
            keys.len() <= bit_limit(),
            forall|i: int| 0 <= i < keys.len() ==> (#[trigger] keys[i]) is Some,
        ensures
            r.wf(),
            r.stored() == Some(Seq::new(keys.len() as nat, |i: int| keys[i]->0@)),
            r.alive() == Seq::new(keys.len() as nat, |i: int| true),
    {
        let count = keys.len();
        let ghost filled = keys@;
        let mut slots = keys;
        let mut backwards: Vec<String> = Vec::with_capacity(count);
        while slots.len() > 0
            invariant
                count == filled.len(),
                slots.len() + backwards.len() == count,
                slots@ == filled.subrange(0, slots.len() as int),
                forall|i: int| 0 <= i < filled.len() ==> (#[trigger] filled[i]) is Some,
                forall|j: int|
                    0 <= j < backwards.len() ==> #[trigger] backwards[j] == filled[count - 1 - j]->0,
            decreases slots.len(),
        {
            let ghost at = slots.len() - 1;
            match slots.pop() {
                Some(Some(key)) => {
                    assert(filled[at] == Some(key));
                    backwards.push(key);
                },
                _ => {
                    assert(filled[at] is Some);
                    assert(false);
                },
            }
        }
        let ghost reversed = backwards@;
        let mut sorted: Vec<String> = Vec::with_capacity(count);
        while backwards.len() > 0
            invariant
                count == filled.len(),
                reversed.len() == count,
                backwards.len() + sorted.len() == count,
                backwards@ == reversed.subrange(0, backwards.len() as int),
                forall|j: int| 0 <= j < count ==> #[trigger] reversed[j] == filled[count - 1 - j]->0,
                forall|i: int| 0 <= i < sorted.len() ==> #[trigger] sorted[i] == filled[i]->0,
            decreases backwards.len(),
        {
            let ghost at = backwards.len() - 1;
            match backwards.pop() {
                Some(key) => {
                    assert(key == reversed[at]);
                    sorted.push(key);
                },
                None => {},
            }
        }
        let ghost placed = sorted@;
        let storage = Self::new(sorted);
        assert(texts(placed) =~= Seq::new(count as nat, |i: int| filled[i]->0@));
        storage
    }
}

impl KeyStorage for WithKeys {
    closed spec fn alive(&self) -> Seq<bool> {
        self.tombstone@
    }

    closed spec fn stored(&self) -> Option<Seq<Seq<char>>> {
        Some(texts(self.keys@))
    }

    closed spec fn wf(&self) -> bool {
        &&& self.tombstone@.len() == self.keys.len()
        &&& self.len == count_true(self.tombstone@)
    }

    fn capacity(&self) -> (r: usize) {
        self.keys.len()
    }

    fn len(&self) -> (r: usize) {
        self.len
    }

    fn get(&self, idx: usize) -> (r: &String) {
        &self.keys[idx]
    }

    fn kill(&mut self, idx: usize) {
        reap_bit(&mut self.tombstone, &mut self.len, idx);
    }

    fn rehydrate(&mut self, idx: usize) {
        revive_bit(&mut self.tombstone, &mut self.len, idx);
    }

    fn dead_key(&self, idx: usize) -> (r: bool) {
        !bits_get(&self.tombstone, idx)
    }
}

/// Key storage of the unverified maps: one alive bit per slot and no keys.
pub struct NoKeys {
    len: usize,
    tombstone: Bits,
}

impl NoKeys {
    /// `len` slots, every one alive.
    pub fn new(len: usize) -> (r: Self)
        requires
            len <= bit_limit(),
        ensures
            r.wf(),
            r.stored() is None,
            r.alive() == Seq::new(len as nat, |i: int| true),
    {
        let tombstone = bits_repeat(true, len);
        proof {
            lemma_count_true_full(tombstone@);
            assert(tombstone@ =~= Seq::new(len as nat, |i: int| true));
        }
        Self { len, tombstone }
    }
}

impl KeyStorage for NoKeys {
    closed spec fn alive(&self) -> Seq<bool> {
        self.tombstone@
    }

    closed spec fn stored(&self) -> Option<Seq<Seq<char>>> {
        None
    }

    closed spec fn wf(&self) -> bool {
        &&& self.tombstone@.len() <= usize::MAX
        &&& self.len == count_true(self.tombstone@)
    }

    fn capacity(&self) -> (r: usize) {
        bits_len(&self.tombstone)
    }

    fn len(&self) -> (r: usize) {
        self.len
    }

    fn get(&self, idx: usize) -> (r: &String) {
        vstd::pervasive::unreached()
    }

    fn kill(&mut self, idx: usize) {
        reap_bit(&mut self.tombstone, &mut self.len, idx);
    }

    fn rehydrate(&mut self, idx: usize) {
        revive_bit(&mut self.tombstone, &mut self.len, idx);
    }

    fn dead_key(&self, idx: usize) -> (r: bool) {
        !bits_get(&self.tombstone, idx)
    }
}

/// A minimal perfect hash function over the keys, with the key storage that
/// belongs to it: the function gives each key its slot, the storage says what
/// the slot holds.
pub struct FrozenIndex<S: KeyStorage> {
    mphf: Mphf,
    keys: S,
}

/// The index of the maps that keep their keys and compare them on every
/// access.
pub type VerifiedIndex = FrozenIndex<WithKeys>;

/// The index of the maps that keep no keys.
pub type UnverifiedIndex = FrozenIndex<NoKeys>;

impl<S: KeyStorage> FrozenIndex<S> {
    /// The hash function, which never changes once the index is built.
    pub closed spec fn hash(&self) -> Mphf {
        self.mphf
    }

    /// The slot of `key`: one for every key, of the build or not, unless the
    /// index has no slots at all.
    pub open spec fn slot(&self, key: Seq<char>) -> Option<usize> {
        slot_of(self.hash(), key)
    }

    /// One entry per slot: whether the slot is alive.
    pub closed spec fn alive(&self) -> Seq<bool> {
        self.keys.alive()
    }

    /// The key of each slot, where the index keeps keys.
    pub closed spec fn stored(&self) -> Option<Seq<Seq<char>>> {
        self.keys.stored()
    }

    /// The storage has one slot for each key that the hash function was built
    /// over, and every key that is stored sits in the slot that the function
    /// gives it.
    pub closed spec fn wf(&self) -> bool {
        &&& self.keys.wf()
        &&& in_range(self.mphf)
        &&& mphf_len(self.mphf) == self.keys.alive().len()
        &&& self.keys.alive().len() <= usize::MAX
        &&& self.keys.stored() matches Some(ks) ==> ks.len() == self.keys.alive().len()
            && forall|i: int|
            0 <= i < ks.len() ==> slot_of(self.mphf, #[trigger] ks[i]) == Some(i as usize)
    }

    /// Every key has a slot, and the slot lies within the storage, unless
    /// the storage has no slots at all.
    pub proof fn lemma_slot_in_range(&self, key: Seq<char>)
        requires
            self.wf(),
        ensures
            self.alive().len() <= usize::MAX,
            self.slot(key) is Some <==> self.alive().len() > 0,
            self.slot(key) matches Some(idx) ==> idx < self.alive().len(),
            self.stored() matches Some(ks) ==> ks.len() == self.alive().len(),
    {
    }

    /// A stored key sits in the slot that the hash function gives it.
    pub proof fn lemma_stored_slot(&self, i: int)
        requires
            self.wf(),
            self.stored() is Some,
            0 <= i < self.alive().len(),
        ensures
            self.slot(self.stored()->0[i]) == Some(i as usize),
    {
    }

    /// Puts a hash function and the storage built for it together.
    pub fn new(mphf: Mphf, keys: S) -> (r: Self)
        requires
            keys.wf(),
            in_range(mphf),
            mphf_len(mphf) == keys.alive().len(),
            keys.alive().len() <= usize::MAX,
            keys.stored() matches Some(ks) ==> ks.len() == keys.alive().len() && forall|i: int|
                0 <= i < ks.len() ==> slot_of(mphf, #[trigger] ks[i]) == Some(i as usize),
        ensures
            r.wf(),
            r.hash() == mphf,
            r.alive() == keys.alive(),
            r.stored() == keys.stored(),
    {
        Self { mphf, keys }
    }

    /// The index of `key`: for a key of the build its own slot, for any
    /// other key the slot of some key of the build. Only an index over no
    /// keys gives a number that is no slot.
    pub fn get_index(&self, key: &String) -> (r: usize)
        requires
            self.wf(),
        ensures
            r == index_of(self.hash(), key@),
            self.slot(key@) == (if r < self.alive().len() {
                Some(r)
            } else {
                None
            }),
            self.alive().len() > 0 ==> r < self.alive().len(),
    {
        key_index(&self.mphf, key)
    }

    /// The slot of `key`: its index, unless the index is over no keys and
    /// has no slot.
    pub fn find(&self, key: &String) -> (r: Option<usize>)
        requires
            self.wf(),
        ensures
            r == self.slot(key@),
            r matches Some(idx) ==> idx < self.alive().len(),
    {
        let idx = self.get_index(key);
        if idx < self.keys.capacity() {
            Some(idx)
        } else {
            None
        }
    }

    /// The number of slots, alive or not.
    pub fn capacity(&self) -> (r: usize)
        requires
            self.wf(),
        ensures
            r == self.alive().len(),
    {
        self.keys.capacity()
    }

    /// The number of slots that are alive.
    pub fn len(&self) -> (r: usize)
        requires
            self.wf(),
        ensures
            r == count_true(self.alive()),
    {
        self.keys.len()
    }

    /// Whether slot `idx` is reaped.
    pub fn dead_key(&self, idx: usize) -> (r: bool)
        requires
            self.wf(),
            idx < self.alive().len(),
        ensures
            r == !self.alive()[idx as int],
    {
        self.keys.dead_key(idx)
    }

    /// The key that is stored for slot `idx`.
    pub fn key(&self, idx: usize) -> (r: &String)
        requires
            self.wf(),
            self.stored() is Some,
            idx < self.alive().len(),
        ensures
            r@ == self.stored()->0[idx as int],
    {
        self.keys.get(idx)
    }

    /// Reaps slot `idx`. On a slot that is reaped already nothing changes.
    pub fn kill(&mut self, idx: usize)
        requires
            old(self).wf(),
            idx < old(self).alive().len(),
        ensures
            final(self).wf(),
            final(self).alive() == old(self).alive().update(idx as int, false),
            final(self).stored() == old(self).stored(),
            final(self).hash() == old(self).hash(),
    {
        self.keys.kill(idx);
    }

    /// Brings slot `idx` back to life. On a slot that is alive nothing changes.
    pub fn rehydrate(&mut self, idx: usize)
        requires
            old(self).wf(),
            idx < old(self).alive().len(),
        ensures
            final(self).wf(),
            final(self).alive() == old(self).alive().update(idx as int, true),
            final(self).stored() == old(self).stored(),
            final(self).hash() == old(self).hash(),
    {
        self.keys.rehydrate(idx);
    }
}

impl FrozenIndex<WithKeys> {
    /// Whether `key` is one of the keys of the index and alive: its slot is
    /// alive and holds this very key.
    pub fn contains_key(&self, key: &String) -> (r: bool)
        requires
            self.wf(),
        ensures
            r == (self.slot(key@) matches Some(idx) && self.alive()[idx as int]
                && self.stored()->0[idx as int] == key@),
    {
        match self.find(key) {
            None => false,
            Some(idx) => {
                if self.keys.dead_key(idx) {
                    false
                } else {
                    *self.keys.get(idx) == *key
                }
            },
        }
    }
}

} // verus!

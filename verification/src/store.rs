use vstd::prelude::*;
use crate::bits::{bits_get, bits_set, Bits};

verus! {

/// The slot array of a store: one optional value per slot.
pub struct ValueStruct<V> {
    inner: Vec<Option<V>>,
}

impl<V> View for ValueStruct<V> {
    type V = Seq<Option<V>>;

    closed spec fn view(&self) -> Seq<Option<V>> {
        self.inner@
    }
}

impl<V> ValueStruct<V> {
    /// Adopts `values` as the slot array.
    pub fn new(values: Vec<Option<V>>) -> (r: Self)
        ensures
            r@ == values@,
    {
        Self { inner: values }
    }
}

/// What a store shows of `values` under the present bits `present`: the value
/// of a slot whose bit is set, and nothing elsewhere.
pub open spec fn masked<V>(values: Seq<Option<V>>, present: Seq<bool>) -> Seq<Option<V>> {
    Seq::new(
        values.len(),
        |i: int|
            if present[i] {
                values[i]
            } else {
                None
            },
    )
}

/// The value store of the single-threaded maps: a slot array and one present
/// bit per slot. Its view is the sequence of the values that are present.
pub struct SyncStore<V> {
    values: ValueStruct<V>,
    init: Bits,
}

/// A shorter name of `SyncStore`.
pub type Store<V> = SyncStore<V>;

impl<V> View for SyncStore<V> {
    type V = Seq<Option<V>>;

    closed spec fn view(&self) -> Seq<Option<V>> {
        masked(self.values@, self.init@)
    }
}

impl<V> SyncStore<V> {
    /// Every slot has its present bit, and a slot whose bit is set holds a
    /// value.
    pub closed spec fn wf(&self) -> bool {
        &&& self.init@.len() == self.values@.len()
        &&& forall|i: int| 0 <= i < self.values@.len() && self.init@[i] ==> self.values@[i] is Some
    }

    /// Adopts the slots `values` with the present bits `init`: a slot whose
    /// bit is set holds a value, and what a slot holds under a clear bit
    /// does not count.
    pub fn new(values: Vec<Option<V>>, init: Bits) -> (r: Self)
        requires
            values.len() == init@.len(),
            forall|i: int| 0 <= i < values.len() && init@[i] ==> values[i] is Some,
        ensures
            r.wf(),
            r@ == masked(values@, init@),
    {
        Self { values: ValueStruct::new(values), init }
    }

    /// The number of slots.
    pub fn len(&self) -> (r: usize)
        requires
            self.wf(),
        ensures
            r == self@.len(),
    {
        self.values.inner.len()
    }

    /// Puts `value` into slot `idx`; a value that was there is dropped.
    pub fn update(&mut self, idx: usize, value: V)
        requires
            old(self).wf(),
            idx < old(self)@.len(),
        ensures
            final(self).wf(),
            final(self)@ == old(self)@.update(idx as int, Some(value)),
    {
        self.values.inner.set(idx, Some(value));
        bits_set(&mut self.init, idx, true);
        assert(self@ =~= old(self)@.update(idx as int, Some(value)));
    }

    /// Empties slot `idx`; a value that was there is dropped.
    pub fn remove_value(&mut self, idx: usize)
        requires
            old(self).wf(),
            idx < old(self)@.len(),
        ensures
            final(self).wf(),
            final(self)@ == old(self)@.update(idx as int, None),
    {
        if bits_get(&self.init, idx) {
            self.values.inner.set(idx, None);
            bits_set(&mut self.init, idx, false);
        }
        assert(self@ =~= old(self)@.update(idx as int, None));
    }

    /// The value in slot `idx`, if one is present.
    pub fn get_value(&self, idx: usize) -> (r: Option<&V>)
        requires
            self.wf(),
            idx < self@.len(),
        ensures
            match r {
                Some(v) => self@[idx as int] == Some(*v),
                None => self@[idx as int] is None,
            },
    {
        if bits_get(&self.init, idx) {
            self.values.inner[idx].as_ref()
        } else {
            None
        }
    }

    /// The value in slot `idx`, if one is present, to be changed in place.
    pub fn get_mut_value(&mut self, idx: usize) -> (r: Option<&mut V>)
        requires
            old(self).wf(),
            idx < old(self)@.len(),
        ensures
            match r {
                Some(v) => old(self)@[idx as int] == Some(*v) && final(self)@ == old(self)@.update(
                    idx as int,
                    Some(*final(v)),
                ),
                None => old(self)@[idx as int] is None && final(self)@ == old(self)@,
            },
            final(self).wf(),
    {
        if bits_get(&self.init, idx) {
            self.values.inner[idx].as_mut()
        } else {
            None
        }
    }

    /// A copy of every slot, present or not.
    pub fn get_values(&self) -> (r: Vec<Option<V>>) where V: Clone
        requires
            self.wf(),
        ensures
            r.len() == self@.len(),
            forall|i: int|
                0 <= i < r.len() ==> match #[trigger] r[i] {
                    Some(v) => self@[i] is Some && cloned(self@[i]->0, v),
                    None => self@[i] is None,
                },
    {
        let n = self.values.inner.len();
        let mut out: Vec<Option<V>> = Vec::with_capacity(n);
        let mut i: usize = 0;
        while i < n
            invariant
                self.wf(),
                n == self@.len(),
                i <= n,
                out.len() == i,
                forall|j: int|
                    0 <= j < i ==> match #[trigger] out[j] {
                        Some(v) => self@[j] is Some && cloned(self@[j]->0, v),
                        None => self@[j] is None,
                    },
            decreases n - i,
        {
            let copy = match self.get_value(i) {
                Some(v) => Some(v.clone()),
                None => None,
            };
            out.push(copy);
            i += 1;
        }
        out
    }
}

} // verus!

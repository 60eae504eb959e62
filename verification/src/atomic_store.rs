use vstd::prelude::*;
use arc_swap::ArcSwapOption;
use std::sync::Arc;

verus! {

/// One slot of the concurrent store: nothing, or one share of a value, held
/// in an `arc_swap::ArcSwapOption`. Verus does not look inside, and as any
/// thread may write the slot at any time, nothing is said of what it holds.
#[verifier::external_body]
#[verifier::reject_recursive_types(V)]
pub struct Shared<V> {
    inner: ArcSwapOption<V>,
}

/// `ArcSwapOption::empty`: a slot that holds nothing.
#[verifier::external_body]
pub(crate) fn shared_empty<V>() -> (r: Shared<V>) {
    Shared { inner: ArcSwapOption::empty() }
}

/// `ArcSwapAny::swap`: puts `new` into the slot in one atomic step and hands
/// out what the slot held.
#[verifier::external_body]
pub(crate) fn shared_swap<V>(slot: &Shared<V>, new: Option<Arc<V>>) -> (r: Option<Arc<V>>) {
    slot.inner.swap(new)
}

/// `ArcSwapAny::load_full`: another share of what the slot holds at the
/// moment of the call.
#[verifier::external_body]
pub(crate) fn shared_load<V>(slot: &Shared<V>) -> (r: Option<Arc<V>>) {
    slot.inner.load_full()
}

/// The value store of the concurrent maps: one atomically swapped share per
/// slot. Readers and writers need only shared access; a reader keeps the
/// value it got alive for as long as it holds its share.
#[verifier::reject_recursive_types(V)]
pub struct AtomicStore<V> {
    values: Vec<Shared<V>>,
}

impl<V> AtomicStore<V> {
    /// The number of slots, fixed when the store is made.
    pub closed spec fn capacity(&self) -> nat {
        self.values@.len()
    }

    /// `capacity` slots, every one empty.
    pub fn new(capacity: usize) -> (r: Self)
        ensures
            r.capacity() == capacity,
    {
        let mut values: Vec<Shared<V>> = Vec::with_capacity(capacity);
        let mut i: usize = 0;
        while i < capacity
            invariant
                i <= capacity,
                values.len() == i,
            decreases capacity - i,
        {
            values.push(shared_empty());
            i += 1;
        }
        Self { values }
    }

    /// The number of slots.
    pub fn len(&self) -> (r: usize)
        ensures
            r == self.capacity(),
    {
        self.values.len()
    }

    /// Puts a fresh share of `value` into slot `idx` and gives up the share
    /// that the slot held.
    pub fn update(&self, idx: usize, value: V)
        requires
            idx < self.capacity(),
    {
        let _previous = shared_swap(&self.values[idx], Some(Arc::new(value)));
    }

    /// Empties slot `idx` and gives up the share that the slot held.
    pub fn remove_value(&self, idx: usize)
        requires
            idx < self.capacity(),
    {
        let _previous = shared_swap(&self.values[idx], None);
    }

    /// A share of the value in slot `idx`, if the slot holds one now.
    pub fn get_value(&self, idx: usize) -> (r: Option<Arc<V>>)
        requires
            idx < self.capacity(),
    {
        shared_load(&self.values[idx])
    }
}

} // verus!

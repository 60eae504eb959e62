use vstd::prelude::*;
use crate::decide::{count_decision, dead_decision, flag_decision, CountStep};
use crate::flags::{
    counter_down, counter_load, counter_new, counter_up, flag_load, flag_swap, flags_all_set,
};
use crate::mphf::texts;
use std::sync::atomic::{AtomicBool, AtomicUsize};

verus! {

/// Moves the count by one step.
fn count_by(count: &AtomicUsize, step: CountStep) {
    match step {
        CountStep::Up => counter_up(count),
        CountStep::Down => counter_down(count),
        CountStep::Stay => {},
    }
}

/// Key storage of the concurrent verified map: the key of every slot, an
/// atomic alive flag per slot and an atomic count of the slots alive. The
/// keys never change; flags and count may be changed by any thread at any
/// time, so nothing is said of what they hold.
pub struct AtomicWithKeys {
    keys: Vec<String>,
    len: AtomicUsize,
    tombstone: Vec<AtomicBool>,
}

impl AtomicWithKeys {
    /// The number of slots.
    pub closed spec fn capacity(&self) -> nat {
        self.tombstone@.len()
    }

    /// The key of each slot.
    pub closed spec fn stored(&self) -> Seq<Seq<char>> {
        texts(self.keys@)
    }

    /// Every slot has its key and its flag.
    pub closed spec fn wf(&self) -> bool {
        self.keys@.len() == self.tombstone@.len()
    }

    /// Adopts `keys`, one per slot and in slot order, with every slot alive.
    pub fn new(keys: Vec<String>) -> (r: Self)
        ensures
            r.wf(),
            r.capacity() == keys.len(),
            r.stored() == texts(keys@),
    {
        let count = keys.len();
        Self { keys, len: counter_new(count), tombstone: flags_all_set(count) }
    }

    /// The number of slots counted alive at the moment of the call.
    pub fn len(&self) -> (r: usize) {
        counter_load(&self.len)
    }

    /// The key of slot `idx`.
    pub fn get(&self, idx: usize) -> (r: &String)
        requires
            self.wf(),
            idx < self.capacity(),
        ensures
            r@ == self.stored()[idx as int],
    {
        &self.keys[idx]
    }

    /// Reaps slot `idx`; the count goes down only where the flag was set.
    pub fn kill(&self, idx: usize)
        requires
            idx < self.capacity(),
    {
        let now = flag_decision(true);
        let was = flag_swap(&self.tombstone, idx, now);
        count_by(&self.len, count_decision(was, now));
    }

    /// Brings slot `idx` back to life; the count goes up only where the flag
    /// was clear.
    pub fn rehydrate(&self, idx: usize)
        requires
            idx < self.capacity(),
    {
        let now = flag_decision(false);
        let was = flag_swap(&self.tombstone, idx, now);
        count_by(&self.len, count_decision(was, now));
    }

    /// Whether slot `idx` is reaped at the moment of the call.
    pub fn dead_key(&self, idx: usize) -> (r: bool)
        requires
            idx < self.capacity(),
    {
        dead_decision(flag_load(&self.tombstone, idx))
    }
}

/// Key storage of the concurrent unverified map: an atomic alive flag per
/// slot and an atomic count of the slots alive, and no keys.
pub struct AtomicNoKeys {
    len: AtomicUsize,
    tombstone: Vec<AtomicBool>,
}

impl AtomicNoKeys {
    /// The number of slots.
    pub closed spec fn capacity(&self) -> nat {
        self.tombstone@.len()
    }

    /// `len` slots, every one alive.
    pub fn new(len: usize) -> (r: Self)
        ensures
            r.capacity() == len,
    {
        Self { len: counter_new(len), tombstone: flags_all_set(len) }
    }

    /// The number of slots counted alive at the moment of the call.
    pub fn len(&self) -> (r: usize) {
        counter_load(&self.len)
    }

    /// Reaps slot `idx`; the count goes down only where the flag was set.
    pub fn kill(&self, idx: usize)
        requires
            idx < self.capacity(),
    {
        let now = flag_decision(true);
        let was = flag_swap(&self.tombstone, idx, now);
        count_by(&self.len, count_decision(was, now));
    }

    /// Brings slot `idx` back to life; the count goes up only where the flag
    /// was clear.
    pub fn rehydrate(&self, idx: usize)
        requires
            idx < self.capacity(),
    {
        let now = flag_decision(false);
        let was = flag_swap(&self.tombstone, idx, now);
        count_by(&self.len, count_decision(was, now));
    }

    /// Whether slot `idx` is reaped at the moment of the call.
    pub fn dead_key(&self, idx: usize) -> (r: bool)
        requires
            idx < self.capacity(),
    {
        dead_decision(flag_load(&self.tombstone, idx))
    }
}

} // verus!

use vstd::prelude::*;
use std::sync::atomic::{AtomicBool, AtomicUsize, Ordering};

verus! {

/// `len` flags, every one set.
pub(crate) fn flags_all_set(len: usize) -> (r: Vec<AtomicBool>)
    ensures
        r.len() == len,
{
    let mut flags: Vec<AtomicBool> = Vec::with_capacity(len);
    let mut i: usize = 0;
    while i < len
        invariant
            i <= len,
            flags.len() == i,
        decreases len - i,
    {
        flags.push(AtomicBool::new(true));
        i += 1;
    }
    flags
}

/// Reads flag `idx`.
pub(crate) fn flag_load(flags: &Vec<AtomicBool>, idx: usize) -> (r: bool)
    requires
        idx < flags.len(),
{
    flags[idx].load(Ordering::Acquire)
}

/// Writes flag `idx` and returns what it was, in one atomic step.
pub(crate) fn flag_swap(flags: &Vec<AtomicBool>, idx: usize, value: bool) -> (r: bool)
    requires
        idx < flags.len(),
{
    flags[idx].swap(value, Ordering::AcqRel)
}

/// A counter that starts at `start`.
pub(crate) fn counter_new(start: usize) -> (r: AtomicUsize) {
    AtomicUsize::new(start)
}

/// Reads the counter.
pub(crate) fn counter_load(counter: &AtomicUsize) -> (r: usize) {
    counter.load(Ordering::Acquire)
}

/// Adds one to the counter.
pub(crate) fn counter_up(counter: &AtomicUsize) {
    let _before = counter.fetch_add(1, Ordering::AcqRel);
}

/// Takes one from the counter.
pub(crate) fn counter_down(counter: &AtomicUsize) {
    let _before = counter.fetch_sub(1, Ordering::AcqRel);
}

} // verus!

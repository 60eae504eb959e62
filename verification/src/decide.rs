use vstd::prelude::*;
use crate::bits::{count_true, lemma_count_true_update};
use crate::error::ErrorKind;

verus! {

/// The answer of `upsert` and of `reap_key` for a slot that was read as
/// reaped or not, and whose key was found to be the one asked for or not:
/// a reaped slot is reported first, then a key that is not the slot's.
pub open spec fn live_outcome(dead: bool, same: bool) -> Result<(), ErrorKind> {
    if dead {
        Err(ErrorKind::KeyDead)
    } else if !same {
        Err(ErrorKind::KeyUnknown)
    } else {
        Ok(())
    }
}

/// The answer of `rehydrate_key` for a slot that was read as reaped or not,
/// and whose key was found to be the one asked for or not: a slot that is
/// alive is reported first, then a key that is not the slot's.
pub open spec fn revive_outcome(dead: bool, same: bool) -> Result<(), ErrorKind> {
    if !dead {
        Err(ErrorKind::KeyAlive)
    } else if !same {
        Err(ErrorKind::KeyUnknown)
    } else {
        Ok(())
    }
}

/// Whether a slot is reaped, from its alive flag as it was read: the flag is
/// set for as long as the slot is alive.
pub open spec fn dead_flag(flag: bool) -> bool {
    !flag
}

/// The alive flag to write into a slot that is to be reaped or not: clear to
/// reap it, set to bring it back to life. `dead_flag` reads it back.
pub open spec fn flag_for(dead: bool) -> bool {
    !dead
}

/// How the count of the slots alive moves with one write of an alive flag.
#[derive(Clone, Copy, Debug, PartialEq, Eq, Structural)]
pub enum CountStep {
    /// A reaped slot came back to life.
    Up,
    /// A slot that was alive was reaped.
    Down,
    /// The flag was written with what it held.
    Stay,
}

/// The move of the count when a flag that held `was` is written `now`: the
/// count follows only a write that changes the flag.
pub open spec fn count_outcome(was: bool, now: bool) -> CountStep {
    if was == now {
        CountStep::Stay
    } else if now {
        CountStep::Up
    } else {
        CountStep::Down
    }
}

/// The number that a move adds to the count.
pub open spec fn step_delta(step: CountStep) -> int {
    match step {
        CountStep::Up => 1,
        CountStep::Down => -1,
        CountStep::Stay => 0,
    }
}

/// Whether `get` and `contains` show a slot that was read as reaped or not,
/// and whose key was found to be the one asked for or not: only a slot that
/// is alive and belongs to the key is shown.
pub open spec fn shown(dead: bool, same: bool) -> bool {
    !dead && same
}

/// Decides whether a slot is reaped from the alive flag that was read.
pub fn dead_decision(flag: bool) -> (r: bool)
    ensures
        r == dead_flag(flag),
{
    !flag
}

/// Decides the alive flag to write into a slot that is to be reaped or not.
pub fn flag_decision(dead: bool) -> (r: bool)
    ensures
        r == flag_for(dead),
        dead_flag(r) == dead,
{
    !dead
}

/// Decides the move of the count from the flag that a write found and the
/// flag that it wrote.
pub fn count_decision(was: bool, now: bool) -> (r: CountStep)
    ensures
        r == count_outcome(was, now),
{
    if was == now {
        CountStep::Stay
    } else if now {
        CountStep::Up
    } else {
        CountStep::Down
    }
}

/// Counting by moves keeps the count: where entry `index` of the alive flags
/// is written `now`, the number of flags set moves by what `count_outcome`
/// says for the flag that was there.
pub proof fn law_count_follows_flags(flags: Seq<bool>, index: int, now: bool)
    requires
        0 <= index < flags.len(),
    ensures
        count_true(flags.update(index, now)) == count_true(flags) + step_delta(
            count_outcome(flags[index], now),
        ),
{
    lemma_count_true_update(flags, index, now);
}

/// Decides `get` and `contains` from what was read of the slot.
pub fn show_decision(dead: bool, same: bool) -> (r: bool)
    ensures
        r == shown(dead, same),
{
    !dead && same
}

/// Decides `upsert` and `reap_key` from what was read of the slot.
pub fn live_decision(dead: bool, same: bool) -> (r: Result<(), ErrorKind>)
    ensures
        r == live_outcome(dead, same),
{
    if dead {
        Err(ErrorKind::KeyDead)
    } else if !same {
        Err(ErrorKind::KeyUnknown)
    } else {
        Ok(())
    }
}

/// Decides `rehydrate_key` from what was read of the slot.
pub fn revive_decision(dead: bool, same: bool) -> (r: Result<(), ErrorKind>)
    ensures
        r == revive_outcome(dead, same),
{
    if !dead {
        Err(ErrorKind::KeyAlive)
    } else if !same {
        Err(ErrorKind::KeyUnknown)
    } else {
        Ok(())
    }
}

} // verus!

use vstd::prelude::*;

verus! {

/// The single tagged reason carried by every fallible operation of the maps.
#[derive(Clone, Copy, Debug, PartialEq, Eq, Structural)]
pub enum ErrorKind {
    /// The key is not the one stored at the slot the hash function chose,
    /// or the map has no slots at all.
    KeyUnknown,
    /// The slot of the key is reaped.
    KeyDead,
    /// The slot of the key is alive, and the operation asks for a reaped one.
    KeyAlive,
    /// Keys and values handed to a bulk build differ in number.
    LengthMismatch,
    /// No perfect hash function could be built over the keys.
    BuildFailed,
}

} // verus!

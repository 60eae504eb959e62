//! Frozen maps: associative maps over a set of string keys that is fixed when
//! the map is built. A minimal perfect hash function gives every key a slot of
//! its own, so an access costs one evaluation of the function and one indexed
//! read or write, without probing, rehashing or growth.
//!
//! There are four maps. `FrozenMap` (also `SyncVerifiedFrozenMap`) and
//! `AtomicVerifiedFrozenMap` keep the keys and turn away a key that the map
//! was not built over; `SyncUnverifiedFrozenMap` and
//! `AtomicUnverifiedFrozenMap` keep no keys and trust the caller to ask only
//! for keys of the build. The `Sync` maps are for one thread and change under
//! exclusive access; the `Atomic` maps are read and written by any number of
//! threads under shared access.
//!
//! Every slot carries two things that change independently: whether its key
//! is alive (`reap_key`, `rehydrate_key`) and whether a value is present
//! (`upsert`, `drop_value`).

pub mod atomic_index;
pub mod atomic_store;
pub mod aufm;
pub mod avfm;
pub mod bits;
pub mod decide;
pub mod error;
mod flags;
pub mod frozen_map;
pub mod index;
pub mod mphf;
mod scatter;
pub mod store;
pub mod sufm;

pub use atomic_index::{AtomicNoKeys, AtomicWithKeys};
pub use atomic_store::AtomicStore;
pub use aufm::AtomicUnverifiedFrozenMap;
pub use avfm::AtomicVerifiedFrozenMap;
pub use bits::Bits;
pub use error::ErrorKind;
pub use frozen_map::{FrozenMap, SyncVerifiedFrozenMap};
pub use index::{FrozenIndex, KeyStorage, NoKeys, UnverifiedIndex, VerifiedIndex, WithKeys};
pub use store::{Store, SyncStore, ValueStruct};
pub use sufm::{SyncUnverifiedFrozenMap, UnsafeFrozenMap};

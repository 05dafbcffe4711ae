//! An in-memory mock of a SAFE-style networked data store: accounts with
//! mutation quotas, content-addressed immutable objects with deduplication,
//! and versioned mutable objects with per-user capability-based access
//! control, behind a typed request/response router.

pub mod account;
pub mod hashing;
pub mod idata;
pub mod kv;
pub mod laws;
pub mod mdata;
pub mod rng;
pub mod routing;
pub mod vault;
pub mod types;

use vstd::prelude::*;

verus! {

/// Number of mutations a fresh account may spend.
pub const DEFAULT_MAX_MUTATIONS: u64 = 500;

/// Reserved type tag of the mutable object that stores a session packet;
/// a `PutMData` of this tag addressed to its own name creates the account.
pub const TYPE_TAG_SESSION_PACKET: u64 = 0;

} // verus!

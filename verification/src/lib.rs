//! Core of a real-time multi-user collaboration server: a revisioned entity
//! store with per-user access control, update fan-out to live sessions,
//! reference-counted content-addressed file blobs, and consistent snapshots.

use vstd::prelude::*;

pub mod access;
pub mod account;
pub mod assoc;
pub mod cloning;
pub mod content;
pub mod crypto;
pub mod entities;
pub mod executor;
pub mod hex;
pub mod laws;
pub mod objects;
pub mod replies;
pub mod requests;
pub mod session;
pub mod sharing;
pub mod sheet;
pub mod snapshot;
pub mod store;
pub mod strmap;
pub mod types;
pub mod update;
pub mod user;

verus! {

/// Hands out session identifiers: each call returns the current counter value
/// and advances it, so no two calls on one counter return the same id.
pub fn get_session_id(next_id: &mut usize) -> (id: usize)
    requires
        *old(next_id) < usize::MAX,
    ensures
        id == *old(next_id),
        *final(next_id) == *old(next_id) + 1,
{
    let id: usize = *next_id;
    *next_id = id + 1;
    id
}

/// Relies on std::time::SystemTime: seconds since the Unix epoch, by the
/// machine's clock. Nothing is promised of the value; stored stamps are
/// whatever the caller hands in.
#[verifier::external_body]
pub fn now_stamp() -> u64 {
    std::time::SystemTime::UNIX_EPOCH.elapsed().unwrap_or(std::time::Duration::ZERO).as_secs()
}

} // verus!

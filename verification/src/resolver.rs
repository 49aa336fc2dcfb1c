//! The sender resolver: user records are fetched lazily, the first time a
//! message from an unseen sender is observed.
//!
//! The owner of the session is known from the login and is never looked up.
//!
//! Resolving a sender takes two moves with a remote lookup between them. The
//! cache is only touched by the moves, so its lock is free while the lookup
//! is under way. Two tasks that meet the same unseen sender may both look it
//! up; the second answer overwrites the first.

use crate::cache::{Cache, Contents};
use crate::entities::Profile;
use crate::fault::{LookupError, TransportError};
use crate::payload::{parse_user, profile_of, WireUser};
use vstd::prelude::*;

verus! {

/// Whether `sender` has to be looked up: it is not the owner of the session,
/// and it has no record in the cache.
pub open spec fn unseen(users: Contents<Profile>, owner: u128, sender: u128) -> bool {
    sender != owner && !users.contains_key(sender)
}

/// Once the answer to a lookup is filed the sender is seen, whoever asks.
/// Where two tasks looked the same sender up, the second answer replaces the
/// first and the cache keeps one record for the sender.
pub proof fn lemma_seen_once_cached(
    users: Contents<Profile>,
    owner: u128,
    sender: u128,
    first: Profile,
    second: Profile,
)
    requires
        users.wf(),
    ensures
        !unseen(users.upsert(sender, first), owner, sender),
        users.upsert(sender, first).upsert(sender, second).len() == users.upsert(
            sender,
            first,
        ).len(),
        users.upsert(sender, first).upsert(sender, second).get(sender) == Some(second),
{
    users.lemma_upsert_twice(sender, first, second);
}

/// First move: returns the sender if it has to be looked up, and nothing if
/// it is the owner of the session or its record is already cached.
pub fn ensure_user_cached(users: &Cache<Profile>, owner: u128, sender: u128) -> (ask: Option<u128>)
    ensures
        ask == if unseen(users@, owner, sender) {
            Some(sender)
        } else {
            None
        },
{
    if sender == owner || users.contains_key(sender) {
        None
    } else {
        Some(sender)
    }
}

/// Second move: files the answer to the lookup of `sender`. A lookup that
/// failed leaves the cache as it was.
pub fn cache_user(
    users: &mut Cache<Profile>,
    sender: u128,
    reply: &Result<WireUser, TransportError>,
) -> (done: Result<(), LookupError>)
    ensures
        match *reply {
            Ok(wire) => {
                &&& done == Ok::<(), LookupError>(())
                &&& final(users)@ == old(users)@.upsert(sender, profile_of(sender, wire))
            },
            Err(why) => {
                &&& done == Err::<(), LookupError>(LookupError::Transport(why))
                &&& final(users)@ == old(users)@
            },
        },
{
    match reply {
        Ok(wire) => {
            users.upsert(sender, parse_user(sender, wire));
            Ok(())
        },
        Err(why) => Err(LookupError::Transport(*why)),
    }
}

} // verus!

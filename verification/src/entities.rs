//! The records that the caches hold.

use crate::cache::Record;
use std::time::SystemTime;
use vstd::prelude::*;

verus! {

/// The owner of the session, as known from the login. Never looked up
/// remotely.
#[derive(Clone, Debug, PartialEq, Eq)]
pub struct User {
    pub uuid: u128,
    pub username: String,
    pub password: String,
    pub auth_token: String,
}

/// What is known of another user: public metadata only.
#[derive(Clone, Debug, PartialEq, Eq)]
pub struct Profile {
    pub uuid: u128,
    pub username: String,
}

/// A room that the session's user is a member of.
#[derive(Clone, Debug, PartialEq, Eq)]
pub struct Room {
    pub uuid: u128,
    pub name: String,
}

/// A message in a room.
#[derive(Clone, Debug, PartialEq, Eq)]
pub struct Message {
    pub uuid: u128,
    pub sender_uuid: u128,
    pub room_uuid: u128,
    pub text: String,
    pub timestamp: SystemTime,
}

impl Record for Profile {
    open spec fn key(&self) -> u128 {
        self.uuid
    }
}

impl Record for Room {
    open spec fn key(&self) -> u128 {
        self.uuid
    }
}

impl Record for Message {
    open spec fn key(&self) -> u128 {
        self.uuid
    }
}

} // verus!

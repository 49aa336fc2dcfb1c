//! What can go wrong while the caches are kept in step with the service.

use vstd::prelude::*;

verus! {

/// Why a payload was rejected.
#[derive(Clone, Copy, Debug, PartialEq, Eq, Structural)]
pub enum PayloadError {
    /// An envelope arrived without an event in it.
    MissingEvent,
    /// A room or a message came without its identifier.
    MissingIdentifier,
    /// The identifier of a room or a message is no identifier.
    InvalidIdentifier,
    /// A message came without its sender.
    MissingSender,
    /// The sender of a message is no identifier.
    InvalidSender,
    /// A message came without its timestamp.
    MissingTimestamp,
    /// The timestamp of a message is outside what the clock can hold.
    InvalidTimestamp,
    /// A message does not name the room it was fetched from or streamed to.
    RoomMismatch,
}

/// A remote call that did not complete, with the status code it ended in.
#[derive(Clone, Copy, Debug, PartialEq, Eq, Structural)]
pub struct TransportError {
    pub code: i32,
}

/// Why the lookup of a user failed.
#[derive(Clone, Copy, Debug, PartialEq, Eq, Structural)]
pub enum LookupError {
    Transport(TransportError),
}

/// Why the hydration, or a listener, gave up.
#[derive(Clone, Copy, Debug, PartialEq, Eq, Structural)]
pub enum SyncError {
    /// A remote call did not complete.
    Transport(TransportError),
    /// The service sent a payload that was rejected.
    Payload(PayloadError),
    /// An answer was handed in that had not been asked for.
    OutOfTurn,
}

} // verus!

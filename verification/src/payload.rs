//! Payloads as the service sends them, and their validation. Nothing that
//! arrives is trusted: every identifier and timestamp is checked, and a
//! payload that fails a check is rejected, never mended.

use crate::clock::{system_time_of, WireTimestamp};
use crate::entities::{Message, Profile, Room};
use crate::fault::{PayloadError, TransportError};
use crate::ident::{parse_identifier, read_identifier, IdentError};
use std::time::SystemTime;
use vstd::prelude::*;

verus! {

/// A room as listed or looked up.
#[derive(Clone, Debug, PartialEq, Eq)]
pub struct WireRoom {
    pub uuid: Option<String>,
    pub name: String,
}

/// A user as looked up.
#[derive(Clone, Debug, PartialEq, Eq)]
pub struct WireUser {
    pub uuid: Option<String>,
    pub username: String,
}

/// A message, from a room's history or from its event stream.
#[derive(Clone, Debug, PartialEq, Eq)]
pub struct WireMessage {
    pub uuid: Option<String>,
    pub sender_uuid: Option<String>,
    pub room_uuid: Option<String>,
    pub text: String,
    pub timestamp: Option<WireTimestamp>,
}

/// What a room's event stream carries.
#[derive(Clone, Debug, PartialEq, Eq)]
pub enum RoomEvent {
    NewMessage(WireMessage),
}

/// What the session's event stream carries.
#[derive(Clone, Debug, PartialEq, Eq)]
pub enum UserEvent {
    /// The user was added to the room with this identifier.
    AddedToRoom(String),
}

/// One item taken from an event stream.
#[derive(Clone, Debug, PartialEq, Eq)]
pub enum Incoming<E> {
    /// The stream delivered an envelope, with or without an event in it.
    Event(Option<E>),
    /// The stream ended.
    Closed,
    /// The stream broke.
    Failed(TransportError),
}

/// The room that an identifier field, once read, and a name make, or why
/// they make none.
pub open spec fn checked_room(uuid: Result<u128, IdentError>, name: String) -> Result<
    Room,
    PayloadError,
> {
    match uuid {
        Err(IdentError::Missing) => Err(PayloadError::MissingIdentifier),
        Err(IdentError::Invalid) => Err(PayloadError::InvalidIdentifier),
        Ok(uuid) => Ok(Room { uuid, name }),
    }
}

/// Builds a room from its identifier field, once read, and its name.
pub fn check_room(uuid: Result<u128, IdentError>, name: String) -> (room: Result<
    Room,
    PayloadError,
>)
    ensures
        room == checked_room(uuid, name),
{
    match uuid {
        Err(IdentError::Missing) => Err(PayloadError::MissingIdentifier),
        Err(IdentError::Invalid) => Err(PayloadError::InvalidIdentifier),
        Ok(uuid) => Ok(Room { uuid, name }),
    }
}

/// The room that a payload describes, or why it describes none.
pub open spec fn room_of(wire: WireRoom) -> Result<Room, PayloadError> {
    checked_room(read_identifier(wire.uuid), wire.name)
}

/// Validates a room.
pub fn parse_room(wire: &WireRoom) -> (room: Result<Room, PayloadError>)
    ensures
        room == room_of(*wire),
{
    check_room(parse_identifier(&wire.uuid), wire.name.clone())
}

/// The profile filed for `sender` from the answer to a lookup. The answer is
/// filed under the identifier that was asked for.
pub open spec fn profile_of(sender: u128, wire: WireUser) -> Profile {
    Profile { uuid: sender, username: wire.username }
}

/// Builds the profile of `sender` from the answer to a lookup.
pub fn parse_user(sender: u128, wire: &WireUser) -> (profile: Profile)
    ensures
        profile == profile_of(sender, *wire),
{
    Profile { uuid: sender, username: wire.username.clone() }
}

/// The fields of a message that are checked, with each identifier read.
#[derive(Clone, Copy, Debug, PartialEq, Eq)]
pub struct Fields {
    pub room_uuid: Result<u128, IdentError>,
    pub uuid: Result<u128, IdentError>,
    pub sender_uuid: Result<u128, IdentError>,
    pub timestamp: Option<WireTimestamp>,
}

/// The checked fields of a message, up to the conversion of its timestamp.
#[derive(Clone, Copy, Debug, PartialEq, Eq, Structural)]
pub struct Header {
    pub uuid: u128,
    pub sender_uuid: u128,
    pub stamp: WireTimestamp,
}

/// What the checks that come before the conversion of the timestamp make of
/// the fields of a message that belongs to `room`. In this order: the
/// message names that room; it has an identifier, and a valid one; it has a
/// sender, and a valid one; it has a timestamp. The first check that fails
/// decides.
pub open spec fn checked_header(room: u128, fields: Fields) -> Result<Header, PayloadError> {
    if fields.room_uuid != Ok::<u128, IdentError>(room) {
        Err(PayloadError::RoomMismatch)
    } else {
        match fields.uuid {
            Err(IdentError::Missing) => Err(PayloadError::MissingIdentifier),
            Err(IdentError::Invalid) => Err(PayloadError::InvalidIdentifier),
            Ok(uuid) => match fields.sender_uuid {
                Err(IdentError::Missing) => Err(PayloadError::MissingSender),
                Err(IdentError::Invalid) => Err(PayloadError::InvalidSender),
                Ok(sender_uuid) => match fields.timestamp {
                    None => Err(PayloadError::MissingTimestamp),
                    Some(stamp) => Ok(Header { uuid, sender_uuid, stamp }),
                },
            },
        }
    }
}

/// Runs the checks of [`checked_header`].
pub fn check_header(room: u128, fields: Fields) -> (header: Result<Header, PayloadError>)
    ensures
        header == checked_header(room, fields),
{
    match fields.room_uuid {
        Ok(named) => {
            if named != room {
                return Err(PayloadError::RoomMismatch);
            }
        },
        Err(_) => {
            return Err(PayloadError::RoomMismatch);
        },
    }
    let uuid = match fields.uuid {
        Err(IdentError::Missing) => {
            return Err(PayloadError::MissingIdentifier);
        },
        Err(IdentError::Invalid) => {
            return Err(PayloadError::InvalidIdentifier);
        },
        Ok(uuid) => uuid,
    };
    let sender_uuid = match fields.sender_uuid {
        Err(IdentError::Missing) => {
            return Err(PayloadError::MissingSender);
        },
        Err(IdentError::Invalid) => {
            return Err(PayloadError::InvalidSender);
        },
        Ok(sender_uuid) => sender_uuid,
    };
    match fields.timestamp {
        None => Err(PayloadError::MissingTimestamp),
        Some(stamp) => Ok(Header { uuid, sender_uuid, stamp }),
    }
}

/// The fields of a message, each identifier read.
pub open spec fn fields_of(wire: WireMessage) -> Fields {
    Fields {
        room_uuid: read_identifier(wire.room_uuid),
        uuid: read_identifier(wire.uuid),
        sender_uuid: read_identifier(wire.sender_uuid),
        timestamp: wire.timestamp,
    }
}

/// What the checks of [`checked_header`] make of a message that belongs to
/// `room`.
pub open spec fn header_of(room: u128, wire: WireMessage) -> Result<Header, PayloadError> {
    checked_header(room, fields_of(wire))
}

/// Reads the identifiers of a message and runs the checks of
/// [`checked_header`].
pub fn parse_header(room: u128, wire: &WireMessage) -> (header: Result<Header, PayloadError>)
    ensures
        header == header_of(room, *wire),
{
    let fields = Fields {
        room_uuid: parse_identifier(&wire.room_uuid),
        uuid: parse_identifier(&wire.uuid),
        sender_uuid: parse_identifier(&wire.sender_uuid),
        timestamp: wire.timestamp,
    };
    check_header(room, fields)
}

/// The message that a checked header, the text and the converted timestamp
/// make, or the rejection where the timestamp did not convert.
pub open spec fn message_of(room: u128, header: Header, text: String, time: Option<SystemTime>)
    -> Result<Message, PayloadError> {
    match time {
        None => Err(PayloadError::InvalidTimestamp),
        Some(timestamp) => Ok(
            Message {
                uuid: header.uuid,
                sender_uuid: header.sender_uuid,
                room_uuid: room,
                text,
                timestamp,
            },
        ),
    }
}

/// Completes a message whose header passed the checks, given what the
/// conversion of its timestamp came to.
pub fn assemble_message(
    room: u128,
    header: Header,
    text: String,
    time: Option<SystemTime>,
) -> (message: Result<Message, PayloadError>)
    ensures
        message == message_of(room, header, text, time),
{
    match time {
        None => Err(PayloadError::InvalidTimestamp),
        Some(timestamp) => Ok(
            Message {
                uuid: header.uuid,
                sender_uuid: header.sender_uuid,
                room_uuid: room,
                text,
                timestamp,
            },
        ),
    }
}

/// Whether `outcome` is a way in which the validation of `wire`, as a message
/// of `room`, can end. A message that fails a check of [`header_of`] is
/// rejected for that reason and no other. One that passes them is either
/// rejected for its timestamp or accepted with every field as sent.
pub open spec fn message_outcome(
    room: u128,
    wire: WireMessage,
    outcome: Result<Message, PayloadError>,
) -> bool {
    match header_of(room, wire) {
        Err(why) => outcome == Err::<Message, PayloadError>(why),
        Ok(header) => exists|time: Option<SystemTime>|
            outcome == #[trigger] message_of(room, header, wire.text, time),
    }
}

/// An accepted message passed every check of its header, belongs to the room
/// it was validated for, and has its identifier, its sender and its text as
/// sent.
pub proof fn lemma_accepted_message(room: u128, wire: WireMessage, message: Message)
    requires
        message_outcome(room, wire, Ok(message)),
    ensures
        header_of(room, wire) matches Ok(header) && message.uuid == header.uuid
            && message.sender_uuid == header.sender_uuid,
        read_identifier(wire.room_uuid) == Ok::<u128, IdentError>(room),
        message.room_uuid == room,
        message.text == wire.text,
{
}

/// Validates a message that was fetched from `room` or streamed to it.
pub fn parse_message(room: u128, wire: &WireMessage) -> (message: Result<Message, PayloadError>)
    ensures
        message_outcome(room, *wire, message),
{
    match parse_header(room, wire) {
        Err(why) => Err(why),
        Ok(header) => {
            let time = system_time_of(header.stamp);
            assemble_message(room, header, wire.text.clone(), time)
        },
    }
}

} // verus!

use chat_client::clock::WireTimestamp;
use chat_client::entities::{Message, Profile, Room};
use chat_client::fault::PayloadError;
use chat_client::history::{file_history, parse_history, History};
use chat_client::ident::{parse_identifier, parse_uuid, IdentError};
use chat_client::payload::{
    assemble_message, check_header, check_room, parse_header, parse_message, parse_room,
    parse_user, Fields, Header, WireMessage, WireRoom, WireUser,
};
use chat_client::cache::Cache;
use std::time::{Duration, SystemTime};

const ROOM: &str = "00000000-0000-0000-0000-0000000000aa";
const OTHER_ROOM: &str = "00000000-0000-0000-0000-0000000000bb";
const SENDER: &str = "00000000-0000-0000-0000-000000000051";

fn wire(id: u128) -> WireMessage {
    WireMessage {
        uuid: Some(uuid::Uuid::from_u128(id).to_string()),
        sender_uuid: Some(SENDER.to_string()),
        room_uuid: Some(ROOM.to_string()),
        text: format!("message {}", id),
        timestamp: Some(WireTimestamp { seconds: 1_700_000_000, nanos: 5 }),
    }
}

#[test]
fn parse_uuid_reads_the_number_behind_the_text() {
    assert_eq!(
        parse_uuid("a1a2a3a4-b1b2-c1c2-d1d2-d3d4d5d6d7d8"),
        Some(0xa1a2a3a4b1b2c1c2d1d2d3d4d5d6d7d8)
    );
    assert_eq!(parse_uuid("a1a2a3a4b1b2c1c2d1d2d3d4d5d6d7d8"), Some(0xa1a2a3a4b1b2c1c2d1d2d3d4d5d6d7d8));
    assert_eq!(parse_uuid(ROOM), Some(0xaa));
}

#[test]
fn parse_uuid_agrees_with_the_uuid_crate() {
    let text = "67e55044-10b1-426f-9247-bb680e5fe0c8";
    let expected = uuid::Uuid::parse_str(text).unwrap().as_u128();
    assert_eq!(parse_uuid(text), Some(expected));
    assert_eq!(uuid::Uuid::from_u128(expected).to_string(), text);
}

#[test]
fn parse_uuid_rejects_what_is_no_identifier() {
    assert_eq!(parse_uuid(""), None);
    assert_eq!(parse_uuid("not-a-uuid"), None);
    assert_eq!(parse_uuid("a1a2a3a4-b1b2-c1c2-d1d2-d3d4d5d6d7"), None);
    assert_eq!(parse_uuid("g1a2a3a4-b1b2-c1c2-d1d2-d3d4d5d6d7d8"), None);
}

#[test]
fn parse_identifier_tells_missing_from_invalid() {
    assert_eq!(parse_identifier(&None), Err(IdentError::Missing));
    assert_eq!(parse_identifier(&Some("zz".to_string())), Err(IdentError::Invalid));
    assert_eq!(parse_identifier(&Some(ROOM.to_string())), Ok(0xaa));
}

#[test]
fn parse_room_accepts_a_room_with_a_valid_identifier() {
    let wire = WireRoom { uuid: Some(ROOM.to_string()), name: "general".to_string() };
    assert_eq!(parse_room(&wire), Ok(Room { uuid: 0xaa, name: "general".to_string() }));
}

#[test]
fn parse_room_rejects_a_missing_or_invalid_identifier() {
    let missing = WireRoom { uuid: None, name: "general".to_string() };
    assert_eq!(parse_room(&missing), Err(PayloadError::MissingIdentifier));
    let invalid = WireRoom { uuid: Some("general".to_string()), name: "general".to_string() };
    assert_eq!(parse_room(&invalid), Err(PayloadError::InvalidIdentifier));
}

#[test]
fn check_room_maps_each_reading_of_the_identifier() {
    assert_eq!(
        check_room(Ok(7), "attic".to_string()),
        Ok(Room { uuid: 7, name: "attic".to_string() })
    );
    assert_eq!(
        check_room(Err(IdentError::Missing), "attic".to_string()),
        Err(PayloadError::MissingIdentifier)
    );
    assert_eq!(
        check_room(Err(IdentError::Invalid), "attic".to_string()),
        Err(PayloadError::InvalidIdentifier)
    );
}

#[test]
fn check_header_runs_the_checks_in_order() {
    let stamp = WireTimestamp { seconds: 1, nanos: 2 };
    let sound = Fields { room_uuid: Ok(9), uuid: Ok(1), sender_uuid: Ok(2), timestamp: Some(stamp) };
    assert_eq!(check_header(9, sound), Ok(Header { uuid: 1, sender_uuid: 2, stamp }));
    assert_eq!(check_header(8, sound), Err(PayloadError::RoomMismatch));
    let all_wrong = Fields {
        room_uuid: Err(IdentError::Missing),
        uuid: Err(IdentError::Missing),
        sender_uuid: Err(IdentError::Invalid),
        timestamp: None,
    };
    assert_eq!(check_header(9, all_wrong), Err(PayloadError::RoomMismatch));
    let fields = Fields { room_uuid: Err(IdentError::Invalid), ..sound };
    assert_eq!(check_header(9, fields), Err(PayloadError::RoomMismatch));
    let fields = Fields { room_uuid: Ok(9), ..all_wrong };
    assert_eq!(check_header(9, fields), Err(PayloadError::MissingIdentifier));
    let fields = Fields { uuid: Err(IdentError::Invalid), ..fields };
    assert_eq!(check_header(9, fields), Err(PayloadError::InvalidIdentifier));
    let fields = Fields { uuid: Ok(1), ..fields };
    assert_eq!(check_header(9, fields), Err(PayloadError::InvalidSender));
    let fields = Fields { sender_uuid: Err(IdentError::Missing), ..fields };
    assert_eq!(check_header(9, fields), Err(PayloadError::MissingSender));
    let fields = Fields { sender_uuid: Ok(2), ..fields };
    assert_eq!(check_header(9, fields), Err(PayloadError::MissingTimestamp));
}

#[test]
fn parse_user_files_the_answer_under_the_identifier_asked_for() {
    let wire = WireUser { uuid: None, username: "ada".to_string() };
    assert_eq!(parse_user(0x51, &wire), Profile { uuid: 0x51, username: "ada".to_string() });
}

#[test]
fn parse_header_accepts_a_complete_message() {
    let header = parse_header(0xaa, &wire(1)).unwrap();
    assert_eq!(header.uuid, 1);
    assert_eq!(header.sender_uuid, 0x51);
    assert_eq!(header.stamp, WireTimestamp { seconds: 1_700_000_000, nanos: 5 });
}

#[test]
fn parse_header_rejects_a_message_of_another_room() {
    let mut other = wire(1);
    other.room_uuid = Some(OTHER_ROOM.to_string());
    assert_eq!(parse_header(0xaa, &other).err(), Some(PayloadError::RoomMismatch));
    let mut missing = wire(1);
    missing.room_uuid = None;
    assert_eq!(parse_header(0xaa, &missing).err(), Some(PayloadError::RoomMismatch));
    let mut invalid = wire(1);
    invalid.room_uuid = Some("aa".to_string());
    assert_eq!(parse_header(0xaa, &invalid).err(), Some(PayloadError::RoomMismatch));
    assert_eq!(parse_header(0xbb, &wire(1)).err(), Some(PayloadError::RoomMismatch));
}

#[test]
fn parse_header_names_the_first_check_that_fails() {
    let mut m = wire(1);
    m.uuid = None;
    m.sender_uuid = None;
    m.timestamp = None;
    assert_eq!(parse_header(0xaa, &m).err(), Some(PayloadError::MissingIdentifier));
    m.uuid = Some("x".to_string());
    assert_eq!(parse_header(0xaa, &m).err(), Some(PayloadError::InvalidIdentifier));
    m.uuid = wire(1).uuid;
    assert_eq!(parse_header(0xaa, &m).err(), Some(PayloadError::MissingSender));
    m.sender_uuid = Some("x".to_string());
    assert_eq!(parse_header(0xaa, &m).err(), Some(PayloadError::InvalidSender));
    m.sender_uuid = wire(1).sender_uuid;
    assert_eq!(parse_header(0xaa, &m).err(), Some(PayloadError::MissingTimestamp));
    m.room_uuid = None;
    assert_eq!(parse_header(0xaa, &m).err(), Some(PayloadError::RoomMismatch));
}

#[test]
fn parse_message_converts_the_timestamp() {
    let message = parse_message(0xaa, &wire(9)).unwrap();
    assert_eq!(
        message,
        Message {
            uuid: 9,
            sender_uuid: 0x51,
            room_uuid: 0xaa,
            text: "message 9".to_string(),
            timestamp: SystemTime::UNIX_EPOCH + Duration::new(1_700_000_000, 5),
        }
    );
}

#[test]
fn parse_message_converts_a_timestamp_before_the_epoch() {
    let mut early = wire(9);
    early.timestamp = Some(WireTimestamp { seconds: -10, nanos: 500_000_000 });
    let message = parse_message(0xaa, &early).unwrap();
    assert_eq!(message.timestamp, SystemTime::UNIX_EPOCH - Duration::new(9, 500_000_000));
}

#[test]
fn parse_message_rejects_a_timestamp_out_of_range() {
    let mut m = wire(9);
    m.timestamp = Some(WireTimestamp { seconds: i64::MIN, nanos: 0 });
    assert_eq!(parse_message(0xaa, &m), Err(PayloadError::InvalidTimestamp));
}

#[test]
fn parse_message_rejects_a_missing_timestamp() {
    let mut m = wire(9);
    m.timestamp = None;
    assert_eq!(parse_message(0xaa, &m), Err(PayloadError::MissingTimestamp));
}

#[test]
fn assemble_message_needs_a_converted_timestamp() {
    let header = Header { uuid: 3, sender_uuid: 4, stamp: WireTimestamp { seconds: 0, nanos: 0 } };
    assert_eq!(
        assemble_message(5, header, "hi".to_string(), None),
        Err(PayloadError::InvalidTimestamp)
    );
    let header = Header { uuid: 3, sender_uuid: 4, stamp: WireTimestamp { seconds: 0, nanos: 0 } };
    assert_eq!(
        assemble_message(5, header, "hi".to_string(), Some(SystemTime::UNIX_EPOCH)),
        Ok(Message {
            uuid: 3,
            sender_uuid: 4,
            room_uuid: 5,
            text: "hi".to_string(),
            timestamp: SystemTime::UNIX_EPOCH,
        })
    );
}

#[test]
fn parse_history_accepts_every_message_of_a_sound_history() {
    let history = parse_history(0xaa, &vec![wire(1), wire(2), wire(3)]);
    assert_eq!(history.fault, None);
    let ids: Vec<u128> = history.accepted.iter().map(|m| m.uuid).collect();
    assert_eq!(ids, vec![1, 2, 3]);
}

#[test]
fn parse_history_stops_at_the_first_rejected_message() {
    let mut bad = wire(3);
    bad.sender_uuid = None;
    let history = parse_history(0xaa, &vec![wire(1), wire(2), bad, wire(4)]);
    assert_eq!(history.fault, Some(PayloadError::MissingSender));
    let ids: Vec<u128> = history.accepted.iter().map(|m| m.uuid).collect();
    assert_eq!(ids, vec![1, 2]);
}

#[test]
fn parse_history_of_nothing_is_empty() {
    assert_eq!(parse_history(0xaa, &vec![]), History { accepted: vec![], fault: None });
}

#[test]
fn file_history_files_oldest_first_and_returns_the_senders() {
    let mut cache: Cache<Message> = Cache::new();
    let mut batch: Vec<Message> = Vec::new();
    for (id, sender) in [(5u128, 50u128), (3, 30), (4, 50)] {
        batch.push(Message {
            uuid: id,
            sender_uuid: sender,
            room_uuid: 0xaa,
            text: format!("m{}", id),
            timestamp: SystemTime::UNIX_EPOCH,
        });
    }
    let senders = file_history(&mut cache, batch);
    assert_eq!(senders, vec![50, 30, 50]);
    let ids: Vec<u128> = cache.snapshot().iter().map(|m| m.uuid).collect();
    assert_eq!(ids, vec![5, 3, 4]);
}

#[test]
fn file_history_overwrites_a_message_that_comes_twice() {
    let mut cache: Cache<Message> = Cache::new();
    let make = |id: u128, text: &str| Message {
        uuid: id,
        sender_uuid: 1,
        room_uuid: 0xaa,
        text: text.to_string(),
        timestamp: SystemTime::UNIX_EPOCH,
    };
    file_history(&mut cache, vec![make(1, "old"), make(2, "two"), make(1, "new")]);
    assert_eq!(cache.len(), 2);
    assert_eq!(cache.get(1).map(|m| m.text.as_str()), Some("new"));
    assert_eq!(cache.key_at(0), Some(1));
}

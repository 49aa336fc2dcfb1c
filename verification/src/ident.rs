//! Identifiers. Users, rooms and messages are each known by a 128-bit
//! identifier, which the service sends as text.

use vstd::prelude::*;

verus! {

/// The identifier that a text stands for, if it stands for one: what
/// `uuid::Uuid::parse_str` makes of the text, as the 128-bit number that
/// `Uuid::as_u128` gives for it.
pub uninterp spec fn parsed_uuid(text: Seq<char>) -> Option<u128>;

/// `uuid::Uuid::parse_str`, with the identifier it finds handed out as a
/// number by `Uuid::as_u128`. Nothing is claimed of which texts parse.
#[verifier::external_body]
fn uuid_from_text(text: &str) -> (id: Option<u128>)
    ensures
        id == parsed_uuid(text@),
{
    match uuid::Uuid::parse_str(text) {
        Ok(id) => Some(id.as_u128()),
        Err(_) => None,
    }
}

/// Reads an identifier from its text.
pub fn parse_uuid(text: &str) -> (id: Option<u128>)
    ensures
        id == parsed_uuid(text@),
{
    uuid_from_text(text)
}

/// Why an identifier field could not be read.
#[derive(Clone, Copy, Debug, PartialEq, Eq, Structural)]
pub enum IdentError {
    /// The field was not sent.
    Missing,
    /// The field was sent, and its text is no identifier.
    Invalid,
}

/// What reading an identifier field yields.
pub open spec fn read_identifier(field: Option<String>) -> Result<u128, IdentError> {
    match field {
        None => Err(IdentError::Missing),
        Some(text) => match parsed_uuid(text@) {
            Some(id) => Ok(id),
            None => Err(IdentError::Invalid),
        },
    }
}

/// Reads an identifier field of a payload.
pub fn parse_identifier(field: &Option<String>) -> (id: Result<u128, IdentError>)
    ensures
        id == read_identifier(*field),
{
    match field {
        None => Err(IdentError::Missing),
        Some(text) => match uuid_from_text(text.as_str()) {
            Some(id) => Ok(id),
            None => Err(IdentError::Invalid),
        },
    }
}

} // verus!

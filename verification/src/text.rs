//! The two operations of `String` that the input fields need and that the
//! verifier's library leaves unspecified. Nothing in this file is proved:
//! each function states what the standard library documents.

use vstd::prelude::*;

verus! {

/// `String::push`: appends one character.
#[verifier::external_body]
pub(crate) fn string_push(text: &mut String, c: char)
    ensures
        final(text)@ == old(text)@.push(c),
{
    text.push(c)
}

/// `String::pop`: removes the last character and returns it; an empty string
/// stays empty and nothing is returned.
#[verifier::external_body]
pub(crate) fn string_pop(text: &mut String) -> (last: Option<char>)
    ensures
        old(text)@.len() == 0 ==> last is None && final(text)@ == old(text)@,
        old(text)@.len() > 0 ==> last == Some(old(text)@.last()) && final(text)@ == old(
            text,
        )@.drop_last(),
{
    text.pop()
}

} // verus!

//! The history of a room: validating it, and filing it in the message cache.

use crate::cache::Cache;
use crate::entities::Message;
use crate::fault::PayloadError;
use crate::payload::{
    header_of, lemma_accepted_message, message_outcome, parse_message, WireMessage,
};
use vstd::prelude::*;

verus! {

/// A validated history: the messages that were accepted, oldest first, and
/// the rejection that ended the validation, if one did.
#[derive(Debug, PartialEq, Eq)]
pub struct History {
    pub accepted: Vec<Message>,
    pub fault: Option<PayloadError>,
}

/// Whether `history` is a way in which the validation of `wires`, as the
/// history of `room`, can end. Validation goes from the oldest message on and
/// stops at the first one that is rejected: the accepted messages are the
/// ones before it, each with its fields as sent, and the fault is its
/// rejection. Where none is rejected all are accepted and there is no fault.
pub open spec fn history_outcome(room: u128, wires: Seq<WireMessage>, history: History) -> bool {
    &&& history.accepted@.len() <= wires.len()
    &&& forall|i: int|
        0 <= i < history.accepted@.len() ==> message_outcome(
            room,
            #[trigger] wires[i],
            Ok(history.accepted@[i]),
        )
    &&& match history.fault {
        None => history.accepted@.len() == wires.len(),
        Some(why) => history.accepted@.len() < wires.len() && message_outcome(
            room,
            wires[history.accepted@.len() as int],
            Err(why),
        ),
    }
}

/// Every accepted message of a room's history belongs to that room.
pub proof fn lemma_history_of_room(room: u128, wires: Seq<WireMessage>, history: History)
    requires
        history_outcome(room, wires, history),
    ensures
        forall|i: int|
            0 <= i < history.accepted@.len() ==> (#[trigger] history.accepted@[i]).room_uuid
                == room,
{
    assert forall|i: int| 0 <= i < history.accepted@.len() implies (
    #[trigger] history.accepted@[i]).room_uuid == room by {
        lemma_accepted_message(room, wires[i], history.accepted@[i]);
    }
}

/// A message that fails a check of its header ends the history: it is not
/// accepted, nor is any message after it, and the history has a fault. Where
/// every message before it was accepted, the fault is the rejection of that
/// message.
pub proof fn lemma_history_stops_at_rejection(
    room: u128,
    wires: Seq<WireMessage>,
    history: History,
    at: int,
)
    requires
        history_outcome(room, wires, history),
        0 <= at < wires.len(),
        header_of(room, wires[at]) is Err,
    ensures
        history.accepted@.len() <= at,
        history.fault is Some,
        history.accepted@.len() == at ==> history.fault == Some(header_of(room, wires[at])->Err_0),
{
    if history.accepted@.len() > at {
        assert(message_outcome(room, wires[at], Ok(history.accepted@[at])));
    }
}

/// Validates the history of `room`, oldest message first.
pub fn parse_history(room: u128, wires: &Vec<WireMessage>) -> (history: History)
    ensures
        history_outcome(room, wires@, history),
{
    let mut accepted: Vec<Message> = Vec::new();
    let mut i: usize = 0;
    while i < wires.len()
        invariant
            i <= wires.len(),
            accepted@.len() == i,
            forall|j: int|
                0 <= j < i ==> message_outcome(room, #[trigger] wires@[j], Ok(accepted@[j])),
        decreases wires.len() - i,
    {
        match parse_message(room, &wires[i]) {
            Ok(message) => {
                accepted.push(message);
            },
            Err(why) => {
                return History { accepted, fault: Some(why) };
            },
        }
        i += 1;
    }
    History { accepted, fault: None }
}

/// The senders of a batch of messages, in the order of the messages.
pub open spec fn senders_of(batch: Seq<Message>) -> Seq<u128> {
    Seq::new(batch.len(), |i: int| batch[i].sender_uuid)
}

/// Files a batch of messages in the cache, oldest first, and returns their
/// senders in the same order.
pub fn file_history(messages: &mut Cache<Message>, batch: Vec<Message>) -> (senders: Vec<u128>)
    ensures
        final(messages)@ == old(messages)@.filed(batch@),
        senders@ == senders_of(batch@),
{
    let ghost all = batch@;
    let mut batch = batch;
    let mut stack: Vec<Message> = Vec::new();
    // Turn the batch round, so that the oldest message can be taken first.
    while batch.len() > 0
        invariant
            batch@.len() + stack@.len() == all.len(),
            batch@ == all.take(batch@.len() as int),
            forall|j: int| 0 <= j < stack@.len() ==> stack@[j] == all[all.len() - 1 - j],
        decreases batch.len(),
    {
        let last = batch.pop().unwrap();
        stack.push(last);
    }
    let mut senders: Vec<u128> = Vec::new();
    while stack.len() > 0
        invariant
            stack@.len() + senders@.len() == all.len(),
            forall|j: int| 0 <= j < stack@.len() ==> stack@[j] == all[all.len() - 1 - j],
            senders@ == senders_of(all.take(senders@.len() as int)),
            messages@ == old(messages)@.filed(all.take(senders@.len() as int)),
        decreases stack.len(),
    {
        let ghost done = senders@.len() as int;
        let message = stack.pop().unwrap();
        assert(message == all[done]);
        senders.push(message.sender_uuid);
        let uuid = message.uuid;
        messages.upsert(uuid, message);
        proof {
            assert(all.take(done + 1).drop_last() =~= all.take(done));
            assert(senders@ =~= senders_of(all.take(done + 1)));
        }
    }
    proof {
        assert(all.take(all.len() as int) =~= all);
    }
    senders
}

} // verus!

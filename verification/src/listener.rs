//! The listener of one room: it files the messages that the room's event
//! stream announces, and has their senders resolved.
//!
//! A listener decides and does not wait. Whoever drives it takes the next
//! item from the stream, hands it in, and does what the listener asks for in
//! return. A listener that stops touches nothing but itself.

use crate::cache::{Cache, Contents};
use crate::entities::{Message, Profile};
use crate::fault::{LookupError, PayloadError, SyncError, TransportError};
use crate::history::History;
use crate::payload::{
    header_of, message_outcome, parse_message, profile_of, Incoming, RoomEvent, WireUser,
};
use crate::plan::Plan;
use crate::resolver::{cache_user, ensure_user_cached, unseen};
use vstd::prelude::*;

verus! {

/// Where a listener stands.
#[derive(Clone, Copy, Debug, PartialEq, Eq, Structural)]
pub enum ListenerState {
    /// Waiting for the next item of the stream.
    Listening,
    /// Waiting for the answer to the lookup of this sender.
    Resolving(u128),
    /// Stopped for good: without an error where the stream ended, with the
    /// error otherwise.
    Stopped(Option<SyncError>),
}

/// What a listener asks of its driver.
#[derive(Clone, Copy, Debug, PartialEq, Eq, Structural)]
pub enum ListenerCommand {
    /// Take the next item from the stream and hand it in.
    NextEvent,
    /// Look this user up and hand the answer in.
    LookupUser(u128),
    /// End the task.
    Stop,
}

/// The listener of one room.
#[derive(Clone, Copy, Debug, PartialEq, Eq, Structural)]
pub struct RoomListener {
    /// The owner of the session.
    pub owner: u128,
    pub room: u128,
    pub state: ListenerState,
}

/// The result of one move of a listener on a message cache.
pub struct ListenerStep {
    pub state: ListenerState,
    pub messages: Contents<Message>,
    pub command: ListenerCommand,
}

/// What becomes of a listener in state `state` that is handed something it
/// did not ask for. A stopped listener stays as it is; any other stops.
pub open spec fn out_of_turn(state: ListenerState) -> ListenerState {
    match state {
        ListenerState::Stopped(why) => ListenerState::Stopped(why),
        _ => ListenerState::Stopped(Some(SyncError::OutOfTurn)),
    }
}

/// The move of a listener on a validated message. A rejected message stops
/// the listener and leaves the cache alone. An accepted one is filed; the
/// listener then asks for the sender to be looked up if it is unseen, and
/// goes on listening if it is not.
pub open spec fn message_step(
    owner: u128,
    state: ListenerState,
    parsed: Result<Message, PayloadError>,
    messages: Contents<Message>,
    users: Contents<Profile>,
) -> ListenerStep {
    if state != ListenerState::Listening {
        ListenerStep { state: out_of_turn(state), messages, command: ListenerCommand::Stop }
    } else {
        match parsed {
            Err(why) => ListenerStep {
                state: ListenerState::Stopped(Some(SyncError::Payload(why))),
                messages,
                command: ListenerCommand::Stop,
            },
            Ok(message) => if unseen(users, owner, message.sender_uuid) {
                ListenerStep {
                    state: ListenerState::Resolving(message.sender_uuid),
                    messages: messages.upsert(message.uuid, message),
                    command: ListenerCommand::LookupUser(message.sender_uuid),
                }
            } else {
                ListenerStep {
                    state: ListenerState::Listening,
                    messages: messages.upsert(message.uuid, message),
                    command: ListenerCommand::NextEvent,
                }
            },
        }
    }
}

/// Whether `step` is a way in which the move of the listener of `room` on an
/// item of its stream can end. The end of the stream, a broken stream and an
/// envelope without an event stop the listener and leave the cache alone. A
/// new message is validated, and the move is that of [`message_step`] on one
/// of the outcomes that the validation can have.
pub open spec fn event_step(
    owner: u128,
    room: u128,
    state: ListenerState,
    item: Incoming<RoomEvent>,
    messages: Contents<Message>,
    users: Contents<Profile>,
    step: ListenerStep,
) -> bool {
    if state != ListenerState::Listening {
        step == (ListenerStep {
            state: out_of_turn(state),
            messages,
            command: ListenerCommand::Stop,
        })
    } else {
        match item {
            Incoming::Closed => step == (ListenerStep {
                state: ListenerState::Stopped(None),
                messages,
                command: ListenerCommand::Stop,
            }),
            Incoming::Failed(why) => step == (ListenerStep {
                state: ListenerState::Stopped(Some(SyncError::Transport(why))),
                messages,
                command: ListenerCommand::Stop,
            }),
            Incoming::Event(None) => step == (ListenerStep {
                state: ListenerState::Stopped(Some(SyncError::Payload(PayloadError::MissingEvent))),
                messages,
                command: ListenerCommand::Stop,
            }),
            Incoming::Event(Some(RoomEvent::NewMessage(wire))) => exists|
                parsed: Result<Message, PayloadError>,
            |
                message_outcome(room, wire, parsed) && step == #[trigger] message_step(
                    owner,
                    state,
                    parsed,
                    messages,
                    users,
                ),
        }
    }
}

/// The move of a listener on the answer to a lookup: the listener's new
/// state, the user cache, and what the listener asks for next.
pub open spec fn user_step(
    state: ListenerState,
    reply: Result<WireUser, TransportError>,
    users: Contents<Profile>,
) -> (ListenerState, Contents<Profile>, ListenerCommand) {
    match state {
        ListenerState::Resolving(sender) => match reply {
            Ok(wire) => (
                ListenerState::Listening,
                users.upsert(sender, profile_of(sender, wire)),
                ListenerCommand::NextEvent,
            ),
            Err(why) => (
                ListenerState::Stopped(Some(SyncError::Transport(why))),
                users,
                ListenerCommand::Stop,
            ),
        },
        _ => (out_of_turn(state), users, ListenerCommand::Stop),
    }
}

/// Whether the listener of `room` rejects `item` whatever the clock makes of
/// its timestamp: an envelope without an event, or a message that fails a
/// check of its header.
pub open spec fn rejected(room: u128, item: Incoming<RoomEvent>) -> bool {
    match item {
        Incoming::Event(None) => true,
        Incoming::Event(Some(RoomEvent::NewMessage(wire))) => header_of(room, wire) is Err,
        _ => false,
    }
}

/// A sender is looked up once. A message from a sender without a record has
/// the listener ask for the lookup. Once the answer is filed the sender has a
/// record, and the user cache has grown by that one entry. A further message
/// from the same sender is then filed without a lookup.
pub proof fn lemma_sender_looked_up_once(
    owner: u128,
    first: Message,
    second: Message,
    answer: WireUser,
    messages: Contents<Message>,
    users: Contents<Profile>,
)
    requires
        users.wf(),
        unseen(users, owner, first.sender_uuid),
        second.sender_uuid == first.sender_uuid,
    ensures
        ({
            let one = message_step(owner, ListenerState::Listening, Ok(first), messages, users);
            let two = user_step(one.state, Ok(answer), users);
            let three = message_step(owner, two.0, Ok(second), one.messages, two.1);
            &&& one.command == ListenerCommand::LookupUser(first.sender_uuid)
            &&& two.1.wf()
            &&& two.1.contains_key(first.sender_uuid)
            &&& two.1.len() == users.len() + 1
            &&& two.2 == ListenerCommand::NextEvent
            &&& three.command == ListenerCommand::NextEvent
            &&& three.state == ListenerState::Listening
        }),
{
    users.lemma_upsert(first.sender_uuid, profile_of(first.sender_uuid, answer));
}

/// A listener that stops leaves the message cache as it found it, and a
/// listener that is handed an item it rejects stops with that rejection.
pub proof fn lemma_stop_leaves_cache(
    owner: u128,
    room: u128,
    state: ListenerState,
    item: Incoming<RoomEvent>,
    messages: Contents<Message>,
    users: Contents<Profile>,
    step: ListenerStep,
)
    requires
        event_step(owner, room, state, item, messages, users, step),
    ensures
        step.state is Stopped ==> step.messages == messages && step.command
            == ListenerCommand::Stop,
        state == ListenerState::Listening && rejected(room, item) ==> {
            &&& step.state matches ListenerState::Stopped(Some(SyncError::Payload(_)))
            &&& step.messages == messages
            &&& step.command == ListenerCommand::Stop
        },
{
}

/// A rejection is contained. Where the listener of one room rejects an item,
/// the listener of any other room moves on its next item exactly as it would
/// have moved had the rejected item never arrived, and so does the
/// coordinator on whatever it takes next: the caches they work on are the
/// ones that were there before.
pub proof fn lemma_rejection_is_contained(
    owner: u128,
    room: u128,
    item: Incoming<RoomEvent>,
    messages: Contents<Message>,
    users: Contents<Profile>,
    step: ListenerStep,
    other: RoomListener,
    other_item: Incoming<RoomEvent>,
    other_step: ListenerStep,
    plan: Plan,
    history: Result<History, TransportError>,
)
    requires
        rejected(room, item),
        event_step(owner, room, ListenerState::Listening, item, messages, users, step),
    ensures
        step.state is Stopped,
        event_step(
            other.owner,
            other.room,
            other.state,
            other_item,
            step.messages,
            users,
            other_step,
        ) == event_step(
            other.owner,
            other.room,
            other.state,
            other_item,
            messages,
            users,
            other_step,
        ),
        plan.history_step(history, step.messages, users) == plan.history_step(
            history,
            messages,
            users,
        ),
{
    lemma_stop_leaves_cache(owner, room, ListenerState::Listening, item, messages, users, step);
}

impl RoomListener {
    /// A listener for `room` in the session of `owner`, waiting for the first
    /// item of the stream.
    pub fn new(owner: u128, room: u128) -> (listener: Self)
        ensures
            listener == (RoomListener { owner, room, state: ListenerState::Listening }),
    {
        RoomListener { owner, room, state: ListenerState::Listening }
    }

    /// Whether the listener has stopped.
    pub fn stopped(&self) -> (stopped: bool)
        ensures
            stopped == (self.state is Stopped),
    {
        match self.state {
            ListenerState::Stopped(_) => true,
            _ => false,
        }
    }

    fn halt(&mut self) -> (command: ListenerCommand)
        ensures
            final(self).owner == old(self).owner,
            final(self).room == old(self).room,
            final(self).state == out_of_turn(old(self).state),
            command == ListenerCommand::Stop,
    {
        match self.state {
            ListenerState::Stopped(_) => {},
            _ => {
                self.state = ListenerState::Stopped(Some(SyncError::OutOfTurn));
            },
        }
        ListenerCommand::Stop
    }

    /// The session is torn down: the listener stops without an error. A
    /// listener that has stopped stays as it is.
    pub fn cancel(&mut self) -> (command: ListenerCommand)
        ensures
            final(self).owner == old(self).owner,
            final(self).room == old(self).room,
            final(self).state == match old(self).state {
                ListenerState::Stopped(why) => ListenerState::Stopped(why),
                _ => ListenerState::Stopped(None),
            },
            command == ListenerCommand::Stop,
    {
        match self.state {
            ListenerState::Stopped(_) => {},
            _ => {
                self.state = ListenerState::Stopped(None);
            },
        }
        ListenerCommand::Stop
    }

    /// Takes a validated message: see [`message_step`].
    pub fn on_message(
        &mut self,
        parsed: Result<Message, PayloadError>,
        messages: &mut Cache<Message>,
        users: &Cache<Profile>,
    ) -> (command: ListenerCommand)
        ensures
            final(self).owner == old(self).owner,
            final(self).room == old(self).room,
            (ListenerStep {
                state: final(self).state,
                messages: final(messages)@,
                command,
            }) == message_step(old(self).owner, old(self).state, parsed, old(messages)@, users@),
    {
        if self.state != ListenerState::Listening {
            return self.halt();
        }
        match parsed {
            Err(why) => {
                self.state = ListenerState::Stopped(Some(SyncError::Payload(why)));
                ListenerCommand::Stop
            },
            Ok(message) => {
                let sender = message.sender_uuid;
                let uuid = message.uuid;
                messages.upsert(uuid, message);
                match ensure_user_cached(users, self.owner, sender) {
                    None => ListenerCommand::NextEvent,
                    Some(sender) => {
                        self.state = ListenerState::Resolving(sender);
                        ListenerCommand::LookupUser(sender)
                    },
                }
            },
        }
    }

    /// Takes an item of the room's event stream: see [`event_step`].
    pub fn on_event(
        &mut self,
        item: &Incoming<RoomEvent>,
        messages: &mut Cache<Message>,
        users: &Cache<Profile>,
    ) -> (command: ListenerCommand)
        ensures
            final(self).owner == old(self).owner,
            final(self).room == old(self).room,
            event_step(
                old(self).owner,
                old(self).room,
                old(self).state,
                *item,
                old(messages)@,
                users@,
                ListenerStep { state: final(self).state, messages: final(messages)@, command },
            ),
    {
        if self.state != ListenerState::Listening {
            return self.halt();
        }
        match item {
            Incoming::Closed => {
                self.state = ListenerState::Stopped(None);
                ListenerCommand::Stop
            },
            Incoming::Failed(why) => {
                self.state = ListenerState::Stopped(Some(SyncError::Transport(*why)));
                ListenerCommand::Stop
            },
            Incoming::Event(None) => {
                self.state = ListenerState::Stopped(
                    Some(SyncError::Payload(PayloadError::MissingEvent)),
                );
                ListenerCommand::Stop
            },
            Incoming::Event(Some(RoomEvent::NewMessage(wire))) => {
                let parsed = parse_message(self.room, wire);
                let ghost witness = parsed;
                let command = self.on_message(parsed, messages, users);
                proof {
                    assert(message_outcome(old(self).room, *wire, witness));
                    assert((ListenerStep {
                        state: self.state,
                        messages: messages@,
                        command,
                    }) == message_step(
                        old(self).owner,
                        old(self).state,
                        witness,
                        old(messages)@,
                        users@,
                    ));
                }
                command
            },
        }
    }

    /// Takes the answer to the lookup that the listener asked for: see
    /// [`user_step`].
    pub fn on_user(
        &mut self,
        reply: &Result<WireUser, TransportError>,
        users: &mut Cache<Profile>,
    ) -> (command: ListenerCommand)
        ensures
            final(self).owner == old(self).owner,
            final(self).room == old(self).room,
            (final(self).state, final(users)@, command) == user_step(
                old(self).state,
                *reply,
                old(users)@,
            ),
    {
        match self.state {
            ListenerState::Resolving(sender) => match cache_user(users, sender, reply) {
                Ok(()) => {
                    self.state = ListenerState::Listening;
                    ListenerCommand::NextEvent
                },
                Err(LookupError::Transport(why)) => {
                    self.state = ListenerState::Stopped(Some(SyncError::Transport(why)));
                    ListenerCommand::Stop
                },
            },
            _ => self.halt(),
        }
    }
}

} // verus!

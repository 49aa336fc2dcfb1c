//! The coordinator of a session: it hydrates the caches when the session
//! starts, and afterwards provides for every room that the user is added to.
//!
//! The coordinator owns the room cache and the record of the rooms that have
//! a listener, so no room is ever subscribed to twice. It decides and does
//! not wait: the driver performs what a move asks for, and hands the answer
//! to the move that takes it. The message and user caches are shared with
//! the room listeners, so the moves that need them borrow them.

use crate::cache::Cache;
use crate::entities::{Message, Profile, Room};
use crate::fault::{LookupError, PayloadError, SyncError, TransportError};
use crate::history::{file_history, history_outcome, parse_history, History};
use crate::ident::parse_uuid;
use crate::ordered_set::{
    key_order, set_clear, set_index_of, set_insert_full, set_key_at, set_len, set_new,
};
use crate::payload::{
    parse_room, room_of, Incoming, UserEvent, WireMessage, WireRoom, WireUser,
};
use crate::plan::{first_unseen, Command, Phase, Plan};
use crate::resolver::{cache_user, ensure_user_cached};
use indexmap::IndexSet;
use vstd::prelude::*;

verus! {

/// What a coordinator holds. The moves are made on this; the coordinator
/// wraps it, and is only ever seen between two moves.
struct Core {
    owner: u128,
    phase: Phase,
    hydrated: bool,
    outcome: Option<SyncError>,
    rooms: Cache<Room>,
    listeners: IndexSet<u128>,
    listed: Vec<WireRoom>,
    taken: usize,
    current: u128,
    senders: Vec<u128>,
    resolved: usize,
    pending: u128,
    fault: Option<PayloadError>,
    entered: Ghost<Seq<Room>>,
}

impl View for Core {
    type V = Plan;

    closed spec fn view(&self) -> Plan {
        Plan {
            owner: self.owner,
            phase: self.phase,
            hydrated: self.hydrated,
            outcome: self.outcome,
            rooms: self.rooms@,
            listening: key_order(self.listeners),
            listed: self.listed@,
            taken: self.taken as nat,
            current: self.current,
            senders: self.senders@,
            resolved: self.resolved as nat,
            pending: self.pending,
            fault: self.fault,
            entered: self.entered@,
        }
    }
}

impl Core {
    /// The counts are within what is held.
    closed spec fn inv(&self) -> bool {
        &&& self.taken <= self.listed@.len()
        &&& self.resolved <= self.senders@.len()
    }

    fn new(owner: u128) -> (core: Self)
        ensures
            core.inv(),
            core@ == Plan::idle(owner),
    {
        Core {
            owner,
            phase: Phase::Idle,
            hydrated: false,
            outcome: None,
            rooms: Cache::new(),
            listeners: set_new(),
            listed: Vec::new(),
            taken: 0,
            current: 0,
            senders: Vec::new(),
            resolved: 0,
            pending: 0,
            fault: None,
            entered: Ghost(Seq::empty()),
        }
    }

    fn halt(&mut self, why: Option<SyncError>) -> (command: Command)
        requires
            old(self).inv(),
        ensures
            final(self).inv(),
            (final(self)@, command) == old(self)@.halt(why),
    {
        self.phase = Phase::Halted;
        self.outcome = why;
        Command::Halt(why)
    }

    fn out_of_turn(&mut self) -> (command: Command)
        requires
            old(self).inv(),
        ensures
            final(self).inv(),
            (final(self)@, command) == old(self)@.out_of_turn(),
    {
        if self.phase == Phase::Halted {
            Command::Halt(self.outcome)
        } else {
            self.halt(Some(SyncError::OutOfTurn))
        }
    }

    fn take_up(&mut self, parsed: Result<Room, PayloadError>, wire: Ghost<WireRoom>) -> (
        command: Command
    )
        requires
            old(self).inv(),
            parsed == room_of(wire@),
        ensures
            final(self).inv(),
            (final(self)@, command) == old(self)@.take_up(wire@),
    {
        match parsed {
            Err(why) => self.halt(Some(SyncError::Payload(why))),
            Ok(room) => {
                let uuid = room.uuid;
                proof {
                    self.entered@ = self.entered@.push(room);
                }
                self.rooms.upsert(uuid, room);
                self.current = uuid;
                self.phase = Phase::LoadingHistory;
                Command::ListMessages(uuid)
            },
        }
    }

    fn next_room(&mut self) -> (command: Command)
        requires
            old(self).inv(),
        ensures
            final(self).inv(),
            (final(self)@, command) == old(self)@.next_room(),
    {
        if self.taken < self.listed.len() {
            let at = self.taken;
            self.taken = at + 1;
            let parsed = parse_room(&self.listed[at]);
            self.take_up(parsed, Ghost(self.listed@[at as int]))
        } else {
            self.phase = Phase::Watching;
            self.hydrated = true;
            Command::Hydrated
        }
    }

    fn room_done(&mut self) -> (command: Command)
        requires
            old(self).inv(),
        ensures
            final(self).inv(),
            (final(self)@, command) == old(self)@.room_done(),
    {
        if self.hydrated {
            self.phase = Phase::Watching;
            Command::NextEvent
        } else {
            self.next_room()
        }
    }

    fn finish_room(&mut self) -> (command: Command)
        requires
            old(self).inv(),
        ensures
            final(self).inv(),
            (final(self)@, command) == old(self)@.finish_room(),
    {
        let (_, fresh) = set_insert_full(&mut self.listeners, self.current);
        if fresh {
            self.phase = Phase::StartingListener;
            Command::StartListener(self.current)
        } else {
            self.room_done()
        }
    }

    fn next_sender(&mut self, users: &Cache<Profile>) -> (command: Command)
        requires
            old(self).inv(),
        ensures
            final(self).inv(),
            (final(self)@, command) == old(self)@.next_sender(users@),
    {
        let mut at: usize = self.resolved;
        while at < self.senders.len()
            invariant
                self.inv(),
                self@ == old(self)@,
                self.resolved <= at <= self.senders@.len(),
                first_unseen(self.senders@, at as nat, users@, self.owner) == first_unseen(
                    self.senders@,
                    self.resolved as nat,
                    users@,
                    self.owner,
                ),
            decreases self.senders@.len() - at,
        {
            match ensure_user_cached(users, self.owner, self.senders[at]) {
                Some(sender) => {
                    self.resolved = at + 1;
                    self.pending = sender;
                    self.phase = Phase::ResolvingSender;
                    return Command::LookupUser(sender);
                },
                None => {
                    at += 1;
                },
            }
        }
        self.resolved = at;
        match self.fault {
            Some(why) => self.halt(Some(SyncError::Payload(why))),
            None => self.finish_room(),
        }
    }

    fn hydrate(&mut self) -> (command: Command)
        requires
            old(self).inv(),
        ensures
            final(self).inv(),
            (final(self)@, command) == old(self)@.begin(),
    {
        match self.phase {
            Phase::Idle | Phase::Halted => {
                self.rooms.clear();
                set_clear(&mut self.listeners);
                self.phase = Phase::ListingRooms;
                self.hydrated = false;
                self.outcome = None;
                self.listed = Vec::new();
                self.taken = 0;
                self.current = 0;
                self.senders = Vec::new();
                self.resolved = 0;
                self.pending = 0;
                self.fault = None;
                proof {
                    self.entered@ = Seq::empty();
                }
                Command::ListRooms
            },
            _ => self.out_of_turn(),
        }
    }

    fn on_rooms(&mut self, reply: Result<Vec<WireRoom>, TransportError>) -> (command: Command)
        requires
            old(self).inv(),
        ensures
            final(self).inv(),
            (final(self)@, command) == old(self)@.rooms_step(reply),
    {
        if self.phase != Phase::ListingRooms {
            return self.out_of_turn();
        }
        match reply {
            Err(why) => self.halt(Some(SyncError::Transport(why))),
            Ok(list) => {
                self.listed = list;
                self.taken = 0;
                self.next_room()
            },
        }
    }

    fn on_parsed_history(
        &mut self,
        reply: Result<History, TransportError>,
        messages: &mut Cache<Message>,
        users: &Cache<Profile>,
    ) -> (command: Command)
        requires
            old(self).inv(),
        ensures
            final(self).inv(),
            (final(self)@, final(messages)@, command) == old(self)@.history_step(
                reply,
                old(messages)@,
                users@,
            ),
    {
        if self.phase != Phase::LoadingHistory {
            return self.out_of_turn();
        }
        match reply {
            Err(why) => self.halt(Some(SyncError::Transport(why))),
            Ok(history) => {
                self.fault = history.fault;
                self.senders = file_history(messages, history.accepted);
                self.resolved = 0;
                self.next_sender(users)
            },
        }
    }

    fn on_user(
        &mut self,
        reply: &Result<WireUser, TransportError>,
        users: &mut Cache<Profile>,
    ) -> (command: Command)
        requires
            old(self).inv(),
        ensures
            final(self).inv(),
            (final(self)@, final(users)@, command) == old(self)@.user_step(*reply, old(users)@),
    {
        if self.phase != Phase::ResolvingSender {
            return self.out_of_turn();
        }
        match cache_user(users, self.pending, reply) {
            Err(LookupError::Transport(why)) => self.halt(Some(SyncError::Transport(why))),
            Ok(()) => self.next_sender(users),
        }
    }

    fn on_listener_started(&mut self) -> (command: Command)
        requires
            old(self).inv(),
        ensures
            final(self).inv(),
            (final(self)@, command) == old(self)@.listener_step(),
    {
        if self.phase != Phase::StartingListener {
            return self.out_of_turn();
        }
        self.room_done()
    }

    fn on_added_to_room(&mut self, parsed: Option<u128>) -> (command: Command)
        requires
            old(self).inv(),
        ensures
            final(self).inv(),
            (final(self)@, command) == old(self)@.joined_step(parsed),
    {
        if self.phase != Phase::Watching {
            return self.out_of_turn();
        }
        match parsed {
            None => self.halt(Some(SyncError::Payload(PayloadError::InvalidIdentifier))),
            Some(room) => {
                if self.rooms.contains_key(room) {
                    Command::NextEvent
                } else {
                    self.phase = Phase::FetchingRoom;
                    Command::LookupRoom(room)
                }
            },
        }
    }

    fn on_event(&mut self, item: &Incoming<UserEvent>) -> (command: Command)
        requires
            old(self).inv(),
        ensures
            final(self).inv(),
            (final(self)@, command) == old(self)@.event_step(*item),
    {
        if self.phase != Phase::Watching {
            return self.out_of_turn();
        }
        match item {
            Incoming::Closed => self.halt(None),
            Incoming::Failed(why) => self.halt(Some(SyncError::Transport(*why))),
            Incoming::Event(None) => self.halt(
                Some(SyncError::Payload(PayloadError::MissingEvent)),
            ),
            Incoming::Event(Some(UserEvent::AddedToRoom(text))) => self.on_added_to_room(
                parse_uuid(text.as_str()),
            ),
        }
    }

    fn on_room(&mut self, reply: &Result<WireRoom, TransportError>) -> (command: Command)
        requires
            old(self).inv(),
        ensures
            final(self).inv(),
            (final(self)@, command) == old(self)@.room_step(*reply),
    {
        if self.phase != Phase::FetchingRoom {
            return self.out_of_turn();
        }
        match reply {
            Err(why) => self.halt(Some(SyncError::Transport(*why))),
            Ok(wire) => self.take_up(parse_room(wire), Ghost(*wire)),
        }
    }

    fn cancel(&mut self) -> (command: Command)
        requires
            old(self).inv(),
        ensures
            final(self).inv(),
            (final(self)@, command) == old(self)@.cancel(),
    {
        if self.phase == Phase::Halted {
            Command::Halt(self.outcome)
        } else {
            self.halt(None)
        }
    }
}

/// The coordinator of one session.
pub struct Coordinator {
    core: Core,
}

impl View for Coordinator {
    type V = Plan;

    closed spec fn view(&self) -> Plan {
        self.core@
    }
}

impl Coordinator {
    /// What the coordinator knows is what a coordinator can come to know:
    /// see [`Plan::wf`].
    #[verifier::type_invariant]
    closed spec fn wf(&self) -> bool {
        &&& self.core.inv()
        &&& self.core@.wf()
    }

    /// A coordinator for the session of `owner`, which has not been asked for
    /// anything.
    pub fn new(owner: u128) -> (coordinator: Self)
        ensures
            coordinator@ == Plan::idle(owner),
            coordinator@.wf(),
    {
        proof {
            Plan::lemma_idle_wf(owner);
        }
        Coordinator { core: Core::new(owner) }
    }

    /// Takes the working state out, and leaves an idle coordinator behind
    /// until the state is put back.
    fn take(&mut self) -> (core: Core)
        ensures
            core.inv(),
            core@.wf(),
            core@ == old(self)@,
    {
        let mut taken = Coordinator::new(0);
        std::mem::swap(self, &mut taken);
        proof {
            use_type_invariant(&taken);
        }
        taken.core
    }

    /// Where the coordinator stands.
    pub fn phase(&self) -> (phase: Phase)
        ensures
            phase == self@.phase,
    {
        self.core.phase
    }

    /// Whether the hydration has completed.
    pub fn hydrated(&self) -> (hydrated: bool)
        ensures
            hydrated == self@.hydrated,
    {
        self.core.hydrated
    }

    /// Why the coordinator halted, where it halted on an error.
    pub fn outcome(&self) -> (outcome: Option<SyncError>)
        ensures
            outcome == self@.outcome,
    {
        self.core.outcome
    }

    /// The room that is being provided for, or was last.
    pub fn current(&self) -> (room: u128)
        ensures
            room == self@.current,
    {
        self.core.current
    }

    /// The room cache, for reading.
    pub fn rooms(&self) -> (rooms: &Cache<Room>)
        ensures
            rooms@ == self@.rooms,
            self@.wf(),
    {
        proof {
            use_type_invariant(self);
        }
        &self.core.rooms
    }

    /// Whether a listener was asked for `room`.
    pub fn listens_to(&self, room: u128) -> (listens: bool)
        ensures
            listens == self@.listening.contains(room),
    {
        set_index_of(&self.core.listeners, room).is_some()
    }

    /// The rooms for which a listener was asked for, in that order.
    pub fn listening(&self) -> (rooms: Vec<u128>)
        ensures
            rooms@ == self@.listening,
    {
        let mut rooms: Vec<u128> = Vec::new();
        let len = set_len(&self.core.listeners);
        let mut at: usize = 0;
        while at < len
            invariant
                len == self@.listening.len(),
                at <= len,
                rooms@ == self@.listening.take(at as int),
            decreases len - at,
        {
            if let Some(room) = set_key_at(&self.core.listeners, at) {
                rooms.push(room);
            }
            assert(self@.listening.take(at + 1) =~= self@.listening.take(at as int).push(
                self@.listening[at as int],
            ));
            at += 1;
        }
        assert(self@.listening.take(at as int) =~= self@.listening);
        rooms
    }

    /// Tears the session down: see [`Plan::cancel`]. The record of the
    /// listeners stays, so that the driver can stop each of them.
    pub fn cancel(&mut self) -> (command: Command)
        ensures
            final(self)@.wf(),
            (final(self)@, command) == old(self)@.cancel(),
    {
        let mut core = self.take();
        proof {
            core@.lemma_cancel();
        }
        let command = core.cancel();
        *self = Coordinator { core };
        command
    }

    /// Begins the hydration: see [`Plan::begin`].
    pub fn hydrate(&mut self) -> (command: Command)
        ensures
            final(self)@.wf(),
            command is Hydrated ==> final(self)@.hydration_complete(),
            (final(self)@, command) == old(self)@.begin(),
    {
        let mut core = self.take();
        proof {
            core@.lemma_begin();
        }
        let command = core.hydrate();
        *self = Coordinator { core };
        command
    }

    /// Takes the answer to `ListRooms`: see [`Plan::rooms_step`].
    pub fn on_rooms(&mut self, reply: Result<Vec<WireRoom>, TransportError>) -> (command: Command)
        ensures
            final(self)@.wf(),
            command is Hydrated ==> final(self)@.hydration_complete(),
            (final(self)@, command) == old(self)@.rooms_step(reply),
    {
        let mut core = self.take();
        proof {
            core@.lemma_rooms_step(reply);
        }
        let command = core.on_rooms(reply);
        *self = Coordinator { core };
        command
    }

    /// Takes the validated history of the current room: see
    /// [`Plan::history_step`].
    pub fn on_parsed_history(
        &mut self,
        reply: Result<History, TransportError>,
        messages: &mut Cache<Message>,
        users: &Cache<Profile>,
    ) -> (command: Command)
        ensures
            final(self)@.wf(),
            command is Hydrated ==> final(self)@.hydration_complete(),
            (final(self)@, final(messages)@, command) == old(self)@.history_step(
                reply,
                old(messages)@,
                users@,
            ),
    {
        let mut core = self.take();
        proof {
            core@.lemma_history_step(reply, messages@, users@);
        }
        let command = core.on_parsed_history(reply, messages, users);
        *self = Coordinator { core };
        command
    }

    /// Takes the answer to `ListMessages`: validates the history of the
    /// current room, and makes the move of [`Plan::history_step`] on one of
    /// the outcomes that the validation can have.
    pub fn on_history(
        &mut self,
        reply: &Result<Vec<WireMessage>, TransportError>,
        messages: &mut Cache<Message>,
        users: &Cache<Profile>,
    ) -> (command: Command)
        ensures
            final(self)@.wf(),
            command is Hydrated ==> final(self)@.hydration_complete(),
            match *reply {
                Err(why) => (final(self)@, final(messages)@, command) == old(self)@.history_step(
                    Err(why),
                    old(messages)@,
                    users@,
                ),
                Ok(wires) => exists|history: History|
                    history_outcome(old(self)@.current, wires@, history) && (
                        final(self)@,
                        final(messages)@,
                        command,
                    ) == #[trigger] old(self)@.history_step(Ok(history), old(messages)@, users@),
            },
    {
        match reply {
            Err(why) => self.on_parsed_history(Err(*why), messages, users),
            Ok(wires) => {
                let history = parse_history(self.current(), wires);
                let ghost witness = history;
                let command = self.on_parsed_history(Ok(history), messages, users);
                proof {
                    assert((self@, messages@, command) == old(self)@.history_step(
                        Ok(witness),
                        old(messages)@,
                        users@,
                    ));
                }
                command
            },
        }
    }

    /// Takes the answer to `LookupUser`: see [`Plan::user_step`].
    pub fn on_user(
        &mut self,
        reply: &Result<WireUser, TransportError>,
        users: &mut Cache<Profile>,
    ) -> (command: Command)
        ensures
            final(self)@.wf(),
            command is Hydrated ==> final(self)@.hydration_complete(),
            (final(self)@, final(users)@, command) == old(self)@.user_step(*reply, old(users)@),
    {
        let mut core = self.take();
        proof {
            core@.lemma_user_step(*reply, users@);
        }
        let command = core.on_user(reply, users);
        *self = Coordinator { core };
        command
    }

    /// Takes the confirmation of `StartListener`: see [`Plan::listener_step`].
    pub fn on_listener_started(&mut self) -> (command: Command)
        ensures
            final(self)@.wf(),
            command is Hydrated ==> final(self)@.hydration_complete(),
            (final(self)@, command) == old(self)@.listener_step(),
    {
        let mut core = self.take();
        proof {
            core@.lemma_listener_step();
        }
        let command = core.on_listener_started();
        *self = Coordinator { core };
        command
    }

    /// Takes the news that the user was added to a room, the room's
    /// identifier read: see [`Plan::joined_step`].
    pub fn on_added_to_room(&mut self, parsed: Option<u128>) -> (command: Command)
        ensures
            final(self)@.wf(),
            command is Hydrated ==> final(self)@.hydration_complete(),
            (final(self)@, command) == old(self)@.joined_step(parsed),
    {
        let mut core = self.take();
        proof {
            core@.lemma_joined_step(parsed);
        }
        let command = core.on_added_to_room(parsed);
        *self = Coordinator { core };
        command
    }

    /// Takes an item of the session's event stream: see [`Plan::event_step`].
    pub fn on_event(&mut self, item: &Incoming<UserEvent>) -> (command: Command)
        ensures
            final(self)@.wf(),
            command is Hydrated ==> final(self)@.hydration_complete(),
            (final(self)@, command) == old(self)@.event_step(*item),
    {
        let mut core = self.take();
        proof {
            core@.lemma_event_step(*item);
        }
        let command = core.on_event(item);
        *self = Coordinator { core };
        command
    }

    /// Takes the answer to `LookupRoom`: see [`Plan::room_step`].
    pub fn on_room(&mut self, reply: &Result<WireRoom, TransportError>) -> (command: Command)
        ensures
            final(self)@.wf(),
            command is Hydrated ==> final(self)@.hydration_complete(),
            (final(self)@, command) == old(self)@.room_step(*reply),
    {
        let mut core = self.take();
        proof {
            core@.lemma_room_step(*reply);
        }
        let command = core.on_room(reply);
        *self = Coordinator { core };
        command
    }
}

} // verus!

//! The moves of the coordinator, as mathematics.
//!
//! A [`Plan`] is what the coordinator knows at one moment. Each move takes a
//! plan and what the driver hands in, and gives the next plan and the one
//! thing the coordinator asks for in return. The coordinator in
//! `coordinator` makes exactly these moves.

use crate::cache::{keys_of, Contents, Record};
use crate::entities::{Message, Profile, Room};
use crate::fault::{PayloadError, SyncError, TransportError};
use crate::history::{senders_of, History};
use crate::ident::parsed_uuid;
use crate::payload::{profile_of, room_of, Incoming, UserEvent, WireRoom, WireUser};
use crate::resolver::unseen;
use vstd::prelude::*;

verus! {

/// Where the coordinator stands.
#[derive(Clone, Copy, Debug, PartialEq, Eq, Structural)]
pub enum Phase {
    /// Nothing has been asked for yet.
    Idle,
    /// Waiting for the list of the user's rooms.
    ListingRooms,
    /// Waiting for the history of the current room.
    LoadingHistory,
    /// Waiting for the answer to the lookup of a sender.
    ResolvingSender,
    /// Waiting for the driver to confirm that the current room's listener
    /// runs.
    StartingListener,
    /// Hydrated, and waiting for the next event of the session's stream.
    Watching,
    /// Waiting for the metadata of a room that the user was added to.
    FetchingRoom,
    /// Stopped for good.
    Halted,
}

/// What the coordinator asks of its driver.
#[derive(Clone, Copy, Debug, PartialEq, Eq, Structural)]
pub enum Command {
    /// Fetch the list of the user's rooms.
    ListRooms,
    /// Fetch the history of this room.
    ListMessages(u128),
    /// Look this user up.
    LookupUser(u128),
    /// Start a listener for this room, then confirm.
    StartListener(u128),
    /// The hydration is complete: subscribe to the session's event stream and
    /// hand in its items.
    Hydrated,
    /// Hand in the next item of the session's event stream.
    NextEvent,
    /// Fetch the metadata of this room.
    LookupRoom(u128),
    /// Stop: without an error where the session's stream ended, with the
    /// error otherwise.
    Halt(Option<SyncError>),
}

/// What the coordinator knows at one moment.
pub struct Plan {
    /// The owner of the session.
    pub owner: u128,
    pub phase: Phase,
    /// Whether the hydration has completed.
    pub hydrated: bool,
    /// Why the coordinator halted, where it halted on an error.
    pub outcome: Option<SyncError>,
    /// The room cache.
    pub rooms: Contents<Room>,
    /// The rooms for which a listener was asked for, in that order.
    pub listening: Seq<u128>,
    /// The rooms that the service listed.
    pub listed: Seq<WireRoom>,
    /// How many of the listed rooms have been taken up.
    pub taken: nat,
    /// The room that is being provided for.
    pub current: u128,
    /// The senders of the current room's accepted history, oldest first.
    pub senders: Seq<u128>,
    /// How many of those senders have been dealt with.
    pub resolved: nat,
    /// The sender whose lookup is under way.
    pub pending: u128,
    /// The rejection that ended the current room's history, if one did.
    pub fault: Option<PayloadError>,
    /// Every room that was entered in the room cache since the hydration
    /// began, in that order.
    pub entered: Seq<Room>,
}

/// The position of the first sender from `from` on that has to be looked up;
/// the number of senders where there is none.
pub open spec fn first_unseen(
    senders: Seq<u128>,
    from: nat,
    users: Contents<Profile>,
    owner: u128,
) -> nat
    decreases senders.len() - from,
{
    if from >= senders.len() {
        senders.len()
    } else if unseen(users, owner, senders[from as int]) {
        from
    } else {
        first_unseen(senders, from + 1, users, owner)
    }
}

impl Plan {
    /// Whether a room is being provided for: its history is being loaded or
    /// its senders are being resolved.
    pub open spec fn providing(self) -> bool {
        self.phase is LoadingHistory || self.phase is ResolvingSender
    }

    /// What holds of every plan that a coordinator can reach.
    ///
    /// The room cache holds exactly the rooms that were entered. No room has
    /// two listeners. Unless the coordinator has halted: the rooms that were
    /// entered begin with the listed rooms that were taken up, in the order
    /// of the list; before the hydration is complete nothing else was
    /// entered, and once it is complete every listed room was taken up; and
    /// a listener was asked for every room that was entered, but for the one
    /// that is being provided for.
    pub open spec fn wf(self) -> bool {
        &&& self.rooms.wf()
        &&& self.rooms == Contents::<Room>::empty().filed(self.entered)
        &&& self.taken <= self.listed.len()
        &&& self.resolved <= self.senders.len()
        &&& self.listening.no_duplicates()
        &&& !(self.phase is Halted) ==> {
            &&& if self.hydrated {
                self.taken == self.listed.len() && self.entered.len() >= self.taken
            } else {
                self.entered.len() == self.taken
            }
            &&& (self.phase is Idle || self.phase is ListingRooms) ==> !self.hydrated
                && self.listed.len() == 0
            &&& (self.phase is Watching || self.phase is FetchingRoom) ==> self.hydrated
            &&& forall|i: int|
                0 <= i < self.taken ==> room_of(self.listed[i]) == Ok::<Room, PayloadError>(
                    #[trigger] self.entered[i],
                )
            &&& forall|i: int|
                0 <= i < self.entered.len() ==> self.listening.contains(
                    #[trigger] self.entered[i].uuid,
                ) || (self.providing() && self.entered[i].uuid == self.current)
        }
    }

    /// What holds when the hydration has just completed: every listed room
    /// was accepted; the room cache holds exactly the listed rooms, filed in
    /// the order of the list; and a listener was asked for each of them.
    pub open spec fn hydration_complete(self) -> bool {
        &&& self.phase is Watching
        &&& self.hydrated
        &&& self.entered.len() == self.listed.len()
        &&& forall|i: int|
            0 <= i < self.listed.len() ==> room_of(#[trigger] self.listed[i]) == Ok::<
                Room,
                PayloadError,
            >(self.entered[i])
        &&& self.rooms == Contents::<Room>::empty().filed(self.entered)
        &&& forall|i: int|
            0 <= i < self.entered.len() ==> self.listening.contains(
                #[trigger] self.entered[i].uuid,
            )
    }

    /// Once the hydration is complete the room cache holds exactly the listed
    /// rooms: every listed room has an entry, and there is no entry that is
    /// not of a listed room. Where no room was listed twice, the entries are
    /// in the order of the list and each room is found under its identifier.
    pub proof fn lemma_hydrated_rooms(self)
        requires
            self.hydration_complete(),
        ensures
            self.rooms.wf(),
            forall|i: int|
                0 <= i < self.entered.len() ==> self.rooms.contains_key(
                    #[trigger] self.entered[i].uuid,
                ),
            forall|key: u128|
                #[trigger] self.rooms.contains_key(key) ==> keys_of(self.entered).contains(key),
            keys_of(self.entered).no_duplicates() ==> {
                &&& self.rooms.order == keys_of(self.entered)
                &&& forall|i: int|
                    0 <= i < self.entered.len() ==> self.rooms.get(#[trigger] self.entered[i].uuid)
                        == Some(self.entered[i])
            },
    {
        let none = Contents::<Room>::empty();
        none.lemma_filed(self.entered);
        assert forall|i: int| 0 <= i < self.entered.len() implies self.rooms.contains_key(
            #[trigger] self.entered[i].uuid,
        ) by {
            assert(self.rooms.contains_key(self.entered[i].key()));
        }
        assert forall|key: u128| #[trigger] self.rooms.contains_key(key) implies keys_of(
            self.entered,
        ).contains(key) by {
            if !keys_of(self.entered).contains(key) {
                assert(self.rooms.get(key) == none.get(key));
            }
        }
        if keys_of(self.entered).no_duplicates() {
            none.lemma_filed_fresh(self.entered);
            assert(none.order + keys_of(self.entered) =~= keys_of(self.entered));
            assert forall|i: int| 0 <= i < self.entered.len() implies self.rooms.get(
                #[trigger] self.entered[i].uuid,
            ) == Some(self.entered[i]) by {
                assert(self.rooms.get(self.entered[i].key()) == Some(self.entered[i]));
            }
        }
    }

    /// The plan of a coordinator that has not been asked for anything.
    pub open spec fn idle(owner: u128) -> Plan {
        Plan {
            owner,
            phase: Phase::Idle,
            hydrated: false,
            outcome: None,
            rooms: Contents::empty(),
            listening: Seq::empty(),
            listed: Seq::empty(),
            taken: 0,
            current: 0,
            senders: Seq::empty(),
            resolved: 0,
            pending: 0,
            fault: None,
            entered: Seq::empty(),
        }
    }

    /// Stops for good.
    pub open spec fn halt(self, why: Option<SyncError>) -> (Plan, Command) {
        (Plan { phase: Phase::Halted, outcome: why, ..self }, Command::Halt(why))
    }

    /// The session is torn down: the coordinator stops without an error,
    /// whatever it was waiting for. A halted coordinator stays as it is.
    pub open spec fn cancel(self) -> (Plan, Command) {
        if self.phase is Halted {
            (self, Command::Halt(self.outcome))
        } else {
            self.halt(None)
        }
    }

    /// Something was handed in that had not been asked for. A halted
    /// coordinator stays as it is; any other halts.
    pub open spec fn out_of_turn(self) -> (Plan, Command) {
        if self.phase is Halted {
            (self, Command::Halt(self.outcome))
        } else {
            self.halt(Some(SyncError::OutOfTurn))
        }
    }

    /// Takes a room up: validates it, files it under the identifier it
    /// carries, and asks for its history. A room that is rejected halts the
    /// coordinator.
    pub open spec fn take_up(self, wire: WireRoom) -> (Plan, Command) {
        match room_of(wire) {
            Err(why) => self.halt(Some(SyncError::Payload(why))),
            Ok(room) => (
                Plan {
                    phase: Phase::LoadingHistory,
                    rooms: self.rooms.upsert(room.uuid, room),
                    current: room.uuid,
                    entered: self.entered.push(room),
                    ..self
                },
                Command::ListMessages(room.uuid),
            ),
        }
    }

    /// Goes on to the next listed room; where none is left, the hydration is
    /// complete.
    pub open spec fn next_room(self) -> (Plan, Command) {
        if self.taken < self.listed.len() {
            (Plan { taken: self.taken + 1, ..self }).take_up(self.listed[self.taken as int])
        } else {
            (Plan { phase: Phase::Watching, hydrated: true, ..self }, Command::Hydrated)
        }
    }

    /// The current room is provided for. During the hydration the next listed
    /// room follows; after it, the next event.
    pub open spec fn room_done(self) -> (Plan, Command) {
        if self.hydrated {
            (Plan { phase: Phase::Watching, ..self }, Command::NextEvent)
        } else {
            self.next_room()
        }
    }

    /// The current room's history is filed and its senders are resolved. A
    /// room without a listener gets one; no room gets a second.
    pub open spec fn finish_room(self) -> (Plan, Command) {
        if self.listening.contains(self.current) {
            self.room_done()
        } else {
            (
                Plan {
                    phase: Phase::StartingListener,
                    listening: self.listening.push(self.current),
                    ..self
                },
                Command::StartListener(self.current),
            )
        }
    }

    /// Deals with the senders that are left, oldest first. Senders with a
    /// cached record are passed over; the first without one is looked up.
    /// Once none is left, a history that ended in a rejection halts the
    /// coordinator, and any other completes the room.
    pub open spec fn next_sender(self, users: Contents<Profile>) -> (Plan, Command) {
        let at = first_unseen(self.senders, self.resolved, users, self.owner);
        if at < self.senders.len() {
            (
                Plan {
                    phase: Phase::ResolvingSender,
                    resolved: at + 1,
                    pending: self.senders[at as int],
                    ..self
                },
                Command::LookupUser(self.senders[at as int]),
            )
        } else {
            let done = Plan { resolved: self.senders.len(), ..self };
            match self.fault {
                Some(why) => done.halt(Some(SyncError::Payload(why))),
                None => done.finish_room(),
            }
        }
    }

    /// Begins a hydration: whatever an earlier session left is discarded, the
    /// room cache and the record of the listeners with it, and the list of
    /// the user's rooms is asked for. Only a coordinator that is idle or
    /// halted can begin; the listeners of an earlier session are to be
    /// stopped before.
    pub open spec fn begin(self) -> (Plan, Command) {
        if self.phase is Idle || self.phase is Halted {
            (Plan { phase: Phase::ListingRooms, ..Plan::idle(self.owner) }, Command::ListRooms)
        } else {
            self.out_of_turn()
        }
    }

    /// Takes the list of the user's rooms, and takes the first room up.
    pub open spec fn rooms_step(self, reply: Result<Vec<WireRoom>, TransportError>) -> (
        Plan,
        Command,
    ) {
        if !(self.phase is ListingRooms) {
            self.out_of_turn()
        } else {
            match reply {
                Err(why) => self.halt(Some(SyncError::Transport(why))),
                Ok(list) => (Plan { listed: list@, taken: 0, ..self }).next_room(),
            }
        }
    }

    /// Takes the validated history of the current room: files the accepted
    /// messages, oldest first, and starts on their senders.
    pub open spec fn history_step(
        self,
        reply: Result<History, TransportError>,
        messages: Contents<Message>,
        users: Contents<Profile>,
    ) -> (Plan, Contents<Message>, Command) {
        if !(self.phase is LoadingHistory) {
            (self.out_of_turn().0, messages, self.out_of_turn().1)
        } else {
            match reply {
                Err(why) => (
                    self.halt(Some(SyncError::Transport(why))).0,
                    messages,
                    self.halt(Some(SyncError::Transport(why))).1,
                ),
                Ok(history) => {
                    let filed = Plan {
                        senders: senders_of(history.accepted@),
                        resolved: 0,
                        fault: history.fault,
                        ..self
                    };
                    (
                        filed.next_sender(users).0,
                        messages.filed(history.accepted@),
                        filed.next_sender(users).1,
                    )
                },
            }
        }
    }

    /// Takes the answer to the lookup of the pending sender: files it, and
    /// goes on with the senders that are left.
    pub open spec fn user_step(
        self,
        reply: Result<WireUser, TransportError>,
        users: Contents<Profile>,
    ) -> (Plan, Contents<Profile>, Command) {
        if !(self.phase is ResolvingSender) {
            (self.out_of_turn().0, users, self.out_of_turn().1)
        } else {
            match reply {
                Err(why) => (
                    self.halt(Some(SyncError::Transport(why))).0,
                    users,
                    self.halt(Some(SyncError::Transport(why))).1,
                ),
                Ok(wire) => {
                    let filed = users.upsert(self.pending, profile_of(self.pending, wire));
                    (self.next_sender(filed).0, filed, self.next_sender(filed).1)
                },
            }
        }
    }

    /// Takes the confirmation that the current room's listener runs.
    pub open spec fn listener_step(self) -> (Plan, Command) {
        if !(self.phase is StartingListener) {
            self.out_of_turn()
        } else {
            self.room_done()
        }
    }

    /// Takes an item of the session's event stream. The end of the stream, a
    /// broken stream, an envelope without an event and a room identifier
    /// that is none halt the coordinator. The user being added to a room
    /// that is cached changes nothing; for a room that is not cached, its
    /// metadata is asked for.
    pub open spec fn event_step(self, item: Incoming<UserEvent>) -> (Plan, Command) {
        if !(self.phase is Watching) {
            self.out_of_turn()
        } else {
            match item {
                Incoming::Closed => self.halt(None),
                Incoming::Failed(why) => self.halt(Some(SyncError::Transport(why))),
                Incoming::Event(None) => self.halt(
                    Some(SyncError::Payload(PayloadError::MissingEvent)),
                ),
                Incoming::Event(Some(UserEvent::AddedToRoom(text))) => self.joined_step(
                    parsed_uuid(text@),
                ),
            }
        }
    }

    /// Takes the news that the user was added to a room, the room's
    /// identifier read. An identifier that is none halts the coordinator.
    /// A room that is cached changes nothing; for a room that is not cached,
    /// its metadata is asked for.
    pub open spec fn joined_step(self, parsed: Option<u128>) -> (Plan, Command) {
        if !(self.phase is Watching) {
            self.out_of_turn()
        } else {
            match parsed {
                None => self.halt(Some(SyncError::Payload(PayloadError::InvalidIdentifier))),
                Some(room) => if self.rooms.contains_key(room) {
                    (self, Command::NextEvent)
                } else {
                    (Plan { phase: Phase::FetchingRoom, ..self }, Command::LookupRoom(room))
                },
            }
        }
    }

    /// Takes the metadata of a room that the user was added to, and takes
    /// the room up.
    pub open spec fn room_step(self, reply: Result<WireRoom, TransportError>) -> (Plan, Command) {
        if !(self.phase is FetchingRoom) {
            self.out_of_turn()
        } else {
            match reply {
                Err(why) => self.halt(Some(SyncError::Transport(why))),
                Ok(wire) => self.take_up(wire),
            }
        }
    }

    /// How a move may change the record of the listeners: a move that asks for
    /// a listener asks for one that the room does not have yet, and records
    /// it; any other move leaves the record as it is.
    pub open spec fn listeners_kept(self, next: Plan, command: Command) -> bool {
        match command {
            Command::StartListener(room) => !self.listening.contains(room) && next.listening
                == self.listening.push(room),
            _ => next.listening == self.listening,
        }
    }

    /// A coordinator that has not been asked for anything is well formed.
    pub proof fn lemma_idle_wf(owner: u128)
        ensures
            Plan::idle(owner).wf(),
    {
    }

    /// Tearing the session down keeps the plan well formed, and keeps the
    /// record of the listeners, so that each of them can be stopped.
    pub proof fn lemma_cancel(self)
        requires
            self.wf(),
        ensures
            self.cancel().0.wf(),
            self.cancel().0.phase is Halted,
            self.cancel().0.listening == self.listening,
            self.cancel().0.rooms == self.rooms,
    {
    }

    /// Beginning a hydration keeps the plan well formed.
    pub proof fn lemma_begin(self)
        requires
            self.wf(),
        ensures
            self.begin().0.wf(),
            !(self.begin().1 is Hydrated),
    {
    }

    /// Taking the list of rooms keeps the plan well formed; where the move
    /// answers `Hydrated`, the hydration is complete.
    pub proof fn lemma_rooms_step(self, reply: Result<Vec<WireRoom>, TransportError>)
        requires
            self.wf(),
        ensures
            self.rooms_step(reply).0.wf(),
            self.rooms_step(reply).1 is Hydrated ==> self.rooms_step(reply).0.hydration_complete(),
            self.listeners_kept(self.rooms_step(reply).0, self.rooms_step(reply).1),
    {
        if self.phase is ListingRooms {
            if let Ok(list) = reply {
                let listed = Plan { listed: list@, taken: 0, ..self };
                listed.lemma_next_room();
            }
        }
    }

    /// Going on to the next listed room keeps the plan well formed, where
    /// every room that was entered has its listener.
    pub proof fn lemma_next_room(self)
        requires
            (Plan { phase: Phase::StartingListener, ..self }).wf(),
            !self.hydrated,
        ensures
            self.next_room().0.wf(),
            self.next_room().1 is Hydrated ==> self.next_room().0.hydration_complete(),
            self.listeners_kept(self.next_room().0, self.next_room().1),
    {
        if self.taken < self.listed.len() {
            let wire = self.listed[self.taken as int];
            if let Ok(room) = room_of(wire) {
                Contents::<Room>::empty().lemma_filed(self.entered);
                Contents::<Room>::empty().lemma_filed_push(self.entered, room);
                self.rooms.lemma_upsert(room.uuid, room);
                let next = self.next_room().0;
                assert forall|i: int| 0 <= i < next.taken implies room_of(next.listed[i]) == Ok::<
                    Room,
                    PayloadError,
                >(#[trigger] next.entered[i]) by {
                    if i < self.taken {
                        assert(self.entered[i] == next.entered[i]);
                    }
                }
                assert forall|i: int| 0 <= i < next.entered.len() implies next.listening.contains(
                    #[trigger] next.entered[i].uuid,
                ) || (next.providing() && next.entered[i].uuid == next.current) by {
                    if i < self.entered.len() {
                        assert(self.entered[i] == next.entered[i]);
                    }
                }
            }
        } else {
            let next = self.next_room().0;
            assert forall|i: int| 0 <= i < next.listed.len() implies room_of(
                #[trigger] next.listed[i],
            ) == Ok::<Room, PayloadError>(next.entered[i]) by {
                assert(room_of(self.listed[i]) == Ok::<Room, PayloadError>(self.entered[i]));
            }
        }
    }

    /// Completing a room keeps the plan well formed, where every room that
    /// was entered has its listener.
    pub proof fn lemma_room_done(self)
        requires
            (Plan { phase: Phase::StartingListener, ..self }).wf(),
            self.phase is Watching || self.phase is FetchingRoom ==> self.hydrated,
        ensures
            self.room_done().0.wf(),
            self.room_done().1 is Hydrated ==> self.room_done().0.hydration_complete(),
            self.listeners_kept(self.room_done().0, self.room_done().1),
    {
        if !self.hydrated {
            self.lemma_next_room();
        }
    }

    /// Completing a room whose senders are resolved keeps the plan well
    /// formed. Where the room has no listener yet, one is asked for and the
    /// plan waits for its confirmation.
    pub proof fn lemma_finish_room(self)
        requires
            self.wf(),
            self.providing(),
        ensures
            self.finish_room().0.wf(),
            self.finish_room().1 is Hydrated ==> self.finish_room().0.hydration_complete(),
            self.listeners_kept(self.finish_room().0, self.finish_room().1),
            self.listening.contains(self.current) ==> (Plan {
                phase: Phase::StartingListener,
                ..self
            }).wf(),
            !self.listening.contains(self.current) ==> self.finish_room().0.phase
                is StartingListener,
    {
        if self.listening.contains(self.current) {
            self.lemma_room_done();
        } else {
            let started = self.finish_room().0;
            assert forall|i: int| 0 <= i < started.entered.len() implies started.listening.contains(
                #[trigger] started.entered[i].uuid,
            ) by {
                if self.listening.contains(self.entered[i].uuid) {
                    let at = self.listening.index_of(self.entered[i].uuid);
                    assert(started.listening[at] == self.entered[i].uuid);
                } else {
                    assert(started.listening[started.listening.len() - 1] == self.current);
                }
            }
        }
    }

    /// Dealing with the senders that are left keeps the plan well formed.
    pub proof fn lemma_next_sender(self, users: Contents<Profile>)
        requires
            self.wf(),
            self.providing(),
        ensures
            self.next_sender(users).0.wf(),
            self.next_sender(users).1 is Hydrated ==> self.next_sender(
                users,
            ).0.hydration_complete(),
            self.listeners_kept(self.next_sender(users).0, self.next_sender(users).1),
    {
        lemma_first_unseen(self.senders, self.resolved, users, self.owner);
        let at = first_unseen(self.senders, self.resolved, users, self.owner);
        if at >= self.senders.len() && self.fault is None {
            let done = Plan { resolved: self.senders.len(), ..self };
            done.lemma_finish_room();
        }
    }

    /// Taking a validated history keeps the plan well formed; where the move
    /// answers `Hydrated`, the hydration is complete.
    pub proof fn lemma_history_step(
        self,
        reply: Result<History, TransportError>,
        messages: Contents<Message>,
        users: Contents<Profile>,
    )
        requires
            self.wf(),
        ensures
            self.history_step(reply, messages, users).0.wf(),
            self.history_step(reply, messages, users).2 is Hydrated ==> self.history_step(
                reply,
                messages,
                users,
            ).0.hydration_complete(),
            self.listeners_kept(
                self.history_step(reply, messages, users).0,
                self.history_step(reply, messages, users).2,
            ),
    {
        if self.phase is LoadingHistory {
            if let Ok(history) = reply {
                let loaded = Plan {
                    senders: senders_of(history.accepted@),
                    resolved: 0,
                    fault: history.fault,
                    ..self
                };
                loaded.lemma_next_sender(users);
            }
        }
    }

    /// Taking the answer to a lookup keeps the plan well formed; where the
    /// move answers `Hydrated`, the hydration is complete.
    pub proof fn lemma_user_step(
        self,
        reply: Result<WireUser, TransportError>,
        users: Contents<Profile>,
    )
        requires
            self.wf(),
        ensures
            self.user_step(reply, users).0.wf(),
            self.user_step(reply, users).2 is Hydrated ==> self.user_step(
                reply,
                users,
            ).0.hydration_complete(),
            self.listeners_kept(self.user_step(reply, users).0, self.user_step(reply, users).2),
    {
        if self.phase is ResolvingSender {
            if let Ok(wire) = reply {
                self.lemma_next_sender(users.upsert(self.pending, profile_of(self.pending, wire)));
            }
        }
    }

    /// Taking the confirmation of a listener keeps the plan well formed;
    /// where the move answers `Hydrated`, the hydration is complete.
    pub proof fn lemma_listener_step(self)
        requires
            self.wf(),
        ensures
            self.listener_step().0.wf(),
            self.listener_step().1 is Hydrated ==> self.listener_step().0.hydration_complete(),
            self.listeners_kept(self.listener_step().0, self.listener_step().1),
    {
        if self.phase is StartingListener {
            self.lemma_room_done();
        }
    }

    /// Taking an event keeps the plan well formed, and never answers
    /// `Hydrated`.
    pub proof fn lemma_event_step(self, item: Incoming<UserEvent>)
        requires
            self.wf(),
        ensures
            self.event_step(item).0.wf(),
            !(self.event_step(item).1 is Hydrated),
            self.listeners_kept(self.event_step(item).0, self.event_step(item).1),
    {
    }

    /// Taking the news of a room keeps the plan well formed, and never
    /// answers `Hydrated`.
    pub proof fn lemma_joined_step(self, parsed: Option<u128>)
        requires
            self.wf(),
        ensures
            self.joined_step(parsed).0.wf(),
            !(self.joined_step(parsed).1 is Hydrated),
            self.listeners_kept(self.joined_step(parsed).0, self.joined_step(parsed).1),
    {
    }

    /// Taking the metadata of a room keeps the plan well formed, and never
    /// answers `Hydrated`.
    pub proof fn lemma_room_step(self, reply: Result<WireRoom, TransportError>)
        requires
            self.wf(),
        ensures
            self.room_step(reply).0.wf(),
            !(self.room_step(reply).1 is Hydrated),
            self.listeners_kept(self.room_step(reply).0, self.room_step(reply).1),
            match reply {
                Ok(wire) => match room_of(wire) {
                    Ok(room) => self.phase is FetchingRoom ==> self.room_step(
                        reply,
                    ).0.rooms.contains_key(room.uuid),
                    Err(_) => true,
                },
                Err(_) => true,
            },
    {
        if self.phase is FetchingRoom {
            if let Ok(wire) = reply {
                if let Ok(room) = room_of(wire) {
                    Contents::<Room>::empty().lemma_filed(self.entered);
                Contents::<Room>::empty().lemma_filed_push(self.entered, room);
                self.rooms.lemma_upsert(room.uuid, room);
                    let next = self.room_step(reply).0;
                    assert forall|i: int| 0 <= i < next.taken implies room_of(next.listed[i])
                        == Ok::<Room, PayloadError>(#[trigger] next.entered[i]) by {
                        assert(self.entered[i] == next.entered[i]);
                    }
                    assert forall|i: int| 0 <= i < next.entered.len() implies next.listening.contains(
                        #[trigger] next.entered[i].uuid,
                    ) || (next.providing() && next.entered[i].uuid == next.current) by {
                        if i < self.entered.len() {
                            assert(self.entered[i] == next.entered[i]);
                        }
                    }
                }
            }
        }
    }
}

/// A history that ended in a rejection never completes its room. Its accepted
/// messages are filed, and the coordinator then asks for a sender to be
/// looked up or halts with the rejection; no listener is asked for, and the
/// hydration goes no further.
pub proof fn lemma_rejected_history(
    plan: Plan,
    history: History,
    why: PayloadError,
    messages: Contents<Message>,
    users: Contents<Profile>,
)
    requires
        plan.phase is LoadingHistory,
        history.fault == Some(why),
    ensures
        ({
            let (next, filed, command) = plan.history_step(Ok(history), messages, users);
            &&& filed == messages.filed(history.accepted@)
            &&& next.fault == Some(why)
            &&& next.rooms == plan.rooms
            &&& next.listening == plan.listening
            &&& command is LookupUser && next.phase is ResolvingSender || command == Command::Halt(
                Some(SyncError::Payload(why)),
            ) && next.phase is Halted
        }),
{
}

/// While the senders of a history that ended in a rejection are resolved,
/// each answer leads to the next lookup or to a halt: with the rejection
/// once the senders are dealt with, or with the failure of the lookup.
pub proof fn lemma_rejected_history_resolving(
    plan: Plan,
    why: PayloadError,
    reply: Result<WireUser, TransportError>,
    users: Contents<Profile>,
)
    requires
        plan.phase is ResolvingSender,
        plan.fault == Some(why),
    ensures
        ({
            let (next, filed, command) = plan.user_step(reply, users);
            &&& next.fault == Some(why)
            &&& next.rooms == plan.rooms
            &&& next.listening == plan.listening
            &&& match reply {
                Ok(_) => command is LookupUser && next.phase is ResolvingSender || command
                    == Command::Halt(Some(SyncError::Payload(why))) && next.phase is Halted,
                Err(failed) => command == Command::Halt(Some(SyncError::Transport(failed)))
                    && next.phase is Halted,
            }
        }),
{
}

/// Being added to a room that is already cached changes nothing, however
/// often the news arrives: the plan stays as it is, so no room is entered,
/// no history is fetched and no listener is asked for.
pub proof fn lemma_repeated_event(plan: Plan, text: String, room: u128)
    requires
        plan.phase is Watching,
        plan.rooms.contains_key(room),
    ensures
        plan.joined_step(Some(room)) == (plan, Command::NextEvent),
        plan.joined_step(Some(room)).0.joined_step(Some(room)) == (plan, Command::NextEvent),
        parsed_uuid(text@) == Some(room) ==> {
            let item = Incoming::Event(Some(UserEvent::AddedToRoom(text)));
            &&& plan.event_step(item) == (plan, Command::NextEvent)
            &&& plan.event_step(item).0.event_step(item) == (plan, Command::NextEvent)
        },
{
}

/// The first unseen sender lies between where the search starts and the end,
/// and no sender before it has to be looked up.
pub proof fn lemma_first_unseen(
    senders: Seq<u128>,
    from: nat,
    users: Contents<Profile>,
    owner: u128,
)
    requires
        from <= senders.len(),
    ensures
        from <= first_unseen(senders, from, users, owner) <= senders.len(),
        first_unseen(senders, from, users, owner) < senders.len() ==> unseen(
            users,
            owner,
            senders[first_unseen(senders, from, users, owner) as int],
        ),
        forall|i: int|
            from <= i < first_unseen(senders, from, users, owner) ==> !unseen(
                users,
                owner,
                #[trigger] senders[i],
            ),
    decreases senders.len() - from,
{
    if from < senders.len() && !unseen(users, owner, senders[from as int]) {
        lemma_first_unseen(senders, from + 1, users, owner);
    }
}

} // verus!

//! The hydration as a whole: what the moves of the coordinator come to when
//! a driver performs each thing it asks for and hands the answer in.

use crate::cache::{keys_of, Contents, Record};
use crate::entities::{Message, Profile};
use crate::fault::{SyncError, TransportError};
use crate::history::{senders_of, History};
use crate::payload::{profile_of, room_of, WireRoom, WireUser};
use crate::plan::{first_unseen, lemma_first_unseen, Command, Phase, Plan};
use crate::resolver::unseen;
use vstd::prelude::*;

verus! {

/// A service, as far as the hydration goes: what it answers to each thing
/// that the coordinator can ask for, the history of a room as the
/// validation leaves it.
pub struct Service {
    pub rooms: Result<Vec<WireRoom>, TransportError>,
    pub history: spec_fn(u128) -> Result<History, TransportError>,
    pub user: spec_fn(u128) -> Result<WireUser, TransportError>,
}

/// The coordinator, the two caches that it shares, and what it has asked
/// for.
pub struct World {
    pub plan: Plan,
    pub messages: Contents<Message>,
    pub users: Contents<Profile>,
    pub command: Command,
}

/// The driver performs what the coordinator has asked for and hands the
/// answer in. What is no question to the service is left standing.
pub open spec fn serve(service: Service, world: World) -> World {
    match world.command {
        Command::ListRooms => {
            let (plan, command) = world.plan.rooms_step(service.rooms);
            World { plan, command, ..world }
        },
        Command::ListMessages(room) => {
            let (plan, messages, command) = world.plan.history_step(
                (service.history)(room),
                world.messages,
                world.users,
            );
            World { plan, messages, command, ..world }
        },
        Command::LookupUser(user) => {
            let (plan, users, command) = world.plan.user_step((service.user)(user), world.users);
            World { plan, users, command, ..world }
        },
        Command::StartListener(_) => {
            let (plan, command) = world.plan.listener_step();
            World { plan, command, ..world }
        },
        _ => world,
    }
}

/// The world after the driver has served the coordinator `steps` times.
pub open spec fn run(service: Service, world: World, steps: nat) -> World
    decreases steps,
{
    if steps == 0 {
        world
    } else {
        run(service, serve(service, world), (steps - 1) as nat)
    }
}

/// The world in which a hydration begins: the coordinator has just been
/// asked to hydrate, and has asked for the list of rooms.
pub open spec fn outset(
    owner: u128,
    messages: Contents<Message>,
    users: Contents<Profile>,
) -> World {
    World {
        plan: Plan::idle(owner).begin().0,
        messages,
        users,
        command: Plan::idle(owner).begin().1,
    }
}

/// A service that answers every question, and sends nothing that is
/// rejected.
pub open spec fn sound(service: Service) -> bool {
    &&& service.rooms matches Ok(list) && forall|i: int|
        0 <= i < list@.len() ==> room_of(#[trigger] list@[i]) is Ok
    &&& forall|room: u128|
        (#[trigger] (service.history)(room)) matches Ok(history) && history.fault is None
    &&& forall|user: u128| (#[trigger] (service.user)(user)) is Ok
}

/// The user cache after the senders from position `from` on were resolved,
/// oldest first: each sender that is unseen when its turn comes gets the
/// record that the service has for it.
pub open spec fn resolved(
    service: Service,
    owner: u128,
    senders: Seq<u128>,
    from: nat,
    users: Contents<Profile>,
) -> Contents<Profile>
    decreases senders.len() - from,
{
    if from >= senders.len() {
        users
    } else if unseen(users, owner, senders[from as int]) {
        let sender = senders[from as int];
        resolved(
            service,
            owner,
            senders,
            from + 1,
            users.upsert(sender, profile_of(sender, (service.user)(sender)->Ok_0)),
        )
    } else {
        resolved(service, owner, senders, from + 1, users)
    }
}

/// The accepted history of the listed room at position `at`.
pub open spec fn history_at(service: Service, listed: Seq<WireRoom>, at: int) -> Seq<Message> {
    (service.history)(room_of(listed[at])->Ok_0.uuid)->Ok_0.accepted@
}

/// The message and user caches after the listed rooms from position `from`
/// on were provided for, in the order of the list: for each room its
/// history is filed, oldest message first, and then its senders are
/// resolved.
pub open spec fn hydrated(
    service: Service,
    owner: u128,
    listed: Seq<WireRoom>,
    from: nat,
    messages: Contents<Message>,
    users: Contents<Profile>,
) -> (Contents<Message>, Contents<Profile>)
    decreases listed.len() - from,
{
    if from >= listed.len() {
        (messages, users)
    } else {
        let history = history_at(service, listed, from as int);
        hydrated(
            service,
            owner,
            listed,
            from + 1,
            messages.filed(history),
            resolved(service, owner, senders_of(history), 0, users),
        )
    }
}

/// Serving in two stretches is serving in one.
pub proof fn lemma_run_add(service: Service, world: World, first: nat, second: nat)
    ensures
        run(service, world, first + second) == run(service, run(service, world, first), second),
    decreases first,
{
    if first > 0 {
        lemma_run_add(service, serve(service, world), (first - 1) as nat, second);
    }
}

/// Senders with a record are passed over when the rest are resolved.
proof fn lemma_resolved_skips(
    service: Service,
    owner: u128,
    senders: Seq<u128>,
    from: nat,
    users: Contents<Profile>,
)
    requires
        from <= senders.len(),
    ensures
        resolved(service, owner, senders, from, users) == resolved(
            service,
            owner,
            senders,
            first_unseen(senders, from, users, owner),
            users,
        ),
    decreases senders.len() - from,
{
    if from < senders.len() && !unseen(users, owner, senders[from as int]) {
        lemma_resolved_skips(service, owner, senders, from + 1, users);
    }
}

/// Whether `later` is `plan` further on with the same room: nothing differs
/// but the phase, the count of the senders that are dealt with, and the
/// sender whose lookup was last under way.
pub open spec fn same_room(plan: Plan, later: Plan) -> bool {
    later == (Plan { phase: later.phase, resolved: later.resolved, pending: later.pending, ..plan })
}

/// Resolving the senders of a sound history takes one lookup for each unseen
/// sender, and ends with the room being completed.
proof fn lemma_resolve_run(
    service: Service,
    plan: Plan,
    messages: Contents<Message>,
    users: Contents<Profile>,
) -> (end: (nat, Plan))
    requires
        sound(service),
        plan.wf(),
        plan.providing(),
        plan.fault is None,
    ensures
        same_room(plan, end.1),
        end.1.wf(),
        end.1.providing(),
        end.1.resolved == plan.senders.len(),
        run(
            service,
            World {
                plan: plan.next_sender(users).0,
                messages,
                users,
                command: plan.next_sender(users).1,
            },
            end.0,
        ) == (World {
            plan: end.1.finish_room().0,
            messages,
            users: resolved(service, plan.owner, plan.senders, plan.resolved, users),
            command: end.1.finish_room().1,
        }),
    decreases plan.senders.len() - plan.resolved,
{
    lemma_first_unseen(plan.senders, plan.resolved, users, plan.owner);
    lemma_resolved_skips(service, plan.owner, plan.senders, plan.resolved, users);
    let at = first_unseen(plan.senders, plan.resolved, users, plan.owner);
    if at < plan.senders.len() {
        let sender = plan.senders[at as int];
        let asking = plan.next_sender(users).0;
        let wire = (service.user)(sender)->Ok_0;
        assert((service.user)(sender) is Ok);
        let filed = users.upsert(sender, profile_of(sender, wire));
        plan.lemma_next_sender(users);
        let rest = lemma_resolve_run(service, asking, messages, filed);
        let world = World { plan: asking, messages, users, command: plan.next_sender(users).1 };
        assert(serve(service, world) == (World {
            plan: asking.next_sender(filed).0,
            messages,
            users: filed,
            command: asking.next_sender(filed).1,
        }));
        assert(run(service, world, rest.0 + 1) == run(service, serve(service, world), rest.0));
        (rest.0 + 1, rest.1)
    } else {
        let done = Plan { resolved: plan.senders.len(), ..plan };
        assert(run(
            service,
            World {
                plan: plan.next_sender(users).0,
                messages,
                users,
                command: plan.next_sender(users).1,
            },
            0,
        ).plan == done.finish_room().0);
        (0, done)
    }
}

/// Providing for the listed rooms that are left, one after the other, ends
/// with the hydration complete.
proof fn lemma_rooms_run(
    service: Service,
    plan: Plan,
    messages: Contents<Message>,
    users: Contents<Profile>,
) -> (steps: nat)
    requires
        sound(service),
        (Plan { phase: Phase::StartingListener, ..plan }).wf(),
        !plan.hydrated,
        forall|i: int| 0 <= i < plan.listed.len() ==> room_of(#[trigger] plan.listed[i]) is Ok,
    ensures
        ({
            let end = run(
                service,
                World {
                    plan: plan.next_room().0,
                    messages,
                    users,
                    command: plan.next_room().1,
                },
                steps,
            );
            &&& end.command == Command::Hydrated
            &&& end.plan.wf()
            &&& end.plan.hydration_complete()
            &&& end.plan.listed == plan.listed
            &&& end.plan.owner == plan.owner
            &&& (end.messages, end.users) == hydrated(
                service,
                plan.owner,
                plan.listed,
                plan.taken,
                messages,
                users,
            )
        }),
    decreases plan.listed.len() - plan.taken,
{
    plan.lemma_next_room();
    if plan.taken >= plan.listed.len() {
        0
    } else {
        let wire = plan.listed[plan.taken as int];
        assert(room_of(wire) is Ok);
        let room = room_of(wire)->Ok_0;
        let entered = plan.next_room().0;
        let asked = World { plan: entered, messages, users, command: plan.next_room().1 };
        assert((service.history)(room.uuid) is Ok);
        let history = (service.history)(room.uuid)->Ok_0;
        let loaded = Plan {
            senders: senders_of(history.accepted@),
            resolved: 0,
            fault: history.fault,
            ..entered
        };
        let filed = messages.filed(history.accepted@);
        let answered = World {
            plan: loaded.next_sender(users).0,
            messages: filed,
            users,
            command: loaded.next_sender(users).1,
        };
        assert(serve(service, asked) == answered);
        let (lookups, done) = lemma_resolve_run(service, loaded, filed, users);
        let cached = resolved(service, plan.owner, loaded.senders, 0, users);
        let finished = World {
            plan: done.finish_room().0,
            messages: filed,
            users: cached,
            command: done.finish_room().1,
        };
        assert(run(service, answered, lookups) == finished);
        done.lemma_finish_room();
        if done.listening.contains(done.current) {
            let rest = lemma_rooms_run(service, done, filed, cached);
            assert(finished == (World {
                plan: done.next_room().0,
                messages: filed,
                users: cached,
                command: done.next_room().1,
            }));
            lemma_run_add(service, answered, lookups, rest);
            assert(run(service, asked, 1 + lookups + rest) == run(
                service,
                answered,
                lookups + rest,
            ));
            1 + lookups + rest
        } else {
            let started = done.finish_room().0;
            let rest = lemma_rooms_run(service, started, filed, cached);
            let confirmed = World {
                plan: started.next_room().0,
                messages: filed,
                users: cached,
                command: started.next_room().1,
            };
            assert(serve(service, finished) == confirmed);
            assert(run(service, finished, 1 + rest) == run(service, confirmed, rest));
            lemma_run_add(service, answered, lookups, 1 + rest);
            assert(run(service, asked, 1 + lookups + 1 + rest) == run(
                service,
                answered,
                lookups + 1 + rest,
            ));
            1 + lookups + 1 + rest
        }
    }
}

/// A hydration against a sound service succeeds. After a number of moves the
/// coordinator reports the hydration complete: every listed room was
/// accepted, the room cache holds exactly the listed rooms, a listener was
/// asked for each of them, and the message and user caches are what
/// [`hydrated`] says.
pub proof fn lemma_hydration_run(
    service: Service,
    owner: u128,
    messages: Contents<Message>,
    users: Contents<Profile>,
) -> (steps: nat)
    requires
        sound(service),
    ensures
        ({
            let end = run(service, outset(owner, messages, users), steps);
            &&& end.command == Command::Hydrated
            &&& end.plan.wf()
            &&& end.plan.hydration_complete()
            &&& end.plan.listed == service.rooms->Ok_0@
            &&& (end.messages, end.users) == hydrated(
                service,
                owner,
                service.rooms->Ok_0@,
                0,
                messages,
                users,
            )
        }),
{
    let list = service.rooms->Ok_0;
    Plan::lemma_idle_wf(owner);
    Plan::idle(owner).lemma_begin();
    let begun = Plan::idle(owner).begin().0;
    let listed = Plan { listed: list@, taken: 0, ..begun };
    let rest = lemma_rooms_run(service, listed, messages, users);
    let start = outset(owner, messages, users);
    assert(serve(service, start) == (World {
        plan: listed.next_room().0,
        messages,
        users,
        command: listed.next_room().1,
    }));
    assert(run(service, start, 1 + rest) == run(service, serve(service, start), rest));
    1 + rest
}

/// The accepted histories of the listed rooms from position `from` on, one
/// after the other in the order of the list.
pub open spec fn histories(service: Service, listed: Seq<WireRoom>, from: nat) -> Seq<Message>
    decreases listed.len() - from,
{
    if from >= listed.len() {
        Seq::empty()
    } else {
        history_at(service, listed, from as int) + histories(service, listed, from + 1)
    }
}

/// Resolving senders keeps every record that was there, and leaves every
/// sender but the owner with a record.
pub proof fn lemma_resolved(
    service: Service,
    owner: u128,
    senders: Seq<u128>,
    from: nat,
    users: Contents<Profile>,
)
    requires
        users.wf(),
        from <= senders.len(),
    ensures
        resolved(service, owner, senders, from, users).wf(),
        forall|user: u128|
            users.contains_key(user) ==> #[trigger] resolved(
                service,
                owner,
                senders,
                from,
                users,
            ).get(user) == users.get(user),
        forall|i: int|
            from <= i < senders.len() ==> senders[i] == owner || resolved(
                service,
                owner,
                senders,
                from,
                users,
            ).contains_key(#[trigger] senders[i]),
    decreases senders.len() - from,
{
    if from < senders.len() {
        let sender = senders[from as int];
        let end = resolved(service, owner, senders, from, users);
        if unseen(users, owner, sender) {
            let filed = users.upsert(sender, profile_of(sender, (service.user)(sender)->Ok_0));
            users.lemma_upsert(sender, profile_of(sender, (service.user)(sender)->Ok_0));
            lemma_resolved(service, owner, senders, from + 1, filed);
            assert(filed.contains_key(sender));
            assert(end.get(sender) == filed.get(sender));
            assert forall|user: u128| users.contains_key(user) implies #[trigger] end.get(user)
                == users.get(user) by {
                assert(filed.contains_key(user));
                assert(filed.get(user) == users.get(user));
            }
        } else {
            lemma_resolved(service, owner, senders, from + 1, users);
            if sender != owner {
                assert(end.get(sender) == users.get(sender));
            }
        }
        assert forall|i: int| from <= i < senders.len() implies senders[i] == owner
            || end.contains_key(#[trigger] senders[i]) by {
            if i == from {
                assert(sender == owner || end.get(sender) is Some);
            }
        }
    }
}

/// What the hydration leaves in the shared caches. The message cache is the
/// one that was there with the histories of the listed rooms filed in it,
/// room after room in the order of the list and oldest message first. Both
/// caches stay well formed and keep every key they had; every message of
/// every history has an entry, and so has every sender but the owner.
pub proof fn lemma_hydrated(
    service: Service,
    owner: u128,
    listed: Seq<WireRoom>,
    from: nat,
    messages: Contents<Message>,
    users: Contents<Profile>,
)
    requires
        messages.wf(),
        users.wf(),
        from <= listed.len(),
    ensures
        ({
            let (filed, cached) = hydrated(service, owner, listed, from, messages, users);
            let all = histories(service, listed, from);
            &&& filed == messages.filed(all)
            &&& filed.wf()
            &&& cached.wf()
            &&& forall|key: u128| messages.contains_key(key) ==> #[trigger] filed.contains_key(key)
            &&& forall|user: u128|
                users.contains_key(user) ==> #[trigger] cached.get(user) == users.get(user)
            &&& forall|i: int| 0 <= i < all.len() ==> filed.contains_key(#[trigger] all[i].uuid)
            &&& forall|i: int|
                0 <= i < all.len() ==> all[i].sender_uuid == owner || cached.contains_key(
                    #[trigger] all[i].sender_uuid,
                )
        }),
    decreases listed.len() - from,
{
    let all = histories(service, listed, from);
    if from < listed.len() {
        let history = history_at(service, listed, from as int);
        let rest = histories(service, listed, from + 1);
        let filed = messages.filed(history);
        let cached = resolved(service, owner, senders_of(history), 0, users);
        messages.lemma_filed(history);
        lemma_resolved(service, owner, senders_of(history), 0, users);
        lemma_hydrated(service, owner, listed, from + 1, filed, cached);
        messages.lemma_filed_add(history, rest);
        let (end, known) = hydrated(service, owner, listed, from, messages, users);
        messages.lemma_filed(all);
        assert forall|i: int| 0 <= i < all.len() implies end.contains_key(
            #[trigger] all[i].uuid,
        ) by {
            assert(end.contains_key(all[i].key()));
        }
        assert forall|user: u128| users.contains_key(user) implies #[trigger] known.get(user)
            == users.get(user) by {
            assert(cached.get(user) == users.get(user));
            assert(cached.contains_key(user));
        }
        assert forall|i: int| 0 <= i < all.len() implies all[i].sender_uuid == owner
            || known.contains_key(#[trigger] all[i].sender_uuid) by {
            if i < history.len() {
                let sender = senders_of(history)[i];
                assert(all[i] == history[i]);
                if sender != owner {
                    assert(cached.contains_key(sender));
                    assert(known.get(sender) == cached.get(sender));
                }
            } else {
                assert(all[i] == rest[i - history.len()]);
            }
        }
    } else {
        assert(all =~= Seq::<Message>::empty());
    }
}

/// Where the messages of the listed rooms have identifiers of their own,
/// none of them cached before, the hydration appends them to the message
/// cache: the cache grows by as many entries as the histories hold, the new
/// entries follow the old in the order in which the service listed rooms
/// and messages, and each message is found under its identifier.
pub proof fn lemma_hydrated_fresh(
    service: Service,
    owner: u128,
    listed: Seq<WireRoom>,
    messages: Contents<Message>,
    users: Contents<Profile>,
)
    requires
        messages.wf(),
        users.wf(),
        keys_of(histories(service, listed, 0)).no_duplicates(),
        forall|i: int|
            0 <= i < histories(service, listed, 0).len() ==> !messages.contains_key(
                #[trigger] histories(service, listed, 0)[i].uuid,
            ),
    ensures
        ({
            let filed = hydrated(service, owner, listed, 0, messages, users).0;
            let all = histories(service, listed, 0);
            &&& filed.len() == messages.len() + all.len()
            &&& filed.order == messages.order + keys_of(all)
            &&& forall|i: int|
                0 <= i < all.len() ==> filed.get(#[trigger] all[i].uuid) == Some(all[i])
        }),
{
    let all = histories(service, listed, 0);
    lemma_hydrated(service, owner, listed, 0, messages, users);
    assert forall|i: int| 0 <= i < all.len() implies !messages.contains_key(
        #[trigger] all[i].key(),
    ) by {
        assert(!messages.contains_key(all[i].uuid));
    }
    messages.lemma_filed_fresh(all);
    assert forall|i: int| 0 <= i < all.len() implies messages.filed(all).get(
        #[trigger] all[i].uuid,
    ) == Some(all[i]) by {
        assert(messages.filed(all).get(all[i].key()) == Some(all[i]));
    }
}

/// Resolving the senders of a history that ended in a rejection ends with
/// the coordinator halted on that rejection.
proof fn lemma_resolve_rejected_run(
    service: Service,
    plan: Plan,
    messages: Contents<Message>,
    users: Contents<Profile>,
) -> (steps: nat)
    requires
        forall|user: u128| (#[trigger] (service.user)(user)) is Ok,
        plan.resolved <= plan.senders.len(),
        plan.providing(),
        plan.fault is Some,
    ensures
        ({
            let end = run(
                service,
                World {
                    plan: plan.next_sender(users).0,
                    messages,
                    users,
                    command: plan.next_sender(users).1,
                },
                steps,
            );
            &&& end.command == Command::Halt(Some(SyncError::Payload(plan.fault->Some_0)))
            &&& end.plan.phase is Halted
            &&& end.plan.outcome == Some(SyncError::Payload(plan.fault->Some_0))
            &&& end.plan.rooms == plan.rooms
            &&& end.plan.listening == plan.listening
            &&& end.plan.hydrated == plan.hydrated
            &&& end.messages == messages
            &&& end.users == resolved(service, plan.owner, plan.senders, plan.resolved, users)
        }),
    decreases plan.senders.len() - plan.resolved,
{
    lemma_first_unseen(plan.senders, plan.resolved, users, plan.owner);
    lemma_resolved_skips(service, plan.owner, plan.senders, plan.resolved, users);
    let at = first_unseen(plan.senders, plan.resolved, users, plan.owner);
    if at < plan.senders.len() {
        let sender = plan.senders[at as int];
        let asking = plan.next_sender(users).0;
        assert((service.user)(sender) is Ok);
        let filed = users.upsert(sender, profile_of(sender, (service.user)(sender)->Ok_0));
        let rest = lemma_resolve_rejected_run(service, asking, messages, filed);
        let world = World { plan: asking, messages, users, command: plan.next_sender(users).1 };
        assert(serve(service, world) == (World {
            plan: asking.next_sender(filed).0,
            messages,
            users: filed,
            command: asking.next_sender(filed).1,
        }));
        assert(run(service, world, rest + 1) == run(service, serve(service, world), rest));
        rest + 1
    } else {
        0
    }
}

/// A rejected message aborts the hydration. Where the history of the room
/// that is being loaded ended in a rejection, the moves that follow file the
/// messages that were accepted before it, resolve their senders, and halt
/// the coordinator with that rejection: the rejected message is never
/// filed, no listener is asked for, and the hydration is not complete.
pub proof fn lemma_rejected_run(
    service: Service,
    plan: Plan,
    messages: Contents<Message>,
    users: Contents<Profile>,
) -> (steps: nat)
    requires
        plan.phase is LoadingHistory,
        (service.history)(plan.current) matches Ok(history) && history.fault is Some,
        forall|user: u128| (#[trigger] (service.user)(user)) is Ok,
    ensures
        ({
            let history = (service.history)(plan.current)->Ok_0;
            let end = run(
                service,
                World { plan, messages, users, command: Command::ListMessages(plan.current) },
                steps,
            );
            &&& end.command == Command::Halt(Some(SyncError::Payload(history.fault->Some_0)))
            &&& end.plan.phase is Halted
            &&& end.plan.outcome == Some(SyncError::Payload(history.fault->Some_0))
            &&& end.plan.rooms == plan.rooms
            &&& end.plan.listening == plan.listening
            &&& end.plan.hydrated == plan.hydrated
            &&& end.messages == messages.filed(history.accepted@)
            &&& end.users == resolved(
                service,
                plan.owner,
                senders_of(history.accepted@),
                0,
                users,
            )
        }),
{
    let history = (service.history)(plan.current)->Ok_0;
    let loaded = Plan {
        senders: senders_of(history.accepted@),
        resolved: 0,
        fault: history.fault,
        ..plan
    };
    let filed = messages.filed(history.accepted@);
    let asked = World { plan, messages, users, command: Command::ListMessages(plan.current) };
    let answered = World {
        plan: loaded.next_sender(users).0,
        messages: filed,
        users,
        command: loaded.next_sender(users).1,
    };
    assert(serve(service, asked) == answered);
    let rest = lemma_resolve_rejected_run(service, loaded, filed, users);
    assert(run(service, asked, 1 + rest) == run(service, answered, rest));
    1 + rest
}

} // verus!

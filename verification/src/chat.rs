//! The session of a logged-in user: the draft being written and the room in
//! focus, and the lines that the main screen shows.

use crate::cache::{Cache, Contents};
use crate::entities::{Message, Profile, Room, User};
use crate::text::{string_pop, string_push};
use vstd::prelude::*;
use vstd::string::StringExecFns;

verus! {

/// The local state of a session.
#[derive(Debug, Clone, PartialEq, Eq)]
pub struct Chat {
    /// Whether the caches have been hydrated.
    pub refreshed: bool,
    /// The user who logged in.
    pub user: User,
    /// The message being written.
    pub message_draft: String,
    /// The position, in the room cache, of the room in focus.
    pub selected: Option<usize>,
}

/// What a key in the main screen asks for.
#[derive(Debug, Clone, PartialEq, Eq)]
pub enum Outbox {
    /// Nothing to send.
    Nothing,
    /// Send this text to this room.
    Send { room: u128, text: String },
}

/// The name under which a sender is shown: the owner of the session as
/// `you`, a sender with a cached record by its username, any other as
/// `unknown`.
pub open spec fn sender_label(owner: u128, users: Contents<Profile>, sender: u128) -> Seq<char> {
    if sender == owner {
        "you"@
    } else if users.contains_key(sender) {
        users.entries[sender].username@
    } else {
        "unknown"@
    }
}

/// The line that shows a message.
pub open spec fn message_line(owner: u128, users: Contents<Profile>, message: Message) -> Seq<
    char,
> {
    " ("@ + sender_label(owner, users, message.sender_uuid) + ") "@ + message.text@
}

/// The lines of the messages of `room` among the first `upto` cached
/// messages, newest first.
pub open spec fn room_lines(
    owner: u128,
    users: Contents<Profile>,
    messages: Seq<Message>,
    room: u128,
    upto: nat,
) -> Seq<Seq<char>>
    decreases upto,
{
    if upto == 0 || upto > messages.len() {
        Seq::empty()
    } else if messages[upto - 1].room_uuid == room {
        seq![message_line(owner, users, messages[upto - 1])] + room_lines(
            owner,
            users,
            messages,
            room,
            (upto - 1) as nat,
        )
    } else {
        room_lines(owner, users, messages, room, (upto - 1) as nat)
    }
}

/// The line that shows a room.
pub open spec fn room_line(room: Room) -> Seq<char> {
    " "@ + room.name@ + " "@
}

/// The line that shows the draft.
pub open spec fn draft_line(draft: Seq<char>) -> Seq<char> {
    " (msg) > "@ + draft + "_"@
}

/// The views of a list of strings.
pub open spec fn lines_of(lines: Seq<String>) -> Seq<Seq<char>> {
    Seq::new(lines.len(), |i: int| lines[i]@)
}

/// What the main screen shows.
#[derive(Debug, Clone, PartialEq, Eq)]
pub struct MainScreen {
    /// One line for each room, in the order of the room cache.
    pub rooms: Vec<String>,
    /// The position of the room in focus.
    pub selected: Option<usize>,
    /// One line for each message of the room in focus, newest first.
    pub messages: Vec<String>,
    /// The line of the draft.
    pub draft: String,
}

impl Chat {
    /// The session of `user`, without a draft and without a room in focus.
    pub fn new(user: User) -> (chat: Self)
        ensures
            chat.user == user,
            !chat.refreshed,
            chat.message_draft@ == Seq::<char>::empty(),
            chat.selected is None,
    {
        Chat { user, refreshed: false, message_draft: String::new(), selected: None }
    }

    /// The room in focus: the one at the selected position of the room
    /// cache, if a position is selected and the cache reaches that far.
    pub open spec fn focus(self, rooms: Contents<Room>) -> Option<u128> {
        match self.selected {
            Some(at) if at < rooms.len() => Some(rooms.order[at as int]),
            _ => None,
        }
    }

    /// The room in focus: see [`Chat::focus`].
    pub fn focused_room(&self, rooms: &Cache<Room>) -> (room: Option<u128>)
        ensures
            room == self.focus(rooms@),
    {
        match self.selected {
            Some(at) => rooms.key_at(at),
            None => None,
        }
    }

    /// Takes a typed character into the draft.
    pub fn type_char(&mut self, c: char)
        ensures
            final(self).message_draft@ == old(self).message_draft@.push(c),
            final(self).user == old(self).user,
            final(self).refreshed == old(self).refreshed,
            final(self).selected == old(self).selected,
    {
        string_push(&mut self.message_draft, c);
    }

    /// Erases the last character of the draft, if it has one.
    pub fn erase(&mut self)
        ensures
            final(self).message_draft@ == if old(self).message_draft@.len() > 0 {
                old(self).message_draft@.drop_last()
            } else {
                old(self).message_draft@
            },
            final(self).user == old(self).user,
            final(self).refreshed == old(self).refreshed,
            final(self).selected == old(self).selected,
    {
        let _ = string_pop(&mut self.message_draft);
    }

    /// Whether `next` and `outbox` are what the key that sends makes of this
    /// session. A draft that is not empty goes out to the room in focus, and
    /// the draft is empty afterwards. An empty draft, or a draft without a
    /// room in focus, stays and nothing goes out.
    pub open spec fn submits(self, rooms: Contents<Room>, next: Chat, outbox: Outbox) -> bool {
        &&& next.user == self.user
        &&& next.refreshed == self.refreshed
        &&& next.selected == self.selected
        &&& match self.focus(rooms) {
            Some(room) if self.message_draft@.len() > 0 => {
                &&& outbox matches Outbox::Send { room: to, text }
                &&& to == room
                &&& text == self.message_draft
                &&& next.message_draft@ == Seq::<char>::empty()
            },
            _ => outbox is Nothing && next.message_draft == self.message_draft,
        }
    }

    /// Takes the key that sends: see [`Chat::submits`].
    pub fn submit(&mut self, rooms: &Cache<Room>) -> (outbox: Outbox)
        ensures
            old(self).submits(rooms@, *final(self), outbox),
    {
        if self.message_draft.as_str().is_empty() {
            return Outbox::Nothing;
        }
        match self.focused_room(rooms) {
            None => Outbox::Nothing,
            Some(room) => {
                let mut text = String::new();
                std::mem::swap(&mut text, &mut self.message_draft);
                Outbox::Send { room, text }
            },
        }
    }

    /// The name under which `sender` is shown: see [`sender_label`].
    pub fn label(&self, users: &Cache<Profile>, sender: u128) -> (label: String)
        ensures
            label@ == sender_label(self.user.uuid, users@, sender),
    {
        if sender == self.user.uuid {
            String::from_str("you")
        } else {
            match users.get(sender) {
                Some(profile) => profile.username.clone(),
                None => String::from_str("unknown"),
            }
        }
    }

    /// The line that shows `message`: see [`message_line`].
    pub fn line(&self, users: &Cache<Profile>, message: &Message) -> (line: String)
        ensures
            line@ == message_line(self.user.uuid, users@, *message),
    {
        let label = self.label(users, message.sender_uuid);
        String::from_str(" (").concat(label.as_str()).concat(") ").concat(message.text.as_str())
    }

    /// Whether `next` and `screen` are what drawing the main screen makes of
    /// this session. Where the room cache holds a room, the first room comes
    /// into focus. The screen lists every room in the order of the room
    /// cache, the messages of the room in focus from the newest to the
    /// oldest, and the draft.
    pub open spec fn shows(
        self,
        rooms: Contents<Room>,
        messages: Contents<Message>,
        users: Contents<Profile>,
        next: Chat,
        screen: MainScreen,
    ) -> bool {
        &&& next.user == self.user
        &&& next.refreshed == self.refreshed
        &&& next.message_draft == self.message_draft
        &&& next.selected == if rooms.len() > 0 {
            Some(0usize)
        } else {
            self.selected
        }
        &&& screen.selected == next.selected
        &&& lines_of(screen.rooms@) =~= Seq::new(rooms.len(), |i: int| room_line(rooms.values()[i]))
        &&& lines_of(screen.messages@) =~= match next.focus(rooms) {
            Some(room) => room_lines(
                self.user.uuid,
                users,
                messages.values(),
                room,
                messages.len(),
            ),
            None => Seq::empty(),
        }
        &&& screen.draft@ == draft_line(self.message_draft@)
    }

    /// Draws the main screen: see [`Chat::shows`].
    pub fn main_screen(
        &mut self,
        rooms: &Cache<Room>,
        messages: &Cache<Message>,
        users: &Cache<Profile>,
    ) -> (screen: MainScreen)
        ensures
            old(self).shows(rooms@, messages@, users@, *final(self), screen),
    {
        if rooms.len() > 0 {
            self.selected = Some(0);
        }
        let listed = rooms.snapshot();
        let mut room_list: Vec<String> = Vec::new();
        let mut i: usize = 0;
        while i < listed.len()
            invariant
                i <= listed@.len(),
                room_list@.len() == i,
                forall|j: int| 0 <= j < i ==> (#[trigger] room_list@[j])@ == room_line(listed@[j]),
            decreases listed@.len() - i,
        {
            let line = String::from_str(" ").concat(listed[i].name.as_str()).concat(" ");
            room_list.push(line);
            i += 1;
        }
        let cached = messages.snapshot();
        let mut message_list: Vec<String> = Vec::new();
        match self.focused_room(rooms) {
            None => {},
            Some(room) => {
                let mut left: usize = cached.len();
                while left > 0
                    invariant
                        left <= cached@.len(),
                        self.user == old(self).user,
                        lines_of(message_list@) + room_lines(
                            self.user.uuid,
                            users@,
                            cached@,
                            room,
                            left as nat,
                        ) == room_lines(
                            self.user.uuid,
                            users@,
                            cached@,
                            room,
                            cached@.len(),
                        ),
                    decreases left,
                {
                    let ghost before = lines_of(message_list@);
                    left -= 1;
                    if cached[left].room_uuid == room {
                        let line = self.line(users, &cached[left]);
                        message_list.push(line);
                        assert(lines_of(message_list@) =~= before.push(line@));
                        assert(before.push(line@) + room_lines(
                            self.user.uuid,
                            users@,
                            cached@,
                            room,
                            left as nat,
                        ) =~= before + (seq![line@] + room_lines(
                            self.user.uuid,
                            users@,
                            cached@,
                            room,
                            left as nat,
                        )));
                    }
                }
                assert(lines_of(message_list@) + Seq::<Seq<char>>::empty() =~= lines_of(
                    message_list@,
                ));
            },
        }
        let draft = String::from_str(" (msg) > ").concat(self.message_draft.as_str()).concat("_");
        proof {
            assert(lines_of(room_list@) =~= Seq::new(
                rooms@.len(),
                |i: int| room_line(rooms@.values()[i]),
            ));
            assert(lines_of(message_list@) =~= lines_of(message_list@));
        }
        MainScreen { rooms: room_list, selected: self.selected, messages: message_list, draft }
    }
}

} // verus!

//! The application: a login form until the login succeeds, a session after
//! it, and what each key makes of either.

use crate::cache::{Cache, Contents};
use crate::chat::{Chat, MainScreen, Outbox};
use crate::entities::{Message, Profile, Room};
use crate::fault::TransportError;
use crate::registry::{LoginError, LoginScreen, Registry, WireAuthPair};
use vstd::prelude::*;

verus! {

/// What the application is showing.
#[derive(Debug, Clone, PartialEq, Eq)]
pub enum Stage {
    NotLoggedIn { registry: Registry },
    LoggedIn { chat: Chat },
}

/// The keys that the application tells apart.
#[derive(Debug, Clone, Copy, PartialEq, Eq, Structural)]
pub enum KeyCode {
    Char(char),
    Backspace,
    Delete,
    Enter,
    Tab,
    BackTab,
    Esc,
    Other,
}

/// A key, pressed or released.
#[derive(Debug, Clone, Copy, PartialEq, Eq, Structural)]
pub struct KeyEvent {
    pub code: KeyCode,
    pub release: bool,
}

/// What a key asks the driver to do.
#[derive(Debug, Clone, PartialEq, Eq)]
pub enum Effect {
    /// Nothing.
    Nothing,
    /// Leave the application.
    Quit,
    /// Send the credentials of the form, and hand the answer in.
    AttemptLogin,
    /// Send this text to this room.
    Send { room: u128, text: String },
}

/// What the application draws.
#[derive(Debug, Clone, PartialEq, Eq)]
pub enum Screen {
    Login(LoginScreen),
    Main(MainScreen),
}

/// The application.
#[derive(Debug, Clone, PartialEq, Eq)]
pub struct App {
    pub stage: Stage,
}

/// Whether `next` and `effect` are what a key makes of the login form.
/// A character is typed into the field that takes the keys, backspace and
/// delete erase from it, tab moves the keys to the other field, and enter
/// asks for the login. Any other key does nothing.
pub open spec fn form_step(
    registry: Registry,
    code: KeyCode,
    next: Registry,
    effect: Effect,
) -> bool {
    match code {
        KeyCode::Char(c) => next@ == registry@.typed(c) && effect is Nothing,
        KeyCode::Backspace | KeyCode::Delete => next@ == registry@.erased() && effect is Nothing,
        KeyCode::Tab | KeyCode::BackTab => next@ == registry@.toggled() && effect is Nothing,
        KeyCode::Enter => next == registry && effect is AttemptLogin,
        _ => next == registry && effect is Nothing,
    }
}

/// Whether `next` and `effect` are what a key makes of a session. A
/// character is typed into the draft, backspace erases from it, and enter
/// sends it as [`Chat::submits`] says. Any other key does nothing.
pub open spec fn session_step(
    chat: Chat,
    code: KeyCode,
    rooms: Contents<Room>,
    next: Chat,
    effect: Effect,
) -> bool {
    match code {
        KeyCode::Char(c) => {
            &&& next.message_draft@ == chat.message_draft@.push(c)
            &&& next.user == chat.user
            &&& next.refreshed == chat.refreshed
            &&& next.selected == chat.selected
            &&& effect is Nothing
        },
        KeyCode::Backspace => {
            &&& next.message_draft@ == if chat.message_draft@.len() > 0 {
                chat.message_draft@.drop_last()
            } else {
                chat.message_draft@
            }
            &&& next.user == chat.user
            &&& next.refreshed == chat.refreshed
            &&& next.selected == chat.selected
            &&& effect is Nothing
        },
        KeyCode::Enter => match effect {
            Effect::Nothing => chat.submits(rooms, next, Outbox::Nothing),
            Effect::Send { room, text } => chat.submits(rooms, next, Outbox::Send { room, text }),
            _ => false,
        },
        _ => next == chat && effect is Nothing,
    }
}

/// Whether `next` and `effect` are what a key event makes of the
/// application. The release of a key does nothing. Escape leaves the
/// application. Any other key goes to the login form or to the session,
/// whichever is showing.
pub open spec fn key_step(
    stage: Stage,
    event: KeyEvent,
    rooms: Contents<Room>,
    next: Stage,
    effect: Effect,
) -> bool {
    if event.release {
        next == stage && effect is Nothing
    } else if event.code is Esc {
        next == stage && effect is Quit
    } else {
        match stage {
            Stage::NotLoggedIn { registry } => {
                &&& next matches Stage::NotLoggedIn { registry: form }
                &&& form_step(registry, event.code, form, effect)
            },
            Stage::LoggedIn { chat } => {
                &&& next matches Stage::LoggedIn { chat: session }
                &&& session_step(chat, event.code, rooms, session, effect)
            },
        }
    }
}

/// Whether `next` and `failure` are what the answer to a login makes of the
/// application. While the form is showing, an answer that opens a session
/// brings the session up, and any other marks the form as failed and gives
/// the reason. Once a session is showing, an answer changes nothing.
pub open spec fn login_step(
    stage: Stage,
    reply: Result<WireAuthPair, TransportError>,
    next: Stage,
    failure: Option<LoginError>,
) -> bool {
    match stage {
        Stage::LoggedIn { chat } => next == stage && failure is None,
        Stage::NotLoggedIn { registry } => exists|opened: Result<Chat, LoginError>|
            #![trigger registry.opens(reply, opened)]
            registry.opens(reply, opened) && match opened {
                Ok(chat) => next == (Stage::LoggedIn { chat }) && failure is None,
                Err(why) => {
                    &&& next matches Stage::NotLoggedIn { registry: form }
                    &&& form.username == registry.username
                    &&& form.password == registry.password
                    &&& form.editing_mode == registry.editing_mode
                    &&& form.failed
                    &&& failure == Some(why)
                },
            },
    }
}

impl App {
    /// The application as it starts: an empty login form.
    pub fn new() -> (app: Self)
        ensures
            app.stage matches Stage::NotLoggedIn { registry } && registry@ == Registry::new_form(),
    {
        App { stage: Stage::NotLoggedIn { registry: Registry::new() } }
    }

    /// Takes one key event: see [`key_step`].
    pub fn run(&mut self, event: KeyEvent, rooms: &Cache<Room>) -> (effect: Effect)
        ensures
            key_step(old(self).stage, event, rooms@, final(self).stage, effect),
    {
        if event.release {
            return Effect::Nothing;
        }
        match event.code {
            KeyCode::Esc => {
                return Effect::Quit;
            },
            _ => {},
        }
        match &mut self.stage {
            Stage::NotLoggedIn { registry } => match event.code {
                KeyCode::Char(c) => {
                    registry.type_char(c);
                    Effect::Nothing
                },
                KeyCode::Backspace | KeyCode::Delete => {
                    registry.erase();
                    Effect::Nothing
                },
                KeyCode::Tab | KeyCode::BackTab => {
                    registry.toggle_mode();
                    Effect::Nothing
                },
                KeyCode::Enter => Effect::AttemptLogin,
                _ => Effect::Nothing,
            },
            Stage::LoggedIn { chat } => match event.code {
                KeyCode::Char(c) => {
                    chat.type_char(c);
                    Effect::Nothing
                },
                KeyCode::Backspace => {
                    chat.erase();
                    Effect::Nothing
                },
                KeyCode::Enter => match chat.submit(rooms) {
                    Outbox::Nothing => Effect::Nothing,
                    Outbox::Send { room, text } => Effect::Send { room, text },
                },
                _ => Effect::Nothing,
            },
        }
    }

    /// Takes the answer to a login: see [`login_step`].
    pub fn attempt_login(&mut self, reply: Result<WireAuthPair, TransportError>) -> (
        failure: Option<LoginError>
    )
        ensures
            login_step(old(self).stage, reply, final(self).stage, failure),
    {
        let opened = match &self.stage {
            Stage::LoggedIn { .. } => {
                return None;
            },
            Stage::NotLoggedIn { registry } => registry.sign_in(reply),
        };
        let ghost witness = opened;
        match opened {
            Ok(chat) => {
                self.stage = Stage::LoggedIn { chat };
                assert(old(self).stage->registry.opens(reply, witness));
                None
            },
            Err(why) => {
                match &mut self.stage {
                    Stage::NotLoggedIn { registry } => {
                        registry.failed = true;
                    },
                    Stage::LoggedIn { .. } => {},
                }
                assert(old(self).stage->registry.opens(reply, witness));
                Some(why)
            },
        }
    }

    /// What the application draws: the login screen while the form is
    /// showing, which leaves the form as it is, and the main screen once a
    /// session is, as [`Chat::shows`] says.
    pub fn render_ui(
        &mut self,
        rooms: &Cache<Room>,
        messages: &Cache<Message>,
        users: &Cache<Profile>,
    ) -> (screen: Screen)
        ensures
            match old(self).stage {
                Stage::NotLoggedIn { registry } => {
                    &&& final(self).stage == old(self).stage
                    &&& screen matches Screen::Login(login)
                    &&& login.username@ == registry@.username_field()
                    &&& login.password@ == registry@.password_field()
                    &&& login.editing_mode == registry@.mode
                    &&& login.failed == registry@.failed
                },
                Stage::LoggedIn { chat } => {
                    &&& final(self).stage matches Stage::LoggedIn { chat: next }
                    &&& screen matches Screen::Main(main)
                    &&& chat.shows(rooms@, messages@, users@, next, main)
                },
            },
    {
        match &mut self.stage {
            Stage::NotLoggedIn { registry } => Screen::Login(registry.login_screen()),
            Stage::LoggedIn { chat } => Screen::Main(chat.main_screen(rooms, messages, users)),
        }
    }
}

} // verus!

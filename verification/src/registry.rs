//! The login form, and what becomes of it when the service answers.

use crate::chat::Chat;
use crate::entities::User;
use crate::fault::TransportError;
use crate::ident::{parse_identifier, read_identifier, IdentError};
use crate::text::{string_pop, string_push};
use vstd::prelude::*;
use vstd::string::{StrSliceExecFns, StringExecFns};

verus! {

/// The field of the login form that takes the keys.
#[derive(Debug, Clone, Copy, PartialEq, Eq, Structural)]
pub enum EditingMode {
    Username,
    Password,
}

impl Default for EditingMode {
    fn default() -> (mode: Self)
        ensures
            mode == EditingMode::Username,
    {
        EditingMode::Username
    }
}

impl EditingMode {
    /// The other field.
    pub open spec fn other(self) -> EditingMode {
        match self {
            EditingMode::Username => EditingMode::Password,
            EditingMode::Password => EditingMode::Username,
        }
    }
}

/// What the service answers to a login.
#[derive(Clone, Debug, PartialEq, Eq)]
pub struct WireAuthPair {
    pub user_uuid: Option<String>,
    pub token: Option<String>,
}

/// Why a login did not lead to a session.
#[derive(Clone, Copy, Debug, PartialEq, Eq, Structural)]
pub enum LoginError {
    /// The call did not complete, or the service turned the credentials down.
    Transport(TransportError),
    /// The service did not return the user's identifier.
    MissingUser,
    /// The service returned a user identifier that is none.
    InvalidUser,
    /// The service did not return a token.
    MissingToken,
}

/// The login form.
#[derive(Debug, Clone, PartialEq, Eq)]
pub struct Registry {
    pub username: String,
    pub password: String,
    pub editing_mode: EditingMode,
    pub failed: bool,
}

/// What the login form shows.
pub struct Form {
    pub username: Seq<char>,
    pub password: Seq<char>,
    pub mode: EditingMode,
    pub failed: bool,
}

impl Form {
    /// The form after a character was typed: it goes to the end of the field
    /// that takes the keys, and the mark of a failed login goes away.
    pub open spec fn typed(self, c: char) -> Form {
        match self.mode {
            EditingMode::Username => Form {
                username: self.username.push(c),
                failed: false,
                ..self
            },
            EditingMode::Password => Form {
                password: self.password.push(c),
                failed: false,
                ..self
            },
        }
    }

    /// The form after a character was erased: the field that takes the keys
    /// loses its last character, if it has one, and the mark of a failed
    /// login goes away.
    pub open spec fn erased(self) -> Form {
        match self.mode {
            EditingMode::Username => Form {
                username: if self.username.len() > 0 {
                    self.username.drop_last()
                } else {
                    self.username
                },
                failed: false,
                ..self
            },
            EditingMode::Password => Form {
                password: if self.password.len() > 0 {
                    self.password.drop_last()
                } else {
                    self.password
                },
                failed: false,
                ..self
            },
        }
    }

    /// The form with the other field taking the keys.
    pub open spec fn toggled(self) -> Form {
        Form { mode: self.mode.other(), ..self }
    }
}

impl View for Registry {
    type V = Form;

    open spec fn view(&self) -> Form {
        Form {
            username: self.username@,
            password: self.password@,
            mode: self.editing_mode,
            failed: self.failed,
        }
    }
}

/// The owner of the session that the fields of an answer to a login make,
/// the identifier read, or why they make none. The checks, in this order:
/// the answer names the user, by a valid identifier; it carries a token.
pub open spec fn checked_session(
    username: String,
    password: String,
    uuid: Result<u128, IdentError>,
    token: Option<String>,
) -> Result<User, LoginError> {
    match uuid {
        Err(IdentError::Missing) => Err(LoginError::MissingUser),
        Err(IdentError::Invalid) => Err(LoginError::InvalidUser),
        Ok(uuid) => match token {
            None => Err(LoginError::MissingToken),
            Some(auth_token) => Ok(User { uuid, username, password, auth_token }),
        },
    }
}

/// Runs the checks of [`checked_session`].
pub fn check_session(
    username: String,
    password: String,
    uuid: Result<u128, IdentError>,
    token: Option<String>,
) -> (user: Result<User, LoginError>)
    ensures
        user == checked_session(username, password, uuid, token),
{
    let uuid = match uuid {
        Err(IdentError::Missing) => {
            return Err(LoginError::MissingUser);
        },
        Err(IdentError::Invalid) => {
            return Err(LoginError::InvalidUser);
        },
        Ok(uuid) => uuid,
    };
    match token {
        None => Err(LoginError::MissingToken),
        Some(auth_token) => Ok(User { uuid, username, password, auth_token }),
    }
}

/// The owner of the session that an answer to a login opens, or why it opens
/// none: a call that did not complete opens none, and an answer opens what
/// [`checked_session`] makes of its fields.
pub open spec fn session_of(
    username: String,
    password: String,
    reply: Result<WireAuthPair, TransportError>,
) -> Result<User, LoginError> {
    match reply {
        Err(why) => Err(LoginError::Transport(why)),
        Ok(pair) => checked_session(
            username,
            password,
            read_identifier(pair.user_uuid),
            pair.token,
        ),
    }
}

/// A run of stars, one for each character of a password.
pub open spec fn mask(len: nat) -> Seq<char> {
    Seq::new(len, |i: int| '*')
}

/// What the login screen shows.
#[derive(Debug, Clone, PartialEq, Eq)]
pub struct LoginScreen {
    /// The username field: the username after a blank, and the cursor where
    /// the field takes the keys.
    pub username: String,
    /// The password field: a star for each character after a blank, and the
    /// cursor where the field takes the keys.
    pub password: String,
    /// The field that takes the keys.
    pub editing_mode: EditingMode,
    /// Whether the last login failed.
    pub failed: bool,
}

impl Form {
    /// The text of the username field.
    pub open spec fn username_field(self) -> Seq<char> {
        if self.mode == EditingMode::Username {
            " "@ + self.username + "_"@
        } else {
            " "@ + self.username
        }
    }

    /// The text of the password field.
    pub open spec fn password_field(self) -> Seq<char> {
        if self.mode == EditingMode::Password {
            " "@ + mask(self.password.len()) + "_"@
        } else {
            " "@ + mask(self.password.len())
        }
    }
}

impl Registry {
    /// What an empty form shows.
    pub open spec fn new_form() -> Form {
        Form {
            username: Seq::empty(),
            password: Seq::empty(),
            mode: EditingMode::Username,
            failed: false,
        }
    }

    /// An empty form, with the username taking the keys.
    pub fn new() -> (registry: Self)
        ensures
            registry@ == Registry::new_form(),
    {
        Registry {
            editing_mode: EditingMode::default(),
            username: String::new(),
            password: String::new(),
            failed: false,
        }
    }

    /// The field that takes the keys.
    pub fn editing_mode(&self) -> (mode: &EditingMode)
        ensures
            *mode == self@.mode,
    {
        &self.editing_mode
    }

    /// Moves the keys to the other field.
    pub fn toggle_mode(&mut self)
        ensures
            final(self)@ == old(self)@.toggled(),
            final(self).username == old(self).username,
            final(self).password == old(self).password,
    {
        match &self.editing_mode {
            EditingMode::Username => self.editing_mode = EditingMode::Password,
            EditingMode::Password => self.editing_mode = EditingMode::Username,
        }
    }

    /// Takes a typed character.
    pub fn type_char(&mut self, c: char)
        ensures
            final(self)@ == old(self)@.typed(c),
    {
        self.failed = false;
        match self.editing_mode {
            EditingMode::Username => string_push(&mut self.username, c),
            EditingMode::Password => string_push(&mut self.password, c),
        }
    }

    /// Erases the last character of the field that takes the keys.
    pub fn erase(&mut self)
        ensures
            final(self)@ == old(self)@.erased(),
    {
        self.failed = false;
        match self.editing_mode {
            EditingMode::Username => {
                let _ = string_pop(&mut self.username);
            },
            EditingMode::Password => {
                let _ = string_pop(&mut self.password);
            },
        }
    }

    /// What the login screen shows of the form.
    pub fn login_screen(&self) -> (screen: LoginScreen)
        ensures
            screen.username@ == self@.username_field(),
            screen.password@ == self@.password_field(),
            screen.editing_mode == self@.mode,
            screen.failed == self@.failed,
    {
        let mut username = String::from_str(" ").concat(self.username.as_str());
        let mut password = String::from_str(" ");
        let len = self.password.as_str().unicode_len();
        let mut i: usize = 0;
        while i < len
            invariant
                i <= len,
                password@ == " "@ + mask(i as nat),
            decreases len - i,
        {
            proof {
                reveal_strlit("*");
            }
            password.append("*");
            i += 1;
            assert(password@ =~= " "@ + mask(i as nat));
        }
        match self.editing_mode {
            EditingMode::Username => {
                username.append("_");
            },
            EditingMode::Password => {
                password.append("_");
            },
        }
        LoginScreen { username, password, editing_mode: self.editing_mode, failed: self.failed }
    }

    /// Whether `opened` is the session that the answer to the login of this
    /// form allows: see [`session_of`]. A session starts without a draft,
    /// without a room in focus, and not yet hydrated.
    pub open spec fn opens(self, reply: Result<WireAuthPair, TransportError>, opened: Result<
        Chat,
        LoginError,
    >) -> bool {
        match session_of(self.username, self.password, reply) {
            Err(why) => opened == Err::<Chat, LoginError>(why),
            Ok(user) => opened matches Ok(chat) && chat.user == user && !chat.refreshed
                && chat.message_draft@ == Seq::<char>::empty() && chat.selected is None,
        }
    }

    /// Opens the session that the answer to the login allows, and keeps the
    /// form: see [`Registry::opens`].
    pub fn sign_in(&self, reply: Result<WireAuthPair, TransportError>) -> (chat: Result<
        Chat,
        LoginError,
    >)
        ensures
            self.opens(reply, chat),
    {
        let pair = match reply {
            Err(why) => {
                return Err(LoginError::Transport(why));
            },
            Ok(pair) => pair,
        };
        let uuid = parse_identifier(&pair.user_uuid);
        let user = match check_session(
            self.username.clone(),
            self.password.clone(),
            uuid,
            pair.token,
        ) {
            Err(why) => {
                return Err(why);
            },
            Ok(user) => user,
        };
        Ok(Chat::new(user))
    }

    /// Opens the session that the answer to the login allows: see
    /// [`Registry::opens`].
    pub fn into_chat(self, reply: Result<WireAuthPair, TransportError>) -> (chat: Result<
        Chat,
        LoginError,
    >)
        ensures
            self.opens(reply, chat),
    {
        self.sign_in(reply)
    }
}

} // verus!

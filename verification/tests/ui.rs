use chat_client::app::{App, Effect, KeyCode, KeyEvent, Screen, Stage};
use chat_client::cache::Cache;
use chat_client::chat::{Chat, Outbox};
use chat_client::entities::{Message, Profile, Room, User};
use chat_client::fault::TransportError;
use chat_client::ident::IdentError;
use chat_client::registry::{check_session, EditingMode, LoginError, Registry, WireAuthPair};
use std::time::SystemTime;

const ME: &str = "00000000-0000-0000-0000-000000000001";

fn press(code: KeyCode) -> KeyEvent {
    KeyEvent { code, release: false }
}

fn type_text(app: &mut App, text: &str, rooms: &Cache<Room>) {
    for c in text.chars() {
        assert_eq!(app.run(press(KeyCode::Char(c)), rooms), Effect::Nothing);
    }
}

fn owner() -> User {
    User {
        uuid: 1,
        username: "ada".to_string(),
        password: "secret".to_string(),
        auth_token: "token".to_string(),
    }
}

fn granted() -> Result<WireAuthPair, TransportError> {
    Ok(WireAuthPair { user_uuid: Some(ME.to_string()), token: Some("token".to_string()) })
}

fn message(id: u128, room: u128, sender: u128, text: &str) -> Message {
    Message {
        uuid: id,
        sender_uuid: sender,
        room_uuid: room,
        text: text.to_string(),
        timestamp: SystemTime::UNIX_EPOCH,
    }
}

#[test]
fn editing_mode_defaults_to_username() {
    assert_eq!(EditingMode::default(), EditingMode::Username);
}

#[test]
fn registry_starts_empty() {
    let registry = Registry::new();
    assert_eq!(registry.username, "");
    assert_eq!(registry.password, "");
    assert_eq!(*registry.editing_mode(), EditingMode::Username);
    assert!(!registry.failed);
}

#[test]
fn toggle_mode_switches_between_the_two_fields() {
    let mut registry = Registry::new();
    registry.toggle_mode();
    assert_eq!(*registry.editing_mode(), EditingMode::Password);
    registry.toggle_mode();
    assert_eq!(*registry.editing_mode(), EditingMode::Username);
}

#[test]
fn registry_types_into_the_field_in_focus() {
    let mut registry = Registry::new();
    registry.failed = true;
    registry.type_char('a');
    registry.type_char('d');
    assert!(!registry.failed);
    registry.toggle_mode();
    registry.type_char('x');
    registry.type_char('y');
    registry.erase();
    assert_eq!(registry.username, "ad");
    assert_eq!(registry.password, "x");
    registry.erase();
    registry.erase();
    assert_eq!(registry.password, "");
    assert_eq!(registry.username, "ad");
}

#[test]
fn login_screen_masks_the_password() {
    let mut registry = Registry::new();
    registry.username = "ada".to_string();
    registry.password = "s3crét".to_string();
    let screen = registry.login_screen();
    assert_eq!(screen.username, " ada_");
    assert_eq!(screen.password, " ******");
    assert_eq!(screen.editing_mode, EditingMode::Username);
    assert!(!screen.failed);
    registry.toggle_mode();
    registry.failed = true;
    let screen = registry.login_screen();
    assert_eq!(screen.username, " ada");
    assert_eq!(screen.password, " ******_");
    assert!(screen.failed);
}

#[test]
fn into_chat_opens_a_session() {
    let mut registry = Registry::new();
    registry.username = "ada".to_string();
    registry.password = "secret".to_string();
    let chat = registry.into_chat(granted()).unwrap();
    assert_eq!(chat.user, owner());
    assert!(!chat.refreshed);
    assert_eq!(chat.message_draft, "");
    assert_eq!(chat.selected, None);
}

#[test]
fn into_chat_names_why_no_session_opens() {
    let failed = TransportError { code: 16 };
    assert_eq!(Registry::new().into_chat(Err(failed)), Err(LoginError::Transport(failed)));
    let pair = WireAuthPair { user_uuid: None, token: Some("t".to_string()) };
    assert_eq!(Registry::new().into_chat(Ok(pair)), Err(LoginError::MissingUser));
    let pair = WireAuthPair { user_uuid: Some("me".to_string()), token: Some("t".to_string()) };
    assert_eq!(Registry::new().into_chat(Ok(pair)), Err(LoginError::InvalidUser));
    let pair = WireAuthPair { user_uuid: Some(ME.to_string()), token: None };
    assert_eq!(Registry::new().into_chat(Ok(pair)), Err(LoginError::MissingToken));
    let pair = WireAuthPair { user_uuid: None, token: None };
    assert_eq!(Registry::new().sign_in(Ok(pair)), Err(LoginError::MissingUser));
}

#[test]
fn check_session_runs_the_checks_in_order() {
    let name = || "ada".to_string();
    let word = || "secret".to_string();
    let token = || Some("token".to_string());
    assert_eq!(check_session(name(), word(), Ok(1), token()), Ok(owner()));
    assert_eq!(
        check_session(name(), word(), Err(IdentError::Missing), None),
        Err(LoginError::MissingUser)
    );
    assert_eq!(
        check_session(name(), word(), Err(IdentError::Invalid), token()),
        Err(LoginError::InvalidUser)
    );
    assert_eq!(check_session(name(), word(), Ok(1), None), Err(LoginError::MissingToken));
}

#[test]
fn app_starts_with_the_login_form() {
    let app = App::new();
    assert_eq!(app.stage, Stage::NotLoggedIn { registry: Registry::new() });
}

#[test]
fn app_fills_the_form_and_asks_for_the_login() {
    let rooms: Cache<Room> = Cache::new();
    let mut app = App::new();
    type_text(&mut app, "adaa", &rooms);
    assert_eq!(app.run(press(KeyCode::Backspace), &rooms), Effect::Nothing);
    assert_eq!(app.run(press(KeyCode::Tab), &rooms), Effect::Nothing);
    type_text(&mut app, "secrets", &rooms);
    assert_eq!(app.run(press(KeyCode::Delete), &rooms), Effect::Nothing);
    assert_eq!(app.run(press(KeyCode::Other), &rooms), Effect::Nothing);
    assert_eq!(app.run(press(KeyCode::Enter), &rooms), Effect::AttemptLogin);
    match &app.stage {
        Stage::NotLoggedIn { registry } => {
            assert_eq!(registry.username, "ada");
            assert_eq!(registry.password, "secret");
            assert_eq!(*registry.editing_mode(), EditingMode::Password);
        }
        Stage::LoggedIn { .. } => panic!("no login has happened"),
    }
    assert_eq!(app.run(press(KeyCode::BackTab), &rooms), Effect::Nothing);
    match &app.stage {
        Stage::NotLoggedIn { registry } => assert_eq!(registry.editing_mode, EditingMode::Username),
        Stage::LoggedIn { .. } => panic!("no login has happened"),
    }
}

#[test]
fn app_ignores_key_releases_and_quits_on_escape() {
    let rooms: Cache<Room> = Cache::new();
    let mut app = App::new();
    let release = KeyEvent { code: KeyCode::Char('a'), release: true };
    assert_eq!(app.run(release, &rooms), Effect::Nothing);
    assert_eq!(app.run(KeyEvent { code: KeyCode::Esc, release: true }, &rooms), Effect::Nothing);
    assert_eq!(app, App::new());
    assert_eq!(app.run(press(KeyCode::Esc), &rooms), Effect::Quit);
    assert_eq!(app, App::new());
}

#[test]
fn attempt_login_marks_a_failed_login() {
    let rooms: Cache<Room> = Cache::new();
    let mut app = App::new();
    type_text(&mut app, "ada", &rooms);
    let failed = TransportError { code: 16 };
    assert_eq!(app.attempt_login(Err(failed)), Some(LoginError::Transport(failed)));
    match &app.stage {
        Stage::NotLoggedIn { registry } => {
            assert!(registry.failed);
            assert_eq!(registry.username, "ada");
        }
        Stage::LoggedIn { .. } => panic!("the login failed"),
    }
    type_text(&mut app, "!", &rooms);
    match &app.stage {
        Stage::NotLoggedIn { registry } => assert!(!registry.failed),
        Stage::LoggedIn { .. } => panic!("the login failed"),
    }
}

#[test]
fn attempt_login_brings_the_session_up() {
    let rooms: Cache<Room> = Cache::new();
    let mut app = App::new();
    type_text(&mut app, "ada", &rooms);
    app.run(press(KeyCode::Tab), &rooms);
    type_text(&mut app, "secret", &rooms);
    assert_eq!(app.attempt_login(granted()), None);
    assert_eq!(app.stage, Stage::LoggedIn { chat: Chat::new(owner()) });
    // A second answer changes nothing.
    assert_eq!(app.attempt_login(Err(TransportError { code: 1 })), None);
    assert_eq!(app.stage, Stage::LoggedIn { chat: Chat::new(owner()) });
}

#[test]
fn session_sends_the_draft_to_the_room_in_focus() {
    let mut rooms: Cache<Room> = Cache::new();
    rooms.upsert(0xa, Room { uuid: 0xa, name: "alpha".to_string() });
    rooms.upsert(0xb, Room { uuid: 0xb, name: "beta".to_string() });
    let mut chat = Chat::new(owner());
    chat.selected = Some(1);
    let mut app = App { stage: Stage::LoggedIn { chat } };
    type_text(&mut app, "hello!", &rooms);
    assert_eq!(app.run(press(KeyCode::Backspace), &rooms), Effect::Nothing);
    assert_eq!(app.run(press(KeyCode::Delete), &rooms), Effect::Nothing);
    assert_eq!(
        app.run(press(KeyCode::Enter), &rooms),
        Effect::Send { room: 0xb, text: "hello".to_string() }
    );
    match &app.stage {
        Stage::LoggedIn { chat } => assert_eq!(chat.message_draft, ""),
        Stage::NotLoggedIn { .. } => panic!("the session is up"),
    }
    assert_eq!(app.run(press(KeyCode::Enter), &rooms), Effect::Nothing);
}

#[test]
fn session_keeps_a_draft_that_has_no_room_to_go_to() {
    let rooms: Cache<Room> = Cache::new();
    let mut chat = Chat::new(owner());
    chat.type_char('h');
    chat.type_char('i');
    assert_eq!(chat.submit(&rooms), Outbox::Nothing);
    assert_eq!(chat.message_draft, "hi");
    chat.selected = Some(0);
    assert_eq!(chat.focused_room(&rooms), None);
    assert_eq!(chat.submit(&rooms), Outbox::Nothing);
    assert_eq!(chat.message_draft, "hi");
    chat.erase();
    chat.erase();
    chat.erase();
    assert_eq!(chat.message_draft, "");
}

#[test]
fn sender_labels_tell_the_owner_from_known_and_unknown_users() {
    let mut users: Cache<Profile> = Cache::new();
    users.upsert(2, Profile { uuid: 2, username: "grace".to_string() });
    users.upsert(1, Profile { uuid: 1, username: "ada".to_string() });
    let chat = Chat::new(owner());
    assert_eq!(chat.label(&users, 1), "you");
    assert_eq!(chat.label(&users, 2), "grace");
    assert_eq!(chat.label(&users, 3), "unknown");
    assert_eq!(chat.label(&Cache::new(), 1), "you");
    assert_eq!(chat.line(&users, &message(9, 0xa, 2, "hello there")), " (grace) hello there");
}

#[test]
fn main_screen_lists_rooms_and_the_messages_of_the_room_in_focus() {
    let mut rooms: Cache<Room> = Cache::new();
    rooms.upsert(0xa, Room { uuid: 0xa, name: "alpha".to_string() });
    rooms.upsert(0xb, Room { uuid: 0xb, name: "beta".to_string() });
    let mut messages: Cache<Message> = Cache::new();
    messages.upsert(1, message(1, 0xa, 2, "first"));
    messages.upsert(2, message(2, 0xb, 2, "elsewhere"));
    messages.upsert(3, message(3, 0xa, 1, "second"));
    messages.upsert(4, message(4, 0xa, 7, "third"));
    let mut users: Cache<Profile> = Cache::new();
    users.upsert(2, Profile { uuid: 2, username: "grace".to_string() });
    let mut chat = Chat::new(owner());
    chat.type_char('y');
    chat.type_char('o');
    let screen = chat.main_screen(&rooms, &messages, &users);
    assert_eq!(screen.rooms, vec![" alpha ", " beta "]);
    assert_eq!(screen.selected, Some(0));
    assert_eq!(chat.selected, Some(0));
    assert_eq!(screen.messages, vec![" (unknown) third", " (you) second", " (grace) first"]);
    assert_eq!(screen.draft, " (msg) > yo_");
}

#[test]
fn main_screen_without_rooms_shows_no_messages() {
    let rooms: Cache<Room> = Cache::new();
    let mut messages: Cache<Message> = Cache::new();
    messages.upsert(1, message(1, 0xa, 2, "first"));
    let users: Cache<Profile> = Cache::new();
    let mut chat = Chat::new(owner());
    let screen = chat.main_screen(&rooms, &messages, &users);
    assert!(screen.rooms.is_empty());
    assert!(screen.messages.is_empty());
    assert_eq!(screen.selected, None);
    assert_eq!(screen.draft, " (msg) > _");
}

#[test]
fn render_ui_draws_the_stage_that_is_showing() {
    let rooms: Cache<Room> = Cache::new();
    let messages: Cache<Message> = Cache::new();
    let users: Cache<Profile> = Cache::new();
    let mut app = App::new();
    type_text(&mut app, "ada", &rooms);
    match app.render_ui(&rooms, &messages, &users) {
        Screen::Login(login) => {
            assert_eq!(login.username, " ada_");
            assert_eq!(login.password, " ");
        }
        Screen::Main(_) => panic!("no login has happened"),
    }
    app.attempt_login(granted());
    match app.render_ui(&rooms, &messages, &users) {
        Screen::Main(main) => assert_eq!(main.draft, " (msg) > _"),
        Screen::Login(_) => panic!("the session is up"),
    }
}

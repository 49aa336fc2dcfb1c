//! Client-side state of a chat application: local caches of the users, rooms
//! and messages that a remote service owns, and the machines that keep them
//! in step with it.
//!
//! The service can be asked (the rooms of a user, the history of a room, a
//! user, a room) and it pushes events (the user was added to a room, a room
//! has a new message). Nothing in this crate waits for it. Each machine
//! takes what the service sent, changes the caches, and says what it wants
//! next; a driver makes the calls, takes the locks and runs the tasks.
//!
//! - [`cache`]: the keyed, insertion-ordered store, built on [`ordered_set`].
//! - [`ident`], [`clock`], [`payload`], [`history`]: what the service sends,
//!   and its validation.
//! - [`resolver`]: user records, fetched when a sender is first seen.
//! - [`listener`]: the listener of one room.
//! - [`coordinator`], with its moves in [`plan`]: the hydration at the start
//!   of a session, and the rooms that are joined later.
//! - [`hydration`]: what a whole hydration comes to.
//! - [`registry`], [`chat`], [`app`]: the login form, the session, and what
//!   the keys do to them.

pub mod ordered_set;
pub mod cache;
pub mod ident;
pub mod clock;
pub mod entities;
pub mod fault;
pub mod payload;
pub mod history;
pub mod resolver;
pub mod listener;
pub mod plan;
pub mod coordinator;
pub mod hydration;
mod text;
pub mod registry;
pub mod chat;
pub mod app;

//! The routing engine of a multi-room chat server, verified with Verus.
//!
//! Clients log in with a key exchange, talk in rooms and move between them. One
//! application task owns the rooms and the subscriptions; one session per
//! client turns frames into commands for it and its events into frames.
//!
//! - [`domain`]: users, rooms, log entries, commands and events.
//! - [`wire`]: the messages of the client protocol and their binary form, with
//!   the proof that what is written is read back.
//! - [`services`]: the application state and its model, the handler of
//!   commands, the event bus, the application, the gateway, sessions and the
//!   login handshake, and what holds of them over whole runs of commands.
//! - [`trusted`]: the calls into code that is not verified, each with what is
//!   taken on trust of it.
//!
//! Sockets, tasks and the cipher are the caller's: the library takes frames and
//! bytes and says what is to be sent.

pub mod domain;
pub mod services;
pub mod trusted;
pub mod wire;

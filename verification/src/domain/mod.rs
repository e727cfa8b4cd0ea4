//! The vocabulary of the server: users, rooms, log entries, commands and events.

pub mod chat_log;
pub mod commands;
pub mod events;
pub mod model;
pub mod notification_log;
pub mod room;
pub mod text;
pub mod timestamp;
pub mod user;
pub mod util;

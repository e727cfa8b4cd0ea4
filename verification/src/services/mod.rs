//! The application: its state, the handler of commands, the event bus, the
//! gateway, sessions and the login handshake.

pub mod app;
pub mod app_gateway;
pub mod broadcast;
pub mod event_bus;
pub mod handler;
pub mod invariants;
pub mod login;
pub mod message_builder;
pub mod state;
pub mod state_model;
pub mod user_session;

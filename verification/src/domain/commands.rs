//! What sessions ask of the application.

use crate::domain::events::Event;
use crate::domain::room::Room;
use crate::domain::timestamp::Timestamp;
use crate::domain::user::{User, UserView};
use futures_channel::mpsc::UnboundedSender;
use vstd::prelude::*;

verus! {

/// Model of a [`CommandPayload`]. The channel that a registration carries is no
/// part of it; contracts that speak of the channel take it from the command.
pub enum CommandPayloadView {
    RegisterUser,
    DropUser,
    MoveUser { target_room: Seq<char> },
    RecordMessage { message: Seq<char> },
    GetRecipients,
    Time(Timestamp),
}

/// The request of a command.
#[derive(Debug)]
pub enum CommandPayload {
    /// Make the user known, and deliver its events through this channel.
    RegisterUser(UnboundedSender<Event>),
    /// Forget the user.
    DropUser,
    /// Move the user to a room, creating the room if need be.
    MoveUser { target_room: Room },
    /// Record a chat message in the user's room.
    RecordMessage { message: String },
    GetRecipients,
    /// A time request; sessions answer these themselves.
    Time(Timestamp),
}

impl View for CommandPayload {
    type V = CommandPayloadView;

    open spec fn view(&self) -> CommandPayloadView {
        match *self {
            CommandPayload::RegisterUser(_) => CommandPayloadView::RegisterUser,
            CommandPayload::DropUser => CommandPayloadView::DropUser,
            CommandPayload::MoveUser { target_room } => CommandPayloadView::MoveUser {
                target_room: target_room@,
            },
            CommandPayload::RecordMessage { message } => CommandPayloadView::RecordMessage {
                message: message@,
            },
            CommandPayload::GetRecipients => CommandPayloadView::GetRecipients,
            CommandPayload::Time(t) => CommandPayloadView::Time(t),
        }
    }
}

impl Clone for CommandPayload {
    fn clone(&self) -> (copy: CommandPayload)
        ensures
            copy@ == self@,
    {
        match self {
            CommandPayload::RegisterUser(sink) => CommandPayload::RegisterUser(sink.clone()),
            CommandPayload::DropUser => CommandPayload::DropUser,
            CommandPayload::MoveUser { target_room } => CommandPayload::MoveUser {
                target_room: target_room.clone(),
            },
            CommandPayload::RecordMessage { message } => CommandPayload::RecordMessage {
                message: message.clone(),
            },
            CommandPayload::GetRecipients => CommandPayload::GetRecipients,
            CommandPayload::Time(t) => CommandPayload::Time(*t),
        }
    }
}

/// Model of a [`Command`].
pub struct CommandView {
    pub user: UserView,
    pub payload: CommandPayloadView,
}

/// A request made on behalf of one user.
#[derive(Debug)]
pub struct Command {
    pub user: User,
    pub payload: CommandPayload,
}

impl View for Command {
    type V = CommandView;

    open spec fn view(&self) -> CommandView {
        CommandView { user: self.user@, payload: self.payload@ }
    }
}

impl Clone for Command {
    fn clone(&self) -> (copy: Command)
        ensures
            copy@ == self@,
    {
        Command { user: self.user.clone(), payload: self.payload.clone() }
    }
}

} // verus!

//! What the application tells sessions.

use crate::domain::chat_log::{MessageLog, MessageLogView};
use crate::domain::model::views;
use crate::domain::notification_log::{NotificationLog, NotificationLogView};
use crate::domain::room::Room;
use crate::domain::user::{User, UserView};
use vstd::prelude::*;

verus! {

/// The state of a room as events carry it: its chat log, its notices and the
/// names of its occupants, each in order.
pub struct RoomSnapshotView {
    pub msg_log: Seq<MessageLogView>,
    pub notifications: Seq<NotificationLogView>,
    pub occupant_names: Seq<Seq<char>>,
}

/// Model of an [`Event`].
pub enum EventView {
    UserRegistered { token: Seq<char> },
    UserJoined { user: UserView, room: Seq<char>, snapshot: RoomSnapshotView },
    UserLeft { user: UserView, room: Seq<char>, snapshot: RoomSnapshotView },
    MsgReceived { msg: MessageLogView },
}

/// Something that happened in the application, told to the sessions concerned.
#[derive(Debug, PartialEq, Eq)]
pub enum Event {
    /// The user is known to the application under this token.
    UserRegistered { token: String },
    /// A user entered a room; the room's state after the entry.
    UserJoined {
        user: User,
        room: Room,
        msg_log: Vec<MessageLog>,
        notifications: Vec<NotificationLog>,
        occupant_names: Vec<String>,
    },
    /// A user left a room; the room's state after the departure.
    UserLeft {
        user: User,
        room: Room,
        msg_log: Vec<MessageLog>,
        notifications: Vec<NotificationLog>,
        occupant_names: Vec<String>,
    },
    /// A chat message was recorded in the recipient's room.
    MsgReceived { msg: MessageLog },
}

impl View for Event {
    type V = EventView;

    open spec fn view(&self) -> EventView {
        match *self {
            Event::UserRegistered { token } => EventView::UserRegistered { token: token@ },
            Event::UserJoined { user, room, msg_log, notifications, occupant_names } => {
                EventView::UserJoined {
                    user: user@,
                    room: room@,
                    snapshot: RoomSnapshotView {
                        msg_log: views(msg_log@),
                        notifications: views(notifications@),
                        occupant_names: views(occupant_names@),
                    },
                }
            },
            Event::UserLeft { user, room, msg_log, notifications, occupant_names } => {
                EventView::UserLeft {
                    user: user@,
                    room: room@,
                    snapshot: RoomSnapshotView {
                        msg_log: views(msg_log@),
                        notifications: views(notifications@),
                        occupant_names: views(occupant_names@),
                    },
                }
            },
            Event::MsgReceived { msg } => EventView::MsgReceived { msg: msg@ },
        }
    }
}

impl Clone for Event {
    fn clone(&self) -> (copy: Event)
        ensures
            copy@ == self@,
    {
        match self {
            Event::UserRegistered { token } => Event::UserRegistered { token: token.clone() },
            Event::UserJoined { user, room, msg_log, notifications, occupant_names } => {
                let msg_log_copy = msg_log.clone();
                let notifications_copy = notifications.clone();
                let occupant_names_copy = occupant_names.clone();
                proof {
                    assert(msg_log_copy@ =~= msg_log@);
                    assert(notifications_copy@ =~= notifications@);
                    assert(occupant_names_copy@ =~= occupant_names@);
                }
                Event::UserJoined {
                    user: user.clone(),
                    room: room.clone(),
                    msg_log: msg_log_copy,
                    notifications: notifications_copy,
                    occupant_names: occupant_names_copy,
                }
            },
            Event::UserLeft { user, room, msg_log, notifications, occupant_names } => {
                let msg_log_copy = msg_log.clone();
                let notifications_copy = notifications.clone();
                let occupant_names_copy = occupant_names.clone();
                proof {
                    assert(msg_log_copy@ =~= msg_log@);
                    assert(notifications_copy@ =~= notifications@);
                    assert(occupant_names_copy@ =~= occupant_names@);
                }
                Event::UserLeft {
                    user: user.clone(),
                    room: room.clone(),
                    msg_log: msg_log_copy,
                    notifications: notifications_copy,
                    occupant_names: occupant_names_copy,
                }
            },
            Event::MsgReceived { msg } => Event::MsgReceived { msg: msg.clone() },
        }
    }
}

} // verus!

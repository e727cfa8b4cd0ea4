//! The handler of commands: the only code that changes the application state.

use crate::domain::chat_log::MessageLog;
use crate::domain::commands::{Command, CommandPayload};
use crate::domain::events::{Event, EventView};
use crate::domain::model::{lemma_views_push, views};
use crate::domain::notification_log::NotificationLog;
use crate::domain::room::Room;
use crate::domain::timestamp::Timestamp;
use crate::domain::user::User;
use crate::services::broadcast::Broadcast;
use crate::services::state::AppState;
use crate::services::state_model::{
    lemma_handle_exclusive, lemma_handle_wf, lemma_occupied_room,
    lemma_remove_occupant_wf, BroadcastView, StateModel,
};
use std::collections::VecDeque;
use vstd::prelude::*;

verus! {

/// Why a command was not acted on.
#[derive(Clone, Copy, Debug, PartialEq, Eq, Structural)]
pub enum HandlerError {
    /// The application does not act on this kind of request.
    NotImplemented,
}

/// Applies commands to the application state and says what is to be told to whom.
pub struct CommandHandler {
    state: AppState,
}

impl View for CommandHandler {
    type V = StateModel;

    closed spec fn view(&self) -> StateModel {
        self.state@
    }
}

impl CommandHandler {
    /// A handler that owns the given state.
    pub fn new(state: AppState) -> (handler: CommandHandler)
        ensures
            handler@ == state@,
    {
        CommandHandler { state }
    }

    /// The state, to look at.
    pub fn state(&self) -> (state: &AppState)
        ensures
            state@ == self@,
    {
        &self.state
    }

    /// Handles a command that arrives now: [`CommandHandler::handle_at`] with the
    /// reading of the system clock.
    pub fn handle(
        &mut self,
        command: Command,
        event_buf: &mut VecDeque<Broadcast>,
    ) -> (done: Result<(), HandlerError>)
        requires
            old(self)@.wf(),
        ensures
            final(self)@.wf(),
            done is Ok <==> StateModel::handles(command@.payload),
            exists|now: Timestamp|
                {
                    &&& now.millis >= 0
                    &&& final(self)@ == #[trigger] old(self)@.handle(command@, now)
                    &&& views(final(event_buf)@) == views(old(event_buf)@) + old(self)@.broadcasts(
                        command@,
                        now,
                    )
                },
            old(self)@.exclusive() && !old(self)@.registers_occupant(command@)
                ==> final(self)@.exclusive(),
    {
        let now = Timestamp::now();
        self.handle_at(command, now, event_buf)
    }

    /// Handles a command that arrived at the given moment. The state changes as
    /// the model says, and what the command makes known is appended to the
    /// buffer in publishing order. Requests that the application does not act
    /// on change nothing and are refused.
    pub fn handle_at(
        &mut self,
        command: Command,
        now: Timestamp,
        event_buf: &mut VecDeque<Broadcast>,
    ) -> (done: Result<(), HandlerError>)
        requires
            old(self)@.wf(),
        ensures
            final(self)@ == old(self)@.handle(command@, now),
            final(self)@.wf(),
            views(final(event_buf)@) == views(old(event_buf)@) + old(self)@.broadcasts(
                command@,
                now,
            ),
            done is Ok <==> StateModel::handles(command@.payload),
            old(self)@.exclusive() && !old(self)@.registers_occupant(command@)
                ==> final(self)@.exclusive(),
    {
        proof {
            lemma_handle_wf(self@, command@, now);
            if self@.exclusive() && !self@.registers_occupant(command@) {
                lemma_handle_exclusive(self@, command@, now);
            }
        }
        let user = command.user;
        match command.payload {
            CommandPayload::DropUser => {
                self.handle_drop_user(&user, now, event_buf);
                Ok(())
            },
            CommandPayload::RegisterUser(_) => {
                let registered = self.register_user(&user);
                proof {
                    lemma_views_push(event_buf@, registered);
                }
                event_buf.push_back(registered);
                let joined = self.insert_occupant(&user, &Room::hub(), now);
                proof {
                    lemma_views_push(event_buf@, joined);
                    let wanted = old(self)@.broadcasts(command@, now);
                    assert(views(event_buf@.push(joined)) =~= views(old(event_buf)@) + wanted);
                }
                event_buf.push_back(joined);
                Ok(())
            },
            CommandPayload::MoveUser { target_room } => {
                let ghost before = views(event_buf@);
                match self.remove_occupant(&user, now) {
                    Some(left) => {
                        proof {
                            lemma_views_push(event_buf@, left);
                        }
                        event_buf.push_back(left);
                    },
                    None => {},
                }
                let joined = self.insert_occupant(&user, &target_room, now);
                proof {
                    lemma_views_push(event_buf@, joined);
                    assert(views(event_buf@.push(joined)) =~= before + old(self)@.broadcasts(
                        command@,
                        now,
                    ));
                }
                event_buf.push_back(joined);
                Ok(())
            },
            CommandPayload::RecordMessage { message } => {
                let msg_log = MessageLog::from_user_at(&user, message, now);
                let recipients = self.state.record_chat_message(&user, msg_log.clone());
                let told = Broadcast::new(Event::MsgReceived { msg: msg_log }, recipients);
                proof {
                    lemma_views_push(event_buf@, told);
                    let wanted = old(self)@.broadcasts(command@, now);
                    assert(views(event_buf@.push(told)) =~= views(old(event_buf)@) + wanted);
                }
                event_buf.push_back(told);
                Ok(())
            },
            _ => {
                assert(views(event_buf@) =~= views(old(event_buf)@) + old(self)@.broadcasts(
                    command@,
                    now,
                ));
                Err(HandlerError::NotImplemented)
            },
        }
    }

    /// Drops a user: it leaves its room, and the departure is announced. Where no
    /// room lists the user, a departure from the landing room is announced to
    /// that room's occupants and to the user.
    fn handle_drop_user(&mut self, user: &User, now: Timestamp, event_buf: &mut VecDeque<Broadcast>)
        requires
            old(self)@.wf(),
        ensures
            final(self)@ == old(self)@.drop_user(user@, now).0,
            views(final(event_buf)@) == views(old(event_buf)@).push(
                old(self)@.drop_user(user@, now).1,
            ),
    {
        let told = match self.remove_occupant(user, now) {
            Some(left) => left,
            None => {
                let room = Room::hub();
                let mut subscribers = self.state.room_subscribers(&room);
                proof {
                    lemma_views_push(subscribers@, *user);
                }
                subscribers.push(user.clone());
                let msg_log: Vec<MessageLog> = Vec::new();
                let notifications: Vec<NotificationLog> = Vec::new();
                let occupant_names = self.state.occupant_names(&room);
                proof {
                    assert(views(msg_log@) =~= Seq::empty());
                    assert(views(notifications@) =~= Seq::empty());
                }
                Broadcast::new(
                    Event::UserLeft {
                        user: user.clone(),
                        room,
                        msg_log,
                        notifications,
                        occupant_names,
                    },
                    subscribers,
                )
            },
        };
        proof {
            lemma_views_push(event_buf@, told);
        }
        event_buf.push_back(told);
    }

    /// The announcement, to the user alone, that it is registered under its token.
    fn register_user(&self, user: &User) -> (told: Broadcast)
        ensures
            told@ == (BroadcastView {
                event: EventView::UserRegistered { token: user@.id },
                subscribers: seq![user@],
            }),
    {
        let mut subscribers: Vec<User> = Vec::new();
        subscribers.push(user.clone());
        assert(views(subscribers@) =~= seq![user@]);
        Broadcast::new(Event::UserRegistered { token: user.id.clone() }, subscribers)
    }

    /// Takes the user out of its room, notes the departure there, and returns
    /// the announcement for those who were in the room. Does nothing where no
    /// room lists the user.
    fn remove_occupant(&mut self, user: &User, now: Timestamp) -> (told: Option<Broadcast>)
        requires
            old(self)@.wf(),
        ensures
            final(self)@ == old(self)@.remove_occupant(user@, now).0,
            final(self)@.wf(),
            option_broadcast_view(told) == old(self)@.remove_occupant(user@, now).1,
    {
        proof {
            lemma_remove_occupant_wf(self@, user@, now);
            lemma_occupied_room(self@, user@);
        }
        let current_room = match self.state.get_occupied_room(user) {
            Some(room) => room,
            None => {
                return None;
            },
        };
        let subscribers = self.state.room_subscribers(&current_room);
        let notice = NotificationLog::left(&user.name, &current_room.name, now);
        self.state.remove_user_from_room(user, notice);
        let occupant_names = self.state.occupant_names(&current_room);
        let notifications = self.state.room_notifications(&current_room);
        let msg_log = self.state.room_chat_logs(&current_room);
        Some(
            Broadcast::new(
                Event::UserLeft {
                    user: user.clone(),
                    room: current_room,
                    msg_log,
                    notifications,
                    occupant_names,
                },
                subscribers,
            ),
        )
    }

    /// Puts the user into the room, notes the entry, and returns the announcement
    /// for the room's occupants.
    fn insert_occupant(&mut self, user: &User, room: &Room, now: Timestamp) -> (told: Broadcast)
        requires
            old(self)@.wf(),
        ensures
            final(self)@ == old(self)@.insert_occupant(user@, room@, now).0,
            final(self)@.wf(),
            told@ == old(self)@.insert_occupant(user@, room@, now).1,
    {
        self.state.add_user_to_room(user, room);
        self.state.record_notification(user, NotificationLog::joined(&user.name, &room.name, now));
        let msg_log = self.state.room_chat_logs(room);
        let notifications = self.state.room_notifications(room);
        let occupant_names = self.state.occupant_names(room);
        let subscribers = self.state.room_subscribers(room);
        Broadcast::new(
            Event::UserJoined {
                user: user.clone(),
                room: room.clone(),
                msg_log,
                notifications,
                occupant_names,
            },
            subscribers,
        )
    }
}

/// The model of an optional broadcast.
pub open spec fn option_broadcast_view(told: Option<Broadcast>) -> Option<BroadcastView> {
    match told {
        Some(b) => Some(b@),
        None => None,
    }
}

} // verus!

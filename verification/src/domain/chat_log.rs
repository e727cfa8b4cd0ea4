//! Chat messages as rooms record them.

use crate::domain::text::{push_two_digits, two_digits};
use crate::domain::timestamp::{second_of_day, Timestamp};
use crate::domain::user::User;
use crate::wire::messages::{ChatMsg, ChatMsgView, ClientMsg, ClientMsgBody, ClientMsgBodyView};
use vstd::prelude::*;
use vstd::string::StringExecFns;

verus! {

/// Model of a [`MessageLog`].
pub struct MessageLogView {
    pub username: Seq<char>,
    pub timestamp: Timestamp,
    pub contents: Seq<char>,
}

/// A chat message recorded in a room.
#[derive(Debug, PartialEq, Eq)]
pub struct MessageLog {
    pub username: String,
    pub timestamp: Timestamp,
    pub contents: String,
}

impl View for MessageLog {
    type V = MessageLogView;

    open spec fn view(&self) -> MessageLogView {
        MessageLogView {
            username: self.username@,
            timestamp: self.timestamp,
            contents: self.contents@,
        }
    }
}

impl Clone for MessageLog {
    fn clone(&self) -> (copy: MessageLog)
        ensures
            copy == *self,
    {
        MessageLog {
            username: self.username.clone(),
            timestamp: self.timestamp,
            contents: self.contents.clone(),
        }
    }
}

impl MessageLogView {
    /// The entry that a client message gives rise to: one for a message sent to
    /// the room, none for any other request.
    pub open spec fn of_client_msg(
        body: ClientMsgBodyView,
        timestamp: Timestamp,
        username: Seq<char>,
    ) -> Option<MessageLogView> {
        match body {
            ClientMsgBodyView::SendToRoom { contents } => Some(
                MessageLogView { username, timestamp, contents },
            ),
            _ => None,
        }
    }

    /// The display form: `[ name | HH-MM-SS ]: contents`, the time of day in UTC.
    pub open spec fn text(self) -> Seq<char> {
        let of_day = second_of_day(self.timestamp.millis as int);
        "[ "@ + self.username + " | "@ + two_digits(of_day / 3600) + "-"@ + two_digits(
            (of_day % 3600) / 60,
        ) + "-"@ + two_digits(of_day % 60) + " ]: "@ + self.contents
    }

    /// The same message in the form sent to clients.
    pub open spec fn chat_msg(self) -> ChatMsgView {
        ChatMsgView { sender: self.username, timestamp: self.timestamp, content: self.contents }
    }
}

impl MessageLog {
    /// The log entry for a client's chat message, under the given user name.
    /// Other requests give none.
    pub fn from_client_msg(client_msg: ClientMsg, username: &str) -> (entry: Option<MessageLog>)
        ensures
            option_log_view(entry) == MessageLogView::of_client_msg(
                client_msg.body@,
                client_msg.timestamp,
                username@,
            ),
    {
        match client_msg.body {
            ClientMsgBody::SendToRoom { contents } => Some(
                MessageLog {
                    username: username.to_owned(),
                    timestamp: client_msg.timestamp,
                    contents,
                },
            ),
            _ => None,
        }
    }

    /// The log entry for a message that a user sent at a given moment.
    pub fn from_user_at(user: &User, message: String, now: Timestamp) -> (entry: MessageLog)
        ensures
            entry@ == (MessageLogView { username: user.name@, timestamp: now, contents: message@ }),
    {
        MessageLog { username: user.name.clone(), timestamp: now, contents: message }
    }

    /// The log entry for a message that a user sends now.
    pub fn from_user(user: &User, message: String) -> (entry: MessageLog)
        ensures
            entry@.username == user.name@,
            entry@.contents == message@,
            entry@.timestamp.millis >= 0,
    {
        MessageLog::from_user_at(user, message, Timestamp::now())
    }

    /// The display form of the entry.
    pub fn to_text(&self) -> (text: String)
        ensures
            text@ == self@.text(),
    {
        let (hour, minute, second) = self.timestamp.hms();
        let mut text = "[ ".to_owned();
        text.append(self.username.as_str());
        text.append(" | ");
        push_two_digits(&mut text, hour);
        text.append("-");
        push_two_digits(&mut text, minute);
        text.append("-");
        push_two_digits(&mut text, second);
        text.append(" ]: ");
        text.append(self.contents.as_str());
        text
    }

    /// The entry in the form sent to clients.
    pub fn to_chat_msg(&self) -> (msg: ChatMsg)
        ensures
            msg@ == self@.chat_msg(),
    {
        ChatMsg {
            sender: self.username.clone(),
            timestamp: self.timestamp,
            content: self.contents.clone(),
        }
    }
}

/// The model of an optional log entry.
pub open spec fn option_log_view(entry: Option<MessageLog>) -> Option<MessageLogView> {
    match entry {
        Some(e) => Some(e@),
        None => None,
    }
}

} // verus!

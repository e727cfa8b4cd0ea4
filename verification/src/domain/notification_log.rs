//! Notices that the server writes into a room's log.

use crate::domain::timestamp::Timestamp;
use vstd::prelude::*;
use vstd::string::StringExecFns;

verus! {

/// The author of every notice.
pub open spec fn server_name() -> Seq<char> {
    "SERVER"@
}

/// Model of a [`NotificationLog`].
pub struct NotificationLogView {
    pub notifier: Seq<char>,
    pub timestamp: Timestamp,
    pub contents: Seq<char>,
}

/// A notice written by the server.
#[derive(Debug, PartialEq, Eq)]
pub struct NotificationLog {
    pub notifier: String,
    pub timestamp: Timestamp,
    pub contents: String,
}

impl View for NotificationLog {
    type V = NotificationLogView;

    open spec fn view(&self) -> NotificationLogView {
        NotificationLogView {
            notifier: self.notifier@,
            timestamp: self.timestamp,
            contents: self.contents@,
        }
    }
}

impl Clone for NotificationLog {
    fn clone(&self) -> (copy: NotificationLog)
        ensures
            copy == *self,
    {
        NotificationLog {
            notifier: self.notifier.clone(),
            timestamp: self.timestamp,
            contents: self.contents.clone(),
        }
    }
}

impl NotificationLogView {
    /// The server's notice with the given text, written at the given moment.
    pub open spec fn notice(text: Seq<char>, at: Timestamp) -> NotificationLogView {
        NotificationLogView { notifier: server_name(), timestamp: at, contents: text }
    }

    /// The notice that a user has entered a room.
    pub open spec fn joined(name: Seq<char>, room: Seq<char>, at: Timestamp)
        -> NotificationLogView {
        NotificationLogView::notice(name + " joined "@ + room, at)
    }

    /// The notice that a user has left a room.
    pub open spec fn left(name: Seq<char>, room: Seq<char>, at: Timestamp) -> NotificationLogView {
        NotificationLogView::notice(name + " left "@ + room, at)
    }
}

impl NotificationLog {
    /// The server's notice with the given text, written at the given moment.
    pub fn at(text: String, now: Timestamp) -> (notice: NotificationLog)
        ensures
            notice@ == NotificationLogView::notice(text@, now),
    {
        NotificationLog { notifier: "SERVER".to_owned(), timestamp: now, contents: text }
    }

    /// The server's notice with the given text, written now.
    pub fn new(text: String) -> (notice: NotificationLog)
        ensures
            notice@.notifier == server_name(),
            notice@.contents == text@,
            notice@.timestamp.millis >= 0,
    {
        NotificationLog::at(text, Timestamp::now())
    }

    /// The notice that a user has entered a room.
    pub fn joined(name: &String, room: &String, now: Timestamp) -> (notice: NotificationLog)
        ensures
            notice@ == NotificationLogView::joined(name@, room@, now),
    {
        let mut text = name.clone();
        text.append(" joined ");
        text.append(room.as_str());
        NotificationLog::at(text, now)
    }

    /// The notice that a user has left a room.
    pub fn left(name: &String, room: &String, now: Timestamp) -> (notice: NotificationLog)
        ensures
            notice@ == NotificationLogView::left(name@, room@, now),
    {
        let mut text = name.clone();
        text.append(" left ");
        text.append(room.as_str());
        NotificationLog::at(text, now)
    }
}

} // verus!

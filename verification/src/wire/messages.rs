//! The messages of the client protocol.

use crate::domain::model::views;
use crate::domain::timestamp::Timestamp;
use vstd::prelude::*;

verus! {

/// The model of an optional text.
pub open spec fn option_text_view(text: Option<String>) -> Option<Seq<char>> {
    match text {
        Some(t) => Some(t@),
        None => None,
    }
}

/// Model of a [`ClientMsgBody`].
pub enum ClientMsgBodyView {
    Login(Seq<char>, Seq<u8>),
    SendToRoom { contents: Seq<char> },
    Move { target: Seq<char> },
    GetTime,
}

/// What a client asks for.
#[derive(Debug, PartialEq, Eq)]
pub enum ClientMsgBody {
    /// Name and X25519 public key of a client that wants to log in.
    Login(String, [u8; 32]),
    /// A chat message for the sender's current room.
    SendToRoom { contents: String },
    /// A request to move to the named room.
    Move { target: String },
    /// A request for the server's time.
    GetTime,
}

impl View for ClientMsgBody {
    type V = ClientMsgBodyView;

    open spec fn view(&self) -> ClientMsgBodyView {
        match *self {
            ClientMsgBody::Login(name, key) => ClientMsgBodyView::Login(name@, key@),
            ClientMsgBody::SendToRoom { contents } => ClientMsgBodyView::SendToRoom {
                contents: contents@,
            },
            ClientMsgBody::Move { target } => ClientMsgBodyView::Move { target: target@ },
            ClientMsgBody::GetTime => ClientMsgBodyView::GetTime,
        }
    }
}

impl Clone for ClientMsgBody {
    fn clone(&self) -> (copy: ClientMsgBody)
        ensures
            copy == *self,
    {
        match self {
            ClientMsgBody::Login(name, key) => ClientMsgBody::Login(name.clone(), *key),
            ClientMsgBody::SendToRoom { contents } => ClientMsgBody::SendToRoom {
                contents: contents.clone(),
            },
            ClientMsgBody::Move { target } => ClientMsgBody::Move { target: target.clone() },
            ClientMsgBody::GetTime => ClientMsgBody::GetTime,
        }
    }
}

/// Model of a [`ClientMsg`].
pub struct ClientMsgView {
    pub token: Option<Seq<char>>,
    pub timestamp: Timestamp,
    pub body: ClientMsgBodyView,
}

/// A message from a client. A login carries no token; every later message
/// carries the token that the login was answered with.
#[derive(Debug, PartialEq, Eq)]
pub struct ClientMsg {
    pub token: Option<String>,
    pub timestamp: Timestamp,
    pub body: ClientMsgBody,
}

impl View for ClientMsg {
    type V = ClientMsgView;

    open spec fn view(&self) -> ClientMsgView {
        ClientMsgView {
            token: option_text_view(self.token),
            timestamp: self.timestamp,
            body: self.body@,
        }
    }
}

impl Clone for ClientMsg {
    fn clone(&self) -> (copy: ClientMsg)
        ensures
            copy == *self,
    {
        let token = match &self.token {
            Some(t) => Some(t.clone()),
            None => None,
        };
        ClientMsg { token, timestamp: self.timestamp, body: self.body.clone() }
    }
}

/// Model of a [`Status`].
pub enum StatusView {
    Yes,
    No(Seq<char>),
    JustNo,
}

/// How the server answers.
#[derive(Debug, PartialEq, Eq)]
pub enum Status {
    Yes,
    /// Refused, with the reason.
    No(String),
    JustNo,
}

impl View for Status {
    type V = StatusView;

    open spec fn view(&self) -> StatusView {
        match *self {
            Status::Yes => StatusView::Yes,
            Status::No(reason) => StatusView::No(reason@),
            Status::JustNo => StatusView::JustNo,
        }
    }
}

impl Clone for Status {
    fn clone(&self) -> (copy: Status)
        ensures
            copy == *self,
    {
        match self {
            Status::Yes => Status::Yes,
            Status::No(reason) => Status::No(reason.clone()),
            Status::JustNo => Status::JustNo,
        }
    }
}

/// Model of a [`ChatMsg`].
pub struct ChatMsgView {
    pub sender: Seq<char>,
    pub timestamp: Timestamp,
    pub content: Seq<char>,
}

/// One chat message as clients see it.
#[derive(Debug, PartialEq, Eq)]
pub struct ChatMsg {
    pub sender: String,
    pub timestamp: Timestamp,
    pub content: String,
}

impl View for ChatMsg {
    type V = ChatMsgView;

    open spec fn view(&self) -> ChatMsgView {
        ChatMsgView { sender: self.sender@, timestamp: self.timestamp, content: self.content@ }
    }
}

impl Clone for ChatMsg {
    fn clone(&self) -> (copy: ChatMsg)
        ensures
            copy == *self,
    {
        ChatMsg {
            sender: self.sender.clone(),
            timestamp: self.timestamp,
            content: self.content.clone(),
        }
    }
}

/// Model of a [`ServerMsgBody`].
pub enum ServerMsgBodyView {
    Empty,
    LoginSuccess { token: Seq<char>, public_key: Seq<u8> },
    ChatRecv { direct: bool, chat_msg: ChatMsgView },
    RoomData { query_ts: Timestamp, logs: Seq<ChatMsgView>, occupants: Seq<Seq<char>> },
}

/// What the server sends.
#[derive(Debug, PartialEq, Eq)]
pub enum ServerMsgBody {
    Empty,
    /// The token of the new session and the server's X25519 public key.
    LoginSuccess { token: String, public_key: [u8; 32] },
    /// A chat message delivered to a room occupant.
    ChatRecv { direct: bool, chat_msg: ChatMsg },
    /// The state of a room: its recent log and who is in it.
    RoomData { query_ts: Timestamp, logs: Vec<ChatMsg>, occupants: Vec<String> },
}

impl View for ServerMsgBody {
    type V = ServerMsgBodyView;

    open spec fn view(&self) -> ServerMsgBodyView {
        match *self {
            ServerMsgBody::Empty => ServerMsgBodyView::Empty,
            ServerMsgBody::LoginSuccess { token, public_key } => ServerMsgBodyView::LoginSuccess {
                token: token@,
                public_key: public_key@,
            },
            ServerMsgBody::ChatRecv { direct, chat_msg } => ServerMsgBodyView::ChatRecv {
                direct,
                chat_msg: chat_msg@,
            },
            ServerMsgBody::RoomData { query_ts, logs, occupants } => ServerMsgBodyView::RoomData {
                query_ts,
                logs: views(logs@),
                occupants: views(occupants@),
            },
        }
    }
}

impl Clone for ServerMsgBody {
    fn clone(&self) -> (copy: ServerMsgBody)
        ensures
            copy@ == self@,
    {
        match self {
            ServerMsgBody::Empty => ServerMsgBody::Empty,
            ServerMsgBody::LoginSuccess { token, public_key } => ServerMsgBody::LoginSuccess {
                token: token.clone(),
                public_key: *public_key,
            },
            ServerMsgBody::ChatRecv { direct, chat_msg } => ServerMsgBody::ChatRecv {
                direct: *direct,
                chat_msg: chat_msg.clone(),
            },
            ServerMsgBody::RoomData { query_ts, logs, occupants } => {
                let logs_copy = logs.clone();
                let occupants_copy = occupants.clone();
                proof {
                    assert(logs_copy@ =~= logs@);
                    assert(occupants_copy@ =~= occupants@);
                }
                ServerMsgBody::RoomData {
                    query_ts: *query_ts,
                    logs: logs_copy,
                    occupants: occupants_copy,
                }
            },
        }
    }
}

/// Model of a [`ServerMsg`].
pub struct ServerMsgView {
    pub status: StatusView,
    pub timestamp: Timestamp,
    pub body: ServerMsgBodyView,
}

/// A message from the server.
#[derive(Debug, PartialEq, Eq)]
pub struct ServerMsg {
    pub status: Status,
    pub timestamp: Timestamp,
    pub body: ServerMsgBody,
}

impl View for ServerMsg {
    type V = ServerMsgView;

    open spec fn view(&self) -> ServerMsgView {
        ServerMsgView { status: self.status@, timestamp: self.timestamp, body: self.body@ }
    }
}

impl Clone for ServerMsg {
    fn clone(&self) -> (copy: ServerMsg)
        ensures
            copy@ == self@,
    {
        ServerMsg {
            status: self.status.clone(),
            timestamp: self.timestamp,
            body: self.body.clone(),
        }
    }
}

} // verus!

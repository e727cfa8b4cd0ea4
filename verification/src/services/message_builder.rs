//! The messages that the server sends, built and written as bytes. What is
//! sent after the handshake is encrypted by the caller before it goes out.

use crate::domain::chat_log::{MessageLog, MessageLogView};
use crate::domain::model::views;
use crate::domain::notification_log::{NotificationLog, NotificationLogView};
use crate::domain::timestamp::Timestamp;
use crate::wire::codec::serialize_server_msg;
use crate::wire::format::{enc_server_msg, server_msg_of};
use crate::wire::messages::{
    ChatMsg, ChatMsgView, ServerMsg, ServerMsgBody, ServerMsgBodyView, ServerMsgView, Status,
    StatusView,
};
use vstd::prelude::*;

verus! {

/// A notice in the form of a chat message from its author.
pub open spec fn notice_chat_msg(notice: NotificationLogView) -> ChatMsgView {
    ChatMsgView { sender: notice.notifier, timestamp: notice.timestamp, content: notice.contents }
}

/// The log that clients are shown for a room. A room's state has two logs and
/// the message that tells of it has one list, so the two are put one after
/// the other: first the chat messages, oldest first, then the notices, oldest
/// first, each notice as a message from its author.
pub open spec fn room_log(msg_log: Seq<MessageLogView>, notifications: Seq<NotificationLogView>)
    -> Seq<ChatMsgView> {
    msg_log.map_values(|m: MessageLogView| m.chat_msg()) + notifications.map_values(
        |n: NotificationLogView| notice_chat_msg(n),
    )
}

/// The answer to a successful login.
pub open spec fn login_success_msg(token: Seq<char>, public_key: Seq<u8>, now: Timestamp)
    -> ServerMsgView {
    ServerMsgView {
        status: StatusView::Yes,
        timestamp: now,
        body: ServerMsgBodyView::LoginSuccess { token, public_key },
    }
}

/// The answer to a failed login.
pub open spec fn login_fail_msg(now: Timestamp) -> ServerMsgView {
    ServerMsgView { status: StatusView::JustNo, timestamp: now, body: ServerMsgBodyView::Empty }
}

/// The delivery of a chat message to a room occupant.
pub open spec fn msg_log_msg(msg: MessageLogView) -> ServerMsgView {
    ServerMsgView {
        status: StatusView::Yes,
        timestamp: msg.timestamp,
        body: ServerMsgBodyView::ChatRecv { direct: false, chat_msg: msg.chat_msg() },
    }
}

/// The answer to a time request.
pub open spec fn time_msg(time: Timestamp) -> ServerMsgView {
    ServerMsgView { status: StatusView::Yes, timestamp: time, body: ServerMsgBodyView::Empty }
}

/// The state of a room, as sent when somebody enters or leaves it.
pub open spec fn room_data_msg(
    msg_log: Seq<MessageLogView>,
    notifications: Seq<NotificationLogView>,
    occupant_names: Seq<Seq<char>>,
    now: Timestamp,
) -> ServerMsgView {
    ServerMsgView {
        status: StatusView::Yes,
        timestamp: now,
        body: ServerMsgBodyView::RoomData {
            query_ts: now,
            logs: room_log(msg_log, notifications),
            occupants: occupant_names,
        },
    }
}

/// Builds the messages that the server sends.
pub struct ServerMsgFactory;

impl ServerMsgFactory {
    /// The answer to a successful login: the session's token and the server's
    /// public key.
    pub fn build_login_success_server_msg(
        token: String,
        public_key: [u8; 32],
        now: Timestamp,
    ) -> (msg: ServerMsg)
        ensures
            msg@ == login_success_msg(token@, public_key@, now),
    {
        ServerMsg {
            status: Status::Yes,
            timestamp: now,
            body: ServerMsgBody::LoginSuccess { token, public_key },
        }
    }

    /// The answer to a failed login.
    pub fn build_login_fail_server_msg(now: Timestamp) -> (msg: ServerMsg)
        ensures
            msg@ == login_fail_msg(now),
    {
        ServerMsg { status: Status::JustNo, timestamp: now, body: ServerMsgBody::Empty }
    }

    /// The delivery of a chat message: from its author, at its own time, not direct.
    pub fn build_msg_log_server_msg(msg: MessageLog) -> (server_msg: ServerMsg)
        ensures
            server_msg@ == msg_log_msg(msg@),
    {
        ServerMsg {
            status: Status::Yes,
            timestamp: msg.timestamp,
            body: ServerMsgBody::ChatRecv { direct: false, chat_msg: msg.to_chat_msg() },
        }
    }

    /// The answer to a time request.
    pub fn build_time_server_msg(time: Timestamp) -> (msg: ServerMsg)
        ensures
            msg@ == time_msg(time),
    {
        ServerMsg { status: Status::Yes, timestamp: time, body: ServerMsgBody::Empty }
    }

    /// The state of a room.
    pub fn build_room_data_server_msg(
        msg_log: Vec<MessageLog>,
        notifications: Vec<NotificationLog>,
        occupant_names: Vec<String>,
        now: Timestamp,
    ) -> (msg: ServerMsg)
        ensures
            msg@ == room_data_msg(
                views(msg_log@),
                views(notifications@),
                views(occupant_names@),
                now,
            ),
    {
        let mut logs: Vec<ChatMsg> = Vec::new();
        let mut i: usize = 0;
        while i < msg_log.len()
            invariant
                i <= msg_log.len(),
                logs@.len() == i,
                forall|j: int| 0 <= j < i ==> logs@[j]@ == msg_log@[j]@.chat_msg(),
            decreases msg_log.len() - i,
        {
            logs.push(msg_log[i].to_chat_msg());
            i = i + 1;
        }
        let mut k: usize = 0;
        while k < notifications.len()
            invariant
                k <= notifications.len(),
                logs@.len() == msg_log@.len() + k,
                forall|j: int| 0 <= j < msg_log@.len() ==> logs@[j]@ == msg_log@[j]@.chat_msg(),
                forall|j: int|
                    0 <= j < k ==> logs@[msg_log@.len() + j]@ == notice_chat_msg(
                        notifications@[j]@,
                    ),
            decreases notifications.len() - k,
        {
            let notice = &notifications[k];
            logs.push(
                ChatMsg {
                    sender: notice.notifier.clone(),
                    timestamp: notice.timestamp,
                    content: notice.contents.clone(),
                },
            );
            k = k + 1;
        }
        proof {
            assert(views(logs@) =~= room_log(views(msg_log@), views(notifications@)));
        }
        ServerMsg {
            status: Status::Yes,
            timestamp: now,
            body: ServerMsgBody::RoomData { query_ts: now, logs, occupants: occupant_names },
        }
    }
}

/// Turns what the server has to say into the bytes of a frame.
pub struct SocketSendAdaptor;

impl SocketSendAdaptor {
    /// The bytes of a message.
    pub fn serialized_server_msg(s: ServerMsg) -> (bytes: Vec<u8>)
        ensures
            bytes@ == enc_server_msg(s@),
            server_msg_of(bytes@) == Some(s@),
    {
        serialize_server_msg(&s)
    }

    /// The frame that answers a successful login at the given moment. It goes
    /// out as it is, not encrypted.
    pub fn on_login_success_at(token: String, public_key: [u8; 32], now: Timestamp) -> (bytes: Vec<
        u8,
    >)
        ensures
            bytes@ == enc_server_msg(login_success_msg(token@, public_key@, now)),
            server_msg_of(bytes@) == Some(login_success_msg(token@, public_key@, now)),
    {
        SocketSendAdaptor::serialized_server_msg(
            ServerMsgFactory::build_login_success_server_msg(token, public_key, now),
        )
    }

    /// The frame that answers a successful login now.
    pub fn on_login_success(token: String, public_key: [u8; 32]) -> (bytes: Vec<u8>)
        ensures
            exists|now: Timestamp|
                now.millis >= 0 && #[trigger] server_msg_of(bytes@) == Some(
                    login_success_msg(token@, public_key@, now),
                ),
    {
        let now = Timestamp::now();
        let bytes = SocketSendAdaptor::on_login_success_at(token, public_key, now);
        assert(server_msg_of(bytes@) == Some(login_success_msg(token@, public_key@, now)));
        bytes
    }

    /// The frame that answers a failed login at the given moment. It goes out
    /// as it is, not encrypted.
    pub fn on_login_failed_at(now: Timestamp) -> (bytes: Vec<u8>)
        ensures
            bytes@ == enc_server_msg(login_fail_msg(now)),
            server_msg_of(bytes@) == Some(login_fail_msg(now)),
    {
        SocketSendAdaptor::serialized_server_msg(ServerMsgFactory::build_login_fail_server_msg(now))
    }

    /// The bytes, before encryption, that deliver a chat message.
    pub fn prepare_send_msg_log(msg: MessageLog) -> (bytes: Vec<u8>)
        ensures
            bytes@ == enc_server_msg(msg_log_msg(msg@)),
            server_msg_of(bytes@) == Some(msg_log_msg(msg@)),
    {
        SocketSendAdaptor::serialized_server_msg(ServerMsgFactory::build_msg_log_server_msg(msg))
    }

    /// The bytes, before encryption, that answer a time request.
    pub fn prepare_send_time(t: Timestamp) -> (bytes: Vec<u8>)
        ensures
            bytes@ == enc_server_msg(time_msg(t)),
            server_msg_of(bytes@) == Some(time_msg(t)),
    {
        SocketSendAdaptor::serialized_server_msg(ServerMsgFactory::build_time_server_msg(t))
    }

    /// The bytes, before encryption, that tell the state of a room.
    pub fn room_data_response(
        msg_log: Vec<MessageLog>,
        notifications: Vec<NotificationLog>,
        occupant_names: Vec<String>,
        now: Timestamp,
    ) -> (bytes: Vec<u8>)
        ensures
            bytes@ == enc_server_msg(
                room_data_msg(
                    views(msg_log@),
                    views(notifications@),
                    views(occupant_names@),
                    now,
                ),
            ),
            server_msg_of(bytes@) == Some(
                room_data_msg(
                    views(msg_log@),
                    views(notifications@),
                    views(occupant_names@),
                    now,
                ),
            ),
    {
        SocketSendAdaptor::serialized_server_msg(
            ServerMsgFactory::build_room_data_server_msg(
                msg_log,
                notifications,
                occupant_names,
                now,
            ),
        )
    }
}

} // verus!

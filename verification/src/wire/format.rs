//! The binary form of the messages: what bytes a message is written as, and what
//! message a run of bytes is read as.
//!
//! Integers are little-endian and of fixed width. A text is its length in bytes,
//! as a 64-bit integer, and then its UTF-8 bytes. A list is its length, as a
//! 64-bit integer, and then its items. An optional value is one byte, 0 or 1,
//! and the value where the byte is 1. A variant is its number, as a 32-bit
//! integer, and then its fields. A key is its 32 bytes. A moment is its
//! milliseconds as a 64-bit integer in two's complement.

use crate::domain::timestamp::Timestamp;
use crate::wire::messages::{
    ChatMsgView, ClientMsgBodyView, ClientMsgView, ServerMsgBodyView, ServerMsgView, StatusView,
};
use vstd::bytes::{
    spec_u32_from_le_bytes, spec_u32_to_le_bytes, spec_u64_from_le_bytes, spec_u64_to_le_bytes,
};
use vstd::prelude::*;
use vstd::utf8::{
    decode_utf8, encode_utf8, valid_utf8,
};

verus! {

/// The length of a key in bytes.
pub const KEY_LEN: usize = 32;

// ---------------------------------------------------------------------------
// Writing
// ---------------------------------------------------------------------------
/// A length or count.
pub open spec fn enc_len(n: nat) -> Seq<u8> {
    spec_u64_to_le_bytes(n as u64)
}

/// The number of a variant.
pub open spec fn enc_tag(tag: u32) -> Seq<u8> {
    spec_u32_to_le_bytes(tag)
}

/// A moment.
pub open spec fn enc_time(t: Timestamp) -> Seq<u8> {
    spec_u64_to_le_bytes(t.millis as u64)
}

/// A truth value.
pub open spec fn enc_bool(b: bool) -> Seq<u8> {
    seq![if b { 1u8 } else { 0u8 }]
}

/// A text.
pub open spec fn enc_text(text: Seq<char>) -> Seq<u8> {
    enc_len(encode_utf8(text).len()) + encode_utf8(text)
}

/// An optional text.
pub open spec fn enc_option_text(text: Option<Seq<char>>) -> Seq<u8> {
    match text {
        Some(t) => seq![1u8] + enc_text(t),
        None => seq![0u8],
    }
}

/// A chat message.
pub open spec fn enc_chat(msg: ChatMsgView) -> Seq<u8> {
    enc_text(msg.sender) + enc_time(msg.timestamp) + enc_text(msg.content)
}

/// Chat messages one after the other.
pub open spec fn enc_chat_items(msgs: Seq<ChatMsgView>) -> Seq<u8>
    decreases msgs.len(),
{
    if msgs.len() == 0 {
        Seq::empty()
    } else {
        enc_chat(msgs[0]) + enc_chat_items(msgs.drop_first())
    }
}

/// A list of chat messages.
pub open spec fn enc_chats(msgs: Seq<ChatMsgView>) -> Seq<u8> {
    enc_len(msgs.len()) + enc_chat_items(msgs)
}

/// Texts one after the other.
pub open spec fn enc_text_items(texts: Seq<Seq<char>>) -> Seq<u8>
    decreases texts.len(),
{
    if texts.len() == 0 {
        Seq::empty()
    } else {
        enc_text(texts[0]) + enc_text_items(texts.drop_first())
    }
}

/// A list of texts.
pub open spec fn enc_texts(texts: Seq<Seq<char>>) -> Seq<u8> {
    enc_len(texts.len()) + enc_text_items(texts)
}

/// The request of a client.
pub open spec fn enc_client_body(body: ClientMsgBodyView) -> Seq<u8> {
    match body {
        ClientMsgBodyView::Login(name, key) => enc_tag(0) + enc_text(name) + key,
        ClientMsgBodyView::SendToRoom { contents } => enc_tag(1) + enc_text(contents),
        ClientMsgBodyView::Move { target } => enc_tag(2) + enc_text(target),
        ClientMsgBodyView::GetTime => enc_tag(3),
    }
}

/// A message from a client.
pub open spec fn enc_client_msg(msg: ClientMsgView) -> Seq<u8> {
    enc_option_text(msg.token) + enc_time(msg.timestamp) + enc_client_body(msg.body)
}

/// The status of an answer.
pub open spec fn enc_status(status: StatusView) -> Seq<u8> {
    match status {
        StatusView::Yes => enc_tag(0),
        StatusView::No(reason) => enc_tag(1) + enc_text(reason),
        StatusView::JustNo => enc_tag(2),
    }
}

/// What the server sends.
pub open spec fn enc_server_body(body: ServerMsgBodyView) -> Seq<u8> {
    match body {
        ServerMsgBodyView::Empty => enc_tag(0),
        ServerMsgBodyView::LoginSuccess { token, public_key } => enc_tag(1) + enc_text(token)
            + public_key,
        ServerMsgBodyView::ChatRecv { direct, chat_msg } => enc_tag(2) + enc_bool(direct)
            + enc_chat(chat_msg),
        ServerMsgBodyView::RoomData { query_ts, logs, occupants } => enc_tag(3) + enc_time(
            query_ts,
        ) + enc_chats(logs) + enc_texts(occupants),
    }
}

/// A message from the server.
pub open spec fn enc_server_msg(msg: ServerMsgView) -> Seq<u8> {
    enc_status(msg.status) + enc_time(msg.timestamp) + enc_server_body(msg.body)
}

// ---------------------------------------------------------------------------
// Reading: each reader gives the value at the head of the bytes and the bytes
// that follow it, or nothing where the head is no such value.
// ---------------------------------------------------------------------------
/// A length or count.
pub open spec fn dec_len(bytes: Seq<u8>) -> Option<(nat, Seq<u8>)> {
    if bytes.len() >= 8 {
        Some((spec_u64_from_le_bytes(bytes.subrange(0, 8)) as nat, bytes.skip(8)))
    } else {
        None
    }
}

/// The number of a variant.
pub open spec fn dec_tag(bytes: Seq<u8>) -> Option<(u32, Seq<u8>)> {
    if bytes.len() >= 4 {
        Some((spec_u32_from_le_bytes(bytes.subrange(0, 4)), bytes.skip(4)))
    } else {
        None
    }
}

/// A moment.
pub open spec fn dec_time(bytes: Seq<u8>) -> Option<(Timestamp, Seq<u8>)> {
    if bytes.len() >= 8 {
        Some(
            (
                Timestamp { millis: spec_u64_from_le_bytes(bytes.subrange(0, 8)) as i64 },
                bytes.skip(8),
            ),
        )
    } else {
        None
    }
}

/// A truth value: the byte 0 or 1.
pub open spec fn dec_bool(bytes: Seq<u8>) -> Option<(bool, Seq<u8>)> {
    if bytes.len() >= 1 && bytes[0] <= 1 {
        Some((bytes[0] == 1, bytes.skip(1)))
    } else {
        None
    }
}

/// A key: 32 bytes.
pub open spec fn dec_key(bytes: Seq<u8>) -> Option<(Seq<u8>, Seq<u8>)> {
    if bytes.len() >= KEY_LEN {
        Some((bytes.subrange(0, KEY_LEN as int), bytes.skip(KEY_LEN as int)))
    } else {
        None
    }
}

/// A text: the stated number of bytes, which must be UTF-8.
pub open spec fn dec_text(bytes: Seq<u8>) -> Option<(Seq<char>, Seq<u8>)> {
    match dec_len(bytes) {
        Some((n, rest)) => if n <= rest.len() && valid_utf8(rest.subrange(0, n as int)) {
            Some((decode_utf8(rest.subrange(0, n as int)), rest.skip(n as int)))
        } else {
            None
        },
        None => None,
    }
}

/// An optional text.
pub open spec fn dec_option_text(bytes: Seq<u8>) -> Option<(Option<Seq<char>>, Seq<u8>)> {
    match dec_bool(bytes) {
        Some((present, rest)) => if present {
            match dec_text(rest) {
                Some((t, after)) => Some((Some(t), after)),
                None => None,
            }
        } else {
            Some((None, rest))
        },
        None => None,
    }
}

/// A chat message.
pub open spec fn dec_chat(bytes: Seq<u8>) -> Option<(ChatMsgView, Seq<u8>)> {
    match dec_text(bytes) {
        Some((sender, b1)) => match dec_time(b1) {
            Some((timestamp, b2)) => match dec_text(b2) {
                Some((content, b3)) => Some((ChatMsgView { sender, timestamp, content }, b3)),
                None => None,
            },
            None => None,
        },
        None => None,
    }
}

/// The given number of chat messages, one after the other.
pub open spec fn dec_chat_items(bytes: Seq<u8>, count: nat) -> Option<(Seq<ChatMsgView>, Seq<u8>)>
    decreases count,
{
    if count == 0 {
        Some((Seq::empty(), bytes))
    } else {
        match dec_chat(bytes) {
            Some((first, rest)) => match dec_chat_items(rest, (count - 1) as nat) {
                Some((others, after)) => Some((seq![first] + others, after)),
                None => None,
            },
            None => None,
        }
    }
}

/// A list of chat messages.
pub open spec fn dec_chats(bytes: Seq<u8>) -> Option<(Seq<ChatMsgView>, Seq<u8>)> {
    match dec_len(bytes) {
        Some((count, rest)) => dec_chat_items(rest, count),
        None => None,
    }
}

/// The given number of texts, one after the other.
pub open spec fn dec_text_items(bytes: Seq<u8>, count: nat) -> Option<(Seq<Seq<char>>, Seq<u8>)>
    decreases count,
{
    if count == 0 {
        Some((Seq::empty(), bytes))
    } else {
        match dec_text(bytes) {
            Some((first, rest)) => match dec_text_items(rest, (count - 1) as nat) {
                Some((others, after)) => Some((seq![first] + others, after)),
                None => None,
            },
            None => None,
        }
    }
}

/// A list of texts.
pub open spec fn dec_texts(bytes: Seq<u8>) -> Option<(Seq<Seq<char>>, Seq<u8>)> {
    match dec_len(bytes) {
        Some((count, rest)) => dec_text_items(rest, count),
        None => None,
    }
}

/// The request of a client.
pub open spec fn dec_client_body(bytes: Seq<u8>) -> Option<(ClientMsgBodyView, Seq<u8>)> {
    match dec_tag(bytes) {
        Some((tag, rest)) => if tag == 0 {
            match dec_text(rest) {
                Some((name, b1)) => match dec_key(b1) {
                    Some((key, b2)) => Some((ClientMsgBodyView::Login(name, key), b2)),
                    None => None,
                },
                None => None,
            }
        } else if tag == 1 {
            match dec_text(rest) {
                Some((contents, b1)) => Some((ClientMsgBodyView::SendToRoom { contents }, b1)),
                None => None,
            }
        } else if tag == 2 {
            match dec_text(rest) {
                Some((target, b1)) => Some((ClientMsgBodyView::Move { target }, b1)),
                None => None,
            }
        } else if tag == 3 {
            Some((ClientMsgBodyView::GetTime, rest))
        } else {
            None
        },
        None => None,
    }
}

/// A message from a client, and the bytes that follow it.
pub open spec fn dec_client_msg(bytes: Seq<u8>) -> Option<(ClientMsgView, Seq<u8>)> {
    match dec_option_text(bytes) {
        Some((token, b1)) => match dec_time(b1) {
            Some((timestamp, b2)) => match dec_client_body(b2) {
                Some((body, b3)) => Some((ClientMsgView { token, timestamp, body }, b3)),
                None => None,
            },
            None => None,
        },
        None => None,
    }
}

/// The status of an answer.
pub open spec fn dec_status(bytes: Seq<u8>) -> Option<(StatusView, Seq<u8>)> {
    match dec_tag(bytes) {
        Some((tag, rest)) => if tag == 0 {
            Some((StatusView::Yes, rest))
        } else if tag == 1 {
            match dec_text(rest) {
                Some((reason, b1)) => Some((StatusView::No(reason), b1)),
                None => None,
            }
        } else if tag == 2 {
            Some((StatusView::JustNo, rest))
        } else {
            None
        },
        None => None,
    }
}

/// What the server sends.
pub open spec fn dec_server_body(bytes: Seq<u8>) -> Option<(ServerMsgBodyView, Seq<u8>)> {
    match dec_tag(bytes) {
        Some((tag, rest)) => if tag == 0 {
            Some((ServerMsgBodyView::Empty, rest))
        } else if tag == 1 {
            match dec_text(rest) {
                Some((token, b1)) => match dec_key(b1) {
                    Some((public_key, b2)) => Some(
                        (ServerMsgBodyView::LoginSuccess { token, public_key }, b2),
                    ),
                    None => None,
                },
                None => None,
            }
        } else if tag == 2 {
            match dec_bool(rest) {
                Some((direct, b1)) => match dec_chat(b1) {
                    Some((chat_msg, b2)) => Some(
                        (ServerMsgBodyView::ChatRecv { direct, chat_msg }, b2),
                    ),
                    None => None,
                },
                None => None,
            }
        } else if tag == 3 {
            match dec_time(rest) {
                Some((query_ts, b1)) => match dec_chats(b1) {
                    Some((logs, b2)) => match dec_texts(b2) {
                        Some((occupants, b3)) => Some(
                            (ServerMsgBodyView::RoomData { query_ts, logs, occupants }, b3),
                        ),
                        None => None,
                    },
                    None => None,
                },
                None => None,
            }
        } else {
            None
        },
        None => None,
    }
}

/// A message from the server, and the bytes that follow it.
pub open spec fn dec_server_msg(bytes: Seq<u8>) -> Option<(ServerMsgView, Seq<u8>)> {
    match dec_status(bytes) {
        Some((status, b1)) => match dec_time(b1) {
            Some((timestamp, b2)) => match dec_server_body(b2) {
                Some((body, b3)) => Some((ServerMsgView { status, timestamp, body }, b3)),
                None => None,
            },
            None => None,
        },
        None => None,
    }
}

/// The message from a client that some bytes begin with.
pub open spec fn client_msg_of(bytes: Seq<u8>) -> Option<ClientMsgView> {
    match dec_client_msg(bytes) {
        Some((msg, _)) => Some(msg),
        None => None,
    }
}

/// The message from the server that some bytes begin with.
pub open spec fn server_msg_of(bytes: Seq<u8>) -> Option<ServerMsgView> {
    match dec_server_msg(bytes) {
        Some((msg, _)) => Some(msg),
        None => None,
    }
}

// ---------------------------------------------------------------------------
// Which values can be written: lengths must fit 64 bits, keys have 32 bytes.
// Every value held in memory is such a value.
// ---------------------------------------------------------------------------
/// A text whose UTF-8 form has a length that fits 64 bits.
pub open spec fn text_fits(text: Seq<char>) -> bool {
    encode_utf8(text).len() <= u64::MAX
}

/// A chat message whose texts can be written.
pub open spec fn chat_fits(msg: ChatMsgView) -> bool {
    text_fits(msg.sender) && text_fits(msg.content)
}

/// A list of chat messages that can be written, with a count that fits 64 bits.
pub open spec fn chats_fit(msgs: Seq<ChatMsgView>) -> bool {
    msgs.len() <= u64::MAX && forall|i: int| 0 <= i < msgs.len() ==> chat_fits(#[trigger] msgs[i])
}

/// A list of texts that can be written, with a count that fits 64 bits.
pub open spec fn texts_fit(texts: Seq<Seq<char>>) -> bool {
    texts.len() <= u64::MAX && forall|i: int|
        0 <= i < texts.len() ==> text_fits(#[trigger] texts[i])
}

/// A request whose texts can be written and whose key has 32 bytes.
pub open spec fn client_body_fits(body: ClientMsgBodyView) -> bool {
    match body {
        ClientMsgBodyView::Login(name, key) => text_fits(name) && key.len() == KEY_LEN,
        ClientMsgBodyView::SendToRoom { contents } => text_fits(contents),
        ClientMsgBodyView::Move { target } => text_fits(target),
        ClientMsgBodyView::GetTime => true,
    }
}

/// A message from a client that can be written.
pub open spec fn client_msg_fits(msg: ClientMsgView) -> bool {
    &&& match msg.token {
        Some(t) => text_fits(t),
        None => true,
    }
    &&& client_body_fits(msg.body)
}

/// A status whose reason can be written.
pub open spec fn status_fits(status: StatusView) -> bool {
    match status {
        StatusView::No(reason) => text_fits(reason),
        _ => true,
    }
}

/// A body whose texts and lists can be written and whose key has 32 bytes.
pub open spec fn server_body_fits(body: ServerMsgBodyView) -> bool {
    match body {
        ServerMsgBodyView::Empty => true,
        ServerMsgBodyView::LoginSuccess { token, public_key } => text_fits(token)
            && public_key.len() == KEY_LEN,
        ServerMsgBodyView::ChatRecv { direct, chat_msg } => chat_fits(chat_msg),
        ServerMsgBodyView::RoomData { query_ts, logs, occupants } => chats_fit(logs) && texts_fit(
            occupants,
        ),
    }
}

/// A message from the server that can be written.
pub open spec fn server_msg_fits(msg: ServerMsgView) -> bool {
    status_fits(msg.status) && server_body_fits(msg.body)
}

} // verus!

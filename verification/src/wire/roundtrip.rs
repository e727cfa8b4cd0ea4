//! What is written is read back: reading the bytes of a value, whatever follows
//! them, gives that value and what follows. And what is read was written: bytes
//! that read as a value are the bytes of that value and what follows.

use crate::domain::timestamp::Timestamp;
use crate::wire::format::{
    chat_fits, chats_fit, client_body_fits, client_msg_fits, client_msg_of, dec_bool, dec_chat,
    dec_chat_items, dec_chats, dec_client_body, dec_client_msg, dec_key, dec_len, dec_option_text,
    dec_server_body, dec_server_msg, dec_status, dec_tag, dec_text, dec_text_items, dec_texts,
    dec_time, enc_bool, enc_chat, enc_chat_items, enc_chats, enc_client_body, enc_client_msg,
    enc_len, enc_option_text, enc_server_body, enc_server_msg, enc_status, enc_tag, enc_text,
    enc_text_items, enc_texts, enc_time, server_body_fits, server_msg_fits, server_msg_of,
    status_fits, text_fits, texts_fit, KEY_LEN,
};
use crate::wire::messages::{
    ChatMsgView, ClientMsgBodyView, ClientMsgView, ServerMsgBodyView, ServerMsgView, StatusView,
};
use vstd::bytes::{
    lemma_auto_spec_u32_to_from_le_bytes, lemma_auto_spec_u64_to_from_le_bytes,
    spec_u32_from_le_bytes, spec_u32_to_le_bytes, spec_u64_from_le_bytes, spec_u64_to_le_bytes,
};
use vstd::prelude::*;
use vstd::utf8::{
    decode_utf8_encode_utf8, encode_utf8, encode_utf8_decode_utf8, encode_utf8_valid_utf8,
};

verus! {

/// The head and the tail of bytes that begin with a known run.
proof fn lemma_split(head: Seq<u8>, rest: Seq<u8>)
    ensures
        (head + rest).subrange(0, head.len() as int) == head,
        (head + rest).skip(head.len() as int) == rest,
        (head + rest).len() == head.len() + rest.len(),
{
    assert((head + rest).subrange(0, head.len() as int) =~= head);
    assert((head + rest).skip(head.len() as int) =~= rest);
}

proof fn lemma_len_roundtrip(n: nat, rest: Seq<u8>)
    requires
        n <= u64::MAX,
    ensures
        dec_len(enc_len(n) + rest) == Some((n, rest)),
        enc_len(n).len() == 8,
{
    lemma_auto_spec_u64_to_from_le_bytes();
    lemma_split(enc_len(n), rest);
}

proof fn lemma_tag_roundtrip(tag: u32, rest: Seq<u8>)
    ensures
        dec_tag(enc_tag(tag) + rest) == Some((tag, rest)),
        enc_tag(tag).len() == 4,
{
    lemma_auto_spec_u32_to_from_le_bytes();
    lemma_split(enc_tag(tag), rest);
}

proof fn lemma_time_roundtrip(t: Timestamp, rest: Seq<u8>)
    ensures
        dec_time(enc_time(t) + rest) == Some((t, rest)),
        enc_time(t).len() == 8,
{
    lemma_auto_spec_u64_to_from_le_bytes();
    lemma_split(enc_time(t), rest);
    let m: i64 = t.millis;
    assert((m as u64) as i64 == m) by (bit_vector);
}

proof fn lemma_bool_roundtrip(b: bool, rest: Seq<u8>)
    ensures
        dec_bool(enc_bool(b) + rest) == Some((b, rest)),
{
    lemma_split(enc_bool(b), rest);
    assert((enc_bool(b) + rest)[0] == enc_bool(b)[0]);
}

proof fn lemma_key_roundtrip(key: Seq<u8>, rest: Seq<u8>)
    requires
        key.len() == KEY_LEN,
    ensures
        dec_key(key + rest) == Some((key, rest)),
{
    lemma_split(key, rest);
}

proof fn lemma_text_roundtrip(text: Seq<char>, rest: Seq<u8>)
    requires
        text_fits(text),
    ensures
        dec_text(enc_text(text) + rest) == Some((text, rest)),
{
    let body = encode_utf8(text);
    assert(enc_text(text) + rest =~= enc_len(body.len()) + (body + rest));
    lemma_len_roundtrip(body.len(), body + rest);
    lemma_split(body, rest);
    encode_utf8_valid_utf8(text);
    encode_utf8_decode_utf8(text);
}

proof fn lemma_option_text_roundtrip(text: Option<Seq<char>>, rest: Seq<u8>)
    requires
        text is Some ==> text_fits(text->0),
    ensures
        dec_option_text(enc_option_text(text) + rest) == Some((text, rest)),
{
    match text {
        Some(t) => {
            assert(enc_option_text(text) + rest =~= enc_bool(true) + (enc_text(t) + rest));
            lemma_bool_roundtrip(true, enc_text(t) + rest);
            lemma_text_roundtrip(t, rest);
        },
        None => {
            assert(enc_option_text(text) + rest =~= enc_bool(false) + rest);
            lemma_bool_roundtrip(false, rest);
        },
    }
}

proof fn lemma_chat_roundtrip(msg: ChatMsgView, rest: Seq<u8>)
    requires
        chat_fits(msg),
    ensures
        dec_chat(enc_chat(msg) + rest) == Some((msg, rest)),
{
    let b2 = enc_text(msg.content) + rest;
    let b1 = enc_time(msg.timestamp) + b2;
    assert(enc_chat(msg) + rest =~= enc_text(msg.sender) + b1);
    lemma_text_roundtrip(msg.sender, b1);
    lemma_time_roundtrip(msg.timestamp, b2);
    lemma_text_roundtrip(msg.content, rest);
}

proof fn lemma_chat_items_roundtrip(msgs: Seq<ChatMsgView>, rest: Seq<u8>)
    requires
        forall|i: int| 0 <= i < msgs.len() ==> chat_fits(#[trigger] msgs[i]),
    ensures
        dec_chat_items(enc_chat_items(msgs) + rest, msgs.len()) == Some((msgs, rest)),
    decreases msgs.len(),
{
    if msgs.len() == 0 {
        assert(enc_chat_items(msgs) + rest =~= rest);
        assert(msgs =~= Seq::empty());
    } else {
        let tail = msgs.drop_first();
        let after = enc_chat_items(tail) + rest;
        assert(enc_chat_items(msgs) + rest =~= enc_chat(msgs[0]) + after);
        assert(chat_fits(msgs[0]));
        lemma_chat_roundtrip(msgs[0], after);
        assert forall|i: int| 0 <= i < tail.len() implies chat_fits(#[trigger] tail[i]) by {
            assert(tail[i] == msgs[i + 1]);
        }
        lemma_chat_items_roundtrip(tail, rest);
        assert(seq![msgs[0]] + tail =~= msgs);
    }
}

proof fn lemma_chats_roundtrip(msgs: Seq<ChatMsgView>, rest: Seq<u8>)
    requires
        chats_fit(msgs),
    ensures
        dec_chats(enc_chats(msgs) + rest) == Some((msgs, rest)),
{
    let after = enc_chat_items(msgs) + rest;
    assert(enc_chats(msgs) + rest =~= enc_len(msgs.len()) + after);
    lemma_len_roundtrip(msgs.len(), after);
    lemma_chat_items_roundtrip(msgs, rest);
}

proof fn lemma_text_items_roundtrip(texts: Seq<Seq<char>>, rest: Seq<u8>)
    requires
        forall|i: int| 0 <= i < texts.len() ==> text_fits(#[trigger] texts[i]),
    ensures
        dec_text_items(enc_text_items(texts) + rest, texts.len()) == Some((texts, rest)),
    decreases texts.len(),
{
    if texts.len() == 0 {
        assert(enc_text_items(texts) + rest =~= rest);
        assert(texts =~= Seq::empty());
    } else {
        let tail = texts.drop_first();
        let after = enc_text_items(tail) + rest;
        assert(enc_text_items(texts) + rest =~= enc_text(texts[0]) + after);
        assert(text_fits(texts[0]));
        lemma_text_roundtrip(texts[0], after);
        assert forall|i: int| 0 <= i < tail.len() implies text_fits(#[trigger] tail[i]) by {
            assert(tail[i] == texts[i + 1]);
        }
        lemma_text_items_roundtrip(tail, rest);
        assert(seq![texts[0]] + tail =~= texts);
    }
}

proof fn lemma_texts_roundtrip(texts: Seq<Seq<char>>, rest: Seq<u8>)
    requires
        texts_fit(texts),
    ensures
        dec_texts(enc_texts(texts) + rest) == Some((texts, rest)),
{
    let after = enc_text_items(texts) + rest;
    assert(enc_texts(texts) + rest =~= enc_len(texts.len()) + after);
    lemma_len_roundtrip(texts.len(), after);
    lemma_text_items_roundtrip(texts, rest);
}

proof fn lemma_client_body_roundtrip(body: ClientMsgBodyView, rest: Seq<u8>)
    requires
        client_body_fits(body),
    ensures
        dec_client_body(enc_client_body(body) + rest) == Some((body, rest)),
{
    match body {
        ClientMsgBodyView::Login(name, key) => {
            let b1 = key + rest;
            let b0 = enc_text(name) + b1;
            assert(enc_client_body(body) + rest =~= enc_tag(0) + b0);
            lemma_tag_roundtrip(0, b0);
            lemma_text_roundtrip(name, b1);
            lemma_key_roundtrip(key, rest);
        },
        ClientMsgBodyView::SendToRoom { contents } => {
            let b0 = enc_text(contents) + rest;
            assert(enc_client_body(body) + rest =~= enc_tag(1) + b0);
            lemma_tag_roundtrip(1, b0);
            lemma_text_roundtrip(contents, rest);
        },
        ClientMsgBodyView::Move { target } => {
            let b0 = enc_text(target) + rest;
            assert(enc_client_body(body) + rest =~= enc_tag(2) + b0);
            lemma_tag_roundtrip(2, b0);
            lemma_text_roundtrip(target, rest);
        },
        ClientMsgBodyView::GetTime => {
            lemma_tag_roundtrip(3, rest);
        },
    }
}

/// Reading what was written for a message from a client, whatever follows it,
/// gives the message and what follows.
pub proof fn lemma_client_msg_roundtrip(msg: ClientMsgView, rest: Seq<u8>)
    requires
        client_msg_fits(msg),
    ensures
        dec_client_msg(enc_client_msg(msg) + rest) == Some((msg, rest)),
        client_msg_of(enc_client_msg(msg) + rest) == Some(msg),
        client_msg_of(enc_client_msg(msg)) == Some(msg),
    decreases rest.len(),
{
    let b2 = enc_client_body(msg.body) + rest;
    let b1 = enc_time(msg.timestamp) + b2;
    assert(enc_client_msg(msg) + rest =~= enc_option_text(msg.token) + b1);
    lemma_option_text_roundtrip(msg.token, b1);
    lemma_time_roundtrip(msg.timestamp, b2);
    lemma_client_body_roundtrip(msg.body, rest);
    if rest.len() > 0 {
        lemma_client_msg_roundtrip(msg, Seq::empty());
        assert(enc_client_msg(msg) + Seq::<u8>::empty() =~= enc_client_msg(msg));
    } else {
        assert(enc_client_msg(msg) + rest =~= enc_client_msg(msg));
    }
}

proof fn lemma_status_roundtrip(status: StatusView, rest: Seq<u8>)
    requires
        status_fits(status),
    ensures
        dec_status(enc_status(status) + rest) == Some((status, rest)),
{
    match status {
        StatusView::Yes => {
            lemma_tag_roundtrip(0, rest);
        },
        StatusView::No(reason) => {
            let b0 = enc_text(reason) + rest;
            assert(enc_status(status) + rest =~= enc_tag(1) + b0);
            lemma_tag_roundtrip(1, b0);
            lemma_text_roundtrip(reason, rest);
        },
        StatusView::JustNo => {
            lemma_tag_roundtrip(2, rest);
        },
    }
}

proof fn lemma_server_body_roundtrip(body: ServerMsgBodyView, rest: Seq<u8>)
    requires
        server_body_fits(body),
    ensures
        dec_server_body(enc_server_body(body) + rest) == Some((body, rest)),
{
    match body {
        ServerMsgBodyView::Empty => {
            lemma_tag_roundtrip(0, rest);
        },
        ServerMsgBodyView::LoginSuccess { token, public_key } => {
            let b1 = public_key + rest;
            let b0 = enc_text(token) + b1;
            assert(enc_server_body(body) + rest =~= enc_tag(1) + b0);
            lemma_tag_roundtrip(1, b0);
            lemma_text_roundtrip(token, b1);
            lemma_key_roundtrip(public_key, rest);
        },
        ServerMsgBodyView::ChatRecv { direct, chat_msg } => {
            let b1 = enc_chat(chat_msg) + rest;
            let b0 = enc_bool(direct) + b1;
            assert(enc_server_body(body) + rest =~= enc_tag(2) + b0);
            lemma_tag_roundtrip(2, b0);
            lemma_bool_roundtrip(direct, b1);
            lemma_chat_roundtrip(chat_msg, rest);
        },
        ServerMsgBodyView::RoomData { query_ts, logs, occupants } => {
            let b2 = enc_texts(occupants) + rest;
            let b1 = enc_chats(logs) + b2;
            let b0 = enc_time(query_ts) + b1;
            assert(enc_server_body(body) + rest =~= enc_tag(3) + b0);
            lemma_tag_roundtrip(3, b0);
            lemma_time_roundtrip(query_ts, b1);
            lemma_chats_roundtrip(logs, b2);
            lemma_texts_roundtrip(occupants, rest);
        },
    }
}

/// Reading what was written for a message from the server, whatever follows it,
/// gives the message and what follows.
pub proof fn lemma_server_msg_roundtrip(msg: ServerMsgView, rest: Seq<u8>)
    requires
        server_msg_fits(msg),
    ensures
        dec_server_msg(enc_server_msg(msg) + rest) == Some((msg, rest)),
        server_msg_of(enc_server_msg(msg) + rest) == Some(msg),
        server_msg_of(enc_server_msg(msg)) == Some(msg),
    decreases rest.len(),
{
    let b2 = enc_server_body(msg.body) + rest;
    let b1 = enc_time(msg.timestamp) + b2;
    assert(enc_server_msg(msg) + rest =~= enc_status(msg.status) + b1);
    lemma_status_roundtrip(msg.status, b1);
    lemma_time_roundtrip(msg.timestamp, b2);
    lemma_server_body_roundtrip(msg.body, rest);
    if rest.len() > 0 {
        lemma_server_msg_roundtrip(msg, Seq::empty());
        assert(enc_server_msg(msg) + Seq::<u8>::empty() =~= enc_server_msg(msg));
    } else {
        assert(enc_server_msg(msg) + rest =~= enc_server_msg(msg));
    }
}

// ---------------------------------------------------------------------------
// What is read was written.
// ---------------------------------------------------------------------------
/// Bytes are their head and what follows it.
proof fn lemma_join(bytes: Seq<u8>, n: int)
    requires
        0 <= n <= bytes.len(),
    ensures
        bytes == bytes.subrange(0, n) + bytes.skip(n),
{
    assert(bytes =~= bytes.subrange(0, n) + bytes.skip(n));
}

proof fn lemma_len_canonical(bytes: Seq<u8>, n: nat, rest: Seq<u8>)
    requires
        dec_len(bytes) == Some((n, rest)),
    ensures
        bytes == enc_len(n) + rest,
        n <= u64::MAX,
{
    lemma_auto_spec_u64_to_from_le_bytes();
    lemma_join(bytes, 8);
    let head = bytes.subrange(0, 8);
    assert(spec_u64_to_le_bytes(spec_u64_from_le_bytes(head)) == head);
}

proof fn lemma_tag_canonical(bytes: Seq<u8>, tag: u32, rest: Seq<u8>)
    requires
        dec_tag(bytes) == Some((tag, rest)),
    ensures
        bytes == enc_tag(tag) + rest,
{
    lemma_auto_spec_u32_to_from_le_bytes();
    lemma_join(bytes, 4);
    let head = bytes.subrange(0, 4);
    assert(spec_u32_to_le_bytes(spec_u32_from_le_bytes(head)) == head);
}

proof fn lemma_time_canonical(bytes: Seq<u8>, t: Timestamp, rest: Seq<u8>)
    requires
        dec_time(bytes) == Some((t, rest)),
    ensures
        bytes == enc_time(t) + rest,
{
    lemma_auto_spec_u64_to_from_le_bytes();
    lemma_join(bytes, 8);
    let head = bytes.subrange(0, 8);
    let n: u64 = spec_u64_from_le_bytes(head);
    assert((n as i64) as u64 == n) by (bit_vector);
    assert(spec_u64_to_le_bytes(n) == head);
}

proof fn lemma_bool_canonical(bytes: Seq<u8>, b: bool, rest: Seq<u8>)
    requires
        dec_bool(bytes) == Some((b, rest)),
    ensures
        bytes == enc_bool(b) + rest,
{
    lemma_join(bytes, 1);
    assert(bytes.subrange(0, 1) =~= enc_bool(bytes[0] == 1));
}

proof fn lemma_key_canonical(bytes: Seq<u8>, key: Seq<u8>, rest: Seq<u8>)
    requires
        dec_key(bytes) == Some((key, rest)),
    ensures
        bytes == key + rest,
        key.len() == KEY_LEN,
{
    lemma_join(bytes, KEY_LEN as int);
}

proof fn lemma_text_canonical(bytes: Seq<u8>, text: Seq<char>, rest: Seq<u8>)
    requires
        dec_text(bytes) == Some((text, rest)),
    ensures
        bytes == enc_text(text) + rest,
        text_fits(text),
{
    let (n, tail) = dec_len(bytes)->0;
    lemma_len_canonical(bytes, n, tail);
    let chunk = tail.subrange(0, n as int);
    lemma_join(tail, n as int);
    decode_utf8_encode_utf8(chunk);
    assert(bytes =~= enc_len(n) + chunk + tail.skip(n as int));
}

proof fn lemma_option_text_canonical(bytes: Seq<u8>, text: Option<Seq<char>>, rest: Seq<u8>)
    requires
        dec_option_text(bytes) == Some((text, rest)),
    ensures
        bytes == enc_option_text(text) + rest,
        text is Some ==> text_fits(text->0),
{
    let (present, tail) = dec_bool(bytes)->0;
    lemma_bool_canonical(bytes, present, tail);
    if present {
        let t = text->0;
        lemma_text_canonical(tail, t, rest);
        assert(bytes =~= seq![1u8] + enc_text(t) + rest);
    } else {
        assert(enc_bool(false) =~= seq![0u8]);
    }
}

proof fn lemma_chat_canonical(bytes: Seq<u8>, msg: ChatMsgView, rest: Seq<u8>)
    requires
        dec_chat(bytes) == Some((msg, rest)),
    ensures
        bytes == enc_chat(msg) + rest,
        chat_fits(msg),
{
    let (sender, b1) = dec_text(bytes)->0;
    lemma_text_canonical(bytes, sender, b1);
    let (timestamp, b2) = dec_time(b1)->0;
    lemma_time_canonical(b1, timestamp, b2);
    let (content, b3) = dec_text(b2)->0;
    lemma_text_canonical(b2, content, b3);
    assert(bytes =~= enc_text(sender) + enc_time(timestamp) + enc_text(content) + b3);
}

proof fn lemma_chat_items_canonical(
    bytes: Seq<u8>,
    count: nat,
    msgs: Seq<ChatMsgView>,
    rest: Seq<u8>,
)
    requires
        dec_chat_items(bytes, count) == Some((msgs, rest)),
    ensures
        bytes == enc_chat_items(msgs) + rest,
        msgs.len() == count,
        forall|i: int| 0 <= i < count ==> chat_fits(#[trigger] msgs[i]),
    decreases count,
{
    if count == 0 {
        assert(bytes =~= enc_chat_items(Seq::empty()) + bytes);
    } else {
        let (first, tail) = dec_chat(bytes)->0;
        lemma_chat_canonical(bytes, first, tail);
        let (others, after) = dec_chat_items(tail, (count - 1) as nat)->0;
        lemma_chat_items_canonical(tail, (count - 1) as nat, others, after);
        assert(msgs.drop_first() =~= others);
        assert(msgs[0] == first);
        assert(bytes =~= enc_chat(first) + enc_chat_items(others) + after);
        assert forall|i: int| 0 <= i < count implies chat_fits(#[trigger] msgs[i]) by {
            if i > 0 {
                assert(msgs[i] == others[i - 1]);
            }
        }
    }
}

proof fn lemma_chats_canonical(bytes: Seq<u8>, msgs: Seq<ChatMsgView>, rest: Seq<u8>)
    requires
        dec_chats(bytes) == Some((msgs, rest)),
    ensures
        bytes == enc_chats(msgs) + rest,
        chats_fit(msgs),
{
    let (count, tail) = dec_len(bytes)->0;
    lemma_len_canonical(bytes, count, tail);
    lemma_chat_items_canonical(tail, count, msgs, rest);
    assert(bytes =~= enc_len(count) + enc_chat_items(msgs) + rest);
}

proof fn lemma_text_items_canonical(
    bytes: Seq<u8>,
    count: nat,
    texts: Seq<Seq<char>>,
    rest: Seq<u8>,
)
    requires
        dec_text_items(bytes, count) == Some((texts, rest)),
    ensures
        bytes == enc_text_items(texts) + rest,
        texts.len() == count,
        forall|i: int| 0 <= i < count ==> text_fits(#[trigger] texts[i]),
    decreases count,
{
    if count == 0 {
        assert(bytes =~= enc_text_items(Seq::empty()) + bytes);
    } else {
        let (first, tail) = dec_text(bytes)->0;
        lemma_text_canonical(bytes, first, tail);
        let (others, after) = dec_text_items(tail, (count - 1) as nat)->0;
        lemma_text_items_canonical(tail, (count - 1) as nat, others, after);
        assert(texts.drop_first() =~= others);
        assert(texts[0] == first);
        assert(bytes =~= enc_text(first) + enc_text_items(others) + after);
        assert forall|i: int| 0 <= i < count implies text_fits(#[trigger] texts[i]) by {
            if i > 0 {
                assert(texts[i] == others[i - 1]);
            }
        }
    }
}

proof fn lemma_texts_canonical(bytes: Seq<u8>, texts: Seq<Seq<char>>, rest: Seq<u8>)
    requires
        dec_texts(bytes) == Some((texts, rest)),
    ensures
        bytes == enc_texts(texts) + rest,
        texts_fit(texts),
{
    let (count, tail) = dec_len(bytes)->0;
    lemma_len_canonical(bytes, count, tail);
    lemma_text_items_canonical(tail, count, texts, rest);
    assert(bytes =~= enc_len(count) + enc_text_items(texts) + rest);
}

proof fn lemma_client_body_canonical(bytes: Seq<u8>, body: ClientMsgBodyView, rest: Seq<u8>)
    requires
        dec_client_body(bytes) == Some((body, rest)),
    ensures
        bytes == enc_client_body(body) + rest,
        client_body_fits(body),
{
    let (tag, tail) = dec_tag(bytes)->0;
    lemma_tag_canonical(bytes, tag, tail);
    if tag == 0 {
        let (name, b1) = dec_text(tail)->0;
        lemma_text_canonical(tail, name, b1);
        let (key, b2) = dec_key(b1)->0;
        lemma_key_canonical(b1, key, b2);
        assert(bytes =~= enc_tag(0) + enc_text(name) + key + b2);
    } else if tag == 1 {
        let (contents, b1) = dec_text(tail)->0;
        lemma_text_canonical(tail, contents, b1);
        assert(bytes =~= enc_tag(1) + enc_text(contents) + b1);
    } else if tag == 2 {
        let (target, b1) = dec_text(tail)->0;
        lemma_text_canonical(tail, target, b1);
        assert(bytes =~= enc_tag(2) + enc_text(target) + b1);
    } else {
    }
}

/// Bytes that read as a message from a client are the bytes of that message
/// and what follows it.
pub proof fn lemma_client_msg_canonical(bytes: Seq<u8>, msg: ClientMsgView, rest: Seq<u8>)
    requires
        dec_client_msg(bytes) == Some((msg, rest)),
    ensures
        bytes == enc_client_msg(msg) + rest,
        client_msg_fits(msg),
{
    let (token, b1) = dec_option_text(bytes)->0;
    lemma_option_text_canonical(bytes, token, b1);
    let (timestamp, b2) = dec_time(b1)->0;
    lemma_time_canonical(b1, timestamp, b2);
    let (body, b3) = dec_client_body(b2)->0;
    lemma_client_body_canonical(b2, body, b3);
    assert(bytes =~= enc_option_text(token) + enc_time(timestamp) + enc_client_body(body) + b3);
}

proof fn lemma_status_canonical(bytes: Seq<u8>, status: StatusView, rest: Seq<u8>)
    requires
        dec_status(bytes) == Some((status, rest)),
    ensures
        bytes == enc_status(status) + rest,
        status_fits(status),
{
    let (tag, tail) = dec_tag(bytes)->0;
    lemma_tag_canonical(bytes, tag, tail);
    if tag == 1 {
        let (reason, b1) = dec_text(tail)->0;
        lemma_text_canonical(tail, reason, b1);
        assert(bytes =~= enc_tag(1) + enc_text(reason) + b1);
    }
}

proof fn lemma_login_success_canonical(
    tail: Seq<u8>,
    token: Seq<char>,
    b1: Seq<u8>,
    public_key: Seq<u8>,
    rest: Seq<u8>,
)
    requires
        dec_text(tail) == Some((token, b1)),
        dec_key(b1) == Some((public_key, rest)),
    ensures
        tail == enc_text(token) + public_key + rest,
        text_fits(token),
        public_key.len() == KEY_LEN,
{
    lemma_text_canonical(tail, token, b1);
    lemma_key_canonical(b1, public_key, rest);
    assert(tail =~= enc_text(token) + public_key + rest);
}

proof fn lemma_chat_recv_canonical(
    tail: Seq<u8>,
    direct: bool,
    b1: Seq<u8>,
    chat_msg: ChatMsgView,
    rest: Seq<u8>,
)
    requires
        dec_bool(tail) == Some((direct, b1)),
        dec_chat(b1) == Some((chat_msg, rest)),
    ensures
        tail == enc_bool(direct) + enc_chat(chat_msg) + rest,
        chat_fits(chat_msg),
{
    lemma_bool_canonical(tail, direct, b1);
    lemma_chat_canonical(b1, chat_msg, rest);
    assert(tail =~= enc_bool(direct) + enc_chat(chat_msg) + rest);
}

proof fn lemma_room_data_canonical(
    tail: Seq<u8>,
    query_ts: Timestamp,
    b1: Seq<u8>,
    logs: Seq<ChatMsgView>,
    b2: Seq<u8>,
    occupants: Seq<Seq<char>>,
    rest: Seq<u8>,
)
    requires
        dec_time(tail) == Some((query_ts, b1)),
        dec_chats(b1) == Some((logs, b2)),
        dec_texts(b2) == Some((occupants, rest)),
    ensures
        tail == enc_time(query_ts) + enc_chats(logs) + enc_texts(occupants) + rest,
        chats_fit(logs),
        texts_fit(occupants),
{
    lemma_time_canonical(tail, query_ts, b1);
    lemma_chats_canonical(b1, logs, b2);
    lemma_texts_canonical(b2, occupants, rest);
    assert(tail =~= enc_time(query_ts) + enc_chats(logs) + enc_texts(occupants) + rest);
}

proof fn lemma_server_body_canonical(bytes: Seq<u8>, body: ServerMsgBodyView, rest: Seq<u8>)
    requires
        dec_server_body(bytes) == Some((body, rest)),
    ensures
        bytes == enc_server_body(body) + rest,
        server_body_fits(body),
{
    let (tag, tail) = dec_tag(bytes)->0;
    lemma_tag_canonical(bytes, tag, tail);
    if tag == 1 {
        let (token, b1) = dec_text(tail)->0;
        let (public_key, b2) = dec_key(b1)->0;
        lemma_login_success_canonical(tail, token, b1, public_key, b2);
        assert(bytes =~= enc_tag(1) + enc_text(token) + public_key + b2);
    } else if tag == 2 {
        let (direct, b1) = dec_bool(tail)->0;
        let (chat_msg, b2) = dec_chat(b1)->0;
        lemma_chat_recv_canonical(tail, direct, b1, chat_msg, b2);
        assert(bytes =~= enc_tag(2) + enc_bool(direct) + enc_chat(chat_msg) + b2);
    } else if tag == 3 {
        let (query_ts, b1) = dec_time(tail)->0;
        let (logs, b2) = dec_chats(b1)->0;
        let (occupants, b3) = dec_texts(b2)->0;
        lemma_room_data_canonical(tail, query_ts, b1, logs, b2, occupants, b3);
        assert(bytes =~= enc_tag(3) + enc_time(query_ts) + enc_chats(logs) + enc_texts(occupants)
            + b3);
    } else {
    }
}

/// Bytes that read as a message from the server are the bytes of that message
/// and what follows it.
pub proof fn lemma_server_msg_canonical(bytes: Seq<u8>, msg: ServerMsgView, rest: Seq<u8>)
    requires
        dec_server_msg(bytes) == Some((msg, rest)),
    ensures
        bytes == enc_server_msg(msg) + rest,
        server_msg_fits(msg),
{
    let (status, b1) = dec_status(bytes)->0;
    lemma_status_canonical(bytes, status, b1);
    let (timestamp, b2) = dec_time(b1)->0;
    lemma_time_canonical(b1, timestamp, b2);
    let (body, b3) = dec_server_body(b2)->0;
    lemma_server_body_canonical(b2, body, b3);
    assert(bytes =~= enc_status(status) + enc_time(timestamp) + enc_server_body(body) + b3);
}

/// Bytes that are refused begin with the bytes of no message from a client.
pub proof fn lemma_client_msg_refused(bytes: Seq<u8>, msg: ClientMsgView)
    requires
        client_msg_of(bytes) is None,
        client_msg_fits(msg),
    ensures
        !enc_client_msg(msg).is_prefix_of(bytes),
{
    let head = enc_client_msg(msg);
    if head.is_prefix_of(bytes) {
        let rest = bytes.skip(head.len() as int);
        assert(bytes =~= head + rest);
        lemma_client_msg_roundtrip(msg, rest);
    }
}

/// Bytes that are refused begin with the bytes of no message from the server.
pub proof fn lemma_server_msg_refused(bytes: Seq<u8>, msg: ServerMsgView)
    requires
        server_msg_of(bytes) is None,
        server_msg_fits(msg),
    ensures
        !enc_server_msg(msg).is_prefix_of(bytes),
{
    let head = enc_server_msg(msg);
    if head.is_prefix_of(bytes) {
        let rest = bytes.skip(head.len() as int);
        assert(bytes =~= head + rest);
        lemma_server_msg_roundtrip(msg, rest);
    }
}

/// No two messages from a client are written as the same bytes, nor is one
/// written as the beginning of the other.
pub proof fn lemma_client_msg_unambiguous(a: ClientMsgView, b: ClientMsgView, rest: Seq<u8>)
    requires
        client_msg_fits(a),
        client_msg_fits(b),
        enc_client_msg(a) + rest == enc_client_msg(b),
    ensures
        a == b,
{
    lemma_client_msg_roundtrip(a, rest);
    lemma_client_msg_roundtrip(b, Seq::empty());
}

/// No two messages from the server are written as the same bytes, nor is one
/// written as the beginning of the other.
pub proof fn lemma_server_msg_unambiguous(a: ServerMsgView, b: ServerMsgView, rest: Seq<u8>)
    requires
        server_msg_fits(a),
        server_msg_fits(b),
        enc_server_msg(a) + rest == enc_server_msg(b),
    ensures
        a == b,
{
    lemma_server_msg_roundtrip(a, rest);
    lemma_server_msg_roundtrip(b, Seq::empty());
}

} // verus!

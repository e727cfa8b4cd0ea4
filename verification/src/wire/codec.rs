//! Writing messages as bytes and reading them back.

use crate::domain::model::{lemma_views_push, views};
use crate::domain::timestamp::Timestamp;
use crate::trusted::text_from_utf8;
use crate::wire::format::{
    chat_fits, chats_fit, client_msg_fits, client_msg_of, dec_bool, dec_chat,
    dec_chat_items, dec_chats, dec_client_body, dec_client_msg, dec_key, dec_len, dec_option_text,
    dec_server_body, dec_server_msg, dec_status, dec_tag, dec_text, dec_text_items, dec_texts,
    dec_time, enc_bool, enc_chat, enc_chat_items, enc_chats, enc_client_body, enc_client_msg,
    enc_len, enc_option_text, enc_server_body, enc_server_msg, enc_status, enc_tag, enc_text,
    enc_text_items, enc_texts, enc_time, server_msg_fits, server_msg_of,
    text_fits, texts_fit, KEY_LEN,
};
use crate::wire::messages::{
    option_text_view, ChatMsg, ChatMsgView, ClientMsg, ClientMsgBody, ServerMsg, ServerMsgBody,
    Status,
};
use crate::wire::roundtrip::{
    lemma_client_msg_canonical, lemma_client_msg_roundtrip, lemma_server_msg_canonical,
    lemma_server_msg_roundtrip,
};
use vstd::bytes::{u32_from_le_bytes, u32_to_le_bytes, u64_from_le_bytes, u64_to_le_bytes};
use vstd::prelude::*;
use vstd::slice::{slice_subrange, slice_to_vec};

verus! {

/// Bytes that are no message.
#[derive(Clone, Copy, Debug, PartialEq, Eq, Structural)]
pub enum DecodeError {
    /// The bytes end too early, name a variant that does not exist, or hold
    /// a text that is not UTF-8.
    Malformed,
}

// ---------------------------------------------------------------------------
// Writing
// ---------------------------------------------------------------------------
fn put_bytes(out: &mut Vec<u8>, bytes: &[u8])
    ensures
        final(out)@ == old(out)@ + bytes@,
{
    out.extend_from_slice(bytes);
    assert(out@ =~= old(out)@ + bytes@);
}

fn put_len(out: &mut Vec<u8>, n: usize)
    ensures
        final(out)@ == old(out)@ + enc_len(n as nat),
{
    let mut bytes = u64_to_le_bytes(n as u64);
    out.append(&mut bytes);
}

fn put_tag(out: &mut Vec<u8>, tag: u32)
    ensures
        final(out)@ == old(out)@ + enc_tag(tag),
{
    let mut bytes = u32_to_le_bytes(tag);
    out.append(&mut bytes);
}

fn put_time(out: &mut Vec<u8>, t: Timestamp)
    ensures
        final(out)@ == old(out)@ + enc_time(t),
{
    let mut bytes = u64_to_le_bytes(t.millis as u64);
    out.append(&mut bytes);
}

fn put_bool(out: &mut Vec<u8>, b: bool)
    ensures
        final(out)@ == old(out)@ + enc_bool(b),
{
    out.push(if b { 1u8 } else { 0u8 });
    assert(out@ =~= old(out)@ + enc_bool(b));
}

fn put_text(out: &mut Vec<u8>, text: &String)
    ensures
        final(out)@ == old(out)@ + enc_text(text@),
        text_fits(text@),
{
    let bytes = text.as_str().as_bytes();
    put_len(out, bytes.len());
    put_bytes(out, bytes);
    assert(out@ =~= old(out)@ + enc_text(text@));
}

fn put_key(out: &mut Vec<u8>, key: &[u8; 32])
    ensures
        final(out)@ == old(out)@ + key@,
        key@.len() == KEY_LEN,
{
    put_bytes(out, key.as_slice());
}

fn put_option_text(out: &mut Vec<u8>, text: &Option<String>)
    ensures
        final(out)@ == old(out)@ + enc_option_text(option_text_view(*text)),
        *text is Some ==> text_fits(text->0@),
{
    match text {
        Some(t) => {
            put_bool(out, true);
            put_text(out, t);
            assert(out@ =~= old(out)@ + enc_option_text(option_text_view(*text)));
        },
        None => {
            put_bool(out, false);
        },
    }
}

fn put_chat(out: &mut Vec<u8>, msg: &ChatMsg)
    ensures
        final(out)@ == old(out)@ + enc_chat(msg@),
        chat_fits(msg@),
{
    put_text(out, &msg.sender);
    put_time(out, msg.timestamp);
    put_text(out, &msg.content);
    assert(out@ =~= old(out)@ + enc_chat(msg@));
}

/// Items written one after the other are the items written so far and then the
/// next.
proof fn lemma_chat_items_push(msgs: Seq<ChatMsgView>, msg: ChatMsgView)
    ensures
        enc_chat_items(msgs.push(msg)) == enc_chat_items(msgs) + enc_chat(msg),
    decreases msgs.len(),
{
    if msgs.len() == 0 {
        let one = msgs.push(msg);
        assert(one.drop_first().len() == 0);
        assert(enc_chat_items(one.drop_first()) =~= Seq::<u8>::empty());
        assert(one[0] == msg);
        assert(enc_chat_items(one) =~= enc_chat(msg));
        assert(enc_chat_items(msgs) + enc_chat(msg) =~= enc_chat(msg));
    } else {
        assert(msgs.push(msg).drop_first() =~= msgs.drop_first().push(msg));
        lemma_chat_items_push(msgs.drop_first(), msg);
        assert(enc_chat_items(msgs.push(msg)) =~= enc_chat_items(msgs) + enc_chat(msg));
    }
}

proof fn lemma_text_items_push(texts: Seq<Seq<char>>, text: Seq<char>)
    ensures
        enc_text_items(texts.push(text)) == enc_text_items(texts) + enc_text(text),
    decreases texts.len(),
{
    if texts.len() == 0 {
        let one = texts.push(text);
        assert(one.drop_first().len() == 0);
        assert(enc_text_items(one.drop_first()) =~= Seq::<u8>::empty());
        assert(one[0] == text);
        assert(enc_text_items(one) =~= enc_text(text));
        assert(enc_text_items(texts) + enc_text(text) =~= enc_text(text));
    } else {
        assert(texts.push(text).drop_first() =~= texts.drop_first().push(text));
        lemma_text_items_push(texts.drop_first(), text);
        assert(enc_text_items(texts.push(text)) =~= enc_text_items(texts) + enc_text(text));
    }
}

fn put_chats(out: &mut Vec<u8>, msgs: &Vec<ChatMsg>)
    ensures
        final(out)@ == old(out)@ + enc_chats(views(msgs@)),
        chats_fit(views(msgs@)),
{
    put_len(out, msgs.len());
    let ghost start = out@;
    let mut i: usize = 0;
    assert(views(msgs@).take(0) =~= Seq::empty());
    while i < msgs.len()
        invariant
            i <= msgs.len(),
            out@ == start + enc_chat_items(views(msgs@).take(i as int)),
            forall|j: int| 0 <= j < i ==> chat_fits(#[trigger] views(msgs@)[j]),
        decreases msgs.len() - i,
    {
        put_chat(out, &msgs[i]);
        proof {
            let done = views(msgs@).take(i as int);
            lemma_chat_items_push(done, msgs@[i as int]@);
            assert(views(msgs@).take(i + 1) =~= done.push(msgs@[i as int]@));
            assert(out@ =~= start + enc_chat_items(views(msgs@).take(i + 1)));
        }
        i = i + 1;
    }
    proof {
        assert(views(msgs@).take(msgs@.len() as int) =~= views(msgs@));
        assert(out@ =~= old(out)@ + enc_chats(views(msgs@)));
    }
}

fn put_texts(out: &mut Vec<u8>, texts: &Vec<String>)
    ensures
        final(out)@ == old(out)@ + enc_texts(views(texts@)),
        texts_fit(views(texts@)),
{
    put_len(out, texts.len());
    let ghost start = out@;
    let mut i: usize = 0;
    assert(views(texts@).take(0) =~= Seq::empty());
    while i < texts.len()
        invariant
            i <= texts.len(),
            out@ == start + enc_text_items(views(texts@).take(i as int)),
            forall|j: int| 0 <= j < i ==> text_fits(#[trigger] views(texts@)[j]),
        decreases texts.len() - i,
    {
        put_text(out, &texts[i]);
        proof {
            let done = views(texts@).take(i as int);
            lemma_text_items_push(done, texts@[i as int]@);
            assert(views(texts@).take(i + 1) =~= done.push(texts@[i as int]@));
            assert(out@ =~= start + enc_text_items(views(texts@).take(i + 1)));
        }
        i = i + 1;
    }
    proof {
        assert(views(texts@).take(texts@.len() as int) =~= views(texts@));
        assert(out@ =~= old(out)@ + enc_texts(views(texts@)));
    }
}

/// The bytes of a message from a client. Reading them gives the message back.
pub fn serialize_client_msg(msg: &ClientMsg) -> (bytes: Vec<u8>)
    ensures
        bytes@ == enc_client_msg(msg@),
        client_msg_fits(msg@),
        client_msg_of(bytes@) == Some(msg@),
{
    let mut out: Vec<u8> = Vec::new();
    put_option_text(&mut out, &msg.token);
    put_time(&mut out, msg.timestamp);
    let ghost head = out@;
    match &msg.body {
        ClientMsgBody::Login(name, key) => {
            put_tag(&mut out, 0);
            put_text(&mut out, name);
            put_key(&mut out, key);
        },
        ClientMsgBody::SendToRoom { contents } => {
            put_tag(&mut out, 1);
            put_text(&mut out, contents);
        },
        ClientMsgBody::Move { target } => {
            put_tag(&mut out, 2);
            put_text(&mut out, target);
        },
        ClientMsgBody::GetTime => {
            put_tag(&mut out, 3);
        },
    }
    proof {
        assert(out@ =~= head + enc_client_body(msg.body@));
        assert(out@ =~= enc_client_msg(msg@));
        lemma_client_msg_roundtrip(msg@, Seq::empty());
    }
    out
}

/// The bytes of a message from the server. Reading them gives the message back.
pub fn serialize_server_msg(msg: &ServerMsg) -> (bytes: Vec<u8>)
    ensures
        bytes@ == enc_server_msg(msg@),
        server_msg_fits(msg@),
        server_msg_of(bytes@) == Some(msg@),
{
    let mut out: Vec<u8> = Vec::new();
    match &msg.status {
        Status::Yes => {
            put_tag(&mut out, 0);
        },
        Status::No(reason) => {
            put_tag(&mut out, 1);
            put_text(&mut out, reason);
        },
        Status::JustNo => {
            put_tag(&mut out, 2);
        },
    }
    assert(out@ =~= enc_status(msg.status@));
    put_time(&mut out, msg.timestamp);
    let ghost head = out@;
    match &msg.body {
        ServerMsgBody::Empty => {
            put_tag(&mut out, 0);
        },
        ServerMsgBody::LoginSuccess { token, public_key } => {
            put_tag(&mut out, 1);
            put_text(&mut out, token);
            put_key(&mut out, public_key);
        },
        ServerMsgBody::ChatRecv { direct, chat_msg } => {
            put_tag(&mut out, 2);
            put_bool(&mut out, *direct);
            put_chat(&mut out, chat_msg);
        },
        ServerMsgBody::RoomData { query_ts, logs, occupants } => {
            put_tag(&mut out, 3);
            put_time(&mut out, *query_ts);
            put_chats(&mut out, logs);
            put_texts(&mut out, occupants);
        },
    }
    proof {
        assert(out@ =~= head + enc_server_body(msg.body@));
        assert(out@ =~= enc_server_msg(msg@));
        lemma_server_msg_roundtrip(msg@, Seq::empty());
    }
    out
}

// ---------------------------------------------------------------------------
// Reading: each reader takes the bytes and the place to read at, and gives the
// value read and the place after it.
// ---------------------------------------------------------------------------
/// The bytes from one place on, read from a later place on.
proof fn lemma_skip(bytes: Seq<u8>, pos: int, used: int)
    requires
        0 <= pos,
        0 <= used,
        pos + used <= bytes.len(),
    ensures
        bytes.skip(pos).skip(used) == bytes.skip(pos + used),
        bytes.skip(pos).subrange(0, used) == bytes.subrange(pos, pos + used),
        bytes.skip(pos).len() == bytes.len() - pos,
{
    assert(bytes.skip(pos).skip(used) =~= bytes.skip(pos + used));
    assert(bytes.skip(pos).subrange(0, used) =~= bytes.subrange(pos, pos + used));
}

fn read_len(bytes: &[u8], pos: usize) -> (read: Option<(u64, usize)>)
    requires
        pos <= bytes@.len(),
    ensures
        match read {
            Some((n, next)) => dec_len(bytes@.skip(pos as int)) == Some(
                (n as nat, bytes@.skip(next as int)),
            ) && pos <= next <= bytes@.len(),
            None => dec_len(bytes@.skip(pos as int)) is None,
        },
{
    if bytes.len() - pos < 8 {
        None
    } else {
        proof {
            lemma_skip(bytes@, pos as int, 8);
        }
        let n = u64_from_le_bytes(slice_subrange(bytes, pos, pos + 8));
        Some((n, pos + 8))
    }
}

fn read_tag(bytes: &[u8], pos: usize) -> (read: Option<(u32, usize)>)
    requires
        pos <= bytes@.len(),
    ensures
        match read {
            Some((tag, next)) => dec_tag(bytes@.skip(pos as int)) == Some(
                (tag, bytes@.skip(next as int)),
            ) && pos <= next <= bytes@.len(),
            None => dec_tag(bytes@.skip(pos as int)) is None,
        },
{
    if bytes.len() - pos < 4 {
        None
    } else {
        proof {
            lemma_skip(bytes@, pos as int, 4);
        }
        let tag = u32_from_le_bytes(slice_subrange(bytes, pos, pos + 4));
        Some((tag, pos + 4))
    }
}

fn read_time(bytes: &[u8], pos: usize) -> (read: Option<(Timestamp, usize)>)
    requires
        pos <= bytes@.len(),
    ensures
        match read {
            Some((t, next)) => dec_time(bytes@.skip(pos as int)) == Some(
                (t, bytes@.skip(next as int)),
            ) && pos <= next <= bytes@.len(),
            None => dec_time(bytes@.skip(pos as int)) is None,
        },
{
    if bytes.len() - pos < 8 {
        None
    } else {
        proof {
            lemma_skip(bytes@, pos as int, 8);
        }
        let n = u64_from_le_bytes(slice_subrange(bytes, pos, pos + 8));
        Some((Timestamp { millis: n as i64 }, pos + 8))
    }
}

fn read_bool(bytes: &[u8], pos: usize) -> (read: Option<(bool, usize)>)
    requires
        pos <= bytes@.len(),
    ensures
        match read {
            Some((b, next)) => dec_bool(bytes@.skip(pos as int)) == Some(
                (b, bytes@.skip(next as int)),
            ) && pos <= next <= bytes@.len(),
            None => dec_bool(bytes@.skip(pos as int)) is None,
        },
{
    if bytes.len() - pos < 1 {
        None
    } else {
        proof {
            lemma_skip(bytes@, pos as int, 1);
        }
        let b = bytes[pos];
        if b > 1 {
            None
        } else {
            Some((b == 1, pos + 1))
        }
    }
}

fn read_key(bytes: &[u8], pos: usize) -> (read: Option<([u8; 32], usize)>)
    requires
        pos <= bytes@.len(),
    ensures
        match read {
            Some((key, next)) => dec_key(bytes@.skip(pos as int)) == Some(
                (key@, bytes@.skip(next as int)),
            ) && pos <= next <= bytes@.len(),
            None => dec_key(bytes@.skip(pos as int)) is None,
        },
{
    if bytes.len() - pos < KEY_LEN {
        None
    } else {
        proof {
            lemma_skip(bytes@, pos as int, KEY_LEN as int);
        }
        let total = bytes.len();
        let mut key = [0u8;32];
        let mut i: usize = 0;
        while i < KEY_LEN
            invariant
                i <= KEY_LEN,
                total == bytes@.len(),
                pos + KEY_LEN <= total,
                forall|j: int| 0 <= j < i ==> key@[j] == bytes@[pos + j],
            decreases KEY_LEN - i,
        {
            key[i] = bytes[pos + i];
            i = i + 1;
        }
        assert(key@ =~= bytes@.subrange(pos as int, pos + KEY_LEN));
        Some((key, pos + KEY_LEN))
    }
}

fn read_text(bytes: &[u8], pos: usize) -> (read: Option<(String, usize)>)
    requires
        pos <= bytes@.len(),
    ensures
        match read {
            Some((text, next)) => dec_text(bytes@.skip(pos as int)) == Some(
                (text@, bytes@.skip(next as int)),
            ) && pos <= next <= bytes@.len(),
            None => dec_text(bytes@.skip(pos as int)) is None,
        },
{
    let (n, start) = match read_len(bytes, pos) {
        Some(read) => read,
        None => {
            return None;
        },
    };
    if n > (bytes.len() - start) as u64 {
        return None;
    }
    let len = n as usize;
    proof {
        lemma_skip(bytes@, start as int, len as int);
    }
    let raw = slice_to_vec(slice_subrange(bytes, start, start + len));
    match text_from_utf8(raw) {
        Some(text) => Some((text, start + len)),
        None => None,
    }
}

fn read_option_text(bytes: &[u8], pos: usize) -> (read: Option<(Option<String>, usize)>)
    requires
        pos <= bytes@.len(),
    ensures
        match read {
            Some((text, next)) => dec_option_text(bytes@.skip(pos as int)) == Some(
                (option_text_view(text), bytes@.skip(next as int)),
            ) && pos <= next <= bytes@.len(),
            None => dec_option_text(bytes@.skip(pos as int)) is None,
        },
{
    let (present, start) = match read_bool(bytes, pos) {
        Some(read) => read,
        None => {
            return None;
        },
    };
    if present {
        match read_text(bytes, start) {
            Some((text, next)) => Some((Some(text), next)),
            None => None,
        }
    } else {
        Some((None, start))
    }
}

fn read_chat(bytes: &[u8], pos: usize) -> (read: Option<(ChatMsg, usize)>)
    requires
        pos <= bytes@.len(),
    ensures
        match read {
            Some((msg, next)) => dec_chat(bytes@.skip(pos as int)) == Some(
                (msg@, bytes@.skip(next as int)),
            ) && pos <= next <= bytes@.len(),
            None => dec_chat(bytes@.skip(pos as int)) is None,
        },
{
    let (sender, at1) = match read_text(bytes, pos) {
        Some(read) => read,
        None => {
            return None;
        },
    };
    let (timestamp, at2) = match read_time(bytes, at1) {
        Some(read) => read,
        None => {
            return None;
        },
    };
    let (content, at3) = match read_text(bytes, at2) {
        Some(read) => read,
        None => {
            return None;
        },
    };
    Some((ChatMsg { sender, timestamp, content }, at3))
}

fn read_chats(bytes: &[u8], pos: usize) -> (read: Option<(Vec<ChatMsg>, usize)>)
    requires
        pos <= bytes@.len(),
    ensures
        match read {
            Some((msgs, next)) => dec_chats(bytes@.skip(pos as int)) == Some(
                (views(msgs@), bytes@.skip(next as int)),
            ) && pos <= next <= bytes@.len(),
            None => dec_chats(bytes@.skip(pos as int)) is None,
        },
{
    let (count, start) = match read_len(bytes, pos) {
        Some(read) => read,
        None => {
            return None;
        },
    };
    let mut msgs: Vec<ChatMsg> = Vec::new();
    let mut at: usize = start;
    let mut i: u64 = 0;
    let ghost whole = dec_chat_items(bytes@.skip(start as int), count as nat);
    proof {
        assert(views(msgs@) =~= Seq::empty());
        match dec_chat_items(bytes@.skip(at as int), count as nat) {
            Some((others, after)) => {
                assert(views(msgs@) + others =~= others);
            },
            None => {},
        }
    }
    while i < count
        invariant
            i <= count,
            start <= at <= bytes@.len(),
            whole == dec_chats(bytes@.skip(pos as int)),
            whole == (match dec_chat_items(bytes@.skip(at as int), (count - i) as nat) {
                Some((others, after)) => Some((views(msgs@) + others, after)),
                None => None,
            }),
        decreases count - i,
    {
        match read_chat(bytes, at) {
            Some((msg, next)) => {
                proof {
                    lemma_views_push(msgs@, msg);
                    match dec_chat_items(bytes@.skip(next as int), (count - i - 1) as nat) {
                        Some((others, after)) => {
                            assert(views(msgs@) + (seq![msg@] + others) =~= views(msgs@).push(msg@)
                                + others);
                        },
                        None => {},
                    }
                }
                msgs.push(msg);
                at = next;
                i = i + 1;
            },
            None => {
                return None;
            },
        }
    }
    proof {
        assert(views(msgs@) + Seq::<ChatMsgView>::empty() =~= views(msgs@));
    }
    Some((msgs, at))
}

fn read_texts(bytes: &[u8], pos: usize) -> (read: Option<(Vec<String>, usize)>)
    requires
        pos <= bytes@.len(),
    ensures
        match read {
            Some((texts, next)) => dec_texts(bytes@.skip(pos as int)) == Some(
                (views(texts@), bytes@.skip(next as int)),
            ) && pos <= next <= bytes@.len(),
            None => dec_texts(bytes@.skip(pos as int)) is None,
        },
{
    let (count, start) = match read_len(bytes, pos) {
        Some(read) => read,
        None => {
            return None;
        },
    };
    let mut texts: Vec<String> = Vec::new();
    let mut at: usize = start;
    let mut i: u64 = 0;
    let ghost whole = dec_text_items(bytes@.skip(start as int), count as nat);
    proof {
        assert(views(texts@) =~= Seq::empty());
        match dec_text_items(bytes@.skip(at as int), count as nat) {
            Some((others, after)) => {
                assert(views(texts@) + others =~= others);
            },
            None => {},
        }
    }
    while i < count
        invariant
            i <= count,
            start <= at <= bytes@.len(),
            whole == dec_texts(bytes@.skip(pos as int)),
            whole == (match dec_text_items(bytes@.skip(at as int), (count - i) as nat) {
                Some((others, after)) => Some((views(texts@) + others, after)),
                None => None,
            }),
        decreases count - i,
    {
        match read_text(bytes, at) {
            Some((text, next)) => {
                proof {
                    lemma_views_push(texts@, text);
                    match dec_text_items(bytes@.skip(next as int), (count - i - 1) as nat) {
                        Some((others, after)) => {
                            assert(views(texts@) + (seq![text@] + others) =~= views(texts@).push(
                                text@,
                            ) + others);
                        },
                        None => {},
                    }
                }
                texts.push(text);
                at = next;
                i = i + 1;
            },
            None => {
                return None;
            },
        }
    }
    proof {
        assert(views(texts@) + Seq::<Seq<char>>::empty() =~= views(texts@));
    }
    Some((texts, at))
}

fn read_client_body(bytes: &[u8], pos: usize) -> (read: Option<(ClientMsgBody, usize)>)
    requires
        pos <= bytes@.len(),
    ensures
        match read {
            Some((body, next)) => dec_client_body(bytes@.skip(pos as int)) == Some(
                (body@, bytes@.skip(next as int)),
            ) && pos <= next <= bytes@.len(),
            None => dec_client_body(bytes@.skip(pos as int)) is None,
        },
{
    let (tag, start) = match read_tag(bytes, pos) {
        Some(read) => read,
        None => {
            return None;
        },
    };
    if tag == 0 {
        let (name, at1) = match read_text(bytes, start) {
            Some(read) => read,
            None => {
                return None;
            },
        };
        match read_key(bytes, at1) {
            Some((key, at2)) => Some((ClientMsgBody::Login(name, key), at2)),
            None => None,
        }
    } else if tag == 1 {
        match read_text(bytes, start) {
            Some((contents, at1)) => Some((ClientMsgBody::SendToRoom { contents }, at1)),
            None => None,
        }
    } else if tag == 2 {
        match read_text(bytes, start) {
            Some((target, at1)) => Some((ClientMsgBody::Move { target }, at1)),
            None => None,
        }
    } else if tag == 3 {
        Some((ClientMsgBody::GetTime, start))
    } else {
        None
    }
}

fn read_status(bytes: &[u8], pos: usize) -> (read: Option<(Status, usize)>)
    requires
        pos <= bytes@.len(),
    ensures
        match read {
            Some((status, next)) => dec_status(bytes@.skip(pos as int)) == Some(
                (status@, bytes@.skip(next as int)),
            ) && pos <= next <= bytes@.len(),
            None => dec_status(bytes@.skip(pos as int)) is None,
        },
{
    let (tag, start) = match read_tag(bytes, pos) {
        Some(read) => read,
        None => {
            return None;
        },
    };
    if tag == 0 {
        Some((Status::Yes, start))
    } else if tag == 1 {
        match read_text(bytes, start) {
            Some((reason, at1)) => Some((Status::No(reason), at1)),
            None => None,
        }
    } else if tag == 2 {
        Some((Status::JustNo, start))
    } else {
        None
    }
}

fn read_server_body(bytes: &[u8], pos: usize) -> (read: Option<(ServerMsgBody, usize)>)
    requires
        pos <= bytes@.len(),
    ensures
        match read {
            Some((body, next)) => dec_server_body(bytes@.skip(pos as int)) == Some(
                (body@, bytes@.skip(next as int)),
            ) && pos <= next <= bytes@.len(),
            None => dec_server_body(bytes@.skip(pos as int)) is None,
        },
{
    let (tag, start) = match read_tag(bytes, pos) {
        Some(read) => read,
        None => {
            return None;
        },
    };
    if tag == 0 {
        Some((ServerMsgBody::Empty, start))
    } else if tag == 1 {
        let (token, at1) = match read_text(bytes, start) {
            Some(read) => read,
            None => {
                return None;
            },
        };
        match read_key(bytes, at1) {
            Some((public_key, at2)) => Some(
                (ServerMsgBody::LoginSuccess { token, public_key }, at2),
            ),
            None => None,
        }
    } else if tag == 2 {
        let (direct, at1) = match read_bool(bytes, start) {
            Some(read) => read,
            None => {
                return None;
            },
        };
        match read_chat(bytes, at1) {
            Some((chat_msg, at2)) => Some((ServerMsgBody::ChatRecv { direct, chat_msg }, at2)),
            None => None,
        }
    } else if tag == 3 {
        let (query_ts, at1) = match read_time(bytes, start) {
            Some(read) => read,
            None => {
                return None;
            },
        };
        let (logs, at2) = match read_chats(bytes, at1) {
            Some(read) => read,
            None => {
                return None;
            },
        };
        match read_texts(bytes, at2) {
            Some((occupants, at3)) => Some(
                (ServerMsgBody::RoomData { query_ts, logs, occupants }, at3),
            ),
            None => None,
        }
    } else {
        None
    }
}

/// Reads the message from a client that the bytes begin with. Bytes after the
/// message are ignored. Bytes that begin with no message are refused.
pub fn deserialize_client_msg(bytes: &[u8]) -> (read: Result<ClientMsg, DecodeError>)
    ensures
        match read {
            Ok(msg) => client_msg_of(bytes@) == Some(msg@) && enc_client_msg(msg@).is_prefix_of(
                bytes@,
            ),
            Err(_) => client_msg_of(bytes@) is None,
        },
{
    assert(bytes@.skip(0) =~= bytes@);
    proof {
        if dec_client_msg(bytes@) is Some {
            let (msg, rest) = dec_client_msg(bytes@)->0;
            lemma_client_msg_canonical(bytes@, msg, rest);
            assert(enc_client_msg(msg).is_prefix_of(enc_client_msg(msg) + rest));
        }
    }
    let (token, at1) = match read_option_text(bytes, 0) {
        Some(read) => read,
        None => {
            return Err(DecodeError::Malformed);
        },
    };
    let (timestamp, at2) = match read_time(bytes, at1) {
        Some(read) => read,
        None => {
            return Err(DecodeError::Malformed);
        },
    };
    match read_client_body(bytes, at2) {
        Some((body, _)) => Ok(ClientMsg { token, timestamp, body }),
        None => Err(DecodeError::Malformed),
    }
}

/// Reads the message from the server that the bytes begin with. Bytes after the
/// message are ignored. Bytes that begin with no message are refused.
pub fn deserialize_server_msg(bytes: &[u8]) -> (read: Result<ServerMsg, DecodeError>)
    ensures
        match read {
            Ok(msg) => server_msg_of(bytes@) == Some(msg@) && enc_server_msg(msg@).is_prefix_of(
                bytes@,
            ),
            Err(_) => server_msg_of(bytes@) is None,
        },
{
    assert(bytes@.skip(0) =~= bytes@);
    proof {
        if dec_server_msg(bytes@) is Some {
            let (msg, rest) = dec_server_msg(bytes@)->0;
            lemma_server_msg_canonical(bytes@, msg, rest);
            assert(enc_server_msg(msg).is_prefix_of(enc_server_msg(msg) + rest));
        }
    }
    let (status, at1) = match read_status(bytes, 0) {
        Some(read) => read,
        None => {
            return Err(DecodeError::Malformed);
        },
    };
    let (timestamp, at2) = match read_time(bytes, at1) {
        Some(read) => read,
        None => {
            return Err(DecodeError::Malformed);
        },
    };
    match read_server_body(bytes, at2) {
        Some((body, _)) => Ok(ServerMsg { status, timestamp, body }),
        None => Err(DecodeError::Malformed),
    }
}

} // verus!

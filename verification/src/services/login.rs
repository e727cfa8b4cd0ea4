//! The handshake that turns a new connection into a session: the client's
//! first frame is read as a login, keys are exchanged, and the answer is made.
//! Both frames of the handshake travel unencrypted.

use crate::domain::text::{hex_upper, to_hex_upper};
use crate::domain::timestamp::Timestamp;
use crate::domain::user::{User, UserView};
use crate::services::message_builder::{login_fail_msg, login_success_msg, SocketSendAdaptor};
use crate::services::user_session::{Inbound, InboundView};
use crate::trusted::{diffie_hellman, fresh_uuid, is_random_uuid};
use crate::wire::codec::deserialize_client_msg;
use crate::wire::format::{client_msg_of, enc_server_msg, server_msg_of};
use crate::wire::messages::{ClientMsg, ClientMsgBody, ClientMsgView};
use rand_core::OsRng;
use vstd::prelude::*;
use x25519_dalek::{EphemeralSecret, PublicKey};

verus! {

/// Model of a [`LoginOutcome`].
pub enum LoginOutcomeView {
    Accepted { user: UserView, response: Seq<u8> },
    Rejected { response: Seq<u8> },
}

/// How a handshake ended.
#[derive(Debug)]
pub enum LoginOutcome {
    /// The client is logged in as this user. The response is to be sent, and a
    /// session started for the user.
    Accepted { user: User, response: Vec<u8> },
    /// The client is refused. The response is to be sent and the socket closed.
    Rejected { response: Vec<u8> },
}

impl View for LoginOutcome {
    type V = LoginOutcomeView;

    open spec fn view(&self) -> LoginOutcomeView {
        match *self {
            LoginOutcome::Accepted { user, response } => LoginOutcomeView::Accepted {
                user: user@,
                response: response@,
            },
            LoginOutcome::Rejected { response } => LoginOutcomeView::Rejected {
                response: response@,
            },
        }
    }
}

/// Whether a message is a login: it carries no token and asks to log in.
pub open spec fn is_login(msg: ClientMsgView) -> bool {
    msg.token is None && msg.body is Login
}

/// The login that a first frame holds, if it holds one: the frame is binary
/// and its payload reads as a login.
pub open spec fn login_of(first: InboundView) -> Option<ClientMsgView> {
    match first {
        InboundView::Binary(data) => match client_msg_of(data) {
            Some(msg) => if is_login(msg) {
                Some(msg)
            } else {
                None
            },
            None => None,
        },
        _ => None,
    }
}

/// The outcome of a login attempt, given the number that the token is drawn
/// from, the server's public key, the key agreed with the client and the
/// moment of the answer. A login is accepted: the user gets the number in
/// upper-case hexadecimal as its token, the name it asked for and the agreed
/// key, and is told the token and the server's public key. Any other message is
/// refused.
pub open spec fn login_outcome(
    msg: ClientMsgView,
    token_bits: u128,
    server_public: Seq<u8>,
    shared_secret: Seq<u8>,
    now: Timestamp,
) -> LoginOutcomeView {
    if is_login(msg) {
        let id = hex_upper(token_bits as nat);
        LoginOutcomeView::Accepted {
            user: UserView { id, name: msg.body->Login_0, shared_secret },
            response: enc_server_msg(login_success_msg(id, server_public, now)),
        }
    } else {
        LoginOutcomeView::Rejected { response: enc_server_msg(login_fail_msg(now)) }
    }
}

/// A new key pair for one handshake, the public key as its 32 bytes:
/// `EphemeralSecret::random_from_rng` with the system's random number
/// generator, `rand_core::OsRng`, then `PublicKey::from` of the secret and
/// `PublicKey::to_bytes`. Nothing is claimed of the keys. The call stops the
/// process if the system has no random bytes to give.
#[verifier::external_body]
pub fn create_key_pair() -> (pair: (EphemeralSecret, [u8; 32])) {
    let server_secret = EphemeralSecret::random_from_rng(OsRng);
    let server_public = PublicKey::from(&server_secret);
    (server_secret, server_public.to_bytes())
}

/// The frame that refuses a login, now.
pub fn on_login_failed() -> (response: Vec<u8>)
    ensures
        exists|now: Timestamp|
            {
                &&& now.millis >= 0
                &&& response@ == enc_server_msg(#[trigger] login_fail_msg(now))
                &&& server_msg_of(response@) == Some(login_fail_msg(now))
            },
{
    let now = Timestamp::now();
    let response = SocketSendAdaptor::on_login_failed_at(now);
    assert(response@ == enc_server_msg(login_fail_msg(now)));
    response
}

/// The frame that tells a user that it is logged in, now: its token and the
/// server's public key.
pub fn on_login_success(user: &User, server_public_key: &[u8; 32]) -> (response: Vec<u8>)
    ensures
        exists|now: Timestamp|
            {
                &&& now.millis >= 0
                &&& response@ == enc_server_msg(
                    #[trigger] login_success_msg(user@.id, server_public_key@, now),
                )
                &&& server_msg_of(response@) == Some(
                    login_success_msg(user@.id, server_public_key@, now),
                )
            },
{
    let now = Timestamp::now();
    let response = SocketSendAdaptor::on_login_success_at(user.id.clone(), *server_public_key, now);
    assert(response@ == enc_server_msg(login_success_msg(user@.id, server_public_key@, now)));
    response
}

/// Concludes a login attempt from its message and from what the key exchange,
/// the random source and the clock gave.
pub fn conclude_login(
    login_msg: ClientMsg,
    token_bits: u128,
    server_public: [u8; 32],
    shared_secret: [u8; 32],
    now: Timestamp,
) -> (outcome: LoginOutcome)
    ensures
        outcome@ == login_outcome(login_msg@, token_bits, server_public@, shared_secret@, now),
        match outcome@ {
            LoginOutcomeView::Accepted { user, response } => server_msg_of(response) == Some(
                login_success_msg(hex_upper(token_bits as nat), server_public@, now),
            ),
            LoginOutcomeView::Rejected { response } => server_msg_of(response) == Some(
                login_fail_msg(now),
            ),
        },
{
    match login_msg {
        ClientMsg { token: None, body: ClientMsgBody::Login(name, _), .. } => {
            let id = to_hex_upper(token_bits);
            let response = SocketSendAdaptor::on_login_success_at(id.clone(), server_public, now);
            LoginOutcome::Accepted { user: User::new(id, name, shared_secret), response }
        },
        _ => LoginOutcome::Rejected { response: SocketSendAdaptor::on_login_failed_at(now) },
    }
}

/// What holds of the outcome of a handshake whatever the random source, the key
/// exchange and the clock gave. A login is accepted: the user has the name
/// asked for, a fresh token and a key of 32 bytes, and the answer tells the
/// token and the server's public key. Anything else is refused, and the answer
/// says so. Either answer reads back as the message it is.
pub open spec fn outcome_answers(
    outcome: LoginOutcomeView,
    login: Option<ClientMsgView>,
    server_public: Seq<u8>,
) -> bool {
    match outcome {
        LoginOutcomeView::Accepted { user, response } => {
            &&& login is Some
            &&& user.shared_secret.len() == 32
            &&& exists|bits: u128, now: Timestamp|
                {
                    &&& is_random_uuid(bits)
                    &&& now.millis >= 0
                    &&& outcome == #[trigger] login_outcome(
                        login->0,
                        bits,
                        server_public,
                        user.shared_secret,
                        now,
                    )
                    &&& server_msg_of(response) == Some(
                        login_success_msg(hex_upper(bits as nat), server_public, now),
                    )
                }
        },
        LoginOutcomeView::Rejected { response } => {
            &&& login is None
            &&& exists|now: Timestamp|
                {
                    &&& now.millis >= 0
                    &&& response == enc_server_msg(#[trigger] login_fail_msg(now))
                    &&& server_msg_of(response) == Some(login_fail_msg(now))
                }
        },
    }
}

/// Takes a message that was read from a new connection as an attempt to log
/// in, with the server's key pair for this connection. A login is accepted;
/// anything else is refused.
pub fn handle_login_attempt(
    login_msg: ClientMsg,
    server_secret: EphemeralSecret,
    server_public_key: [u8; 32],
) -> (outcome: LoginOutcome)
    ensures
        outcome_answers(
            outcome@,
            if is_login(login_msg@) {
                Some(login_msg@)
            } else {
                None
            },
            server_public_key@,
        ),
{
    let now = Timestamp::now();
    let client_public = match &login_msg {
        ClientMsg { token: None, body: ClientMsgBody::Login(_, client_public_key), .. } => Some(
            *client_public_key,
        ),
        _ => None,
    };
    match client_public {
        Some(key) => {
            let token_bits = fresh_uuid();
            let shared_secret = diffie_hellman(server_secret, key);
            let outcome = conclude_login(
                login_msg,
                token_bits,
                server_public_key,
                shared_secret,
                now,
            );
            assert(outcome@ == login_outcome(
                login_msg@,
                token_bits,
                server_public_key@,
                outcome@->Accepted_user.shared_secret,
                now,
            ));
            outcome
        },
        None => {
            let response = SocketSendAdaptor::on_login_failed_at(now);
            assert(response@ == enc_server_msg(login_fail_msg(now)));
            LoginOutcome::Rejected { response }
        },
    }
}

/// Takes the first frame of a new connection. A binary frame that reads as a
/// login is accepted; any other frame, and a frame that does not read as a
/// message, is refused.
pub fn handle_client_initiation(
    first: Inbound,
    server_secret: EphemeralSecret,
    server_public_key: [u8; 32],
) -> (outcome: LoginOutcome)
    ensures
        outcome_answers(outcome@, login_of(first@), server_public_key@),
        outcome@ is Accepted <==> login_of(first@) is Some,
{
    match first {
        Inbound::Binary(data) => match deserialize_client_msg(data.as_slice()) {
            Ok(msg) => handle_login_attempt(msg, server_secret, server_public_key),
            Err(_) => {
                let response = on_login_failed();
                LoginOutcome::Rejected { response }
            },
        },
        _ => {
            let response = on_login_failed();
            LoginOutcome::Rejected { response }
        },
    }
}

/// The handshake: makes a key pair for the connection and takes the client's
/// first frame.
pub fn login_handshake(first: Inbound) -> (outcome: LoginOutcome)
    ensures
        exists|server_public: Seq<u8>|
            server_public.len() == 32 && #[trigger] outcome_answers(
                outcome@,
                login_of(first@),
                server_public,
            ),
        outcome@ is Accepted <==> login_of(first@) is Some,
{
    let (server_secret, server_public) = create_key_pair();
    let outcome = handle_client_initiation(first, server_secret, server_public);
    assert(outcome_answers(outcome@, login_of(first@), server_public@));
    outcome
}

} // verus!

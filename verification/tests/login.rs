use marain_server::domain::timestamp::Timestamp;
use marain_server::services::login::{
    conclude_login, create_key_pair, handle_client_initiation, handle_login_attempt,
    login_handshake, on_login_failed, on_login_success, LoginOutcome,
};
use marain_server::services::user_session::Inbound;
use marain_server::domain::user::User;
use marain_server::wire::codec::{deserialize_server_msg, serialize_client_msg};
use marain_server::wire::messages::{ClientMsg, ClientMsgBody, ServerMsg, ServerMsgBody, Status};
use rand_core::OsRng;
use x25519_dalek::{EphemeralSecret, PublicKey};

fn login_frame(name: &str, key: [u8; 32]) -> Vec<u8> {
    serialize_client_msg(&ClientMsg {
        token: None,
        timestamp: Timestamp::from_millis(1),
        body: ClientMsgBody::Login(name.to_string(), key),
    })
}

fn assert_refused(outcome: LoginOutcome) {
    match outcome {
        LoginOutcome::Rejected { response } => {
            let answer = deserialize_server_msg(&response).unwrap();
            assert_eq!(answer.status, Status::JustNo);
            assert_eq!(answer.body, ServerMsgBody::Empty);
            assert!(answer.timestamp.millis > 1_577_836_800_000);
        }
        other => panic!("expected a refusal, got {:?}", other),
    }
}

#[test]
fn a_text_frame_is_refused_with_just_no() {
    assert_refused(login_handshake(Inbound::Other));
}

#[test]
fn a_close_or_a_read_error_is_refused() {
    assert_refused(login_handshake(Inbound::Close));
    assert_refused(login_handshake(Inbound::Failed));
}

#[test]
fn a_frame_that_is_no_message_is_refused() {
    assert_refused(login_handshake(Inbound::Binary(vec![1, 2, 3])));
    assert_refused(login_handshake(Inbound::Binary(vec![])));
}

#[test]
fn a_first_message_that_is_no_login_is_refused() {
    let with_token = serialize_client_msg(&ClientMsg {
        token: Some("T".to_string()),
        timestamp: Timestamp::from_millis(1),
        body: ClientMsgBody::Login("alice".to_string(), [1u8; 32]),
    });
    assert_refused(login_handshake(Inbound::Binary(with_token)));
    for body in [
        ClientMsgBody::GetTime,
        ClientMsgBody::SendToRoom { contents: "x".to_string() },
        ClientMsgBody::Move { target: "y".to_string() },
    ] {
        let bytes = serialize_client_msg(&ClientMsg {
            token: None,
            timestamp: Timestamp::from_millis(1),
            body,
        });
        assert_refused(login_handshake(Inbound::Binary(bytes)));
    }
}

#[test]
fn a_login_is_accepted_and_both_sides_arrive_at_the_same_key() {
    let client_secret = EphemeralSecret::random_from_rng(OsRng);
    let client_public = PublicKey::from(&client_secret);
    let outcome = login_handshake(Inbound::Binary(login_frame("alice", client_public.to_bytes())));
    let (user, response) = match outcome {
        LoginOutcome::Accepted { user, response } => (user, response),
        other => panic!("expected an acceptance, got {:?}", other),
    };
    assert_eq!(user.name, "alice");
    let answer = deserialize_server_msg(&response).unwrap();
    assert_eq!(answer.status, Status::Yes);
    assert!(answer.timestamp.millis > 1_577_836_800_000);
    let (token, server_public) = match answer.body {
        ServerMsgBody::LoginSuccess { token, public_key } => (token, public_key),
        other => panic!("expected LoginSuccess, got {:?}", other),
    };
    assert_eq!(token, user.id);
    let shared = client_secret.diffie_hellman(&PublicKey::from(server_public));
    assert_eq!(shared.to_bytes(), user.shared_secret);
    assert_ne!(user.shared_secret, client_public.to_bytes());
    assert_ne!(user.shared_secret, [0u8; 32]);
}

#[test]
fn tokens_are_version_4_identifiers_in_upper_case_hex() {
    let mut seen = Vec::new();
    for _ in 0..20 {
        let outcome = login_handshake(Inbound::Binary(login_frame("bob", [9u8; 32])));
        let user = match outcome {
            LoginOutcome::Accepted { user, .. } => user,
            other => panic!("expected an acceptance, got {:?}", other),
        };
        assert!(!user.id.is_empty() && user.id.len() <= 32);
        assert!(user.id.chars().all(|c| c.is_ascii_digit() || ('A'..='F').contains(&c)));
        assert!(!user.id.starts_with('0'));
        let bits = u128::from_str_radix(&user.id, 16).unwrap();
        assert_eq!((bits >> 76) & 0xf, 4);
        assert_eq!((bits >> 62) & 0x3, 2);
        assert!(!seen.contains(&user.id));
        seen.push(user.id);
    }
}

#[test]
fn conclude_login_builds_the_user_and_the_answer() {
    let msg = ClientMsg {
        token: None,
        timestamp: Timestamp::from_millis(1),
        body: ClientMsgBody::Login("carol".to_string(), [1u8; 32]),
    };
    let outcome =
        conclude_login(msg, 0xabc_0123, [2u8; 32], [3u8; 32], Timestamp::from_millis(99));
    match outcome {
        LoginOutcome::Accepted { user, response } => {
            assert_eq!(user, User::new("ABC0123".to_string(), "carol".to_string(), [3u8; 32]));
            assert_eq!(
                deserialize_server_msg(&response),
                Ok(ServerMsg {
                    status: Status::Yes,
                    timestamp: Timestamp::from_millis(99),
                    body: ServerMsgBody::LoginSuccess {
                        token: "ABC0123".to_string(),
                        public_key: [2u8; 32],
                    },
                })
            );
        }
        other => panic!("expected an acceptance, got {:?}", other),
    }
    let not_a_login = ClientMsg {
        token: None,
        timestamp: Timestamp::from_millis(1),
        body: ClientMsgBody::GetTime,
    };
    match conclude_login(not_a_login, 1, [2u8; 32], [3u8; 32], Timestamp::from_millis(99)) {
        LoginOutcome::Rejected { response } => assert_eq!(
            deserialize_server_msg(&response),
            Ok(ServerMsg {
                status: Status::JustNo,
                timestamp: Timestamp::from_millis(99),
                body: ServerMsgBody::Empty,
            })
        ),
        other => panic!("expected a refusal, got {:?}", other),
    }
}

#[test]
fn key_pairs_are_fresh_and_the_public_key_is_told() {
    let (secret_a, public_a) = create_key_pair();
    let (_secret_b, public_b) = create_key_pair();
    assert_ne!(public_a, public_b);
    assert_eq!(PublicKey::from(&secret_a).to_bytes(), public_a);
    let user = User::new("TOKEN".to_string(), "dave".to_string(), [0u8; 32]);
    let answer = deserialize_server_msg(&on_login_success(&user, &public_a)).unwrap();
    assert_eq!(
        answer.body,
        ServerMsgBody::LoginSuccess { token: "TOKEN".to_string(), public_key: public_a }
    );
    assert_eq!(answer.status, Status::Yes);
}

#[test]
fn login_attempt_uses_the_key_pair_given() {
    let (server_secret, server_public) = create_key_pair();
    let client_secret = EphemeralSecret::random_from_rng(OsRng);
    let client_public = PublicKey::from(&client_secret);
    let msg = ClientMsg {
        token: None,
        timestamp: Timestamp::from_millis(1),
        body: ClientMsgBody::Login("erin".to_string(), client_public.to_bytes()),
    };
    match handle_login_attempt(msg, server_secret, server_public) {
        LoginOutcome::Accepted { user, response } => {
            let answer = deserialize_server_msg(&response).unwrap();
            match answer.body {
                ServerMsgBody::LoginSuccess { token, public_key } => {
                    assert_eq!(public_key, server_public);
                    assert_eq!(token, user.id);
                }
                other => panic!("expected LoginSuccess, got {:?}", other),
            }
            assert_eq!(
                client_secret.diffie_hellman(&PublicKey::from(server_public)).to_bytes(),
                user.shared_secret
            );
        }
        other => panic!("expected an acceptance, got {:?}", other),
    }
    let (server_secret, server_public) = create_key_pair();
    let no_login = ClientMsg {
        token: None,
        timestamp: Timestamp::from_millis(1),
        body: ClientMsgBody::GetTime,
    };
    assert_refused(handle_login_attempt(no_login, server_secret, server_public));
    let (server_secret, server_public) = create_key_pair();
    assert_refused(handle_client_initiation(Inbound::Other, server_secret, server_public));
}

#[test]
fn the_refusal_frame_says_just_no() {
    let answer = deserialize_server_msg(&on_login_failed()).unwrap();
    assert_eq!(answer.status, Status::JustNo);
    assert_eq!(answer.body, ServerMsgBody::Empty);
}

use futures_channel::mpsc::{unbounded, UnboundedReceiver};
use marain_server::domain::chat_log::MessageLog;
use marain_server::domain::commands::{Command, CommandPayload};
use marain_server::domain::events::Event;
use marain_server::domain::notification_log::NotificationLog;
use marain_server::domain::room::Room;
use marain_server::domain::timestamp::Timestamp;
use marain_server::domain::user::User;
use marain_server::services::message_builder::{ServerMsgFactory, SocketSendAdaptor};
use marain_server::services::user_session::{
    Inbound, Reaction, SessionError, SessionInput, SessionPhase, SessionStep, SessionWorker,
};
use marain_server::wire::codec::{deserialize_server_msg, serialize_client_msg};
use marain_server::wire::messages::{
    ChatMsg, ClientMsg, ClientMsgBody, ServerMsg, ServerMsgBody, Status,
};

fn alice() -> User {
    User::new("A11CE".to_string(), "alice".to_string(), [5u8; 32])
}

fn fresh_worker() -> (SessionWorker, UnboundedReceiver<Command>) {
    let (gateway_sink, gateway_source) = unbounded::<Command>();
    (SessionWorker::new(alice(), gateway_sink), gateway_source)
}

/// A running session, the registration already taken from the gateway.
fn worker() -> (SessionWorker, UnboundedReceiver<Command>) {
    let (mut w, mut gateway) = fresh_worker();
    assert_eq!(w.register(), Ok(()));
    assert!(matches!(gateway.try_recv().unwrap().payload, CommandPayload::RegisterUser(_)));
    assert_eq!(w.phase(), SessionPhase::Running);
    (w, gateway)
}

fn decrypted(w: &mut SessionWorker, bytes: Vec<u8>) -> SessionStep {
    w.advance(SessionInput::Decrypted(Some(bytes)))
}

fn frame(token: Option<&str>, body: ClientMsgBody) -> Vec<u8> {
    serialize_client_msg(&ClientMsg {
        token: token.map(|t| t.to_string()),
        timestamp: Timestamp::from_millis(1),
        body,
    })
}

fn sent(step: SessionStep) -> ServerMsg {
    match step {
        SessionStep::Send(bytes) => deserialize_server_msg(&bytes).unwrap(),
        other => panic!("expected Send, got {:?}", other),
    }
}

#[test]
fn frames_are_sorted_by_kind() {
    let (w, _gateway) = fresh_worker();
    assert_eq!(w.on_frame(Inbound::Binary(vec![1, 2, 3])), SessionStep::Decrypt(vec![1, 2, 3]));
    assert_eq!(w.on_frame(Inbound::Close), SessionStep::End);
    assert_eq!(w.on_frame(Inbound::Failed), SessionStep::End);
    assert_eq!(w.on_frame(Inbound::Other), SessionStep::Continue);
}

#[test]
fn worker_knows_its_user_and_key() {
    let (w, _gateway) = worker();
    assert_eq!(w.user(), &alice());
    assert_eq!(w.shared_secret(), &[5u8; 32]);
}

#[test]
fn register_hands_the_event_channel_to_the_app_once() {
    let (mut w, mut gateway) = fresh_worker();
    assert_eq!(w.phase(), SessionPhase::Fresh);
    let mut events = w.take_event_source().unwrap();
    assert!(w.take_event_source().is_none());
    assert_eq!(w.register(), Ok(()));
    let command = gateway.try_recv().unwrap();
    assert_eq!(command.user, alice());
    match command.payload {
        CommandPayload::RegisterUser(sink) => {
            sink.unbounded_send(Event::UserRegistered { token: "x".to_string() }).unwrap();
            assert_eq!(
                events.try_recv().unwrap(),
                Event::UserRegistered { token: "x".to_string() }
            );
        }
        other => panic!("expected RegisterUser, got {:?}", other),
    }
    assert_eq!(w.phase(), SessionPhase::Running);
    assert_eq!(w.register(), Err(SessionError::SinkTaken));
    assert_eq!(w.phase(), SessionPhase::Running);
    assert!(gateway.try_recv().is_err());
}

#[test]
fn register_fails_when_the_gateway_is_closed() {
    let (mut w, gateway) = fresh_worker();
    drop(gateway);
    assert_eq!(w.register(), Err(SessionError::GatewayClosed));
    assert_eq!(w.phase(), SessionPhase::Over);
    assert_eq!(w.register(), Err(SessionError::SinkTaken));
    assert_eq!(w.advance(SessionInput::Frame(Inbound::Close)), SessionStep::End);
}

#[test]
fn a_frame_that_cannot_be_decrypted_ends_the_session() {
    let (mut w, mut gateway) = worker();
    assert!(matches!(w.react(None, Timestamp::from_millis(1)), Reaction::End));
    // the session asks to be dropped and waits for the farewell
    assert_eq!(w.advance(SessionInput::Decrypted(None)), SessionStep::Continue);
    assert_eq!(w.phase(), SessionPhase::Leaving);
    assert!(matches!(gateway.try_recv().unwrap().payload, CommandPayload::DropUser));
    assert!(gateway.try_recv().is_err());
}

#[test]
fn bytes_that_are_no_message_are_passed_over() {
    let (mut w, mut gateway) = worker();
    assert_eq!(decrypted(&mut w, vec![9, 9, 9]), SessionStep::Continue);
    assert_eq!(decrypted(&mut w, vec![]), SessionStep::Continue);
    assert_eq!(w.phase(), SessionPhase::Running);
    assert!(gateway.try_recv().is_err());
}

#[test]
fn a_room_message_becomes_a_record_command() {
    let (mut w, mut gateway) = worker();
    let bytes = frame(Some("A11CE"), ClientMsgBody::SendToRoom { contents: "hello".to_string() });
    assert_eq!(decrypted(&mut w, bytes), SessionStep::Continue);
    let command = gateway.try_recv().unwrap();
    assert_eq!(command.user, alice());
    match command.payload {
        CommandPayload::RecordMessage { message } => assert_eq!(message, "hello"),
        other => panic!("expected RecordMessage, got {:?}", other),
    }
    assert!(gateway.try_recv().is_err());
}

#[test]
fn a_move_request_becomes_a_move_command() {
    let (mut w, mut gateway) = worker();
    let bytes = frame(Some("A11CE"), ClientMsgBody::Move { target: "lobby".to_string() });
    assert_eq!(decrypted(&mut w, bytes), SessionStep::Continue);
    let command = gateway.try_recv().unwrap();
    match command.payload {
        CommandPayload::MoveUser { target_room } => assert_eq!(target_room, Room::from("lobby")),
        other => panic!("expected MoveUser, got {:?}", other),
    }
}

#[test]
fn get_time_does_not_reach_the_app() {
    let (mut w, mut gateway) = worker();
    let mut last = 0i64;
    for _ in 0..100 {
        let bytes = frame(Some("A11CE"), ClientMsgBody::GetTime);
        let answer = sent(decrypted(&mut w, bytes));
        assert_eq!(answer.status, Status::Yes);
        assert_eq!(answer.body, ServerMsgBody::Empty);
        assert!(answer.timestamp.millis >= last);
        assert!(answer.timestamp.millis > 1_577_836_800_000);
        last = answer.timestamp.millis;
    }
    assert!(gateway.try_recv().is_err());
}

#[test]
fn get_time_is_answered_with_the_moment_given() {
    let (w, _gateway) = worker();
    let bytes = frame(Some("A11CE"), ClientMsgBody::GetTime);
    match w.react(Some(bytes), Timestamp::from_millis(4242)) {
        Reaction::Reply(bytes) => {
            assert_eq!(
                deserialize_server_msg(&bytes),
                Ok(ServerMsg {
                    status: Status::Yes,
                    timestamp: Timestamp::from_millis(4242),
                    body: ServerMsgBody::Empty,
                })
            );
            assert_eq!(bytes, SocketSendAdaptor::prepare_send_time(Timestamp::from_millis(4242)));
        }
        other => panic!("expected Reply, got {:?}", other),
    }
}

#[test]
fn messages_without_the_sessions_token_are_passed_over() {
    let (mut w, mut gateway) = worker();
    for token in [None, Some("SOMEONE"), Some(""), Some("a11ce")] {
        for body in [
            ClientMsgBody::SendToRoom { contents: "x".to_string() },
            ClientMsgBody::Move { target: "y".to_string() },
            ClientMsgBody::GetTime,
        ] {
            assert_eq!(decrypted(&mut w, frame(token, body)), SessionStep::Continue);
        }
    }
    assert!(gateway.try_recv().is_err());
    let msg = ClientMsg {
        token: Some("WRONG".to_string()),
        timestamp: Timestamp::from_millis(1),
        body: ClientMsgBody::GetTime,
    };
    assert_eq!(
        w.parse_client_msg(msg, Timestamp::from_millis(2)).unwrap_err(),
        SessionError::WrongToken
    );
}

#[test]
fn a_login_in_the_middle_of_a_session_is_passed_over() {
    let (mut w, mut gateway) = worker();
    let bytes = frame(Some("A11CE"), ClientMsgBody::Login("alice".to_string(), [0u8; 32]));
    assert_eq!(decrypted(&mut w, bytes), SessionStep::Continue);
    assert!(gateway.try_recv().is_err());
    let msg = ClientMsg {
        token: Some("A11CE".to_string()),
        timestamp: Timestamp::from_millis(1),
        body: ClientMsgBody::Login("alice".to_string(), [0u8; 32]),
    };
    assert_eq!(
        w.parse_client_msg(msg, Timestamp::from_millis(2)).unwrap_err(),
        SessionError::UnexpectedBody
    );
}

#[test]
fn parse_gives_a_time_command_with_the_moment_given() {
    let (w, _gateway) = worker();
    let msg = ClientMsg {
        token: Some("A11CE".to_string()),
        timestamp: Timestamp::from_millis(1),
        body: ClientMsgBody::GetTime,
    };
    let command = w.parse_client_msg(msg, Timestamp::from_millis(77)).unwrap();
    assert_eq!(command.user, alice());
    assert!(matches!(command.payload, CommandPayload::Time(t) if t.millis == 77));
}

#[test]
fn a_closed_gateway_ends_the_session() {
    let (mut w, gateway) = worker();
    drop(gateway);
    let bytes = frame(Some("A11CE"), ClientMsgBody::SendToRoom { contents: "x".to_string() });
    assert_eq!(decrypted(&mut w, bytes), SessionStep::End);
    assert_eq!(w.phase(), SessionPhase::Over);
    assert!(!w.end_session());
    assert_eq!(w.advance(SessionInput::Frame(Inbound::Other)), SessionStep::End);
}

#[test]
fn the_registration_event_sends_nothing() {
    let (w, _gateway) = worker();
    assert_eq!(
        w.handle_event(Event::UserRegistered { token: "A11CE".to_string() }),
        SessionStep::Continue
    );
}

#[test]
fn a_chat_event_is_sent_under_the_name_of_its_author() {
    let (w, _gateway) = worker();
    let msg = MessageLog {
        username: "bob".to_string(),
        timestamp: Timestamp::from_millis(9),
        contents: "hi alice".to_string(),
    };
    let answer = sent(w.handle_event(Event::MsgReceived { msg: msg.clone() }));
    assert_eq!(
        answer,
        ServerMsg {
            status: Status::Yes,
            timestamp: Timestamp::from_millis(9),
            body: ServerMsgBody::ChatRecv {
                direct: false,
                chat_msg: ChatMsg {
                    sender: "bob".to_string(),
                    timestamp: Timestamp::from_millis(9),
                    content: "hi alice".to_string(),
                },
            },
        }
    );
    assert_eq!(ServerMsgFactory::build_msg_log_server_msg(msg), answer);
}

#[test]
fn join_and_leave_events_are_sent_as_room_data() {
    let (w, _gateway) = worker();
    let log = vec![MessageLog {
        username: "bob".to_string(),
        timestamp: Timestamp::from_millis(1),
        contents: "first".to_string(),
    }];
    let notes =
        vec![NotificationLog::at("carol joined Hub".to_string(), Timestamp::from_millis(2))];
    let names = vec!["bob".to_string(), "carol".to_string()];
    let expected_logs = vec![
        ChatMsg {
            sender: "bob".to_string(),
            timestamp: Timestamp::from_millis(1),
            content: "first".to_string(),
        },
        ChatMsg {
            sender: "SERVER".to_string(),
            timestamp: Timestamp::from_millis(2),
            content: "carol joined Hub".to_string(),
        },
    ];
    let joined = Event::UserJoined {
        user: alice(),
        room: Room::hub(),
        msg_log: log.clone(),
        notifications: notes.clone(),
        occupant_names: names.clone(),
    };
    let left = Event::UserLeft {
        user: alice(),
        room: Room::hub(),
        msg_log: log,
        notifications: notes,
        occupant_names: names.clone(),
    };
    for event in [joined, left] {
        let answer = sent(w.handle_event_at(event, Timestamp::from_millis(50)));
        assert_eq!(
            answer,
            ServerMsg {
                status: Status::Yes,
                timestamp: Timestamp::from_millis(50),
                body: ServerMsgBody::RoomData {
                    query_ts: Timestamp::from_millis(50),
                    logs: expected_logs.clone(),
                    occupants: names.clone(),
                },
            }
        );
    }
}

#[test]
fn ending_a_session_asks_for_the_drop_and_waits_for_the_farewell() {
    let (mut w, mut gateway) = worker();
    assert!(w.end_session());
    assert_eq!(w.phase(), SessionPhase::Leaving);
    assert!(!w.end_session());
    let command = gateway.try_recv().unwrap();
    assert_eq!(command.user, alice());
    assert!(matches!(command.payload, CommandPayload::DropUser));
    assert_eq!(w.drop_request().user, alice());
    assert!(matches!(w.drop_request().payload, CommandPayload::DropUser));
    let farewell = Event::UserLeft {
        user: alice(),
        room: Room::hub(),
        msg_log: vec![],
        notifications: vec![],
        occupant_names: vec![],
    };
    let other_left = Event::UserLeft {
        user: User::new("B".to_string(), "bob".to_string(), [5u8; 32]),
        room: Room::hub(),
        msg_log: vec![],
        notifications: vec![],
        occupant_names: vec![],
    };
    let joined = Event::UserJoined {
        user: alice(),
        room: Room::hub(),
        msg_log: vec![],
        notifications: vec![],
        occupant_names: vec![],
    };
    assert!(w.is_farewell(&farewell));
    assert!(!w.is_farewell(&other_left));
    assert!(!w.is_farewell(&joined));
    assert!(!w.is_farewell(&Event::UserRegistered { token: "A11CE".to_string() }));
    // while it waits, the session passes over everything but the farewell
    assert_eq!(w.advance(SessionInput::Event(other_left)), SessionStep::Continue);
    assert_eq!(w.advance(SessionInput::Event(joined)), SessionStep::Continue);
    assert_eq!(w.advance(SessionInput::Frame(Inbound::Binary(vec![1]))), SessionStep::Continue);
    assert_eq!(w.advance(SessionInput::WriteFailed), SessionStep::Continue);
    assert_eq!(w.phase(), SessionPhase::Leaving);
    assert!(gateway.try_recv().is_err());
    assert_eq!(w.advance(SessionInput::Event(farewell)), SessionStep::End);
    assert_eq!(w.phase(), SessionPhase::Over);
}

#[test]
fn every_way_out_of_the_main_loop_asks_for_the_drop() {
    let ways: Vec<fn() -> SessionInput> = vec![
        || SessionInput::Frame(Inbound::Close),
        || SessionInput::Frame(Inbound::Failed),
        || SessionInput::Decrypted(None),
        || SessionInput::WriteFailed,
    ];
    for way in ways {
        let (mut w, mut gateway) = worker();
        assert_eq!(w.advance(way()), SessionStep::Continue);
        assert_eq!(w.phase(), SessionPhase::Leaving);
        let command = gateway.try_recv().unwrap();
        assert_eq!(command.user, alice());
        assert!(matches!(command.payload, CommandPayload::DropUser));
        assert!(gateway.try_recv().is_err());
    }
}

#[test]
fn a_fresh_session_takes_no_input() {
    let (mut w, mut gateway) = fresh_worker();
    assert_eq!(w.advance(SessionInput::Frame(Inbound::Close)), SessionStep::Continue);
    let bytes = frame(Some("A11CE"), ClientMsgBody::SendToRoom { contents: "x".to_string() });
    assert_eq!(decrypted(&mut w, bytes), SessionStep::Continue);
    assert_eq!(w.phase(), SessionPhase::Fresh);
    assert!(!w.end_session());
    assert!(gateway.try_recv().is_err());
}

#[test]
fn a_running_session_decrypts_binary_frames_and_sends_events() {
    let (mut w, _gateway) = worker();
    assert_eq!(
        w.advance(SessionInput::Frame(Inbound::Binary(vec![4, 5]))),
        SessionStep::Decrypt(vec![4, 5])
    );
    assert_eq!(w.advance(SessionInput::Frame(Inbound::Other)), SessionStep::Continue);
    let msg = MessageLog {
        username: "bob".to_string(),
        timestamp: Timestamp::from_millis(9),
        contents: "hi".to_string(),
    };
    let answer = sent(w.advance(SessionInput::Event(Event::MsgReceived { msg })));
    assert!(matches!(answer.body, ServerMsgBody::ChatRecv { .. }));
    assert_eq!(w.phase(), SessionPhase::Running);
}

#[test]
fn login_answers_are_built_as_asked() {
    let now = Timestamp::from_millis(5);
    let ok = ServerMsgFactory::build_login_success_server_msg("TOK".to_string(), [8u8; 32], now);
    assert_eq!(
        ok,
        ServerMsg {
            status: Status::Yes,
            timestamp: now,
            body: ServerMsgBody::LoginSuccess { token: "TOK".to_string(), public_key: [8u8; 32] },
        }
    );
    assert_eq!(
        deserialize_server_msg(&SocketSendAdaptor::on_login_success_at(
            "TOK".to_string(),
            [8u8; 32],
            now
        )),
        Ok(ok)
    );
    let fail = ServerMsgFactory::build_login_fail_server_msg(now);
    assert_eq!(
        fail,
        ServerMsg { status: Status::JustNo, timestamp: now, body: ServerMsgBody::Empty }
    );
    assert_eq!(deserialize_server_msg(&SocketSendAdaptor::on_login_failed_at(now)), Ok(fail));
    let time = ServerMsgFactory::build_time_server_msg(now);
    assert_eq!(time, ServerMsg { status: Status::Yes, timestamp: now, body: ServerMsgBody::Empty });
    let sent_now = deserialize_server_msg(&SocketSendAdaptor::on_login_success(
        "TOK".to_string(),
        [8u8; 32],
    ))
    .unwrap();
    assert!(sent_now.timestamp.millis > 1_577_836_800_000);
    assert_eq!(
        SocketSendAdaptor::serialized_server_msg(time.clone()),
        SocketSendAdaptor::prepare_send_time(now)
    );
}

#[test]
fn the_requests_of_a_session_are_those_of_its_user() {
    let (w, _gateway) = fresh_worker();
    let (sink, mut source) = unbounded::<Event>();
    let registration = w.registration(sink);
    assert_eq!(registration.user, alice());
    match registration.payload {
        CommandPayload::RegisterUser(carried) => {
            let event = Event::UserRegistered { token: "t".to_string() };
            carried.unbounded_send(event.clone()).unwrap();
            assert_eq!(source.try_recv().unwrap(), event);
        }
        other => panic!("expected RegisterUser, got {:?}", other),
    }
    let request = w.drop_request();
    assert_eq!(request.user, alice());
    assert!(matches!(request.payload, CommandPayload::DropUser));
}

#[test]
fn a_session_hands_on_its_registration_first_and_its_drop_last() {
    let (mut w, mut gateway) = fresh_worker();
    assert_eq!(w.register(), Ok(()));
    let said = frame(Some("A11CE"), ClientMsgBody::SendToRoom { contents: "hi".to_string() });
    assert_eq!(decrypted(&mut w, said), SessionStep::Continue);
    assert_eq!(w.advance(SessionInput::Frame(Inbound::Close)), SessionStep::Continue);
    // nothing more is handed on while the session waits
    assert_eq!(w.advance(SessionInput::Frame(Inbound::Close)), SessionStep::Continue);
    assert_eq!(w.advance(SessionInput::WriteFailed), SessionStep::Continue);
    let mut kinds = Vec::new();
    while let Ok(command) = gateway.try_recv() {
        assert_eq!(command.user, alice());
        kinds.push(match command.payload {
            CommandPayload::RegisterUser(_) => "register",
            CommandPayload::RecordMessage { .. } => "record",
            CommandPayload::DropUser => "drop",
            _ => "other",
        });
    }
    assert_eq!(kinds, vec!["register", "record", "drop"]);
}

use futures_channel::mpsc::unbounded;
use marain_server::domain::commands::{Command, CommandPayload};
use marain_server::domain::events::Event;
use marain_server::domain::room::Room;
use marain_server::domain::timestamp::Timestamp;
use marain_server::domain::user::User;
use marain_server::services::broadcast::Broadcast;
use marain_server::services::handler::{CommandHandler, HandlerError};
use marain_server::services::state::AppState;
use std::collections::VecDeque;

fn person(id: &str, name: &str) -> User {
    User::new(id.to_string(), name.to_string(), [1u8; 32])
}

fn register(user: &User) -> Command {
    let (sink, _source) = unbounded::<Event>();
    Command { user: user.clone(), payload: CommandPayload::RegisterUser(sink) }
}

fn say(user: &User, text: &str) -> Command {
    let payload = CommandPayload::RecordMessage { message: text.to_string() };
    Command { user: user.clone(), payload }
}

fn go(user: &User, room: &str) -> Command {
    let payload = CommandPayload::MoveUser { target_room: Room::from(room) };
    Command { user: user.clone(), payload }
}

fn drop_user(user: &User) -> Command {
    Command { user: user.clone(), payload: CommandPayload::DropUser }
}

fn run(handler: &mut CommandHandler, command: Command, millis: i64) -> Vec<Broadcast> {
    let mut buf = VecDeque::new();
    let done = handler.handle_at(command, Timestamp::from_millis(millis), &mut buf);
    assert_eq!(done, Ok(()));
    buf.into_iter().collect()
}

fn recipient_names(b: &Broadcast) -> Vec<String> {
    b.subscribers.iter().map(|u| u.name.clone()).collect()
}

#[test]
fn register_puts_the_user_into_the_hub_and_tells_it() {
    let mut handler = CommandHandler::new(AppState::new());
    let alice = person("A", "alice");
    let told = run(&mut handler, register(&alice), 10);
    assert_eq!(told.len(), 2);
    assert_eq!(told[0].event, Event::UserRegistered { token: "A".to_string() });
    assert_eq!(told[0].subscribers, vec![alice.clone()]);
    match &told[1].event {
        Event::UserJoined { user, room, msg_log, notifications, occupant_names } => {
            assert_eq!(user, &alice);
            assert_eq!(room, &Room::hub());
            assert!(msg_log.is_empty());
            assert_eq!(notifications.len(), 1);
            assert_eq!(notifications[0].contents, "alice joined Hub");
            assert_eq!(notifications[0].notifier, "SERVER");
            assert_eq!(notifications[0].timestamp.millis, 10);
            assert_eq!(occupant_names, &vec!["alice".to_string()]);
        }
        other => panic!("expected UserJoined, got {:?}", other),
    }
    assert_eq!(told[1].subscribers, vec![alice.clone()]);
    assert_eq!(handler.state().get_occupied_room(&alice), Some(Room::hub()));
}

#[test]
fn second_user_joining_is_told_to_both() {
    let mut handler = CommandHandler::new(AppState::new());
    let alice = person("A", "alice");
    let bob = person("B", "bob");
    run(&mut handler, register(&alice), 1);
    let told = run(&mut handler, register(&bob), 2);
    assert_eq!(recipient_names(&told[0]), vec!["bob"]);
    assert_eq!(recipient_names(&told[1]), vec!["alice", "bob"]);
}

#[test]
fn message_goes_to_everyone_in_the_room_including_the_sender() {
    let mut handler = CommandHandler::new(AppState::new());
    let alice = person("A", "alice");
    let bob = person("B", "bob");
    let carol = person("C", "carol");
    run(&mut handler, register(&alice), 1);
    run(&mut handler, register(&bob), 2);
    run(&mut handler, register(&carol), 3);
    run(&mut handler, go(&carol, "lobby"), 4);
    let told = run(&mut handler, say(&alice, "hello"), 5);
    assert_eq!(told.len(), 1);
    match &told[0].event {
        Event::MsgReceived { msg } => {
            assert_eq!(msg.username, "alice");
            assert_eq!(msg.contents, "hello");
            assert_eq!(msg.timestamp.millis, 5);
        }
        other => panic!("expected MsgReceived, got {:?}", other),
    }
    assert_eq!(recipient_names(&told[0]), vec!["alice", "bob"]);
    let log = handler.state().room_chat_logs(&Room::hub());
    assert_eq!(log.len(), 1);
    assert_eq!(log[0].contents, "hello");
}

#[test]
fn message_from_a_user_that_is_nowhere_reaches_nobody() {
    let mut handler = CommandHandler::new(AppState::new());
    let told = run(&mut handler, say(&person("Z", "zed"), "anyone?"), 5);
    assert_eq!(told.len(), 1);
    assert!(told[0].subscribers.is_empty());
    assert!(handler.state().room_chat_logs(&Room::hub()).is_empty());
}

#[test]
fn chat_log_bounding_thirty_messages_leave_m6_to_m30() {
    let mut handler = CommandHandler::new(AppState::new());
    let alice = person("A", "alice");
    let bob = person("B", "bob");
    run(&mut handler, register(&alice), 1);
    run(&mut handler, register(&bob), 2);
    for i in 1..=30 {
        let told = run(&mut handler, say(&alice, &format!("m{}", i)), 100 + i);
        assert_eq!(recipient_names(&told[0]), vec!["alice", "bob"]);
    }
    let (logs, _notes, occupants) = handler.state().snapshot_room(&Room::hub());
    assert_eq!(logs.len(), 25);
    let contents: Vec<String> = logs.iter().map(|m| m.contents.clone()).collect();
    let expected: Vec<String> = (6..=30).map(|i| format!("m{}", i)).collect();
    assert_eq!(contents, expected);
    assert_eq!(occupants, vec!["alice", "bob"]);
}

#[test]
fn move_tells_the_old_room_then_the_new_room() {
    let mut handler = CommandHandler::new(AppState::new());
    let alice = person("A", "alice");
    let bob = person("B", "bob");
    let carol = person("C", "carol");
    run(&mut handler, register(&alice), 1);
    run(&mut handler, register(&bob), 2);
    run(&mut handler, register(&carol), 3);
    run(&mut handler, go(&carol, "lobby"), 4);
    let told = run(&mut handler, go(&alice, "lobby"), 5);
    assert_eq!(told.len(), 2);
    match &told[0].event {
        Event::UserLeft { user, room, occupant_names, notifications, .. } => {
            assert_eq!(user, &alice);
            assert_eq!(room, &Room::hub());
            assert_eq!(occupant_names, &vec!["bob".to_string()]);
            assert_eq!(notifications.last().unwrap().contents, "alice left Hub");
        }
        other => panic!("expected UserLeft, got {:?}", other),
    }
    // those who were in the old room, the mover included, in list order
    assert_eq!(recipient_names(&told[0]), vec!["alice", "bob"]);
    match &told[1].event {
        Event::UserJoined { user, room, occupant_names, notifications, msg_log } => {
            assert_eq!(user, &alice);
            assert_eq!(room, &Room::from("lobby"));
            assert_eq!(occupant_names, &vec!["carol".to_string(), "alice".to_string()]);
            assert_eq!(notifications.last().unwrap().contents, "alice joined lobby");
            assert!(msg_log.is_empty());
        }
        other => panic!("expected UserJoined, got {:?}", other),
    }
    assert_eq!(recipient_names(&told[1]), vec!["carol", "alice"]);
    assert_eq!(handler.state().get_occupied_room(&alice), Some(Room::from("lobby")));
    assert_eq!(handler.state().occupant_names(&Room::hub()), vec!["bob"]);
}

#[test]
fn move_creates_the_room_if_it_did_not_exist() {
    let mut handler = CommandHandler::new(AppState::new());
    let alice = person("A", "alice");
    run(&mut handler, register(&alice), 1);
    assert!(handler.state().room_subscribers(&Room::from("attic")).is_empty());
    run(&mut handler, go(&alice, "attic"), 2);
    assert_eq!(handler.state().occupant_names(&Room::from("attic")), vec!["alice"]);
    assert!(handler.state().occupant_names(&Room::hub()).is_empty());
    // the hub stays, with the notice of the departure
    let notes = handler.state().room_notifications(&Room::hub());
    assert_eq!(notes.last().unwrap().contents, "alice left Hub");
}

#[test]
fn move_to_the_current_room_leaves_and_joins_again() {
    let mut handler = CommandHandler::new(AppState::new());
    let alice = person("A", "alice");
    let bob = person("B", "bob");
    run(&mut handler, register(&alice), 1);
    run(&mut handler, register(&bob), 2);
    let told = run(&mut handler, go(&alice, "Hub"), 3);
    assert_eq!(told.len(), 2);
    assert!(matches!(told[0].event, Event::UserLeft { .. }));
    assert!(matches!(told[1].event, Event::UserJoined { .. }));
    assert_eq!(handler.state().occupant_names(&Room::hub()), vec!["bob", "alice"]);
    let notes: Vec<String> = handler
        .state()
        .room_notifications(&Room::hub())
        .iter()
        .map(|n| n.contents.clone())
        .collect();
    assert_eq!(
        notes,
        vec!["alice joined Hub", "bob joined Hub", "alice left Hub", "alice joined Hub"]
    );
}

#[test]
fn move_of_a_user_that_is_nowhere_only_joins() {
    let mut handler = CommandHandler::new(AppState::new());
    let zed = person("Z", "zed");
    let told = run(&mut handler, go(&zed, "lobby"), 1);
    assert_eq!(told.len(), 1);
    assert!(matches!(told[0].event, Event::UserJoined { .. }));
    assert_eq!(handler.state().get_occupied_room(&zed), Some(Room::from("lobby")));
}

#[test]
fn drop_removes_the_user_and_tells_the_room_and_the_user() {
    let mut handler = CommandHandler::new(AppState::new());
    let alice = person("A", "alice");
    let bob = person("B", "bob");
    run(&mut handler, register(&alice), 1);
    run(&mut handler, register(&bob), 2);
    let told = run(&mut handler, drop_user(&alice), 3);
    assert_eq!(told.len(), 1);
    match &told[0].event {
        Event::UserLeft { user, room, occupant_names, .. } => {
            assert_eq!(user, &alice);
            assert_eq!(room, &Room::hub());
            assert_eq!(occupant_names, &vec!["bob".to_string()]);
        }
        other => panic!("expected UserLeft, got {:?}", other),
    }
    assert_eq!(recipient_names(&told[0]), vec!["alice", "bob"]);
    assert_eq!(handler.state().get_occupied_room(&alice), None);
    assert_eq!(handler.state().occupant_names(&Room::hub()), vec!["bob"]);
}

#[test]
fn drop_of_a_user_that_is_already_gone_still_announces_it() {
    let mut handler = CommandHandler::new(AppState::new());
    let bob = person("B", "bob");
    let ghost = person("G", "ghost");
    run(&mut handler, register(&bob), 1);
    let told = run(&mut handler, drop_user(&ghost), 2);
    assert_eq!(told.len(), 1);
    match &told[0].event {
        Event::UserLeft { user, room, msg_log, notifications, occupant_names } => {
            assert_eq!(user, &ghost);
            assert_eq!(room, &Room::hub());
            assert!(msg_log.is_empty());
            assert!(notifications.is_empty());
            assert_eq!(occupant_names, &vec!["bob".to_string()]);
        }
        other => panic!("expected UserLeft, got {:?}", other),
    }
    assert_eq!(recipient_names(&told[0]), vec!["bob", "ghost"]);
    // no notice is logged for it
    let notes = handler.state().room_notifications(&Room::hub());
    assert_eq!(notes.len(), 1);
    assert_eq!(notes[0].contents, "bob joined Hub");
}

#[test]
fn time_and_recipient_requests_are_refused_and_change_nothing() {
    let mut handler = CommandHandler::new(AppState::new());
    let alice = person("A", "alice");
    run(&mut handler, register(&alice), 1);
    let refused = [CommandPayload::Time(Timestamp::from_millis(9)), CommandPayload::GetRecipients];
    for payload in refused {
        let mut buf = VecDeque::new();
        let done = handler.handle_at(
            Command { user: alice.clone(), payload },
            Timestamp::from_millis(2),
            &mut buf,
        );
        assert_eq!(done, Err(HandlerError::NotImplemented));
        assert!(buf.is_empty());
    }
    assert_eq!(handler.state().occupant_names(&Room::hub()), vec!["alice"]);
    assert_eq!(handler.state().room_notifications(&Room::hub()).len(), 1);
}

#[test]
fn handle_appends_to_what_the_buffer_holds_and_reads_the_clock() {
    let mut handler = CommandHandler::new(AppState::new());
    let alice = person("A", "alice");
    let mut buf = VecDeque::new();
    assert_eq!(handler.handle(register(&alice), &mut buf), Ok(()));
    assert_eq!(buf.len(), 2);
    assert_eq!(handler.handle(say(&alice, "x"), &mut buf), Ok(()));
    assert_eq!(buf.len(), 3);
    match &buf[2].event {
        Event::MsgReceived { msg } => assert!(msg.timestamp.millis > 1_577_836_800_000),
        other => panic!("expected MsgReceived, got {:?}", other),
    }
}

#[test]
fn no_user_is_in_two_rooms_after_any_of_many_commands() {
    let mut handler = CommandHandler::new(AppState::new());
    let users: Vec<User> =
        (0..5).map(|i| person(&format!("U{}", i), &format!("user{}", i))).collect();
    let rooms = ["Hub", "a", "b", "c"];
    for u in &users {
        run(&mut handler, register(u), 0);
    }
    let mut seed: u32 = 12345;
    for step in 0..400 {
        seed = seed.wrapping_mul(1_103_515_245).wrapping_add(12_345);
        let u = &users[(seed >> 16) as usize % users.len()];
        let r = rooms[(seed >> 8) as usize % rooms.len()];
        let command = match seed % 3 {
            0 => go(u, r),
            1 => say(u, "text"),
            _ => go(u, "Hub"),
        };
        run(&mut handler, command, step);
        for u in &users {
            let holding: Vec<&str> = rooms
                .iter()
                .copied()
                .filter(|r| handler.state().room_subscribers(&Room::from(*r)).contains(u))
                .collect();
            assert_eq!(holding.len(), 1);
            let list = handler.state().room_subscribers(&Room::from(holding[0]));
            assert_eq!(list.iter().filter(|o| *o == u).count(), 1);
        }
        for r in rooms {
            assert!(handler.state().room_chat_logs(&Room::from(r)).len() <= 25);
            assert!(handler.state().room_notifications(&Room::from(r)).len() <= 25);
        }
    }
}

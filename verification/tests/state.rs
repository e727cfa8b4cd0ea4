use marain_server::domain::chat_log::MessageLog;
use marain_server::domain::notification_log::NotificationLog;
use marain_server::domain::room::Room;
use marain_server::domain::timestamp::Timestamp;
use marain_server::domain::user::User;
use marain_server::domain::util::hash;
use marain_server::services::state::{setup_rooms, AppState};
use std::collections::hash_map::DefaultHasher;
use std::hash::{Hash, Hasher};

fn user(id: &str, name: &str) -> User {
    User::new(id.to_string(), name.to_string(), [7u8; 32])
}

fn chat(name: &str, millis: i64, contents: &str) -> MessageLog {
    MessageLog {
        username: name.to_string(),
        timestamp: Timestamp::from_millis(millis),
        contents: contents.to_string(),
    }
}

fn notice(text: &str, millis: i64) -> NotificationLog {
    NotificationLog::at(text.to_string(), Timestamp::from_millis(millis))
}

fn names(users: &[User]) -> Vec<String> {
    users.iter().map(|u| u.name.clone()).collect()
}

#[test]
fn new_state_has_only_the_empty_hub() {
    let state = AppState::new();
    let hub = Room::default();
    assert_eq!(hub.name, "Hub");
    assert!(state.room_subscribers(&hub).is_empty());
    assert!(state.room_chat_logs(&hub).is_empty());
    assert!(state.room_notifications(&hub).is_empty());
    assert!(state.occupant_names(&hub).is_empty());
    assert_eq!(state.get_occupied_room(&user("1", "alice")), None);
}

#[test]
fn user_new_keeps_its_parts() {
    let u = User::new("A1".to_string(), "alice".to_string(), [3u8; 32]);
    assert_eq!(u.id, "A1");
    assert_eq!(u.name, "alice");
    assert_eq!(u.shared_secret, [3u8; 32]);
    assert_eq!(u, u.clone());
    let mut other_key = [3u8; 32];
    other_key[31] = 4;
    assert_ne!(u, User::new("A1".to_string(), "alice".to_string(), other_key));
    assert_ne!(u, User::new("A2".to_string(), "alice".to_string(), [3u8; 32]));
    assert_ne!(u, User::new("A1".to_string(), "bob".to_string(), [3u8; 32]));
}

#[test]
fn room_from_text_and_default() {
    assert_eq!(Room::from("lobby").name, "lobby");
    assert_eq!(Room::named("x"), Room::from("x"));
    assert_ne!(Room::from("x"), Room::from("y"));
    assert_eq!(Room::default(), Room::hub());
}

#[test]
fn add_user_appends_in_order_and_creates_rooms() {
    let mut state = AppState::new();
    let alice = user("1", "alice");
    let bob = user("2", "bob");
    let carol = user("3", "carol");
    state.add_user_to_room(&alice, &Room::hub());
    state.add_user_to_room(&bob, &Room::hub());
    state.add_user_to_room(&carol, &Room::from("lobby"));
    assert_eq!(names(&state.room_subscribers(&Room::hub())), vec!["alice", "bob"]);
    assert_eq!(state.occupant_names(&Room::hub()), vec!["alice", "bob"]);
    assert_eq!(state.occupant_names(&Room::from("lobby")), vec!["carol"]);
    assert!(state.room_chat_logs(&Room::from("lobby")).is_empty());
    assert!(state.room_notifications(&Room::from("lobby")).is_empty());
    assert_eq!(state.get_occupied_room(&carol), Some(Room::from("lobby")));
    assert_eq!(state.get_occupied_room(&alice), Some(Room::hub()));
    assert!(state.room_subscribers(&Room::from("nowhere")).is_empty());
}

#[test]
fn remove_user_swaps_the_last_occupant_into_the_gap() {
    let mut state = AppState::new();
    let hub = Room::hub();
    for (id, name) in [("1", "a"), ("2", "b"), ("3", "c"), ("4", "d")] {
        state.add_user_to_room(&user(id, name), &hub);
    }
    let left = state.remove_user_from_room(&user("2", "b"), notice("b left Hub", 5));
    assert_eq!(left, Some(Room::hub()));
    assert_eq!(state.occupant_names(&hub), vec!["a", "d", "c"]);
    let notes = state.room_notifications(&hub);
    assert_eq!(notes.len(), 1);
    assert_eq!(notes[0].notifier, "SERVER");
    assert_eq!(notes[0].contents, "b left Hub");
    assert_eq!(notes[0].timestamp, Timestamp::from_millis(5));
    assert_eq!(state.get_occupied_room(&user("2", "b")), None);
}

#[test]
fn remove_user_that_is_nowhere_changes_nothing() {
    let mut state = AppState::new();
    state.add_user_to_room(&user("1", "a"), &Room::hub());
    let left = state.remove_user_from_room(&user("9", "z"), notice("z left Hub", 5));
    assert_eq!(left, None);
    assert_eq!(state.occupant_names(&Room::hub()), vec!["a"]);
    assert!(state.room_notifications(&Room::hub()).is_empty());
}

#[test]
fn record_chat_returns_room_mates_and_logs_in_the_users_room() {
    let mut state = AppState::new();
    let alice = user("1", "alice");
    let bob = user("2", "bob");
    let carol = user("3", "carol");
    state.add_user_to_room(&alice, &Room::hub());
    state.add_user_to_room(&bob, &Room::hub());
    state.add_user_to_room(&carol, &Room::from("lobby"));
    let recipients = state.record_chat_message(&bob, chat("bob", 1, "hi"));
    assert_eq!(names(&recipients), vec!["alice", "bob"]);
    assert_eq!(state.room_chat_logs(&Room::hub()), vec![chat("bob", 1, "hi")]);
    assert!(state.room_chat_logs(&Room::from("lobby")).is_empty());
    let nobody = state.record_chat_message(&user("9", "z"), chat("z", 2, "lost"));
    assert!(nobody.is_empty());
    assert_eq!(state.room_chat_logs(&Room::hub()).len(), 1);
}

#[test]
fn chat_log_keeps_the_last_25_messages() {
    let mut state = AppState::new();
    let alice = user("1", "alice");
    state.add_user_to_room(&alice, &Room::hub());
    for i in 1..=25 {
        state.record_chat_message(&alice, chat("alice", i, &format!("m{}", i)));
    }
    let full = state.room_chat_logs(&Room::hub());
    assert_eq!(full.len(), 25);
    assert_eq!(full[0].contents, "m1");
    state.record_chat_message(&alice, chat("alice", 26, "m26"));
    let log = state.room_chat_logs(&Room::hub());
    assert_eq!(log.len(), 25);
    assert_eq!(log[0].contents, "m2");
    assert_eq!(log[24].contents, "m26");
}

#[test]
fn notification_log_keeps_the_last_25_notices() {
    let mut state = AppState::new();
    let alice = user("1", "alice");
    state.add_user_to_room(&alice, &Room::hub());
    for i in 1..=40 {
        state.record_notification(&alice, notice(&format!("n{}", i), i));
    }
    let log = state.room_notifications(&Room::hub());
    assert_eq!(log.len(), 25);
    let contents: Vec<String> = log.iter().map(|n| n.contents.clone()).collect();
    let expected: Vec<String> = (16..=40).map(|i| format!("n{}", i)).collect();
    assert_eq!(contents, expected);
}

#[test]
fn record_notification_for_a_user_that_is_nowhere_does_nothing() {
    let mut state = AppState::new();
    state.record_notification(&user("9", "z"), notice("lost", 1));
    assert!(state.room_notifications(&Room::hub()).is_empty());
}

#[test]
fn snapshot_room_gives_logs_notices_and_names() {
    let mut state = AppState::new();
    let alice = user("1", "alice");
    state.add_user_to_room(&alice, &Room::hub());
    state.record_chat_message(&alice, chat("alice", 1, "hello"));
    state.record_notification(&alice, notice("alice joined Hub", 2));
    let (log, notes, occupants) = state.snapshot_room(&Room::hub());
    assert_eq!(log, vec![chat("alice", 1, "hello")]);
    assert_eq!(notes, vec![notice("alice joined Hub", 2)]);
    assert_eq!(occupants, vec!["alice"]);
    let (log, notes, occupants) = state.snapshot_room(&Room::from("nowhere"));
    assert!(log.is_empty() && notes.is_empty() && occupants.is_empty());
}

#[test]
fn hash_is_the_default_hash_of_the_text() {
    let mut hasher = DefaultHasher::new();
    "hub".to_string().hash(&mut hasher);
    assert_eq!(hash("hub".to_string()), hasher.finish());
    assert_eq!(hash("hub".to_string()), hash("hub".to_string()));
    assert_ne!(hash("hub".to_string()), hash("Hub".to_string()));
    assert_ne!(hash("hub".to_string()), 0);
}

#[test]
fn setup_rooms_gives_the_hub_and_its_hash() {
    let (state, key) = setup_rooms();
    assert_eq!(key, hash("Hub".to_string()));
    assert!(state.room_subscribers(&Room::hub()).is_empty());
    assert_eq!(state.get_occupied_room(&user("1", "a")), None);
}

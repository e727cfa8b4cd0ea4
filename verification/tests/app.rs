use futures_channel::mpsc::{unbounded, UnboundedReceiver};
use marain_server::domain::commands::{Command, CommandPayload};
use marain_server::domain::events::Event;
use marain_server::domain::room::Room;
use marain_server::domain::timestamp::Timestamp;
use marain_server::domain::user::User;
use marain_server::services::app::{App, AppError};
use marain_server::services::app_gateway::{AppGateway, GatewayError};
use marain_server::services::broadcast::Broadcast;
use marain_server::services::event_bus::{BusError, Delivery, EventBus};

fn member(id: &str, name: &str) -> User {
    User::new(id.to_string(), name.to_string(), [2u8; 32])
}

fn join(app: &mut App, user: &User, millis: i64) -> UnboundedReceiver<Event> {
    let (sink, source) = unbounded::<Event>();
    let report = app.step_at(
        Command { user: user.clone(), payload: CommandPayload::RegisterUser(sink) },
        Timestamp::from_millis(millis),
    );
    assert_eq!(report.error, None);
    source
}

fn drain(source: &mut UnboundedReceiver<Event>) -> Vec<Event> {
    let mut events = Vec::new();
    while let Ok(event) = source.try_recv() {
        events.push(event);
    }
    events
}

fn command(user: &User, payload: CommandPayload) -> Command {
    Command { user: user.clone(), payload }
}

#[test]
fn bus_subscribe_and_unsubscribe() {
    let mut bus = EventBus::new();
    let alice = member("A", "alice");
    assert!(!bus.is_subscribed(&alice));
    let (sink, _source) = unbounded::<Event>();
    assert_eq!(bus.subscribe(alice.clone(), sink), Ok(()));
    assert!(bus.is_subscribed(&alice));
    let (second, mut refused_source) = unbounded::<Event>();
    assert_eq!(bus.subscribe(alice.clone(), second), Err(BusError::DoubleSubscription));
    assert!(bus.is_subscribed(&alice));
    assert!(refused_source.try_recv().is_err());
    assert_eq!(bus.unsubscribe(alice.clone()), Ok(()));
    assert!(!bus.is_subscribed(&alice));
    assert_eq!(bus.unsubscribe(alice.clone()), Err(BusError::NotSubscribed));
}

#[test]
fn bus_double_subscription_keeps_the_earlier_channel() {
    let mut bus = EventBus::new();
    let alice = member("A", "alice");
    let (first, mut first_source) = unbounded::<Event>();
    let (second, mut second_source) = unbounded::<Event>();
    assert_eq!(bus.subscribe(alice.clone(), first), Ok(()));
    assert_eq!(bus.subscribe(alice.clone(), second), Err(BusError::DoubleSubscription));
    let cast =
        Broadcast::new(Event::UserRegistered { token: "A".to_string() }, vec![alice.clone()]);
    assert_eq!(bus.publish(&cast), vec![Delivery::Sent]);
    assert_eq!(drain(&mut first_source).len(), 1);
    // the refused channel was dropped with the refusal: nothing reached it
    assert!(drain(&mut second_source).is_empty());
}

#[test]
fn bus_publish_reports_each_recipient_in_order() {
    let mut bus = EventBus::new();
    let alice = member("A", "alice");
    let bob = member("B", "bob");
    let carol = member("C", "carol");
    let (a_sink, mut a_source) = unbounded::<Event>();
    let (b_sink, b_source) = unbounded::<Event>();
    bus.subscribe(alice.clone(), a_sink).unwrap();
    bus.subscribe(bob.clone(), b_sink).unwrap();
    drop(b_source);
    let event = Event::UserRegistered { token: "x".to_string() };
    let cast = Broadcast::new(event.clone(), vec![carol.clone(), bob.clone(), alice.clone()]);
    let report = bus.publish(&cast);
    assert_eq!(report, vec![Delivery::NotSubscribed, Delivery::Closed, Delivery::Sent]);
    assert_eq!(drain(&mut a_source), vec![event]);
    let nobody = Broadcast::new(Event::UserRegistered { token: "y".to_string() }, vec![]);
    assert!(bus.publish(&nobody).is_empty());
}

#[test]
fn login_send_receive_the_sender_gets_its_own_message() {
    let mut app = App::init();
    let alice = member("A", "alice");
    let mut inbox = join(&mut app, &alice, 1);
    let first = drain(&mut inbox);
    assert_eq!(first.len(), 2);
    assert_eq!(first[0], Event::UserRegistered { token: "A".to_string() });
    assert!(matches!(first[1], Event::UserJoined { .. }));
    let report = app.step_at(
        command(&alice, CommandPayload::RecordMessage { message: "hello".to_string() }),
        Timestamp::from_millis(2),
    );
    assert_eq!(report.error, None);
    assert_eq!(report.published.len(), 1);
    assert_eq!(report.deliveries, vec![vec![Delivery::Sent]]);
    let got = drain(&mut inbox);
    assert_eq!(got.len(), 1);
    match &got[0] {
        Event::MsgReceived { msg } => {
            assert_eq!(msg.username, "alice");
            assert_eq!(msg.contents, "hello");
            assert_eq!(msg.timestamp.millis, 2);
        }
        other => panic!("expected MsgReceived, got {:?}", other),
    }
}

#[test]
fn move_is_seen_by_the_old_room_and_the_new_room() {
    let mut app = App::init();
    let alice = member("A", "alice");
    let bob = member("B", "bob");
    let carol = member("C", "carol");
    let mut a_inbox = join(&mut app, &alice, 1);
    let mut b_inbox = join(&mut app, &bob, 2);
    let mut c_inbox = join(&mut app, &carol, 3);
    app.step_at(
        command(&carol, CommandPayload::MoveUser { target_room: Room::from("lobby") }),
        Timestamp::from_millis(4),
    );
    drain(&mut a_inbox);
    drain(&mut b_inbox);
    drain(&mut c_inbox);
    let report = app.step_at(
        command(&alice, CommandPayload::MoveUser { target_room: Room::from("lobby") }),
        Timestamp::from_millis(5),
    );
    assert_eq!(report.error, None);
    let seen_by_bob = drain(&mut b_inbox);
    assert_eq!(seen_by_bob.len(), 1);
    match &seen_by_bob[0] {
        Event::UserLeft { user, room, .. } => {
            assert_eq!(user, &alice);
            assert_eq!(room, &Room::hub());
        }
        other => panic!("expected UserLeft, got {:?}", other),
    }
    let seen_by_carol = drain(&mut c_inbox);
    assert_eq!(seen_by_carol.len(), 1);
    match &seen_by_carol[0] {
        Event::UserJoined { user, room, occupant_names, .. } => {
            assert_eq!(user, &alice);
            assert_eq!(room, &Room::from("lobby"));
            assert_eq!(occupant_names, &vec!["carol".to_string(), "alice".to_string()]);
        }
        other => panic!("expected UserJoined, got {:?}", other),
    }
    let seen_by_alice = drain(&mut a_inbox);
    let joins: Vec<&Event> =
        seen_by_alice.iter().filter(|e| matches!(e, Event::UserJoined { .. })).collect();
    assert_eq!(joins.len(), 1);
    assert_eq!(joins[0], &seen_by_carol[0]);
}

#[test]
fn disconnect_cleanup_leaves_no_trace_of_the_user() {
    let mut app = App::init();
    let alice = member("A", "alice");
    let bob = member("B", "bob");
    let mut a_inbox = join(&mut app, &alice, 1);
    let mut b_inbox = join(&mut app, &bob, 2);
    drain(&mut a_inbox);
    drain(&mut b_inbox);
    let report = app.step_at(command(&alice, CommandPayload::DropUser), Timestamp::from_millis(3));
    assert_eq!(report.error, None);
    assert_eq!(report.published.len(), 1);
    // the departure still reaches the user that left
    assert_eq!(report.deliveries, vec![vec![Delivery::Sent, Delivery::Sent]]);
    let farewell = drain(&mut a_inbox);
    assert_eq!(farewell.len(), 1);
    assert!(matches!(&farewell[0], Event::UserLeft { user, .. } if user == &alice));
    let seen_by_bob = drain(&mut b_inbox);
    assert!(matches!(&seen_by_bob[0], Event::UserLeft { user, .. } if user == &alice));
    assert!(!app.event_bus().is_subscribed(&alice));
    assert!(app.event_bus().is_subscribed(&bob));
    assert_eq!(app.command_handler().state().get_occupied_room(&alice), None);
    assert_eq!(app.command_handler().state().occupant_names(&Room::hub()), vec!["bob"]);
    // later events no longer reach the user
    app.step_at(
        command(&bob, CommandPayload::RecordMessage { message: "gone?".to_string() }),
        Timestamp::from_millis(4),
    );
    assert!(drain(&mut a_inbox).is_empty());
}

#[test]
fn double_registration_drops_the_command() {
    let mut app = App::init();
    let alice = member("A", "alice");
    let _inbox = join(&mut app, &alice, 1);
    let (sink, _source) = unbounded::<Event>();
    let report = app.step_at(
        command(&alice, CommandPayload::RegisterUser(sink)),
        Timestamp::from_millis(2),
    );
    assert_eq!(report.error, Some(AppError::DoubleSubscription));
    assert!(report.published.is_empty());
    assert!(report.deliveries.is_empty());
    assert_eq!(app.command_handler().state().occupant_names(&Room::hub()), vec!["alice"]);
    assert_eq!(app.command_handler().state().room_notifications(&Room::hub()).len(), 1);
}

#[test]
fn drop_of_an_unknown_user_is_reported_and_the_app_goes_on() {
    let mut app = App::init();
    let ghost = member("G", "ghost");
    let report = app.step_at(command(&ghost, CommandPayload::DropUser), Timestamp::from_millis(1));
    assert_eq!(report.error, Some(AppError::NotSubscribed));
    assert_eq!(report.published.len(), 1);
    assert_eq!(report.deliveries, vec![vec![Delivery::NotSubscribed]]);
    let alice = member("A", "alice");
    let mut inbox = join(&mut app, &alice, 2);
    assert_eq!(drain(&mut inbox).len(), 2);
}

#[test]
fn requests_the_app_does_not_act_on_are_reported() {
    let mut app = App::init();
    let alice = member("A", "alice");
    let mut inbox = join(&mut app, &alice, 1);
    drain(&mut inbox);
    let time = CommandPayload::Time(Timestamp::from_millis(5));
    let report = app.step_at(command(&alice, time), Timestamp::now());
    assert_eq!(report.error, Some(AppError::NotImplemented));
    assert!(report.published.is_empty());
    let report = app.step(command(&alice, CommandPayload::GetRecipients));
    assert_eq!(report.error, Some(AppError::NotImplemented));
    assert!(drain(&mut inbox).is_empty());
}

#[test]
fn a_closed_channel_drops_the_event_and_the_app_goes_on() {
    let mut app = App::init();
    let alice = member("A", "alice");
    let bob = member("B", "bob");
    let a_inbox = join(&mut app, &alice, 1);
    let mut b_inbox = join(&mut app, &bob, 2);
    drop(a_inbox);
    drain(&mut b_inbox);
    let report = app.step_at(
        command(&bob, CommandPayload::RecordMessage { message: "hi".to_string() }),
        Timestamp::from_millis(3),
    );
    assert_eq!(report.error, None);
    assert_eq!(report.deliveries, vec![vec![Delivery::Closed, Delivery::Sent]]);
    assert_eq!(drain(&mut b_inbox).len(), 1);
}

#[test]
fn messages_of_one_sender_arrive_in_the_order_sent() {
    let mut app = App::init();
    let alice = member("A", "alice");
    let bob = member("B", "bob");
    let mut a_inbox = join(&mut app, &alice, 1);
    let mut b_inbox = join(&mut app, &bob, 2);
    drain(&mut a_inbox);
    drain(&mut b_inbox);
    let mut commands = Vec::new();
    for i in 0..20 {
        commands
            .push(command(&alice, CommandPayload::RecordMessage { message: format!("a{}", i) }));
        commands.push(command(&bob, CommandPayload::RecordMessage { message: format!("b{}", i) }));
    }
    let reports = app.work(commands);
    assert_eq!(reports.len(), 40);
    assert!(reports.iter().all(|r| r.error.is_none()));
    for inbox in [&mut a_inbox, &mut b_inbox] {
        let texts: Vec<String> = drain(inbox)
            .into_iter()
            .map(|e| match e {
                Event::MsgReceived { msg } => msg.contents,
                other => panic!("expected MsgReceived, got {:?}", other),
            })
            .collect();
        let from_alice: Vec<String> =
            texts.iter().filter(|t| t.starts_with('a')).cloned().collect();
        let expected: Vec<String> = (0..20).map(|i| format!("a{}", i)).collect();
        assert_eq!(from_alice, expected);
        assert_eq!(texts.len(), 40);
    }
}

#[test]
fn work_handles_a_whole_session_in_order() {
    let mut app = App::init();
    let alice = member("A", "alice");
    let (sink, mut inbox) = unbounded::<Event>();
    let reports = app.work(vec![
        command(&alice, CommandPayload::RegisterUser(sink)),
        command(&alice, CommandPayload::RecordMessage { message: "one".to_string() }),
        command(&alice, CommandPayload::MoveUser { target_room: Room::from("den") }),
        command(&alice, CommandPayload::DropUser),
    ]);
    let published: Vec<usize> = reports.iter().map(|r| r.published.len()).collect();
    assert_eq!(published, vec![2, 1, 2, 1]);
    let kinds: Vec<&str> = drain(&mut inbox)
        .iter()
        .map(|e| match e {
            Event::UserRegistered { .. } => "registered",
            Event::UserJoined { .. } => "joined",
            Event::UserLeft { .. } => "left",
            Event::MsgReceived { .. } => "msg",
        })
        .collect();
    assert_eq!(kinds, vec!["registered", "joined", "msg", "left", "joined", "left"]);
    assert!(!app.event_bus().is_subscribed(&alice));
    assert_eq!(app.command_handler().state().get_occupied_room(&alice), None);
}

#[test]
fn moving_before_registering_puts_a_user_into_two_rooms() {
    // A session registers first; a command stream that does not can break the
    // rule of one room per user.
    let mut app = App::init();
    let zed = member("Z", "zed");
    app.step_at(
        command(&zed, CommandPayload::MoveUser { target_room: Room::from("x") }),
        Timestamp::from_millis(1),
    );
    let _inbox = join(&mut app, &zed, 2);
    assert_eq!(app.command_handler().state().occupant_names(&Room::from("x")), vec!["zed"]);
    assert_eq!(app.command_handler().state().occupant_names(&Room::hub()), vec!["zed"]);
}

#[test]
fn gateway_passes_commands_on_and_stops_at_either_end() {
    let (app_sink, mut app_source) = unbounded::<Command>();
    let mut gateway = AppGateway::init(app_sink);
    let alice = member("A", "alice");
    assert_eq!(gateway.forward(Some(command(&alice, CommandPayload::DropUser))), Ok(()));
    let passed = app_source.try_recv().unwrap();
    assert_eq!(passed.user, alice);
    assert!(matches!(passed.payload, CommandPayload::DropUser));
    assert_eq!(gateway.forward(None), Err(GatewayError::UpstreamClosed));
    drop(app_source);
    assert_eq!(
        gateway.forward(Some(command(&alice, CommandPayload::DropUser))),
        Err(GatewayError::DownstreamClosed)
    );
}

#[test]
fn register_then_drop_reaches_the_user_three_times() {
    let mut app = App::init();
    let alice = member("A", "alice");
    let (tx, mut rx) = unbounded::<Event>();
    let reports = app.work(vec![
        command(&alice, CommandPayload::RegisterUser(tx)),
        command(&alice, CommandPayload::DropUser),
    ]);
    assert_eq!(reports.len(), 2);
    assert_eq!(reports[0].error, None);
    assert_eq!(reports[1].error, None);
    // the leaver is still subscribed while its departure is published
    assert_eq!(reports[0].deliveries, vec![vec![Delivery::Sent], vec![Delivery::Sent]]);
    assert_eq!(reports[1].deliveries, vec![vec![Delivery::Sent]]);
    let events = drain(&mut rx);
    assert_eq!(events.len(), 3);
    assert_eq!(events[0], Event::UserRegistered { token: "A".to_string() });
    match &events[1] {
        Event::UserJoined { user, room, occupant_names, .. } => {
            assert_eq!(user, &alice);
            assert_eq!(room, &Room::hub());
            assert_eq!(occupant_names, &vec!["alice".to_string()]);
        }
        other => panic!("expected UserJoined, got {:?}", other),
    }
    match &events[2] {
        Event::UserLeft { user, room, occupant_names, .. } => {
            assert_eq!(user, &alice);
            assert_eq!(room, &Room::hub());
            assert!(occupant_names.is_empty());
        }
        other => panic!("expected UserLeft, got {:?}", other),
    }
    assert!(!app.event_bus().is_subscribed(&alice));
    assert!(app.command_handler().state().room_subscribers(&Room::hub()).is_empty());
}

#[test]
fn a_dropped_registration_leaves_the_subscription_alone_and_work_goes_on() {
    let mut app = App::init();
    let alice = member("A", "alice");
    let mut first = join(&mut app, &alice, 1);
    drain(&mut first);
    let (second, mut second_source) = unbounded::<Event>();
    let reports = app.work(vec![
        command(&alice, CommandPayload::RegisterUser(second)),
        command(&alice, CommandPayload::RecordMessage { message: "still here".to_string() }),
    ]);
    assert_eq!(reports[0].error, Some(AppError::DoubleSubscription));
    assert!(reports[0].published.is_empty());
    assert_eq!(reports[1].error, None);
    assert_eq!(reports[1].deliveries, vec![vec![Delivery::Sent]]);
    // the message arrives on the channel of the first registration
    let got = drain(&mut first);
    assert_eq!(got.len(), 1);
    assert!(matches!(&got[0], Event::MsgReceived { msg } if msg.contents == "still here"));
    assert!(drain(&mut second_source).is_empty());
    assert_eq!(app.command_handler().state().occupant_names(&Room::hub()), vec!["alice"]);
    assert_eq!(app.command_handler().state().room_notifications(&Room::hub()).len(), 1);
}

#[test]
fn the_others_in_the_room_receive_the_departure() {
    let mut app = App::init();
    let alice = member("A", "alice");
    let bob = member("B", "bob");
    let mut a_inbox = join(&mut app, &alice, 1);
    let mut b_inbox = join(&mut app, &bob, 2);
    drain(&mut a_inbox);
    drain(&mut b_inbox);
    let reports = app.work(vec![command(&alice, CommandPayload::DropUser)]);
    assert_eq!(reports[0].deliveries, vec![vec![Delivery::Sent, Delivery::Sent]]);
    let seen = drain(&mut b_inbox);
    assert_eq!(seen.len(), 1);
    match &seen[0] {
        Event::UserLeft { user, room, occupant_names, .. } => {
            assert_eq!(user, &alice);
            assert_eq!(room, &Room::hub());
            assert_eq!(occupant_names, &vec!["bob".to_string()]);
        }
        other => panic!("expected UserLeft, got {:?}", other),
    }
    assert_eq!(app.command_handler().state().get_occupied_room(&alice), None);
    assert!(!app.event_bus().is_subscribed(&alice));
    assert_eq!(app.command_handler().state().get_occupied_room(&bob), Some(Room::hub()));
    assert!(app.event_bus().is_subscribed(&bob));
}

#[test]
fn work_delivers_the_senders_own_message() {
    let mut app = App::init();
    let alice = member("A", "alice");
    let (tx, mut rx) = unbounded::<Event>();
    let reports = app.work(vec![
        command(&alice, CommandPayload::RegisterUser(tx)),
        command(&alice, CommandPayload::RecordMessage { message: "hello".to_string() }),
    ]);
    assert_eq!(reports[1].deliveries, vec![vec![Delivery::Sent]]);
    let events = drain(&mut rx);
    assert_eq!(events.len(), 3);
    assert_eq!(events[0], Event::UserRegistered { token: "A".to_string() });
    assert!(matches!(&events[1], Event::UserJoined { user, .. } if user == &alice));
    match &events[2] {
        Event::MsgReceived { msg } => {
            assert_eq!(msg.username, "alice");
            assert_eq!(msg.contents, "hello");
        }
        other => panic!("expected MsgReceived, got {:?}", other),
    }
}

#[test]
fn publish_serves_each_recipient_on_its_own_channel() {
    let mut bus = EventBus::new();
    let users: Vec<User> =
        ["a", "b", "c", "d"].iter().map(|n| member(&n.to_uppercase(), n)).collect();
    let mut inboxes = Vec::new();
    for user in &users[..3] {
        let (sink, source) = unbounded::<Event>();
        assert_eq!(bus.subscribe(user.clone(), sink), Ok(()));
        inboxes.push(source);
    }
    // to b, to d who has no subscription, and to a; c is not named
    let event = Event::UserRegistered { token: "news".to_string() };
    let cast = Broadcast::new(
        event.clone(),
        vec![users[1].clone(), users[3].clone(), users[0].clone()],
    );
    let report = bus.publish(&cast);
    assert_eq!(report, vec![Delivery::Sent, Delivery::NotSubscribed, Delivery::Sent]);
    assert_eq!(drain(&mut inboxes[0]), vec![event.clone()]);
    assert_eq!(drain(&mut inboxes[1]), vec![event.clone()]);
    assert!(drain(&mut inboxes[2]).is_empty());
    for user in &users[..3] {
        assert!(bus.is_subscribed(user));
    }
    assert!(!bus.is_subscribed(&users[3]));
}

#[test]
fn publish_goes_on_after_a_closed_channel() {
    let mut bus = EventBus::new();
    let first = member("A", "alice");
    let second = member("B", "bob");
    let (first_sink, first_source) = unbounded::<Event>();
    let (second_sink, mut second_source) = unbounded::<Event>();
    bus.subscribe(first.clone(), first_sink).unwrap();
    bus.subscribe(second.clone(), second_sink).unwrap();
    drop(first_source);
    let event = Event::UserRegistered { token: "x".to_string() };
    let cast = Broadcast::new(event.clone(), vec![first.clone(), second.clone()]);
    assert_eq!(bus.publish(&cast), vec![Delivery::Closed, Delivery::Sent]);
    assert_eq!(drain(&mut second_source), vec![event]);
}

#[test]
fn gateway_passes_commands_on_in_the_order_of_arrival() {
    let (app_sink, mut app_source) = unbounded::<Command>();
    let mut gateway = AppGateway::init(app_sink);
    let alice = member("A", "alice");
    let bob = member("B", "bob");
    let mut wanted = Vec::new();
    for i in 0..10 {
        let from = if i % 3 == 0 { &bob } else { &alice };
        let text = format!("c{}", i);
        wanted.push((from.name.clone(), text.clone()));
        let next = command(from, CommandPayload::RecordMessage { message: text });
        assert_eq!(gateway.forward(Some(next)), Ok(()));
    }
    let mut got = Vec::new();
    while let Ok(passed) = app_source.try_recv() {
        match passed.payload {
            CommandPayload::RecordMessage { message } => got.push((passed.user.name, message)),
            other => panic!("expected RecordMessage, got {:?}", other),
        }
    }
    assert_eq!(got, wanted);
    assert_eq!(gateway.forward(None), Err(GatewayError::UpstreamClosed));
    assert!(app_source.try_recv().is_err());
}

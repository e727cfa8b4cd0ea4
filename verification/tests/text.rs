use marain_server::domain::chat_log::MessageLog;
use marain_server::domain::notification_log::NotificationLog;
use marain_server::domain::text::to_hex_upper;
use marain_server::domain::timestamp::Timestamp;
use marain_server::domain::user::User;
use marain_server::wire::messages::{ClientMsg, ClientMsgBody};

#[test]
fn hex_upper_matches_the_standard_formatting() {
    assert_eq!(to_hex_upper(0), "0");
    assert_eq!(to_hex_upper(9), "9");
    assert_eq!(to_hex_upper(10), "A");
    assert_eq!(to_hex_upper(15), "F");
    assert_eq!(to_hex_upper(16), "10");
    assert_eq!(to_hex_upper(255), "FF");
    assert_eq!(to_hex_upper(0xdead_beef), "DEADBEEF");
    assert_eq!(to_hex_upper(u128::MAX), "F".repeat(32));
    for n in [1u128, 0x1234_5678_9abc_def0, 1 << 127, (1 << 78) + 5, 0x0a0b] {
        assert_eq!(to_hex_upper(n), format!("{:X}", n));
    }
}

#[test]
fn hms_is_the_time_of_day_in_utc() {
    assert_eq!(Timestamp::from_millis(0).hms(), (0, 0, 0));
    assert_eq!(Timestamp::from_millis(999).hms(), (0, 0, 0));
    assert_eq!(Timestamp::from_millis(1000).hms(), (0, 0, 1));
    // 2000-01-12 01:02:03.004 UTC
    assert_eq!(Timestamp::from_millis(947638923004).hms(), (1, 2, 3));
    assert_eq!(Timestamp::from_millis(86_399_999).hms(), (23, 59, 59));
    assert_eq!(Timestamp::from_millis(86_400_000).hms(), (0, 0, 0));
    // one millisecond before the epoch is 23:59:59 of the day before
    assert_eq!(Timestamp::from_millis(-1).hms(), (23, 59, 59));
    assert_eq!(Timestamp::from_millis(-1000).hms(), (23, 59, 59));
    assert_eq!(Timestamp::from_millis(-1001).hms(), (23, 59, 58));
    assert_eq!(Timestamp::from_millis(-86_400_000).hms(), (0, 0, 0));
    let (h, m, s) = Timestamp::from_millis(i64::MIN).hms();
    assert!(h < 24 && m < 60 && s < 60);
    let (h, m, s) = Timestamp::from_millis(i64::MAX).hms();
    assert!(h < 24 && m < 60 && s < 60);
}

#[test]
fn now_is_after_the_epoch_and_does_not_run_backwards_by_much() {
    let first = Timestamp::now();
    let second = Timestamp::now();
    // later than 2020-01-01
    assert!(first.millis > 1_577_836_800_000);
    assert!(second.millis + 60_000 > first.millis);
}

#[test]
fn message_log_display_form() {
    let entry = MessageLog {
        username: "alice".to_string(),
        timestamp: Timestamp::from_millis(947638923004),
        contents: "hello there".to_string(),
    };
    assert_eq!(entry.to_text(), "[ alice | 01-02-03 ]: hello there");
    let late = MessageLog {
        username: "b".to_string(),
        timestamp: Timestamp::from_millis(86_399_000),
        contents: "".to_string(),
    };
    assert_eq!(late.to_text(), "[ b | 23-59-59 ]: ");
}

#[test]
fn message_log_from_client_msg_takes_only_room_messages() {
    let msg = ClientMsg {
        token: Some("T".to_string()),
        timestamp: Timestamp::from_millis(77),
        body: ClientMsgBody::SendToRoom { contents: "hi".to_string() },
    };
    let entry = MessageLog::from_client_msg(msg, "alice");
    assert_eq!(
        entry,
        Some(MessageLog {
            username: "alice".to_string(),
            timestamp: Timestamp::from_millis(77),
            contents: "hi".to_string(),
        })
    );
    for body in [
        ClientMsgBody::GetTime,
        ClientMsgBody::Move { target: "x".to_string() },
        ClientMsgBody::Login("n".to_string(), [0u8; 32]),
    ] {
        let msg = ClientMsg { token: None, timestamp: Timestamp::from_millis(1), body };
        assert_eq!(MessageLog::from_client_msg(msg, "alice"), None);
    }
}

#[test]
fn message_log_from_user_uses_the_users_name() {
    let user = User::new("1".to_string(), "alice".to_string(), [0u8; 32]);
    let entry = MessageLog::from_user_at(&user, "yo".to_string(), Timestamp::from_millis(12));
    assert_eq!(entry.username, "alice");
    assert_eq!(entry.contents, "yo");
    assert_eq!(entry.timestamp.millis, 12);
    let now = MessageLog::from_user(&user, "yo".to_string());
    assert_eq!(now.username, "alice");
    assert_eq!(now.contents, "yo");
    assert!(now.timestamp.millis > 1_577_836_800_000);
    assert_eq!(entry.to_chat_msg().sender, "alice");
    assert_eq!(entry.to_chat_msg().content, "yo");
    assert_eq!(entry.to_chat_msg().timestamp.millis, 12);
}

#[test]
fn notices_are_written_by_the_server() {
    let n = NotificationLog::new("note".to_string());
    assert_eq!(n.notifier, "SERVER");
    assert_eq!(n.contents, "note");
    assert!(n.timestamp.millis > 1_577_836_800_000);
    let at = Timestamp::from_millis(3);
    let joined = NotificationLog::joined(&"alice".to_string(), &"Hub".to_string(), at);
    assert_eq!(joined.contents, "alice joined Hub");
    assert_eq!(joined.notifier, "SERVER");
    assert_eq!(joined.timestamp, at);
    let left = NotificationLog::left(&"alice".to_string(), &"Hub".to_string(), at);
    assert_eq!(left.contents, "alice left Hub");
}

#[test]
fn display_form_agrees_with_chrono() {
    let moments = [
        0i64,
        1,
        -1,
        -999,
        -1000,
        59_999,
        3_599_999,
        86_399_999,
        947_638_923_004,
        1_700_000_000_123,
        -62_135_596_800_000,
        253_402_300_799_999,
        -86_400_001,
    ];
    for millis in moments {
        let moment = chrono::DateTime::from_timestamp_millis(millis).unwrap();
        let entry = MessageLog {
            username: "u".to_string(),
            timestamp: Timestamp::from_millis(millis),
            contents: "c".to_string(),
        };
        assert_eq!(entry.to_text(), format!("[ u | {} ]: c", moment.format("%H-%M-%S")));
    }
}

use matrix_mqtt_bridge::cli::Cli;
use matrix_mqtt_bridge::event::{
    is_delivery_failure, Delivery, Event, Message, ReadinessConditions,
};
use matrix_mqtt_bridge::ident::{IdError, RoomId, UserId};
use matrix_mqtt_bridge::matrix::{
    handle_message, login, run_send_task, start_login, watched_room, LoginAction, LoginOutcome,
    SendAction, SendInput, SendState,
};
use matrix_mqtt_bridge::metrics::MessageEventLables;
use std::path::{Path, PathBuf};

fn room(text: &str) -> RoomId {
    RoomId::parse(text).unwrap()
}

fn settings() -> Cli {
    Cli {
        mqtt_broker: "tcp://localhost:1883".to_string(),
        mqtt_client_id: "matrix-mqtt-bridge".to_string(),
        mqtt_qos: 1,
        mqtt_username: String::new(),
        mqtt_password: String::new(),
        mqtt_topic_prefix: "matrix_bridge".to_string(),
        matrix_username: "@bot:example.org".to_string(),
        matrix_password: "pass word".to_string(),
        matrix_storage: PathBuf::from("/var/lib/bridge"),
        matrix_rooms: vec![room("!a:example.org"), room("!b:example.org")],
        observability_address: "127.0.0.1:9090".to_string(),
    }
}

fn done(session_exists: bool) -> LoginOutcome {
    LoginOutcome::Done { session_exists }
}

#[test]
fn labels_hold_the_room() {
    assert_eq!(MessageEventLables::new("!a:example.org".to_string()).room_id, "!a:example.org");
}

#[test]
fn storage_holds_the_store_and_the_session() {
    let args = settings();
    assert_eq!(args.matrix_sled_path(), Path::new("/var/lib/bridge/sled"));
    assert_eq!(args.matrix_session_filename(), Path::new("/var/lib/bridge/session.json"));
    let mut here = settings();
    here.matrix_storage = PathBuf::new();
    assert_eq!(here.matrix_sled_path(), Path::new("sled"));
    here.matrix_storage = PathBuf::from("x/");
    assert_eq!(here.matrix_session_filename(), Path::new("x/session.json"));
}

#[test]
fn watched_rooms_are_found() {
    let rooms = settings().matrix_rooms;
    assert_eq!(watched_room(&rooms, "!b:example.org").unwrap().as_str(), "!b:example.org");
    assert!(watched_room(&rooms, "!c:example.org").is_none());
    assert!(watched_room(&Vec::new(), "!a:example.org").is_none());
}

#[test]
fn message_in_a_watched_room_is_noticed() {
    let rooms = settings().matrix_rooms;
    let notice =
        handle_message(&rooms, true, "!b:example.org", Some("{}".to_string())).unwrap();
    assert_eq!(notice.count.room_id, "!b:example.org");
    match notice.event {
        Some(Event::MessageFromMatrix(message)) => {
            assert_eq!(message.room.as_str(), "!b:example.org");
            assert_eq!(message.body, "{}");
        }
        _ => panic!("no message"),
    }
    let notice = handle_message(&rooms, true, "!b:example.org", None).unwrap();
    assert_eq!(notice.count.room_id, "!b:example.org");
    assert!(notice.event.is_none());
}

#[test]
fn message_in_another_room_is_not_noticed() {
    let rooms = settings().matrix_rooms;
    assert!(handle_message(&rooms, false, "!a:example.org", Some("{}".to_string())).is_none());
    assert!(handle_message(&rooms, true, "!c:example.org", Some("{}".to_string())).is_none());
}

#[test]
fn send_task_sends_what_came_from_mqtt() {
    let message = Message { room: room("!a:example.org"), body: "hello".to_string() };
    let input = SendInput::Channel(Some(Event::MessageFromMqtt(message.clone())));
    match run_send_task(SendState::Receiving, input) {
        (SendState::Sending, Some(SendAction::SendText(sent))) => {
            assert_eq!(sent.room.as_str(), "!a:example.org");
            assert_eq!(sent.body, "hello");
        }
        _ => panic!("not sent"),
    }
    let input = SendInput::Channel(Some(Event::MessageFromMatrix(message)));
    assert!(matches!(
        run_send_task(SendState::Receiving, input),
        (SendState::Receiving, None)
    ));
    for end in [Some(Event::Exit), None] {
        assert!(matches!(
            run_send_task(SendState::Receiving, SendInput::Channel(end)),
            (SendState::Stopped, None)
        ));
    }
}

#[test]
fn send_task_ignores_what_it_does_not_wait_for() {
    assert!(matches!(
        run_send_task(SendState::Sending, SendInput::Channel(Some(Event::Exit))),
        (SendState::Sending, None)
    ));
    assert!(matches!(
        run_send_task(SendState::Receiving, SendInput::Sent(Delivery::NotDelivered)),
        (SendState::Receiving, None)
    ));
    assert!(matches!(
        run_send_task(SendState::Stopped, SendInput::Channel(None)),
        (SendState::Stopped, None)
    ));
}

#[test]
fn series_of_messages_is_sent_in_order() {
    let made = |body: &str| Message { room: room("!a:example.org"), body: body.to_string() };
    let inputs = vec![
        SendInput::Channel(Some(Event::MessageFromMqtt(made("one")))),
        SendInput::Channel(Some(Event::MessageFromMqtt(made("not taken")))),
        SendInput::Sent(Delivery::NotDelivered),
        SendInput::Channel(Some(Event::MessageFromMatrix(made("not for Matrix")))),
        SendInput::Channel(Some(Event::MessageFromMqtt(made("two")))),
        SendInput::Sent(Delivery::Delivered),
        SendInput::Channel(Some(Event::MessageFromMqtt(made("three")))),
        SendInput::Sent(Delivery::NotDelivered),
        SendInput::Channel(Some(Event::Exit)),
        SendInput::Channel(Some(Event::MessageFromMqtt(made("too late")))),
    ];
    let mut state = SendState::Receiving;
    let mut sent = Vec::new();
    let mut failures = 0;
    for input in inputs {
        let (next, action) = run_send_task(state, input);
        state = next;
        match action {
            Some(SendAction::SendText(message)) => sent.push(message.body),
            Some(SendAction::CountFailure) => failures += 1,
            None => {}
        }
    }
    assert_eq!(sent, ["one", "two", "three"]);
    assert_eq!(failures, 2);
    assert_eq!(state, SendState::Stopped);
}

#[test]
fn only_undelivered_messages_count_as_failures() {
    assert!(is_delivery_failure(Delivery::NotDelivered));
    assert!(!is_delivery_failure(Delivery::Delivered));
    assert!(!is_delivery_failure(Delivery::NotQueued));
}

#[test]
fn login_restores_a_session() {
    let args = settings();
    let (mut login, action) = login(&args).unwrap();
    match action {
        LoginAction::BuildClient { server_name, store } => {
            assert_eq!(server_name, "example.org");
            assert_eq!(store, Path::new("/var/lib/bridge/sled"));
        }
        _ => panic!("no client"),
    }
    match login.advance(&args, done(true)) {
        LoginAction::RestoreSession { file } => {
            assert_eq!(file, Path::new("/var/lib/bridge/session.json"))
        }
        _ => panic!("not restored"),
    }
    assert!(matches!(login.advance(&args, done(true)), LoginAction::InitialSync));
    assert!(matches!(
        login.advance(&args, done(true)),
        LoginAction::Complete { ready: ReadinessConditions::MatrixLoginAndInitialSyncComplete }
    ));
    assert!(matches!(
        login.advance(&args, LoginOutcome::Failed),
        LoginAction::Complete { .. }
    ));
}

#[test]
fn first_login_saves_the_session() {
    let args = settings();
    let (mut login, _) = login(&args).unwrap();
    match login.advance(&args, done(false)) {
        LoginAction::PasswordLogin { localpart, password, device_name } => {
            assert_eq!(localpart, "bot");
            assert_eq!(password, "pass word");
            assert_eq!(device_name, "MQTT bridge");
        }
        _ => panic!("no login"),
    }
    match login.advance(&args, done(false)) {
        LoginAction::SaveSession { file } => {
            assert_eq!(file, Path::new("/var/lib/bridge/session.json"))
        }
        _ => panic!("not saved"),
    }
    assert!(matches!(login.advance(&args, done(true)), LoginAction::InitialSync));
    assert!(matches!(login.advance(&args, done(true)), LoginAction::Complete { .. }));
}

#[test]
fn failed_login_stays_failed() {
    let args = settings();
    for steps in 0..3 {
        let (mut login, _) = login(&args).unwrap();
        for _ in 0..steps {
            login.advance(&args, done(true));
        }
        assert!(matches!(login.advance(&args, LoginOutcome::Failed), LoginAction::GiveUp));
        assert!(matches!(login.advance(&args, done(true)), LoginAction::GiveUp));
    }
}

#[test]
fn login_refuses_a_bad_username() {
    let mut args = settings();
    args.matrix_username = "bot".to_string();
    assert_eq!(login(&args).unwrap_err(), IdError::MissingLeadingSigil);
    args.matrix_username = "@bot".to_string();
    assert_eq!(login(&args).unwrap_err(), IdError::MissingColon);
}

#[test]
fn login_starts_from_the_user() {
    let args = settings();
    let user = UserId::parse("@carl:x.org").unwrap();
    let (mut login, action) = start_login(&args, Ok(user)).unwrap();
    match action {
        LoginAction::BuildClient { server_name, store } => {
            assert_eq!(server_name, "x.org");
            assert_eq!(store, Path::new("/var/lib/bridge/sled"));
        }
        _ => panic!("no client"),
    }
    match login.advance(&args, done(false)) {
        LoginAction::PasswordLogin { localpart, .. } => assert_eq!(localpart, "carl"),
        _ => panic!("no login"),
    }
    assert_eq!(
        start_login(&args, Err(IdError::MissingColon)).unwrap_err(),
        IdError::MissingColon
    );
}

#[test]
fn second_login_restores_what_the_first_saved() {
    let args = settings();
    let (mut first, _) = login(&args).unwrap();
    first.advance(&args, done(false));
    let saved = match first.advance(&args, done(false)) {
        LoginAction::SaveSession { file } => file,
        _ => panic!("not saved"),
    };
    let (mut second, _) = login(&args).unwrap();
    match second.advance(&args, done(true)) {
        LoginAction::RestoreSession { file } => assert_eq!(file, saved),
        _ => panic!("not restored"),
    }
    for _ in 0..3 {
        assert!(!matches!(
            second.advance(&args, done(true)),
            LoginAction::PasswordLogin { .. }
        ));
    }
}

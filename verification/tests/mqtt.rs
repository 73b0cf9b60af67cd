use matrix_mqtt_bridge::bridge::{
    handle_matrix_message, loop_action, LoopAction, LoopInput, MatrixAction,
};
use matrix_mqtt_bridge::cli::Cli;
use matrix_mqtt_bridge::event::{
    Delivery, Event, Message, Publication, ReadinessChange, ReadinessConditions,
};
use matrix_mqtt_bridge::ident::{IdError, RoomId};
use matrix_mqtt_bridge::mqtt::metrics::{
    ConnectionEventLables, ConnectionEventType, MessageEventLables,
};
use matrix_mqtt_bridge::mqtt::{
    connection_actions, connection_readiness, handle_mqtt_message, run, subscriptions,
    ConnectionAction, ConnectionSettings, Subscription, TaskAction, TaskInput, TaskState,
};
use matrix_mqtt_bridge::topic::RouteError;
use std::path::PathBuf;

const ALIVE: ReadinessConditions = ReadinessConditions::MqttBrokerConnectionIsAlive;

fn room(text: &str) -> RoomId {
    RoomId::parse(text).unwrap()
}

fn settings() -> Cli {
    Cli {
        mqtt_broker: "tcp://broker:1883".to_string(),
        mqtt_client_id: "bridge".to_string(),
        mqtt_qos: 2,
        mqtt_username: "user".to_string(),
        mqtt_password: "secret".to_string(),
        mqtt_topic_prefix: "matrix_bridge".to_string(),
        matrix_username: "@bot:example.org".to_string(),
        matrix_password: String::new(),
        matrix_storage: PathBuf::from("storage"),
        matrix_rooms: vec![room("!a:example.org"), room("!b:example.org")],
        observability_address: "127.0.0.1:9090".to_string(),
    }
}

fn subscription(topic: &str) -> Subscription {
    Subscription { topic: topic.to_string(), qos: 2 }
}

fn message(room_id: &str, body: &str) -> Message {
    Message { room: room(room_id), body: body.to_string() }
}

#[test]
fn labels_hold_what_they_are_made_of() {
    let labels = MessageEventLables::new("text".to_string(), "!a:example.org".to_string());
    assert_eq!(labels.kind, "text");
    assert_eq!(labels.room_id, "!a:example.org");
    assert_eq!(
        ConnectionEventLables::new(ConnectionEventType::Lost).event,
        ConnectionEventType::Lost
    );
}

#[test]
fn connection_settings_come_from_the_command_line() {
    assert_eq!(
        ConnectionSettings::new(&settings()),
        ConnectionSettings {
            server_uri: "tcp://broker:1883".to_string(),
            client_id: "bridge".to_string(),
            clean_session: true,
            min_reconnect_interval: 1,
            max_reconnect_interval: 5,
            keep_alive_interval: 5,
            user_name: "user".to_string(),
            password: "secret".to_string(),
        }
    );
}

#[test]
fn each_room_is_subscribed_to() {
    assert_eq!(
        subscriptions(&settings()),
        vec![
            subscription("matrix_bridge/!a:example.org/send/text"),
            subscription("matrix_bridge/!b:example.org/send/text"),
        ]
    );
}

#[test]
fn connection_subscribes_counts_and_marks_ready() {
    let actions = connection_actions(&settings(), ConnectionEventType::Connected);
    assert_eq!(actions.len(), 4);
    match (&actions[0], &actions[1]) {
        (ConnectionAction::Subscribe(a), ConnectionAction::Subscribe(b)) => {
            assert_eq!(*a, subscription("matrix_bridge/!a:example.org/send/text"));
            assert_eq!(*b, subscription("matrix_bridge/!b:example.org/send/text"));
        }
        _ => panic!("not subscribed"),
    }
    assert!(matches!(
        actions[2],
        ConnectionAction::Count(ConnectionEventLables { event: ConnectionEventType::Connected })
    ));
    match actions[3] {
        ConnectionAction::Readiness(change) => assert_eq!(change, ReadinessChange::Ready(ALIVE)),
        _ => panic!("not ready"),
    }
}

#[test]
fn lost_connection_counts_and_marks_not_ready() {
    for event in [ConnectionEventType::Disconnected, ConnectionEventType::Lost] {
        let actions = connection_actions(&settings(), event);
        assert_eq!(actions.len(), 2);
        match actions[0] {
            ConnectionAction::Count(labels) => assert_eq!(labels.event, event),
            _ => panic!("not counted"),
        }
        match actions[1] {
            ConnectionAction::Readiness(change) => {
                assert_eq!(change, ReadinessChange::NotReady(ALIVE))
            }
            _ => panic!("still ready"),
        }
        assert_eq!(connection_readiness(event), ReadinessChange::NotReady(ALIVE));
    }
}

#[test]
fn mqtt_message_becomes_a_message_for_its_room() {
    let made = handle_mqtt_message("p", "p/!a:x.org/send/text", "hello".to_string()).unwrap();
    assert_eq!(made.room.as_str(), "!a:x.org");
    assert_eq!(made.body, "hello");
    assert_eq!(
        handle_mqtt_message("p", "p", "hello".to_string()).unwrap_err(),
        RouteError::NoRoom
    );
    assert_eq!(
        handle_mqtt_message("p", "p/x/send/text", "hello".to_string()).unwrap_err(),
        RouteError::InvalidRoom(IdError::MissingLeadingSigil)
    );
}

#[test]
fn task_publishes_what_came_from_matrix() {
    let args = settings();
    let event = Event::MessageFromMatrix(message("!a:example.org", "{}"));
    match run(&args, TaskState::PollChannel, TaskInput::Channel(Some(event))) {
        (TaskState::Publishing, Some(TaskAction::Publish(publication))) => assert_eq!(
            publication,
            Publication {
                topic: "matrix_bridge/!a:example.org".to_string(),
                payload: "{}".to_string(),
                qos: 2,
            }
        ),
        _ => panic!("not published"),
    }
    let event = Event::MessageFromMqtt(message("!a:example.org", "hello"));
    assert!(matches!(
        run(&args, TaskState::PollChannel, TaskInput::Channel(Some(event))),
        (TaskState::PollStream, None)
    ));
    assert!(matches!(
        run(&args, TaskState::PollChannel, TaskInput::Channel(None)),
        (TaskState::PollStream, None)
    ));
}

#[test]
fn task_counts_undelivered_publications() {
    let args = settings();
    assert!(matches!(
        run(&args, TaskState::Publishing, TaskInput::Published(Delivery::NotDelivered)),
        (TaskState::PollStream, Some(TaskAction::CountFailure))
    ));
    for delivery in [Delivery::Delivered, Delivery::NotQueued] {
        assert!(matches!(
            run(&args, TaskState::Publishing, TaskInput::Published(delivery)),
            (TaskState::PollStream, None)
        ));
    }
}

#[test]
fn task_forwards_what_came_from_mqtt() {
    let args = settings();
    let input = TaskInput::Stream(Some((
        "matrix_bridge/!b:example.org/send/text".to_string(),
        "hello".to_string(),
    )));
    match run(&args, TaskState::PollStream, input) {
        (TaskState::Waiting, Some(TaskAction::Forward { count, event })) => {
            assert_eq!(count.kind, "text");
            assert_eq!(count.room_id, "!b:example.org");
            match event {
                Event::MessageFromMqtt(made) => {
                    assert_eq!(made.room.as_str(), "!b:example.org");
                    assert_eq!(made.body, "hello");
                }
                _ => panic!("no message"),
            }
        }
        _ => panic!("not forwarded"),
    }
    let input = TaskInput::Stream(Some(("nowhere".to_string(), "hello".to_string())));
    assert!(matches!(
        run(&args, TaskState::PollStream, input),
        (TaskState::Waiting, Some(TaskAction::Reject(RouteError::NoRoom)))
    ));
    assert!(matches!(
        run(&args, TaskState::PollStream, TaskInput::Stream(None)),
        (TaskState::Waiting, None)
    ));
    assert!(matches!(
        run(&args, TaskState::Waiting, TaskInput::Tick),
        (TaskState::PollChannel, None)
    ));
}

#[test]
fn exit_alone_stops_the_task() {
    let args = settings();
    assert!(matches!(
        run(&args, TaskState::PollChannel, TaskInput::Channel(Some(Event::Exit))),
        (TaskState::Stopped, None)
    ));
    assert!(matches!(run(&args, TaskState::Stopped, TaskInput::Tick), (TaskState::Stopped, None)));
    assert!(matches!(
        run(&args, TaskState::PollStream, TaskInput::Channel(Some(Event::Exit))),
        (TaskState::PollStream, None)
    ));
}

#[test]
fn matrix_message_is_counted_published_and_marked_as_read() {
    let args = settings();
    let actions = handle_matrix_message(&args, true, "!b:example.org", Some("{}".to_string()));
    assert_eq!(actions.len(), 3);
    match (&actions[0], &actions[1]) {
        (MatrixAction::Count(labels), MatrixAction::Publish(publication)) => {
            assert_eq!(labels.room_id, "!b:example.org");
            assert_eq!(publication.topic, "matrix_bridge/!b:example.org");
            assert_eq!(publication.payload, "{}");
            assert_eq!(publication.qos, 2);
        }
        _ => panic!("not published"),
    }
    assert!(matches!(actions[2], MatrixAction::SendReadReceipt));
    let actions = handle_matrix_message(&args, true, "!b:example.org", None);
    assert_eq!(actions.len(), 2);
    assert!(matches!(actions[0], MatrixAction::Count(_)));
    assert!(matches!(actions[1], MatrixAction::SendReadReceipt));
}

#[test]
fn matrix_message_of_another_room_is_left_alone() {
    let args = settings();
    let body = || Some("{}".to_string());
    assert!(handle_matrix_message(&args, false, "!b:example.org", body()).is_empty());
    assert!(handle_matrix_message(&args, true, "!c:example.org", body()).is_empty());
}

#[test]
fn main_loop_sends_text_to_its_room() {
    let mut args = settings();
    args.mqtt_topic_prefix = "home/bridge".to_string();
    let input = LoopInput::Message {
        topic: "home/bridge/!a:example.org/send/text".to_string(),
        payload: "hello".to_string(),
    };
    match loop_action(&args, input) {
        LoopAction::SendText(made) => {
            assert_eq!(made.room.as_str(), "!a:example.org");
            assert_eq!(made.body, "hello");
        }
        _ => panic!("not sent"),
    }
    let input = LoopInput::Message { topic: "home".to_string(), payload: String::new() };
    assert!(matches!(loop_action(&args, input), LoopAction::Reject(RouteError::NoRoom)));
}

#[test]
fn main_loop_follows_the_connection_and_the_exit() {
    let args = settings();
    match loop_action(&args, LoopInput::Connected) {
        LoopAction::Readiness(change) => assert_eq!(change, ReadinessChange::Ready(ALIVE)),
        _ => panic!("not ready"),
    }
    match loop_action(&args, LoopInput::Disconnected) {
        LoopAction::Readiness(change) => assert_eq!(change, ReadinessChange::NotReady(ALIVE)),
        _ => panic!("still ready"),
    }
    assert!(matches!(loop_action(&args, LoopInput::CtrlC), LoopAction::RequestExit));
    assert!(matches!(
        loop_action(&args, LoopInput::Channel(Some(Event::Exit))),
        LoopAction::Stop
    ));
    let event = Event::MessageFromMqtt(message("!a:example.org", "hello"));
    assert!(matches!(
        loop_action(&args, LoopInput::Channel(Some(event))),
        LoopAction::Continue
    ));
    assert!(matches!(loop_action(&args, LoopInput::Channel(None)), LoopAction::Continue));
    assert!(matches!(loop_action(&args, LoopInput::Other), LoopAction::Continue));
}

#[test]
fn main_loop_counts_undelivered_messages() {
    let args = settings();
    assert!(matches!(
        loop_action(&args, LoopInput::Sent(Delivery::NotDelivered)),
        LoopAction::CountFailure
    ));
    for delivery in [Delivery::Delivered, Delivery::NotQueued] {
        assert!(matches!(loop_action(&args, LoopInput::Sent(delivery)), LoopAction::Continue));
    }
}

#[test]
fn series_of_rounds_is_served_in_order() {
    let args = settings();
    let matrix = |body: &str| {
        TaskInput::Channel(Some(Event::MessageFromMatrix(message("!a:example.org", body))))
    };
    let broker = |topic: &str, text: &str| {
        TaskInput::Stream(Some((topic.to_string(), text.to_string())))
    };
    let inputs = vec![
        matrix("one"),
        matrix("not taken"),
        TaskInput::Published(Delivery::NotDelivered),
        broker("matrix_bridge/!b:example.org/send/text", "hello"),
        TaskInput::Tick,
        TaskInput::Channel(None),
        broker("nowhere", "lost"),
        TaskInput::Tick,
        matrix("two"),
        TaskInput::Published(Delivery::NotQueued),
        TaskInput::Stream(None),
        TaskInput::Tick,
        matrix("three"),
        TaskInput::Published(Delivery::Delivered),
        broker("matrix_bridge/!a:example.org/send/text", "bye"),
        TaskInput::Tick,
        TaskInput::Channel(Some(Event::Exit)),
        matrix("too late"),
    ];
    let mut state = TaskState::PollChannel;
    let mut published = Vec::new();
    let mut forwarded = Vec::new();
    let mut failures = 0;
    let mut rejected = 0;
    for input in inputs {
        let (next, action) = run(&args, state, input);
        state = next;
        match action {
            Some(TaskAction::Publish(publication)) => published.push(publication.payload),
            Some(TaskAction::CountFailure) => failures += 1,
            Some(TaskAction::Forward { event: Event::MessageFromMqtt(made), .. }) => {
                forwarded.push(made.body)
            }
            Some(TaskAction::Forward { .. }) => panic!("not from the broker"),
            Some(TaskAction::Reject(_)) => rejected += 1,
            None => {}
        }
    }
    assert_eq!(published, ["one", "two", "three"]);
    assert_eq!(forwarded, ["hello", "bye"]);
    assert_eq!((failures, rejected), (1, 1));
    assert_eq!(state, TaskState::Stopped);
}

#[test]
fn publications_are_on_no_subscribed_topic() {
    let mut args = settings();
    args.mqtt_topic_prefix = "a/b".to_string();
    for room in ["!a:example.org", "!b:example.org", "!x/send:example.org:1"] {
        let event = Event::MessageFromMatrix(message(room, "{}"));
        match run(&args, TaskState::PollChannel, TaskInput::Channel(Some(event))) {
            (_, Some(TaskAction::Publish(publication))) => {
                assert!(subscriptions(&args).iter().all(|s| s.topic != publication.topic));
            }
            _ => panic!("not published"),
        }
    }
}

#[test]
fn series_of_connection_changes_is_counted_and_followed() {
    let args = settings();
    let series = [
        ConnectionEventType::Connected,
        ConnectionEventType::Lost,
        ConnectionEventType::Connected,
        ConnectionEventType::Disconnected,
        ConnectionEventType::Connected,
    ];
    let mut counted = Vec::new();
    let mut subscribed = 0;
    let mut last = None;
    for event in series {
        for action in connection_actions(&args, event) {
            match action {
                ConnectionAction::Subscribe(_) => subscribed += 1,
                ConnectionAction::Count(labels) => counted.push(labels.event),
                ConnectionAction::Readiness(change) => last = Some(change),
            }
        }
    }
    assert_eq!(counted, series.to_vec());
    assert_eq!(subscribed, 6);
    assert_eq!(last, Some(ReadinessChange::Ready(ALIVE)));
}

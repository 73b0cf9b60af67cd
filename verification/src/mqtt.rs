//! The MQTT side of the bridge.

pub mod metrics;

use crate::cli::Cli;
use crate::event::{
    holds_after, is_delivery_failure, undelivered_among, Delivery, Event, EventModel, Message,
    MessageModel, Publication, PublicationModel, ReadinessChange, ReadinessConditions,
};
use crate::ident::is_room_id;
use crate::mqtt::metrics::{
    ConnectionEventLables, ConnectionEventType, MessageEventLables, MessageEventLablesModel,
};
use crate::topic::{
    law_text_topic_leads_to_its_room, room_of_topic, room_topic, room_topic_of, route, text_topics,
    text_topics_of, RouteError,
};
use vstd::prelude::*;

verus! {

/// How to connect to the broker. The intervals are in seconds.
#[derive(Debug, PartialEq, Eq)]
pub struct ConnectionSettings {
    pub server_uri: String,
    pub client_id: String,
    pub clean_session: bool,
    pub min_reconnect_interval: u64,
    pub max_reconnect_interval: u64,
    pub keep_alive_interval: u64,
    pub user_name: String,
    pub password: String,
}

impl ConnectionSettings {
    /// Takes the settings from the command line.
    pub fn new(args: &Cli) -> (settings: Self)
        ensures
            settings == (ConnectionSettings {
                server_uri: args.mqtt_broker,
                client_id: args.mqtt_client_id,
                clean_session: true,
                min_reconnect_interval: 1,
                max_reconnect_interval: 5,
                keep_alive_interval: 5,
                user_name: args.mqtt_username,
                password: args.mqtt_password,
            }),
    {
        ConnectionSettings {
            server_uri: args.mqtt_broker.clone(),
            client_id: args.mqtt_client_id.clone(),
            clean_session: true,
            min_reconnect_interval: 1,
            max_reconnect_interval: 5,
            keep_alive_interval: 5,
            user_name: args.mqtt_username.clone(),
            password: args.mqtt_password.clone(),
        }
    }
}

/// A subscription to a topic.
#[derive(Debug, PartialEq, Eq)]
pub struct Subscription {
    pub topic: String,
    pub qos: i32,
}

#[verifier::ext_equal]
pub struct SubscriptionModel {
    pub topic: Seq<char>,
    pub qos: i32,
}

impl DeepView for Subscription {
    type V = SubscriptionModel;

    open spec fn deep_view(&self) -> SubscriptionModel {
        SubscriptionModel { topic: self.topic@, qos: self.qos }
    }
}

/// The subscriptions of the bridge: one for each room, to the topic that takes its text.
pub open spec fn subscriptions_of(prefix: Seq<char>, rooms: Seq<Seq<char>>, qos: i32) -> Seq<
    SubscriptionModel,
> {
    text_topics_of(prefix, rooms).map_values(|topic: Seq<char>| SubscriptionModel { topic, qos })
}

/// Returns the subscriptions of the bridge.
pub fn subscriptions(args: &Cli) -> (r: Vec<Subscription>)
    ensures
        r.len() == args.matrix_rooms.len(),
        forall|i: int|
            0 <= i < r.len() ==> (#[trigger] r@[i]).qos == args.mqtt_qos && r@[i].topic@
                == args.mqtt_topic_prefix@ + seq!['/'] + args.matrix_rooms@[i]@ + "/send/text"@,
        r.deep_view() == subscriptions_of(
            args.mqtt_topic_prefix@,
            args.matrix_rooms.deep_view(),
            args.mqtt_qos,
        ),
{
    let topics: Vec<String> = text_topics(args.mqtt_topic_prefix.as_str(), &args.matrix_rooms);
    let mut r: Vec<Subscription> = Vec::new();
    let mut i: usize = 0;
    while i < topics.len()
        invariant
            i <= topics.len(),
            r.len() == i,
            forall|j: int|
                0 <= j < i ==> #[trigger] r@[j].deep_view() == (SubscriptionModel {
                    topic: topics@[j]@,
                    qos: args.mqtt_qos,
                }),
        decreases topics.len() - i,
    {
        r.push(Subscription { topic: topics[i].clone(), qos: args.mqtt_qos });
        i += 1;
    }
    proof {
        assert forall|j: int| 0 <= j < topics.len() implies topics.deep_view()[j] == #[trigger] topics@[j]@ by {}
        assert(r.deep_view() =~= subscriptions_of(
            args.mqtt_topic_prefix@,
            args.matrix_rooms.deep_view(),
            args.mqtt_qos,
        ));
        assert forall|j: int| 0 <= j < r.len() implies (#[trigger] r@[j]).qos == args.mqtt_qos
            && r@[j].topic@ == args.mqtt_topic_prefix@ + seq!['/'] + args.matrix_rooms@[j]@
            + "/send/text"@ by {
            assert(r@[j].deep_view().topic == topics@[j]@);
            assert(topics.deep_view()[j] == topics@[j]@);
            assert(args.matrix_rooms.deep_view()[j] == args.matrix_rooms@[j]@);
        }
    }
    r
}

/// What follows from a change of the connection to the broker.
#[derive(Debug)]
pub enum ConnectionAction {
    Subscribe(Subscription),
    Count(ConnectionEventLables),
    Readiness(ReadinessChange),
}

#[verifier::ext_equal]
pub enum ConnectionActionModel {
    Subscribe(SubscriptionModel),
    Count(ConnectionEventLables),
    Readiness(ReadinessChange),
}

impl DeepView for ConnectionAction {
    type V = ConnectionActionModel;

    open spec fn deep_view(&self) -> ConnectionActionModel {
        match self {
            ConnectionAction::Subscribe(s) => ConnectionActionModel::Subscribe(s.deep_view()),
            ConnectionAction::Count(labels) => ConnectionActionModel::Count(*labels),
            ConnectionAction::Readiness(change) => ConnectionActionModel::Readiness(*change),
        }
    }
}

/// The change of readiness that goes with a change of the connection.
pub open spec fn readiness_of(event: ConnectionEventType) -> ReadinessChange {
    match event {
        ConnectionEventType::Connected => ReadinessChange::Ready(
            ReadinessConditions::MqttBrokerConnectionIsAlive,
        ),
        ConnectionEventType::Disconnected | ConnectionEventType::Lost => ReadinessChange::NotReady(
            ReadinessConditions::MqttBrokerConnectionIsAlive,
        ),
    }
}

/// What follows from a change of the connection, in order: on a new connection the
/// subscriptions, and on each change a count and a change of readiness.
pub open spec fn connection_actions_of(
    subscriptions: Seq<SubscriptionModel>,
    event: ConnectionEventType,
) -> Seq<ConnectionActionModel> {
    let rest = seq![
        ConnectionActionModel::Count(ConnectionEventLables { event }),
        ConnectionActionModel::Readiness(readiness_of(event)),
    ];
    if event == ConnectionEventType::Connected {
        subscriptions.map_values(|s: SubscriptionModel| ConnectionActionModel::Subscribe(s)) + rest
    } else {
        rest
    }
}

/// Returns the change of readiness that goes with a change of the connection.
pub fn connection_readiness(event: ConnectionEventType) -> (change: ReadinessChange)
    ensures
        change == readiness_of(event),
{
    match event {
        ConnectionEventType::Connected => ReadinessChange::Ready(
            ReadinessConditions::MqttBrokerConnectionIsAlive,
        ),
        ConnectionEventType::Disconnected | ConnectionEventType::Lost => ReadinessChange::NotReady(
            ReadinessConditions::MqttBrokerConnectionIsAlive,
        ),
    }
}

/// Returns what follows from a change of the connection, in order.
pub fn connection_actions(args: &Cli, event: ConnectionEventType) -> (actions: Vec<
    ConnectionAction,
>)
    ensures
        actions.deep_view() == connection_actions_of(
            subscriptions_of(
                args.mqtt_topic_prefix@,
                args.matrix_rooms.deep_view(),
                args.mqtt_qos,
            ),
            event,
        ),
{
    let mut actions: Vec<ConnectionAction> = Vec::new();
    let ghost wanted = subscriptions_of(
        args.mqtt_topic_prefix@,
        args.matrix_rooms.deep_view(),
        args.mqtt_qos,
    );
    match event {
        ConnectionEventType::Connected => {
            let all: Vec<Subscription> = subscriptions(args);
            let mut i: usize = 0;
            while i < all.len()
                invariant
                    i <= all.len(),
                    actions.len() == i,
                    all.deep_view() == wanted,
                    forall|j: int|
                        0 <= j < i ==> #[trigger] actions@[j].deep_view()
                            == ConnectionActionModel::Subscribe(wanted[j]),
                decreases all.len() - i,
            {
                let subscription = Subscription { topic: all[i].topic.clone(), qos: all[i].qos };
                assert(subscription.deep_view() == all.deep_view()[i as int]);
                actions.push(ConnectionAction::Subscribe(subscription));
                i += 1;
            }
        },
        ConnectionEventType::Disconnected | ConnectionEventType::Lost => {},
    }
    actions.push(ConnectionAction::Count(ConnectionEventLables::new(event)));
    actions.push(ConnectionAction::Readiness(connection_readiness(event)));
    assert(actions.deep_view() =~= connection_actions_of(wanted, event));
    actions
}

/// What follows from a series of changes of the connection, in order.
pub open spec fn connection_log(
    subscriptions: Seq<SubscriptionModel>,
    events: Seq<ConnectionEventType>,
) -> Seq<ConnectionActionModel>
    decreases events.len(),
{
    if events.len() == 0 {
        seq![]
    } else {
        connection_log(subscriptions, events.drop_last()) + connection_actions_of(
            subscriptions,
            events.last(),
        )
    }
}

/// The changes of readiness among the actions.
pub open spec fn changes_among(actions: Seq<ConnectionActionModel>) -> Seq<ReadinessChange>
    decreases actions.len(),
{
    if actions.len() == 0 {
        seq![]
    } else {
        let before = changes_among(actions.drop_last());
        match actions.last() {
            ConnectionActionModel::Readiness(change) => before.push(change),
            _ => before,
        }
    }
}

/// The subscriptions among the actions.
pub open spec fn subscriptions_among(actions: Seq<ConnectionActionModel>) -> Seq<SubscriptionModel>
    decreases actions.len(),
{
    if actions.len() == 0 {
        seq![]
    } else {
        let before = subscriptions_among(actions.drop_last());
        match actions.last() {
            ConnectionActionModel::Subscribe(subscription) => before.push(subscription),
            _ => before,
        }
    }
}

/// How often the actions count a kind of change.
pub open spec fn times_counted(
    actions: Seq<ConnectionActionModel>,
    event: ConnectionEventType,
) -> nat
    decreases actions.len(),
{
    if actions.len() == 0 {
        0
    } else {
        times_counted(actions.drop_last(), event) + if actions.last()
            == ConnectionActionModel::Count(ConnectionEventLables { event }) {
            1nat
        } else {
            0nat
        }
    }
}

/// How often a kind of change occurs in a series.
pub open spec fn times_occurred(
    events: Seq<ConnectionEventType>,
    event: ConnectionEventType,
) -> nat
    decreases events.len(),
{
    if events.len() == 0 {
        0
    } else {
        times_occurred(events.drop_last(), event) + if events.last() == event {
            1nat
        } else {
            0nat
        }
    }
}

proof fn lemma_among_subscriptions(
    subscriptions: Seq<SubscriptionModel>,
    event: ConnectionEventType,
)
    ensures
        ({
            let actions = subscriptions.map_values(
                |s: SubscriptionModel| ConnectionActionModel::Subscribe(s),
            );
            &&& changes_among(actions) == Seq::<ReadinessChange>::empty()
            &&& subscriptions_among(actions) == subscriptions
            &&& times_counted(actions, event) == 0
        }),
    decreases subscriptions.len(),
{
    let actions = subscriptions.map_values(
        |s: SubscriptionModel| ConnectionActionModel::Subscribe(s),
    );
    if subscriptions.len() > 0 {
        let init = subscriptions.drop_last();
        lemma_among_subscriptions(init, event);
        assert(actions.drop_last() =~= init.map_values(
            |s: SubscriptionModel| ConnectionActionModel::Subscribe(s),
        ));
        assert(init.push(subscriptions.last()) =~= subscriptions);
    } else {
        assert(subscriptions_among(actions) =~= subscriptions);
    }
}

proof fn lemma_among_joined(
    a: Seq<ConnectionActionModel>,
    b: Seq<ConnectionActionModel>,
    event: ConnectionEventType,
)
    ensures
        changes_among(a + b) == changes_among(a) + changes_among(b),
        subscriptions_among(a + b) == subscriptions_among(a) + subscriptions_among(b),
        times_counted(a + b, event) == times_counted(a, event) + times_counted(b, event),
    decreases b.len(),
{
    if b.len() == 0 {
        assert(a + b =~= a);
        assert(changes_among(a + b) =~= changes_among(a) + changes_among(b));
        assert(subscriptions_among(a + b) =~= subscriptions_among(a) + subscriptions_among(b));
    } else {
        lemma_among_joined(a, b.drop_last(), event);
        assert((a + b).drop_last() =~= a + b.drop_last());
        assert(changes_among(a + b) =~= changes_among(a) + changes_among(b));
        assert(subscriptions_among(a + b) =~= subscriptions_among(a) + subscriptions_among(b));
    }
}

/// A change of the connection changes the readiness once and is counted once, under its kind;
/// a new connection makes every subscription once, and no other change makes any.
pub proof fn law_one_change_acts_once(
    subscriptions: Seq<SubscriptionModel>,
    event: ConnectionEventType,
    kind: ConnectionEventType,
)
    ensures
        ({
            let actions = connection_actions_of(subscriptions, event);
            &&& changes_among(actions) == seq![readiness_of(event)]
            &&& times_counted(actions, kind) == if kind == event {
                1nat
            } else {
                0nat
            }
            &&& subscriptions_among(actions) == if event == ConnectionEventType::Connected {
                subscriptions
            } else {
                Seq::<SubscriptionModel>::empty()
            }
        }),
{
    let rest = seq![
        ConnectionActionModel::Count(ConnectionEventLables { event }),
        ConnectionActionModel::Readiness(readiness_of(event)),
    ];
    reveal_with_fuel(changes_among, 3);
    reveal_with_fuel(subscriptions_among, 3);
    reveal_with_fuel(times_counted, 3);
    assert(changes_among(rest) =~= seq![readiness_of(event)]);
    assert(rest.drop_last().last() == rest[0]);
    assert(times_counted(rest, kind) == if kind == event {
        1nat
    } else {
        0nat
    });
    if event == ConnectionEventType::Connected {
        let subscribe = subscriptions.map_values(
            |s: SubscriptionModel| ConnectionActionModel::Subscribe(s),
        );
        lemma_among_subscriptions(subscriptions, kind);
        lemma_among_joined(subscribe, rest, kind);
        assert(changes_among(subscribe + rest) =~= seq![readiness_of(event)]);
        assert(subscriptions_among(subscribe + rest) =~= subscriptions);
    }
}

/// After any series of changes, the bridge counts as connected to the broker exactly if the
/// last change was a new connection, and each kind of change was counted as often as it
/// occurred.
pub proof fn law_connection_log_follows_the_changes(
    subscriptions: Seq<SubscriptionModel>,
    events: Seq<ConnectionEventType>,
    kind: ConnectionEventType,
)
    ensures
        ({
            let log = connection_log(subscriptions, events);
            &&& holds_after(
                changes_among(log),
                ReadinessConditions::MqttBrokerConnectionIsAlive,
            ) == (events.len() > 0 && events.last() == ConnectionEventType::Connected)
            &&& times_counted(log, kind) == times_occurred(events, kind)
        }),
    decreases events.len(),
{
    if events.len() > 0 {
        let init = events.drop_last();
        let before = connection_log(subscriptions, init);
        let actions = connection_actions_of(subscriptions, events.last());
        law_connection_log_follows_the_changes(subscriptions, init, kind);
        law_one_change_acts_once(subscriptions, events.last(), kind);
        lemma_among_joined(before, actions, kind);
        assert(changes_among(before + actions) =~= changes_among(before).push(
            readiness_of(events.last()),
        ));
    }
}

/// The message that a text on a topic makes.
pub open spec fn message_of(prefix: Seq<char>, topic: Seq<char>, payload: Seq<char>) -> Result<
    MessageModel,
    RouteError,
> {
    match route(prefix, topic) {
        Ok(room) => Ok(MessageModel { room, body: payload }),
        Err(e) => Err(e),
    }
}

/// Makes the message for Matrix from a text that was received on a topic.
pub fn handle_mqtt_message(prefix: &str, topic: &str, payload: String) -> (r: Result<
    Message,
    RouteError,
>)
    ensures
        match r {
            Ok(message) => {
                &&& message_of(prefix@, topic@, payload@) == Ok::<MessageModel, RouteError>(
                    message.deep_view(),
                )
                &&& is_room_id(message.room@)
            },
            Err(e) => message_of(prefix@, topic@, payload@) == Err::<MessageModel, RouteError>(e),
        },
{
    match room_of_topic(prefix, topic) {
        Ok(room) => Ok(Message { room, body: payload }),
        Err(e) => Err(e),
    }
}

/// The publication that a message of a room makes.
pub open spec fn publication_of(prefix: Seq<char>, qos: i32, message: MessageModel) -> PublicationModel {
    PublicationModel { topic: room_topic_of(prefix, message.room), payload: message.body, qos }
}

/// What the MQTT task waits for.
#[derive(Debug, Clone, Copy, PartialEq, Eq, Structural)]
pub enum TaskState {
    /// It looks for an event on the channel.
    PollChannel,
    /// It waits for a publication to be delivered.
    Publishing,
    /// It looks for a message from the broker.
    PollStream,
    /// It waits for the next round.
    Waiting,
    /// It has ended.
    Stopped,
}

/// What the MQTT task gets to know.
#[derive(Debug)]
pub enum TaskInput {
    /// What the channel gave, if anything.
    Channel(Option<Event>),
    /// What became of the publication.
    Published(Delivery),
    /// The topic and the payload of the message that the broker sent, if it sent one.
    Stream(Option<(String, String)>),
    /// The next round begins.
    Tick,
}

#[verifier::ext_equal]
pub enum TaskInputModel {
    Channel(Option<EventModel>),
    Published(Delivery),
    Stream(Option<(Seq<char>, Seq<char>)>),
    Tick,
}

impl DeepView for TaskInput {
    type V = TaskInputModel;

    open spec fn deep_view(&self) -> TaskInputModel {
        match self {
            TaskInput::Channel(event) => TaskInputModel::Channel(event.deep_view()),
            TaskInput::Published(delivery) => TaskInputModel::Published(*delivery),
            TaskInput::Stream(Some((topic, payload))) => TaskInputModel::Stream(
                Some((topic@, payload@)),
            ),
            TaskInput::Stream(None) => TaskInputModel::Stream(None),
            TaskInput::Tick => TaskInputModel::Tick,
        }
    }
}

/// What the MQTT task does.
#[derive(Debug)]
pub enum TaskAction {
    Publish(Publication),
    /// Count a delivery failure.
    CountFailure,
    /// Count the message, and put the event on the channel.
    Forward { count: MessageEventLables, event: Event },
    /// Report that the message is for no room.
    Reject(RouteError),
}

#[verifier::ext_equal]
pub enum TaskActionModel {
    Publish(PublicationModel),
    CountFailure,
    Forward { count: MessageEventLablesModel, event: EventModel },
    Reject(RouteError),
}

impl DeepView for TaskAction {
    type V = TaskActionModel;

    open spec fn deep_view(&self) -> TaskActionModel {
        match self {
            TaskAction::Publish(publication) => TaskActionModel::Publish(publication.deep_view()),
            TaskAction::CountFailure => TaskActionModel::CountFailure,
            TaskAction::Forward { count, event } => TaskActionModel::Forward {
                count: count.deep_view(),
                event: event.deep_view(),
            },
            TaskAction::Reject(e) => TaskActionModel::Reject(*e),
        }
    }
}

/// What the MQTT task does with an event of the channel.
pub open spec fn channel_step_of(
    prefix: Seq<char>,
    qos: i32,
    event: Option<EventModel>,
) -> (TaskState, Option<TaskActionModel>) {
    match event {
        Some(EventModel::Exit) => (TaskState::Stopped, None),
        Some(EventModel::MessageFromMatrix(message)) => (
            TaskState::Publishing,
            Some(TaskActionModel::Publish(publication_of(prefix, qos, message))),
        ),
        Some(EventModel::MessageFromMqtt(_)) | None => (TaskState::PollStream, None),
    }
}

/// What the MQTT task does with a message from the broker.
pub open spec fn stream_action_of(
    prefix: Seq<char>,
    topic: Seq<char>,
    payload: Seq<char>,
) -> TaskActionModel {
    match message_of(prefix, topic, payload) {
        Ok(message) => TaskActionModel::Forward {
            count: MessageEventLablesModel { kind: "text"@, room_id: message.room },
            event: EventModel::MessageFromMqtt(message),
        },
        Err(e) => TaskActionModel::Reject(e),
    }
}

/// The next state of the MQTT task, and what it does. An input that it does not wait for
/// changes nothing.
pub open spec fn task_step_of(
    prefix: Seq<char>,
    qos: i32,
    state: TaskState,
    input: TaskInputModel,
) -> (TaskState, Option<TaskActionModel>) {
    match (state, input) {
        (TaskState::PollChannel, TaskInputModel::Channel(event)) => channel_step_of(
            prefix,
            qos,
            event,
        ),
        (TaskState::Publishing, TaskInputModel::Published(delivery)) => (
            TaskState::PollStream,
            if delivery == Delivery::NotDelivered {
                Some(TaskActionModel::CountFailure)
            } else {
                None
            },
        ),
        (TaskState::PollStream, TaskInputModel::Stream(Some((topic, payload)))) => (
            TaskState::Waiting,
            Some(stream_action_of(prefix, topic, payload)),
        ),
        (TaskState::PollStream, TaskInputModel::Stream(None)) => (TaskState::Waiting, None),
        (TaskState::Waiting, TaskInputModel::Tick) => (TaskState::PollChannel, None),
        _ => (state, None),
    }
}

/// Takes the MQTT task from one state to the next, and returns what it does.
pub fn run(args: &Cli, state: TaskState, input: TaskInput) -> (r: (TaskState, Option<TaskAction>))
    ensures
        (r.0, r.1.deep_view()) == task_step_of(
            args.mqtt_topic_prefix@,
            args.mqtt_qos,
            state,
            input.deep_view(),
        ),
{
    match (state, input) {
        (TaskState::PollChannel, TaskInput::Channel(event)) => match event {
            Some(Event::Exit) => (TaskState::Stopped, None),
            Some(Event::MessageFromMatrix(message)) => {
                let topic = room_topic(args.mqtt_topic_prefix.as_str(), message.room.as_str());
                let publication = Publication { topic, payload: message.body, qos: args.mqtt_qos };
                (TaskState::Publishing, Some(TaskAction::Publish(publication)))
            },
            Some(Event::MessageFromMqtt(_)) | None => (TaskState::PollStream, None),
        },
        (TaskState::Publishing, TaskInput::Published(delivery)) => {
            if is_delivery_failure(delivery) {
                (TaskState::PollStream, Some(TaskAction::CountFailure))
            } else {
                (TaskState::PollStream, None)
            }
        },
        (TaskState::PollStream, TaskInput::Stream(Some((topic, payload)))) => {
            match handle_mqtt_message(args.mqtt_topic_prefix.as_str(), topic.as_str(), payload) {
                Ok(message) => {
                    let count = MessageEventLables::new(
                        "text".to_owned(),
                        message.room.as_str().to_owned(),
                    );
                    let event = Event::MessageFromMqtt(message);
                    (TaskState::Waiting, Some(TaskAction::Forward { count, event }))
                },
                Err(e) => (TaskState::Waiting, Some(TaskAction::Reject(e))),
            }
        },
        (TaskState::PollStream, TaskInput::Stream(None)) => (TaskState::Waiting, None),
        (TaskState::Waiting, TaskInput::Tick) => (TaskState::PollChannel, None),
        _ => (state, None),
    }
}

/// A stopped task stays stopped and does nothing.
pub proof fn law_stopped_task_does_nothing(prefix: Seq<char>, qos: i32, input: TaskInputModel)
    ensures
        task_step_of(prefix, qos, TaskState::Stopped, input) == (
            TaskState::Stopped,
            None::<TaskActionModel>,
        ),
{
}

/// Only an exit event stops the task.
pub proof fn law_only_exit_stops_the_task(
    prefix: Seq<char>,
    qos: i32,
    state: TaskState,
    input: TaskInputModel,
)
    requires
        state != TaskState::Stopped,
    ensures
        task_step_of(prefix, qos, state, input).0 == TaskState::Stopped <==> {
            &&& state == TaskState::PollChannel
            &&& input == TaskInputModel::Channel(Some(EventModel::Exit))
        },
{
}

/// The task publishes what came from Matrix, and never what came from the broker.
pub proof fn law_task_publishes_no_mqtt_message(
    prefix: Seq<char>,
    qos: i32,
    message: MessageModel,
)
    ensures
        channel_step_of(prefix, qos, Some(EventModel::MessageFromMatrix(message))).1 == Some(
            TaskActionModel::Publish(publication_of(prefix, qos, message)),
        ),
        channel_step_of(prefix, qos, Some(EventModel::MessageFromMqtt(message))).1 is None,
{
}

/// In each round that does not end it, the task looks on the channel and then at the broker,
/// and waits for the next round, in which it begins anew.
pub proof fn law_each_round_serves_both_sides(
    prefix: Seq<char>,
    qos: i32,
    event: Option<EventModel>,
    delivery: Delivery,
    received: Option<(Seq<char>, Seq<char>)>,
)
    requires
        event != Some(EventModel::Exit),
    ensures
        ({
            let polled = task_step_of(
                prefix,
                qos,
                TaskState::PollChannel,
                TaskInputModel::Channel(event),
            ).0;
            let published = task_step_of(prefix, qos, polled, TaskInputModel::Published(delivery)).0;
            let served = task_step_of(prefix, qos, published, TaskInputModel::Stream(received)).0;
            &&& published == TaskState::PollStream
            &&& served == TaskState::Waiting
            &&& task_step_of(prefix, qos, served, TaskInputModel::Tick).0 == TaskState::PollChannel
        }),
{
}

/// The task counts a failure exactly when a publication that the client took was not delivered.
pub proof fn law_task_counts_undelivered_publications(
    prefix: Seq<char>,
    qos: i32,
    state: TaskState,
    input: TaskInputModel,
)
    ensures
        task_step_of(prefix, qos, state, input).1 == Some(TaskActionModel::CountFailure) <==> {
            &&& state == TaskState::Publishing
            &&& input == TaskInputModel::Published(Delivery::NotDelivered)
        },
{
}

/// Whether the task waits for an input.
pub open spec fn task_awaits(state: TaskState, input: TaskInputModel) -> bool {
    match state {
        TaskState::PollChannel => input is Channel,
        TaskState::Publishing => input is Published,
        TaskState::PollStream => input is Stream,
        TaskState::Waiting => input is Tick,
        TaskState::Stopped => false,
    }
}

/// The state of the task after a series of inputs.
pub open spec fn task_state_after(
    prefix: Seq<char>,
    qos: i32,
    inputs: Seq<TaskInputModel>,
) -> TaskState
    decreases inputs.len(),
{
    if inputs.len() == 0 {
        TaskState::PollChannel
    } else {
        task_step_of(
            prefix,
            qos,
            task_state_after(prefix, qos, inputs.drop_last()),
            inputs.last(),
        ).0
    }
}

/// What the task does on a series of inputs, in order.
pub open spec fn task_log(prefix: Seq<char>, qos: i32, inputs: Seq<TaskInputModel>) -> Seq<
    TaskActionModel,
>
    decreases inputs.len(),
{
    if inputs.len() == 0 {
        seq![]
    } else {
        let before = task_log(prefix, qos, inputs.drop_last());
        match task_step_of(
            prefix,
            qos,
            task_state_after(prefix, qos, inputs.drop_last()),
            inputs.last(),
        ).1 {
            Some(action) => before.push(action),
            None => before,
        }
    }
}

/// The inputs of a series that the task waited for.
pub open spec fn task_taken(prefix: Seq<char>, qos: i32, inputs: Seq<TaskInputModel>) -> Seq<
    TaskInputModel,
>
    decreases inputs.len(),
{
    if inputs.len() == 0 {
        seq![]
    } else {
        let before = task_taken(prefix, qos, inputs.drop_last());
        if task_awaits(task_state_after(prefix, qos, inputs.drop_last()), inputs.last()) {
            before.push(inputs.last())
        } else {
            before
        }
    }
}

/// The messages that came from Matrix, among what the task got to know.
pub open spec fn messages_from_matrix(inputs: Seq<TaskInputModel>) -> Seq<MessageModel>
    decreases inputs.len(),
{
    if inputs.len() == 0 {
        seq![]
    } else {
        let before = messages_from_matrix(inputs.drop_last());
        match inputs.last() {
            TaskInputModel::Channel(Some(EventModel::MessageFromMatrix(message))) => before.push(
                message,
            ),
            _ => before,
        }
    }
}

/// What became of the publications, among what the task got to know.
pub open spec fn deliveries_to_broker(inputs: Seq<TaskInputModel>) -> Seq<Delivery>
    decreases inputs.len(),
{
    if inputs.len() == 0 {
        seq![]
    } else {
        let before = deliveries_to_broker(inputs.drop_last());
        match inputs.last() {
            TaskInputModel::Published(delivery) => before.push(delivery),
            _ => before,
        }
    }
}

/// The topics and the payloads that the broker sent, among what the task got to know.
pub open spec fn received_from_broker(inputs: Seq<TaskInputModel>) -> Seq<(Seq<char>, Seq<char>)>
    decreases inputs.len(),
{
    if inputs.len() == 0 {
        seq![]
    } else {
        let before = received_from_broker(inputs.drop_last());
        match inputs.last() {
            TaskInputModel::Stream(Some(received)) => before.push(received),
            _ => before,
        }
    }
}

/// The publications among the actions.
pub open spec fn publications_among(actions: Seq<TaskActionModel>) -> Seq<PublicationModel>
    decreases actions.len(),
{
    if actions.len() == 0 {
        seq![]
    } else {
        let before = publications_among(actions.drop_last());
        match actions.last() {
            TaskActionModel::Publish(publication) => before.push(publication),
            _ => before,
        }
    }
}

/// The actions that answer what the broker sent, among the actions.
pub open spec fn answers_among(actions: Seq<TaskActionModel>) -> Seq<TaskActionModel>
    decreases actions.len(),
{
    if actions.len() == 0 {
        seq![]
    } else {
        let before = answers_among(actions.drop_last());
        match actions.last() {
            TaskActionModel::Forward { .. } | TaskActionModel::Reject(_) => before.push(
                actions.last(),
            ),
            _ => before,
        }
    }
}

/// How many failures the actions count.
pub open spec fn task_failures_among(actions: Seq<TaskActionModel>) -> nat
    decreases actions.len(),
{
    if actions.len() == 0 {
        0
    } else {
        task_failures_among(actions.drop_last()) + if actions.last()
            == TaskActionModel::CountFailure {
            1nat
        } else {
            0nat
        }
    }
}

/// The publications that messages make, in order.
pub open spec fn publications_of(prefix: Seq<char>, qos: i32, messages: Seq<MessageModel>) -> Seq<
    PublicationModel,
> {
    messages.map_values(|message: MessageModel| publication_of(prefix, qos, message))
}

/// The answers to what the broker sent, in order.
pub open spec fn stream_actions_of(prefix: Seq<char>, received: Seq<(Seq<char>, Seq<char>)>) -> Seq<
    TaskActionModel,
> {
    received.map_values(|r: (Seq<char>, Seq<char>)| stream_action_of(prefix, r.0, r.1))
}

/// Over any series of inputs, the task publishes each message that it took from Matrix once, in
/// order; it learns what became of each publication before it takes the next; and it counts as
/// many failures as there were publications that were not delivered. It forwards or rejects each
/// message that it took from the broker once, in order.
pub proof fn law_task_serves_each_message_in_order(
    prefix: Seq<char>,
    qos: i32,
    inputs: Seq<TaskInputModel>,
)
    ensures
        ({
            let taken = task_taken(prefix, qos, inputs);
            let log = task_log(prefix, qos, inputs);
            &&& publications_among(log) == publications_of(
                prefix,
                qos,
                messages_from_matrix(taken),
            )
            &&& deliveries_to_broker(taken).len() + if task_state_after(prefix, qos, inputs)
                == TaskState::Publishing {
                1int
            } else {
                0int
            } == publications_among(log).len()
            &&& task_failures_among(log) == undelivered_among(deliveries_to_broker(taken))
            &&& answers_among(log) == stream_actions_of(prefix, received_from_broker(taken))
        }),
    decreases inputs.len(),
{
    if inputs.len() == 0 {
        assert(publications_of(prefix, qos, seq![]) =~= seq![]);
        assert(stream_actions_of(prefix, seq![]) =~= seq![]);
    } else {
        let init = inputs.drop_last();
        law_task_serves_each_message_in_order(prefix, qos, init);
        let state = task_state_after(prefix, qos, init);
        let taken = task_taken(prefix, qos, init);
        let log = task_log(prefix, qos, init);
        let messages = messages_from_matrix(taken);
        let deliveries = deliveries_to_broker(taken);
        let received = received_from_broker(taken);
        assert(taken.push(inputs.last()).drop_last() =~= taken);
        if let Some(action) = task_step_of(prefix, qos, state, inputs.last()).1 {
            assert(log.push(action).drop_last() =~= log);
        }
        match inputs.last() {
            TaskInputModel::Channel(Some(EventModel::MessageFromMatrix(message))) => {
                assert(publications_of(prefix, qos, messages.push(message)) =~= publications_of(
                    prefix,
                    qos,
                    messages,
                ).push(publication_of(prefix, qos, message)));
            },
            TaskInputModel::Published(delivery) => {
                assert(deliveries.push(delivery).drop_last() =~= deliveries);
            },
            TaskInputModel::Stream(Some(message)) => {
                assert(stream_actions_of(prefix, received.push(message)) =~= stream_actions_of(
                    prefix,
                    received,
                ).push(stream_action_of(prefix, message.0, message.1)));
            },
            _ => {},
        }
    }
}

/// An input that the task waits for is taken, so a series of such inputs is taken whole.
pub proof fn law_task_takes_what_it_waits_for(
    prefix: Seq<char>,
    qos: i32,
    inputs: Seq<TaskInputModel>,
)
    requires
        forall|i: int|
            0 <= i < inputs.len() ==> task_awaits(
                task_state_after(prefix, qos, #[trigger] inputs.take(i)),
                inputs[i],
            ),
    ensures
        task_taken(prefix, qos, inputs) == inputs,
    decreases inputs.len(),
{
    if inputs.len() > 0 {
        let init = inputs.drop_last();
        assert(inputs.take(inputs.len() - 1) =~= init);
        assert forall|i: int| 0 <= i < init.len() implies task_awaits(
            task_state_after(prefix, qos, #[trigger] init.take(i)),
            init[i],
        ) by {
            assert(inputs.take(i) =~= init.take(i));
        }
        law_task_takes_what_it_waits_for(prefix, qos, init);
        assert(init.push(inputs.last()) =~= inputs);
    }
}

/// There are exactly as many subscriptions as rooms. The one for a room stands where the room
/// stands, is to `<prefix>/<room ID>/send/text`, and has the given quality of service.
pub proof fn law_one_subscription_for_each_room(
    prefix: Seq<char>,
    rooms: Seq<Seq<char>>,
    qos: i32,
)
    ensures
        subscriptions_of(prefix, rooms, qos).len() == rooms.len(),
        forall|i: int|
            0 <= i < subscriptions_of(prefix, rooms, qos).len() ==> {
                let subscription = #[trigger] subscriptions_of(prefix, rooms, qos)[i];
                &&& subscription.topic == prefix + seq!['/'] + rooms[i] + "/send/text"@
                &&& subscription.qos == qos
            },
{
}

/// A new connection first makes the subscriptions, each once and in order; it is then counted as
/// a connection, and the connection counts as alive. Any other change is counted under its kind,
/// and the connection does not count as alive any more.
pub proof fn law_connection_change_has_its_actions(
    subscriptions: Seq<SubscriptionModel>,
    event: ConnectionEventType,
)
    ensures
        ({
            let actions = connection_actions_of(subscriptions, event);
            let n = if event == ConnectionEventType::Connected {
                subscriptions.len() as int
            } else {
                0
            };
            let alive = ReadinessConditions::MqttBrokerConnectionIsAlive;
            &&& actions.len() == n + 2
            &&& forall|i: int|
                0 <= i < n ==> #[trigger] actions[i] == ConnectionActionModel::Subscribe(
                    subscriptions[i],
                )
            &&& actions[n] == ConnectionActionModel::Count(ConnectionEventLables { event })
            &&& actions[n + 1] == ConnectionActionModel::Readiness(
                if event == ConnectionEventType::Connected {
                    ReadinessChange::Ready(alive)
                } else {
                    ReadinessChange::NotReady(alive)
                },
            )
        }),
{
}

/// The connection counts as alive exactly after a new connection.
pub proof fn law_connection_is_alive_when_it_is_up(event: ConnectionEventType)
    ensures
        readiness_of(event) == ReadinessChange::Ready(
            ReadinessConditions::MqttBrokerConnectionIsAlive,
        ) <==> event == ConnectionEventType::Connected,
        readiness_of(event) == ReadinessChange::NotReady(
            ReadinessConditions::MqttBrokerConnectionIsAlive,
        ) <==> event == ConnectionEventType::Disconnected || event == ConnectionEventType::Lost,
{
}

/// The message that a text makes has the text as its body, and goes to the room that the topic is
/// for; where there is no such room there is no message, for the same reason.
pub proof fn law_message_holds_the_whole_payload(
    prefix: Seq<char>,
    topic: Seq<char>,
    payload: Seq<char>,
)
    ensures
        route(prefix, topic) matches Ok(room) ==> {
            &&& message_of(prefix, topic, payload) matches Ok(message)
            &&& message.room == room
            &&& message.body == payload
        },
        route(prefix, topic) matches Err(e) ==> message_of(prefix, topic, payload) == Err::<
            MessageModel,
            RouteError,
        >(e),
{
}

/// A text on `<prefix>/<room ID>/send/text` makes a message for that room, with the text as its
/// body.
pub proof fn law_text_reaches_its_room(prefix: Seq<char>, room: Seq<char>, payload: Seq<char>)
    requires
        is_room_id(room),
    ensures
        message_of(prefix, prefix + seq!['/'] + room + "/send/text"@, payload) == Ok::<
            MessageModel,
            RouteError,
        >(MessageModel { room, body: payload }),
{
    law_text_topic_leads_to_its_room(prefix, room);
}

/// What is published for a message goes to `<prefix>/<room ID>`, holds the body of the message as
/// it is, and has the given quality of service.
pub proof fn law_publication_holds_the_message(prefix: Seq<char>, qos: i32, message: MessageModel)
    ensures
        publication_of(prefix, qos, message).topic == prefix + seq!['/'] + message.room,
        publication_of(prefix, qos, message).payload == message.body,
        publication_of(prefix, qos, message).qos == qos,
{
}

/// The task goes from the channel to the broker, over the publication if there is one to make,
/// waits for the next round, and begins anew; an exit event ends it, and what it does not wait
/// for leaves it where it is.
pub proof fn law_task_goes_step_by_step(
    prefix: Seq<char>,
    qos: i32,
    state: TaskState,
    input: TaskInputModel,
    message: MessageModel,
)
    ensures
        ({
            let next = task_step_of(prefix, qos, state, input).0;
            let from_matrix = TaskInputModel::Channel(Some(EventModel::MessageFromMatrix(message)));
            let from_mqtt = TaskInputModel::Channel(Some(EventModel::MessageFromMqtt(message)));
            &&& next == TaskState::Stopped <==> state == TaskState::Stopped || (state
                == TaskState::PollChannel && input == TaskInputModel::Channel(
                Some(EventModel::Exit),
            ))
            &&& state == TaskState::PollChannel ==> {
                &&& input == from_matrix ==> next == TaskState::Publishing
                &&& input == from_mqtt ==> next == TaskState::PollStream
                &&& input == TaskInputModel::Channel(None) ==> next == TaskState::PollStream
                &&& !(input is Channel) ==> next == TaskState::PollChannel
            }
            &&& state == TaskState::Publishing ==> if input is Published {
                next == TaskState::PollStream
            } else {
                next == TaskState::Publishing
            }
            &&& state == TaskState::PollStream ==> if input is Stream {
                next == TaskState::Waiting
            } else {
                next == TaskState::PollStream
            }
            &&& state == TaskState::Waiting ==> if input is Tick {
                next == TaskState::PollChannel
            } else {
                next == TaskState::Waiting
            }
        }),
{
}

/// The task publishes exactly when it takes a message of Matrix from the channel: that message, to
/// `<prefix>/<room ID>`. It forwards exactly what the broker sends for a room, counted as text of
/// that room, and rejects exactly what the broker sends for none, with the reason.
pub proof fn law_task_acts_on_what_it_gets(
    prefix: Seq<char>,
    qos: i32,
    state: TaskState,
    input: TaskInputModel,
    message: MessageModel,
    topic: Seq<char>,
    payload: Seq<char>,
)
    ensures
        ({
            let action = task_step_of(prefix, qos, state, input).1;
            let from_matrix = TaskInputModel::Channel(Some(EventModel::MessageFromMatrix(message)));
            let received = TaskInputModel::Stream(Some((topic, payload)));
            &&& state == TaskState::PollChannel && input == from_matrix ==> action == Some(
                TaskActionModel::Publish(
                    PublicationModel {
                        topic: prefix + seq!['/'] + message.room,
                        payload: message.body,
                        qos,
                    },
                ),
            )
            &&& state == TaskState::PollStream && input == received ==> match route(prefix, topic) {
                Ok(room) => action == Some(
                    TaskActionModel::Forward {
                        count: MessageEventLablesModel { kind: "text"@, room_id: room },
                        event: EventModel::MessageFromMqtt(MessageModel { room, body: payload }),
                    },
                ),
                Err(e) => action == Some(TaskActionModel::Reject(e)),
            }
            &&& action is Some && action->0 is Publish ==> state == TaskState::PollChannel
                && (input is Channel && input->Channel_0 is Some
                && input->Channel_0->0 is MessageFromMatrix)
            &&& action is Some && (action->0 is Forward || action->0 is Reject) ==> state
                == TaskState::PollStream && (input is Stream && input->Stream_0 is Some)
            &&& action == Some(TaskActionModel::CountFailure) <==> state == TaskState::Publishing
                && input == TaskInputModel::Published(Delivery::NotDelivered)
        }),
{
}

/// Until it takes the exit event, the task runs.
pub proof fn law_task_runs_until_the_exit(
    prefix: Seq<char>,
    qos: i32,
    inputs: Seq<TaskInputModel>,
)
    requires
        forall|i: int|
            0 <= i < inputs.len() ==> #[trigger] inputs[i] != TaskInputModel::Channel(
                Some(EventModel::Exit),
            ),
    ensures
        task_state_after(prefix, qos, inputs) != TaskState::Stopped,
    decreases inputs.len(),
{
    if inputs.len() > 0 {
        let init = inputs.drop_last();
        assert forall|i: int| 0 <= i < init.len() implies #[trigger] init[i]
            != TaskInputModel::Channel(Some(EventModel::Exit)) by {
            assert(init[i] == inputs[i]);
        }
        law_task_runs_until_the_exit(prefix, qos, init);
        assert(inputs.last() == inputs[inputs.len() - 1]);
    }
}

/// A model holds what the value holds, each part under its own name.
pub proof fn law_mqtt_models_keep_every_part(
    subscription: Subscription,
    labels: ConnectionEventLables,
    change: ReadinessChange,
    event: Event,
    delivery: Delivery,
    topic: String,
    payload: String,
)
    ensures
        subscription.deep_view().topic == subscription.topic@,
        subscription.deep_view().qos == subscription.qos,
        ConnectionAction::Subscribe(subscription).deep_view()
            matches ConnectionActionModel::Subscribe(s) && s.topic == subscription.topic@ && s.qos
            == subscription.qos,
        ConnectionAction::Count(labels).deep_view() == ConnectionActionModel::Count(labels),
        ConnectionAction::Readiness(change).deep_view() == ConnectionActionModel::Readiness(change),
        TaskInput::Channel(None).deep_view() == TaskInputModel::Channel(None),
        TaskInput::Channel(Some(event)).deep_view() == TaskInputModel::Channel(
            Some(event.deep_view()),
        ),
        TaskInput::Published(delivery).deep_view() == TaskInputModel::Published(delivery),
        TaskInput::Stream(None).deep_view() == TaskInputModel::Stream(None),
        TaskInput::Stream(Some((topic, payload))).deep_view() == TaskInputModel::Stream(
            Some((topic@, payload@)),
        ),
        TaskInput::Tick.deep_view() == TaskInputModel::Tick,
{
}

/// A model holds what the action of the task holds, each part under its own name.
pub proof fn law_task_models_keep_every_part(
    publication: Publication,
    count: MessageEventLables,
    event: Event,
    e: RouteError,
)
    ensures
        TaskAction::Publish(publication).deep_view() matches TaskActionModel::Publish(p) && p.topic
            == publication.topic@ && p.payload == publication.payload@ && p.qos == publication.qos,
        TaskAction::CountFailure.deep_view() == TaskActionModel::CountFailure,
        (TaskAction::Forward { count, event }).deep_view() matches TaskActionModel::Forward {
            count: c,
            event: v,
        } && c.kind == count.kind@ && c.room_id == count.room_id@ && v == event.deep_view(),
        TaskAction::Reject(e).deep_view() == TaskActionModel::Reject(e),
{
}

/// Whoever takes the connection settings from the command line gets the broker, the client ID,
/// the username and the password as they were given there, a clean session, a reconnection after
/// one second at first and five at most, and a sign of life every five seconds.
pub proof fn law_connection_settings_are_those_given(args: Cli, settings: ConnectionSettings)
    requires
        call_ensures(ConnectionSettings::new, (&args,), settings),
    ensures
        settings.server_uri@ == args.mqtt_broker@,
        settings.client_id@ == args.mqtt_client_id@,
        settings.user_name@ == args.mqtt_username@,
        settings.password@ == args.mqtt_password@,
        settings.clean_session,
        settings.min_reconnect_interval == 1,
        settings.max_reconnect_interval == 5,
        settings.keep_alive_interval == 5,
{
}

} // verus!

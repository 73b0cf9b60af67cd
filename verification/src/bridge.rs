//! The main loop, and what holds of the bridge as a whole.

use crate::cli::Cli;
use crate::event::{
    holds_after, is_delivery_failure, Delivery, Event, EventModel, Message, MessageModel,
    Publication, PublicationModel, ReadinessChange, ReadinessConditions,
};
use crate::ident::is_room_id;
use crate::matrix::{
    notice_of, send_step_of, watched_room, SendActionModel, SendInputModel, SendState,
};
use crate::metrics::{MessageEventLables, MessageEventLablesModel};
use crate::mqtt::metrics::ConnectionEventType;
use crate::mqtt::{
    channel_step_of, connection_readiness, handle_mqtt_message,
    law_one_subscription_for_each_room, message_of, publication_of, readiness_of, stream_action_of, subscriptions_of, task_step_of, SubscriptionModel,
    TaskActionModel, TaskInputModel, TaskState,
};
use crate::topic::{
    law_no_echo, law_text_topic_leads_to_its_room, room_topic, room_topic_of, route, text_topic_of,
    RouteError,
};
use vstd::prelude::*;

verus! {

/// What follows from a message in a Matrix room.
#[derive(Debug)]
pub enum MatrixAction {
    /// Count the message.
    Count(MessageEventLables),
    /// Publish the event.
    Publish(Publication),
    /// Mark the event as read.
    SendReadReceipt,
}

#[verifier::ext_equal]
pub enum MatrixActionModel {
    Count(MessageEventLablesModel),
    Publish(PublicationModel),
    SendReadReceipt,
}

impl DeepView for MatrixAction {
    type V = MatrixActionModel;

    open spec fn deep_view(&self) -> MatrixActionModel {
        match self {
            MatrixAction::Count(labels) => MatrixActionModel::Count(labels.deep_view()),
            MatrixAction::Publish(publication) => MatrixActionModel::Publish(
                publication.deep_view(),
            ),
            MatrixAction::SendReadReceipt => MatrixActionModel::SendReadReceipt,
        }
    }
}

/// What follows from a message in a Matrix room, in order: nothing, unless the bridge has
/// joined the room and watches it. `body` is the event as JSON; an event that could not be
/// serialised is not published.
pub open spec fn matrix_actions_of(
    prefix: Seq<char>,
    watched: Seq<Seq<char>>,
    qos: i32,
    joined: bool,
    room: Seq<char>,
    body: Option<Seq<char>>,
) -> Seq<MatrixActionModel> {
    let count = MatrixActionModel::Count(MessageEventLablesModel { room_id: room });
    if !joined || !watched.contains(room) {
        seq![]
    } else if let Some(body) = body {
        seq![
            count,
            MatrixActionModel::Publish(publication_of(prefix, qos, MessageModel { room, body })),
            MatrixActionModel::SendReadReceipt,
        ]
    } else {
        seq![count, MatrixActionModel::SendReadReceipt]
    }
}

/// Returns what follows from a message in a Matrix room, in order.
pub fn handle_matrix_message(args: &Cli, joined: bool, room: &str, body: Option<String>) -> (actions:
    Vec<MatrixAction>)
    ensures
        actions.deep_view() == matrix_actions_of(
            args.mqtt_topic_prefix@,
            args.matrix_rooms.deep_view(),
            args.mqtt_qos,
            joined,
            room@,
            body.deep_view(),
        ),
        joined && args.matrix_rooms.deep_view().contains(room@) ==> {
            &&& actions.len() == if body is Some {
                3int
            } else {
                2int
            }
            &&& actions@[0] matches MatrixAction::Count(labels) && labels.room_id@ == room@
            &&& body matches Some(text) ==> {
                &&& actions@[1] matches MatrixAction::Publish(publication)
                &&& publication.topic@ == args.mqtt_topic_prefix@ + seq!['/'] + room@
                &&& publication.payload@ == text@
                &&& publication.qos == args.mqtt_qos
            }
            &&& actions@.last() is SendReadReceipt
        },
        !joined || !args.matrix_rooms.deep_view().contains(room@) ==> actions.len() == 0,
{
    let mut actions: Vec<MatrixAction> = Vec::new();
    if joined && watched_room(&args.matrix_rooms, room).is_some() {
        actions.push(MatrixAction::Count(MessageEventLables::new(room.to_owned())));
        if let Some(body) = body {
            let topic = room_topic(args.mqtt_topic_prefix.as_str(), room);
            actions.push(
                MatrixAction::Publish(Publication { topic, payload: body, qos: args.mqtt_qos }),
            );
        }
        actions.push(MatrixAction::SendReadReceipt);
    }
    assert(actions.deep_view() =~= matrix_actions_of(
        args.mqtt_topic_prefix@,
        args.matrix_rooms.deep_view(),
        args.mqtt_qos,
        joined,
        room@,
        body.deep_view(),
    ));
    actions
}

/// What the main loop waits for.
#[derive(Debug)]
pub enum LoopInput {
    /// The user interrupts the program.
    CtrlC,
    /// The channel gave an event, or failed.
    Channel(Option<Event>),
    /// The connection to the broker has come up.
    Connected,
    /// The connection to the broker has gone.
    Disconnected,
    /// A message came from the broker.
    Message { topic: String, payload: String },
    /// What became of a message that was sent to its room.
    Sent(Delivery),
    /// Anything else came from the MQTT client.
    Other,
}

#[verifier::ext_equal]
pub enum LoopInputModel {
    CtrlC,
    Channel(Option<EventModel>),
    Connected,
    Disconnected,
    Message { topic: Seq<char>, payload: Seq<char> },
    Sent(Delivery),
    Other,
}

impl DeepView for LoopInput {
    type V = LoopInputModel;

    open spec fn deep_view(&self) -> LoopInputModel {
        match self {
            LoopInput::CtrlC => LoopInputModel::CtrlC,
            LoopInput::Channel(event) => LoopInputModel::Channel(event.deep_view()),
            LoopInput::Connected => LoopInputModel::Connected,
            LoopInput::Disconnected => LoopInputModel::Disconnected,
            LoopInput::Message { topic, payload } => LoopInputModel::Message {
                topic: topic@,
                payload: payload@,
            },
            LoopInput::Sent(delivery) => LoopInputModel::Sent(*delivery),
            LoopInput::Other => LoopInputModel::Other,
        }
    }
}

/// What the main loop does.
#[derive(Debug)]
pub enum LoopAction {
    /// Put an exit event on the channel.
    RequestExit,
    /// Leave the loop.
    Stop,
    /// Change a readiness condition.
    Readiness(ReadinessChange),
    /// Send the body to the room as an `m.text` message.
    SendText(Message),
    /// Count a delivery failure.
    CountFailure,
    /// Report that the message is for no room.
    Reject(RouteError),
    /// Go on.
    Continue,
}

#[verifier::ext_equal]
pub enum LoopActionModel {
    RequestExit,
    Stop,
    Readiness(ReadinessChange),
    SendText(MessageModel),
    CountFailure,
    Reject(RouteError),
    Continue,
}

impl DeepView for LoopAction {
    type V = LoopActionModel;

    open spec fn deep_view(&self) -> LoopActionModel {
        match self {
            LoopAction::RequestExit => LoopActionModel::RequestExit,
            LoopAction::Stop => LoopActionModel::Stop,
            LoopAction::Readiness(change) => LoopActionModel::Readiness(*change),
            LoopAction::SendText(message) => LoopActionModel::SendText(message.deep_view()),
            LoopAction::CountFailure => LoopActionModel::CountFailure,
            LoopAction::Reject(e) => LoopActionModel::Reject(*e),
            LoopAction::Continue => LoopActionModel::Continue,
        }
    }
}

/// What the main loop does with what it gets.
pub open spec fn loop_action_of(prefix: Seq<char>, input: LoopInputModel) -> LoopActionModel {
    match input {
        LoopInputModel::CtrlC => LoopActionModel::RequestExit,
        LoopInputModel::Channel(Some(EventModel::Exit)) => LoopActionModel::Stop,
        LoopInputModel::Channel(_) => LoopActionModel::Continue,
        LoopInputModel::Connected => LoopActionModel::Readiness(
            readiness_of(ConnectionEventType::Connected),
        ),
        LoopInputModel::Disconnected => LoopActionModel::Readiness(
            readiness_of(ConnectionEventType::Disconnected),
        ),
        LoopInputModel::Message { topic, payload } => match message_of(prefix, topic, payload) {
            Ok(message) => LoopActionModel::SendText(message),
            Err(e) => LoopActionModel::Reject(e),
        },
        LoopInputModel::Sent(delivery) => if delivery == Delivery::NotDelivered {
            LoopActionModel::CountFailure
        } else {
            LoopActionModel::Continue
        },
        LoopInputModel::Other => LoopActionModel::Continue,
    }
}

/// Decides what the main loop does with what it gets.
pub fn loop_action(args: &Cli, input: LoopInput) -> (action: LoopAction)
    ensures
        action.deep_view() == loop_action_of(args.mqtt_topic_prefix@, input.deep_view()),
{
    match input {
        LoopInput::CtrlC => LoopAction::RequestExit,
        LoopInput::Channel(Some(Event::Exit)) => LoopAction::Stop,
        LoopInput::Channel(_) => LoopAction::Continue,
        LoopInput::Connected => LoopAction::Readiness(
            connection_readiness(ConnectionEventType::Connected),
        ),
        LoopInput::Disconnected => LoopAction::Readiness(
            connection_readiness(ConnectionEventType::Disconnected),
        ),
        LoopInput::Message { topic, payload } => {
            match handle_mqtt_message(args.mqtt_topic_prefix.as_str(), topic.as_str(), payload) {
                Ok(message) => LoopAction::SendText(message),
                Err(e) => LoopAction::Reject(e),
            }
        },
        LoopInput::Sent(delivery) => if is_delivery_failure(delivery) {
            LoopAction::CountFailure
        } else {
            LoopAction::Continue
        },
        LoopInput::Other => LoopAction::Continue,
    }
}

/// Text that is published to `<prefix>/<room ID>/send/text` is sent to the room as an `m.text`
/// message, by the main loop and by the tasks alike.
pub proof fn law_text_is_sent(prefix: Seq<char>, room: Seq<char>, text: Seq<char>)
    requires
        is_room_id(room),
    ensures
        ({
            let topic = text_topic_of(prefix, room);
            let message = MessageModel { room, body: text };
            &&& loop_action_of(prefix, LoopInputModel::Message { topic, payload: text })
                == LoopActionModel::SendText(message)
            &&& stream_action_of(prefix, topic, text) matches TaskActionModel::Forward {
                event,
                ..
            } && send_step_of(SendState::Receiving, SendInputModel::Channel(Some(event))).1 == Some(
                SendActionModel::SendText(message),
            )
        }),
{
    law_text_topic_leads_to_its_room(prefix, room);
}

/// For every room that the bridge watches there is a subscription to the topic that takes its
/// text, and there is no other.
pub proof fn law_subscribed_to_each_room(
    prefix: Seq<char>,
    rooms: Seq<Seq<char>>,
    qos: i32,
    topic: Seq<char>,
)
    ensures
        subscriptions_of(prefix, rooms, qos).contains(SubscriptionModel { topic, qos })
            <==> exists|room: Seq<char>|
            rooms.contains(room) && topic == #[trigger] text_topic_of(prefix, room),
        forall|subscription: SubscriptionModel| #[trigger]
            subscriptions_of(prefix, rooms, qos).contains(subscription) ==> subscription.qos == qos
                && exists|room: Seq<char>|
                rooms.contains(room) && subscription.topic == #[trigger] (prefix + seq!['/'] + room)
                    + "/send/text"@,
        subscriptions_of(prefix, rooms, qos).len() == rooms.len(),
{
    let all = subscriptions_of(prefix, rooms, qos);
    let wanted = SubscriptionModel { topic, qos };
    if all.contains(wanted) {
        let i = choose|i: int| 0 <= i < all.len() && all[i] == wanted;
        assert(rooms.contains(rooms[i]) && topic == text_topic_of(prefix, rooms[i]));
    }
    if exists|room: Seq<char>|
        rooms.contains(room) && topic == #[trigger] text_topic_of(prefix, room) {
        let room = choose|room: Seq<char>|
            rooms.contains(room) && topic == #[trigger] text_topic_of(prefix, room);
        let i = choose|i: int| 0 <= i < rooms.len() && rooms[i] == room;
        assert(all[i] == wanted);
    }
    law_one_subscription_for_each_room(prefix, rooms, qos);
    assert forall|subscription: SubscriptionModel| #[trigger]
        all.contains(subscription) implies subscription.qos == qos && exists|room: Seq<char>|
        rooms.contains(room) && subscription.topic == #[trigger] (prefix + seq!['/'] + room)
            + "/send/text"@ by {
        let i = choose|i: int| 0 <= i < all.len() && all[i] == subscription;
        assert(rooms.contains(rooms[i]));
        assert(subscription.topic == (prefix + seq!['/'] + rooms[i]) + "/send/text"@);
    }
}

/// Events of a room that the bridge has joined and watches are published to
/// `<prefix>/<room ID>`, by the handler of the main program and by the tasks alike.
pub proof fn law_events_are_published(
    prefix: Seq<char>,
    watched: Seq<Seq<char>>,
    qos: i32,
    room: Seq<char>,
    body: Seq<char>,
)
    requires
        watched.contains(room),
    ensures
        ({
            let publication = PublicationModel {
                topic: room_topic_of(prefix, room),
                payload: body,
                qos,
            };
            &&& matrix_actions_of(prefix, watched, qos, true, room, Some(body)).contains(
                MatrixActionModel::Publish(publication),
            )
            &&& notice_of(watched, true, room, Some(body)) matches Some(notice) && channel_step_of(
                prefix,
                qos,
                notice.event,
            ).1 == Some(TaskActionModel::Publish(publication))
        }),
{
    let actions = matrix_actions_of(prefix, watched, qos, true, room, Some(body));
    assert(actions[1] is Publish);
}

/// Nothing follows from a message in a room that the bridge has not joined or does not watch.
pub proof fn law_other_rooms_are_left_alone(
    prefix: Seq<char>,
    watched: Seq<Seq<char>>,
    qos: i32,
    joined: bool,
    room: Seq<char>,
    body: Option<Seq<char>>,
)
    requires
        !joined || !watched.contains(room),
    ensures
        matrix_actions_of(prefix, watched, qos, joined, room, body) == Seq::<
            MatrixActionModel,
        >::empty(),
        notice_of(watched, joined, room, body) is None,
{
}

/// Every message that is handled is counted once and marked as read once, whether or not it
/// can be published.
pub proof fn law_counted_and_marked_as_read_once(
    prefix: Seq<char>,
    watched: Seq<Seq<char>>,
    qos: i32,
    room: Seq<char>,
    body: Option<Seq<char>>,
)
    requires
        watched.contains(room),
    ensures
        ({
            let actions = matrix_actions_of(prefix, watched, qos, true, room, body);
            let count = MatrixActionModel::Count(MessageEventLablesModel { room_id: room });
            &&& actions.first() == count
            &&& actions.last() == MatrixActionModel::SendReadReceipt
            &&& forall|i: int|
                0 < i < actions.len() - 1 ==> #[trigger] actions[i] is Publish && body is Some
        }),
{
}

/// What is published for a message of any room is on no topic that the bridge is subscribed to.
pub proof fn law_publications_are_not_heard(
    prefix: Seq<char>,
    watched: Seq<Seq<char>>,
    qos: i32,
    message: MessageModel,
)
    requires
        forall|i: int| 0 <= i < watched.len() ==> is_room_id(#[trigger] watched[i]),
        is_room_id(message.room),
    ensures
        forall|i: int|
            0 <= i < subscriptions_of(prefix, watched, qos).len() ==> publication_of(
                prefix,
                qos,
                message,
            ).topic != (#[trigger] subscriptions_of(prefix, watched, qos)[i]).topic,
        forall|i: int|
            0 <= i < watched.len() ==> publication_of(prefix, qos, message).topic != (
            #[trigger] subscriptions_of(prefix, watched, qos)[i]).topic,
{
    law_one_subscription_for_each_room(prefix, watched, qos);
    assert forall|i: int| 0 <= i < watched.len() implies publication_of(
        prefix,
        qos,
        message,
    ).topic != (#[trigger] subscriptions_of(prefix, watched, qos)[i]).topic by {
        assert(is_room_id(watched[i]));
        law_no_echo(prefix, message.room, watched[i]);
    }
}

/// No publication of the bridge, be it of the handler of the main program or of the MQTT task,
/// is on a topic that the bridge is subscribed to. Every room of a message is a room ID.
pub proof fn law_bridge_does_not_hear_itself(
    prefix: Seq<char>,
    watched: Seq<Seq<char>>,
    qos: i32,
    publication: PublicationModel,
)
    requires
        forall|i: int| 0 <= i < watched.len() ==> is_room_id(#[trigger] watched[i]),
        ({
            ||| exists|joined: bool, room: Seq<char>, body: Option<Seq<char>>|
                (#[trigger] matrix_actions_of(prefix, watched, qos, joined, room, body)).contains(
                    MatrixActionModel::Publish(publication),
                )
            ||| exists|state: TaskState, message: MessageModel|
                is_room_id(message.room) && (#[trigger] task_step_of(
                    prefix,
                    qos,
                    state,
                    TaskInputModel::Channel(Some(EventModel::MessageFromMatrix(message))),
                )).1 == Some(TaskActionModel::Publish(publication))
        }),
    ensures
        forall|i: int|
            0 <= i < subscriptions_of(prefix, watched, qos).len() ==> publication.topic != (
            #[trigger] subscriptions_of(prefix, watched, qos)[i]).topic,
        forall|i: int|
            0 <= i < watched.len() ==> publication.topic != (
            #[trigger] subscriptions_of(prefix, watched, qos)[i]).topic,
{
    law_one_subscription_for_each_room(prefix, watched, qos);
    if exists|joined: bool, room: Seq<char>, body: Option<Seq<char>>|
        (#[trigger] matrix_actions_of(prefix, watched, qos, joined, room, body)).contains(
            MatrixActionModel::Publish(publication),
        ) {
        let (joined, room, body) = choose|joined: bool, room: Seq<char>, body: Option<Seq<char>>|
            (#[trigger] matrix_actions_of(prefix, watched, qos, joined, room, body)).contains(
                MatrixActionModel::Publish(publication),
            );
        let k = choose|k: int| 0 <= k < watched.len() && watched[k] == room;
        assert(is_room_id(watched[k]));
        law_publications_are_not_heard(
            prefix,
            watched,
            qos,
            MessageModel { room, body: body->0 },
        );
    } else {
        let (state, message) = choose|state: TaskState, message: MessageModel|
            is_room_id(message.room) && (#[trigger] task_step_of(
                prefix,
                qos,
                state,
                TaskInputModel::Channel(Some(EventModel::MessageFromMatrix(message))),
            )).1 == Some(TaskActionModel::Publish(publication));
        law_publications_are_not_heard(prefix, watched, qos, message);
    }
}

/// An interrupt asks for the exit, and only the exit event ends the loop.
pub proof fn law_loop_ends_on_exit_alone(prefix: Seq<char>, input: LoopInputModel)
    ensures
        loop_action_of(prefix, input) == LoopActionModel::RequestExit <==> input
            == LoopInputModel::CtrlC,
        loop_action_of(prefix, input) == LoopActionModel::Stop <==> input
            == LoopInputModel::Channel(Some(EventModel::Exit)),
{
}

/// The main loop counts a failure exactly when a message that the client took was not
/// delivered.
pub proof fn law_loop_counts_undelivered_messages(prefix: Seq<char>, input: LoopInputModel)
    ensures
        loop_action_of(prefix, input) == LoopActionModel::CountFailure <==> input
            == LoopInputModel::Sent(Delivery::NotDelivered),
{
}

/// The changes of readiness that the main loop makes.
pub open spec fn loop_changes(prefix: Seq<char>, inputs: Seq<LoopInputModel>) -> Seq<
    ReadinessChange,
>
    decreases inputs.len(),
{
    if inputs.len() == 0 {
        seq![]
    } else {
        let before = loop_changes(prefix, inputs.drop_last());
        match loop_action_of(prefix, inputs.last()) {
            LoopActionModel::Readiness(change) => before.push(change),
            _ => before,
        }
    }
}

/// Whether the last news of the connection is that it has come up.
pub open spec fn connected_after(inputs: Seq<LoopInputModel>) -> bool
    decreases inputs.len(),
{
    if inputs.len() == 0 {
        false
    } else {
        match inputs.last() {
            LoopInputModel::Connected => true,
            LoopInputModel::Disconnected => false,
            _ => connected_after(inputs.drop_last()),
        }
    }
}

/// The bridge counts as connected to the broker exactly while the connection is up.
pub proof fn law_readiness_follows_the_connection(prefix: Seq<char>, inputs: Seq<LoopInputModel>)
    ensures
        holds_after(
            loop_changes(prefix, inputs),
            ReadinessConditions::MqttBrokerConnectionIsAlive,
        ) == connected_after(inputs),
    decreases inputs.len(),
{
    if inputs.len() > 0 {
        law_readiness_follows_the_connection(prefix, inputs.drop_last());
        let before = loop_changes(prefix, inputs.drop_last());
        let change = readiness_of(ConnectionEventType::Connected);
        assert(before.push(change).drop_last() =~= before);
    }
}

/// A message in a joined and watched room has three actions if it has a body, and two if it has
/// none: it is counted under its own room; the body, if there is one, is published once, as it is
/// and to `<prefix>/<room ID>` of its own room alone; and it is marked as read. A message in any
/// other room has no action.
pub proof fn law_matrix_message_has_its_actions(
    prefix: Seq<char>,
    watched: Seq<Seq<char>>,
    qos: i32,
    joined: bool,
    room: Seq<char>,
    body: Option<Seq<char>>,
)
    ensures
        ({
            let actions = matrix_actions_of(prefix, watched, qos, joined, room, body);
            let handled = joined && exists|i: int|
                0 <= i < watched.len() && #[trigger] watched[i] == room;
            &&& !handled ==> actions.len() == 0
            &&& handled ==> {
                &&& actions.len() == if body is Some {
                    3int
                } else {
                    2int
                }
                &&& actions[0] matches MatrixActionModel::Count(labels) && labels.room_id == room
                &&& body matches Some(text) ==> actions[1] matches MatrixActionModel::Publish(
                    publication,
                ) && publication.topic == prefix + seq!['/'] + room && publication.payload == text
                    && publication.qos == qos
                &&& actions[actions.len() - 1] == MatrixActionModel::SendReadReceipt
            }
        }),
{
}

/// The publications among the actions.
pub open spec fn publications_within(actions: Seq<MatrixActionModel>) -> Seq<PublicationModel>
    decreases actions.len(),
{
    if actions.len() == 0 {
        seq![]
    } else {
        let before = publications_within(actions.drop_last());
        match actions.last() {
            MatrixActionModel::Publish(publication) => before.push(publication),
            _ => before,
        }
    }
}

/// One message of a room is published once, to the topic of its room, if it has a body and is
/// handled at all, and there is no other publication.
pub proof fn law_matrix_message_is_published_once(
    prefix: Seq<char>,
    watched: Seq<Seq<char>>,
    qos: i32,
    joined: bool,
    room: Seq<char>,
    body: Option<Seq<char>>,
)
    ensures
        ({
            let actions = matrix_actions_of(prefix, watched, qos, joined, room, body);
            publications_within(actions) == if joined && watched.contains(room) && body is Some {
                seq![
                    PublicationModel {
                        topic: prefix + seq!['/'] + room,
                        payload: body->0,
                        qos,
                    },
                ]
            } else {
                Seq::<PublicationModel>::empty()
            }
        }),
{
    reveal_with_fuel(publications_within, 4);
    let actions = matrix_actions_of(prefix, watched, qos, joined, room, body);
    law_matrix_message_has_its_actions(prefix, watched, qos, joined, room, body);
    if joined && watched.contains(room) {
        let n = actions.len() as int;
        assert(actions.drop_last().last() == actions[n - 2]);
        if body is Some {
            assert(actions.drop_last().drop_last().last() == actions[0]);
        }
    }
}

/// What the main loop does with each thing that it gets. A text goes, as it is, to the room that
/// its topic is for, and is rejected with the reason if there is none.
pub proof fn law_loop_acts_on_what_it_gets(
    prefix: Seq<char>,
    event: Option<EventModel>,
    topic: Seq<char>,
    payload: Seq<char>,
    delivery: Delivery,
)
    ensures
        loop_action_of(prefix, LoopInputModel::CtrlC) == LoopActionModel::RequestExit,
        loop_action_of(prefix, LoopInputModel::Channel(event)) == if event == Some(
            EventModel::Exit,
        ) {
            LoopActionModel::Stop
        } else {
            LoopActionModel::Continue
        },
        loop_action_of(prefix, LoopInputModel::Connected) == LoopActionModel::Readiness(
            ReadinessChange::Ready(ReadinessConditions::MqttBrokerConnectionIsAlive),
        ),
        loop_action_of(prefix, LoopInputModel::Disconnected) == LoopActionModel::Readiness(
            ReadinessChange::NotReady(ReadinessConditions::MqttBrokerConnectionIsAlive),
        ),
        match route(prefix, topic) {
            Ok(room) => loop_action_of(prefix, LoopInputModel::Message { topic, payload })
                == LoopActionModel::SendText(MessageModel { room, body: payload }),
            Err(e) => loop_action_of(prefix, LoopInputModel::Message { topic, payload })
                == LoopActionModel::Reject(e),
        },
        loop_action_of(prefix, LoopInputModel::Sent(delivery)) == if delivery
            == Delivery::NotDelivered {
            LoopActionModel::CountFailure
        } else {
            LoopActionModel::Continue
        },
        loop_action_of(prefix, LoopInputModel::Other) == LoopActionModel::Continue,
{
}

/// A model holds what the value holds, each part under its own name.
pub proof fn law_loop_models_keep_every_part(
    labels: MessageEventLables,
    publication: Publication,
    event: Event,
    topic: String,
    payload: String,
    delivery: Delivery,
)
    ensures
        MatrixAction::Count(labels).deep_view() matches MatrixActionModel::Count(l) && l.room_id
            == labels.room_id@,
        MatrixAction::Publish(publication).deep_view() matches MatrixActionModel::Publish(p)
            && p.topic == publication.topic@ && p.payload == publication.payload@ && p.qos
            == publication.qos,
        MatrixAction::SendReadReceipt.deep_view() == MatrixActionModel::SendReadReceipt,
        LoopInput::CtrlC.deep_view() == LoopInputModel::CtrlC,
        LoopInput::Channel(None).deep_view() == LoopInputModel::Channel(None),
        LoopInput::Channel(Some(event)).deep_view() == LoopInputModel::Channel(
            Some(event.deep_view()),
        ),
        LoopInput::Connected.deep_view() == LoopInputModel::Connected,
        LoopInput::Disconnected.deep_view() == LoopInputModel::Disconnected,
        (LoopInput::Message { topic, payload }).deep_view() == (LoopInputModel::Message {
            topic: topic@,
            payload: payload@,
        }),
        LoopInput::Sent(delivery).deep_view() == LoopInputModel::Sent(delivery),
        LoopInput::Other.deep_view() == LoopInputModel::Other,
{
}

/// A model holds what the action of the loop holds, each part under its own name.
pub proof fn law_loop_action_models_keep_every_part(
    change: ReadinessChange,
    message: Message,
    e: RouteError,
)
    ensures
        LoopAction::RequestExit.deep_view() == LoopActionModel::RequestExit,
        LoopAction::Stop.deep_view() == LoopActionModel::Stop,
        LoopAction::Readiness(change).deep_view() == LoopActionModel::Readiness(change),
        LoopAction::SendText(message).deep_view() matches LoopActionModel::SendText(m) && m.room
            == message.room@ && m.body == message.body@,
        LoopAction::CountFailure.deep_view() == LoopActionModel::CountFailure,
        LoopAction::Reject(e).deep_view() == LoopActionModel::Reject(e),
        LoopAction::Continue.deep_view() == LoopActionModel::Continue,
{
}

} // verus!

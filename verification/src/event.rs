//! What passes between the two sides of the bridge.

use crate::ident::RoomId;
use vstd::prelude::*;

verus! {

/// A message of a room.
#[derive(Debug)]
pub struct Message {
    pub room: RoomId,
    pub body: String,
}

#[verifier::ext_equal]
pub struct MessageModel {
    pub room: Seq<char>,
    pub body: Seq<char>,
}

impl DeepView for Message {
    type V = MessageModel;

    open spec fn deep_view(&self) -> MessageModel {
        MessageModel { room: self.room@, body: self.body@ }
    }
}

impl Clone for Message {
    fn clone(&self) -> (r: Self)
        ensures
            r.deep_view() == self.deep_view(),
    {
        Message { room: self.room.clone(), body: self.body.clone() }
    }
}

/// An event on the channel that joins the tasks of the bridge.
#[derive(Debug)]
pub enum Event {
    /// The program is to end.
    Exit,
    /// A message came from Matrix.
    MessageFromMatrix(Message),
    /// A message came from the broker.
    MessageFromMqtt(Message),
}

#[verifier::ext_equal]
pub enum EventModel {
    Exit,
    MessageFromMatrix(MessageModel),
    MessageFromMqtt(MessageModel),
}

impl DeepView for Event {
    type V = EventModel;

    open spec fn deep_view(&self) -> EventModel {
        match self {
            Event::Exit => EventModel::Exit,
            Event::MessageFromMatrix(m) => EventModel::MessageFromMatrix(m.deep_view()),
            Event::MessageFromMqtt(m) => EventModel::MessageFromMqtt(m.deep_view()),
        }
    }
}

impl Clone for Event {
    fn clone(&self) -> (r: Self)
        ensures
            r.deep_view() == self.deep_view(),
    {
        match self {
            Event::Exit => Event::Exit,
            Event::MessageFromMatrix(m) => Event::MessageFromMatrix(m.clone()),
            Event::MessageFromMqtt(m) => Event::MessageFromMqtt(m.clone()),
        }
    }
}

/// A message for the broker.
#[derive(Debug, PartialEq, Eq)]
pub struct Publication {
    pub topic: String,
    pub payload: String,
    pub qos: i32,
}

#[verifier::ext_equal]
pub struct PublicationModel {
    pub topic: Seq<char>,
    pub payload: Seq<char>,
    pub qos: i32,
}

impl DeepView for Publication {
    type V = PublicationModel;

    open spec fn deep_view(&self) -> PublicationModel {
        PublicationModel { topic: self.topic@, payload: self.payload@, qos: self.qos }
    }
}

/// A condition that must hold for the bridge to be ready.
#[derive(Debug, Clone, Copy, PartialEq, Eq, Hash, Structural)]
pub enum ReadinessConditions {
    MatrixLoginAndInitialSyncComplete,
    MqttBrokerConnectionIsAlive,
}

/// A change of a readiness condition.
#[derive(Debug, Clone, Copy, PartialEq, Eq, Structural)]
pub enum ReadinessChange {
    Ready(ReadinessConditions),
    NotReady(ReadinessConditions),
}

/// What became of a message that was handed to a client.
#[derive(Debug, Clone, Copy, PartialEq, Eq, Structural)]
pub enum Delivery {
    /// The client delivered it.
    Delivered,
    /// The client took it, and could not deliver it.
    NotDelivered,
    /// The client did not take it.
    NotQueued,
}

/// Tells whether an outcome counts as a delivery failure: only a message that the client took
/// and could not deliver does.
pub fn is_delivery_failure(delivery: Delivery) -> (r: bool)
    ensures
        r == (delivery == Delivery::NotDelivered),
{
    match delivery {
        Delivery::NotDelivered => true,
        Delivery::Delivered | Delivery::NotQueued => false,
    }
}

/// How many of the messages that a client took were not delivered.
pub open spec fn undelivered_among(deliveries: Seq<Delivery>) -> nat
    decreases deliveries.len(),
{
    if deliveries.len() == 0 {
        0
    } else {
        undelivered_among(deliveries.drop_last()) + if deliveries.last() == Delivery::NotDelivered {
            1nat
        } else {
            0nat
        }
    }
}

/// Whether a condition holds after a series of changes: none holds at first, and the last
/// change of the condition decides.
pub open spec fn holds_after(changes: Seq<ReadinessChange>, condition: ReadinessConditions) -> bool
    decreases changes.len(),
{
    if changes.len() == 0 {
        false
    } else if changes.last() == ReadinessChange::Ready(condition) {
        true
    } else if changes.last() == ReadinessChange::NotReady(condition) {
        false
    } else {
        holds_after(changes.drop_last(), condition)
    }
}

/// A model holds what the value holds, each part under its own name.
pub proof fn law_event_models_keep_every_part(message: Message, publication: Publication)
    ensures
        message.deep_view().room == message.room@,
        message.deep_view().body == message.body@,
        message.room.deep_view() == message.room@,
        publication.deep_view().topic == publication.topic@,
        publication.deep_view().payload == publication.payload@,
        publication.deep_view().qos == publication.qos,
        Event::Exit.deep_view() == EventModel::Exit,
        Event::MessageFromMatrix(message).deep_view() matches EventModel::MessageFromMatrix(m)
            && m.room == message.room@ && m.body == message.body@,
        Event::MessageFromMqtt(message).deep_view() matches EventModel::MessageFromMqtt(m)
            && m.room == message.room@ && m.body == message.body@,
{
}

/// A message that the client took and did not deliver is a failure, and nothing else is.
pub proof fn law_only_undelivered_messages_are_failures(delivery: Delivery, failure: bool)
    requires
        call_ensures(is_delivery_failure, (delivery,), failure),
    ensures
        failure <==> delivery != Delivery::Delivered && delivery != Delivery::NotQueued,
{
}

} // verus!

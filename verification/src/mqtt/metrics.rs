//! Labels of the metrics of the MQTT side.

use vstd::prelude::*;

verus! {

/// A change of the connection to the broker.
#[derive(Debug, Clone, Copy, PartialEq, Eq, Hash, Structural)]
pub enum ConnectionEventType {
    Connected,
    Disconnected,
    Lost,
}

/// Labels of a change of the connection to the broker.
#[derive(Debug, Clone, Copy, PartialEq, Eq, Hash, Structural)]
pub struct ConnectionEventLables {
    pub event: ConnectionEventType,
}

impl ConnectionEventLables {
    pub fn new(event: ConnectionEventType) -> (labels: Self)
        ensures
            labels == (ConnectionEventLables { event }),
    {
        Self { event }
    }
}

/// Labels of a message that was received from the broker.
#[derive(Debug, Clone, PartialEq, Eq, Hash)]
pub struct MessageEventLables {
    pub kind: String,
    pub room_id: String,
}

#[verifier::ext_equal]
pub struct MessageEventLablesModel {
    pub kind: Seq<char>,
    pub room_id: Seq<char>,
}

impl DeepView for MessageEventLables {
    type V = MessageEventLablesModel;

    open spec fn deep_view(&self) -> MessageEventLablesModel {
        MessageEventLablesModel { kind: self.kind@, room_id: self.room_id@ }
    }
}

impl MessageEventLables {
    pub fn new(kind: String, room_id: String) -> (labels: Self)
        ensures
            labels.kind == kind,
            labels.room_id == room_id,
            labels.deep_view() == (MessageEventLablesModel { kind: kind@, room_id: room_id@ }),
    {
        Self { kind, room_id }
    }
}

/// The model of the labels holds the kind and the room of the labels.
pub proof fn law_label_model_keeps_the_kind_and_the_room(labels: MessageEventLables)
    ensures
        labels.deep_view().kind == labels.kind@,
        labels.deep_view().room_id == labels.room_id@,
{
}

} // verus!

//! Labels of the metrics of the Matrix side.

use vstd::prelude::*;

verus! {

/// Labels of a message that was received from Matrix.
#[derive(Debug, Clone, PartialEq, Eq, Hash)]
pub struct MessageEventLables {
    pub room_id: String,
}

#[verifier::ext_equal]
pub struct MessageEventLablesModel {
    pub room_id: Seq<char>,
}

impl DeepView for MessageEventLables {
    type V = MessageEventLablesModel;

    open spec fn deep_view(&self) -> MessageEventLablesModel {
        MessageEventLablesModel { room_id: self.room_id@ }
    }
}

impl MessageEventLables {
    pub fn new(room_id: String) -> (labels: Self)
        ensures
            labels.room_id == room_id,
            labels.deep_view() == (MessageEventLablesModel { room_id: room_id@ }),
    {
        Self { room_id }
    }
}

/// The model of the labels holds the room of the labels.
pub proof fn law_label_model_keeps_the_room(labels: MessageEventLables)
    ensures
        labels.deep_view().room_id == labels.room_id@,
{
}

} // verus!

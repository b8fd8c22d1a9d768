//! A handler that passes each payload on under another topic.

use vstd::prelude::*;
use crate::json_message::{JsonMessage, MessageView};
use crate::processor::{
    routed, HandlerView, JsonTopicProcessor, Logic, Outcome, Processed, Table,
};
use crate::state::{SimpleState, StateValue};

verus! {

/// The logic of forwarding to `destination`: the one permitted outcome is a
/// single reply that carries the payload, unchanged, under `destination`.
pub open spec fn forwarding(destination: Seq<char>) -> Logic {
    |input: Seq<char>, outcome: Outcome|
        outcome == Ok::<Option<Seq<MessageView>>, Seq<char>>(
            Some(seq![MessageView { topic: destination, json: input }]),
        )
}

/// Simply forwards a message on the registered input topic to a given output
/// topic.
pub struct Forwarder {
    state: SimpleState,
    /// The topic we forward incoming messages to
    topic: String,
}

impl Forwarder {
    /// The topic that replies are sent to.
    pub closed spec fn destination(&self) -> Seq<char> {
        self.topic@
    }

    /// Creates a running handler which forwards all payloads it receives to
    /// the given `topic` as the processing result.
    pub fn new(topic: String) -> (f: Self)
        ensures
            f.destination() == topic@,
            f.state_value() == StateValue::Running,
    {
        Self { state: SimpleState::default(), topic }
    }
}

impl JsonTopicProcessor for Forwarder {
    closed spec fn state_value(&self) -> StateValue {
        self.state@
    }

    open spec fn logic(&self) -> Logic {
        forwarding(self.destination())
    }

    fn process(&self, input: String) -> (r: Processed) {
        if !self.is_running() {
            return Ok(None);
        }
        let result = JsonMessage { topic: self.topic.clone(), json: input };
        let replies = vec![result];
        assert(crate::processor::replies_view(replies) =~= seq![
            MessageView { topic: self.destination(), json: input@ },
        ]);
        Ok(Some(replies))
    }

    fn state(&self) -> (s: &StateValue) {
        self.state.as_ref()
    }

    fn set_state(&mut self, new_state: StateValue)
        ensures
            final(self).destination() == old(self).destination(),
    {
        *self.state.as_mut() = new_state;
    }
}

/// A running forwarder to `destination`, registered under `source`, answers
/// every message on `source` with exactly one reply: the same payload,
/// character for character, under `destination`.
pub proof fn lemma_forwarder_round_trip(
    table: Table,
    source: Seq<char>,
    destination: Seq<char>,
    payload: Seq<char>,
    outcome: Outcome,
)
    ensures
        routed(
            table.insert(
                source,
                HandlerView { state: StateValue::Running, logic: forwarding(destination) },
            ),
            MessageView { topic: source, json: payload },
            outcome,
        ) <==> outcome == Ok::<Option<Seq<MessageView>>, Seq<char>>(
            Some(seq![MessageView { topic: destination, json: payload }]),
        ),
{
}

} // verus!

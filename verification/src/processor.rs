//! The handler contract and the dispatch table.

use vstd::prelude::*;
use crate::json_message::{JsonMessage, MessageView};
use crate::state::StateValue;

verus! {

/// Why a handler could not process a payload.
#[derive(Debug, Clone, PartialEq, Eq)]
pub struct ProcessError {
    /// A description of the failure.
    pub message: String,
}

/// What `process` hands back: a failure, nothing to do, or the replies.
pub type Processed = Result<Option<Vec<JsonMessage>>, ProcessError>;

/// The mathematical value of a [`Processed`]: a failure with its description,
/// nothing, or the sequence of reply messages.
pub type Outcome = Result<Option<Seq<MessageView>>, Seq<char>>;

/// The processing logic of a handler, as the relation between a payload and
/// the outcomes the handler may answer it with while running.
pub type Logic = spec_fn(Seq<char>, Outcome) -> bool;

/// The replies of a handler, message by message.
pub open spec fn replies_view(replies: Vec<JsonMessage>) -> Seq<MessageView> {
    Seq::new(replies@.len(), |i: int| replies@[i]@)
}

/// The value of an executable processing result.
pub open spec fn outcome_view(r: Processed) -> Outcome {
    match r {
        Ok(None) => Ok(None),
        Ok(Some(replies)) => Ok(Some(replies_view(replies))),
        Err(e) => Err(e.message@),
    }
}

/// What the dispatch table knows of a registered handler: its lifecycle state
/// and its processing logic.
pub ghost struct HandlerView {
    pub state: StateValue,
    pub logic: Logic,
}

/// The mathematical value of a dispatch table: each registered topic with its
/// one handler.
pub type Table = Map<Seq<char>, HandlerView>;

/// Processes the payloads of one topic, optionally returning messages in reply.
pub trait JsonTopicProcessor {
    /// The current lifecycle state. A verified implementation defines it as
    /// the state that it holds. The body given here stands in for an
    /// implementation that defines none: of such a handler the contracts of
    /// this trait are promises of its author, which nothing has checked.
    open spec fn state_value(&self) -> StateValue {
        arbitrary()
    }

    /// The processing logic. It does not depend on the lifecycle state. An
    /// implementation that does not define it permits every outcome.
    open spec fn logic(&self) -> Logic {
        |input: Seq<char>, outcome: Outcome| true
    }

    /// Processes `input`, the payload of a message on the topic this handler is
    /// registered for. A handler that is not running answers `Ok(None)`; a
    /// running one answers as its logic permits.
    fn process(&self, input: String) -> (r: Processed)
        ensures
            self.state_value() != StateValue::Running ==> outcome_view(r) == Ok::<
                Option<Seq<MessageView>>,
                Seq<char>,
            >(None),
            self.state_value() == StateValue::Running ==> (self.logic())(input@, outcome_view(r)),
    ;

    /// The current lifecycle state.
    fn state(&self) -> (s: &StateValue)
        ensures
            *s == self.state_value(),
    ;

    /// Replaces the lifecycle state and leaves the processing logic as it was.
    fn set_state(&mut self, new_state: StateValue)
        ensures
            final(self).state_value() == new_state,
            final(self).logic() == old(self).logic(),
    ;

    /// Whether the handler is running.
    fn is_running(&self) -> (b: bool)
        ensures
            b == (self.state_value() == StateValue::Running),
    {
        *self.state() == StateValue::Running
    }

    /// Whether the handler is halted: the negation of `is_running`.
    fn is_halted(&self) -> (b: bool)
        ensures
            b == (self.state_value() != StateValue::Running),
    {
        !self.is_running()
    }

    /// Halts the handler, whatever state it was in.
    fn halt(&mut self)
        ensures
            final(self).state_value() == StateValue::Halted,
            final(self).logic() == old(self).logic(),
    {
        self.set_state(StateValue::Halted);
    }

    /// Resumes the handler, whatever state it was in.
    fn resume(&mut self)
        ensures
            final(self).state_value() == StateValue::Running,
            final(self).logic() == old(self).logic(),
    {
        self.set_state(StateValue::Running);
    }
}

/// The table after the handler under `topic`, if there is one, was put into
/// `state`: every other registration, and the handler's logic, stay.
pub open spec fn with_state(table: Table, topic: Seq<char>, state: StateValue) -> Table {
    if table.contains_key(topic) {
        table.insert(topic, HandlerView { state, logic: table[topic].logic })
    } else {
        table
    }
}

/// Whether `outcome` is an answer of `table` to `message`: what the handler
/// registered for the message's topic permits for its payload if that handler
/// is running, and nothing at all otherwise.
pub open spec fn routed(table: Table, message: MessageView, outcome: Outcome) -> bool {
    if table.contains_key(message.topic) && table[message.topic].state == StateValue::Running {
        (table[message.topic].logic)(message.json, outcome)
    } else {
        outcome == Ok::<Option<Seq<MessageView>>, Seq<char>>(None)
    }
}

/// One registration: a topic and the handler that the table owns for it.
/// The handler's type is a parameter, so that building an entry moves the
/// boxed handler as it is.
struct Entry<H> {
    topic: String,
    handler: H,
}

type Slot = Entry<Box<dyn JsonTopicProcessor>>;

spec fn entry_view(e: Slot) -> HandlerView {
    HandlerView { state: e.handler.state_value(), logic: e.handler.logic() }
}

spec fn has_topic(entries: Seq<Slot>, topic: Seq<char>) -> bool {
    exists|i: int| 0 <= i < entries.len() && #[trigger] entries[i].topic@ == topic
}

spec fn index_of(entries: Seq<Slot>, topic: Seq<char>) -> int {
    choose|i: int| 0 <= i < entries.len() && #[trigger] entries[i].topic@ == topic
}

spec fn unique_topics(entries: Seq<Slot>) -> bool {
    forall|i: int, j: int|
        0 <= i < j < entries.len() ==> #[trigger] entries[i].topic@ != #[trigger] entries[j].topic@
}

spec fn table_of(entries: Seq<Slot>) -> Table {
    Map::new(
        |topic: Seq<char>| has_topic(entries, topic),
        |topic: Seq<char>| entry_view(entries[index_of(entries, topic)]),
    )
}

proof fn lemma_index_of(entries: Seq<Slot>, i: int)
    requires
        unique_topics(entries),
        0 <= i < entries.len(),
    ensures
        has_topic(entries, entries[i].topic@),
        index_of(entries, entries[i].topic@) == i,
        table_of(entries)[entries[i].topic@] == entry_view(entries[i]),
{
    let j = index_of(entries, entries[i].topic@);
    assert(0 <= j < entries.len() && entries[j].topic@ == entries[i].topic@);
}

/// Replacing the handler at `i` under the same topic changes the table at that
/// topic alone.
proof fn lemma_update(entries: Seq<Slot>, i: int, e: Slot)
    requires
        unique_topics(entries),
        0 <= i < entries.len(),
        e.topic@ == entries[i].topic@,
    ensures
        unique_topics(entries.update(i, e)),
        table_of(entries.update(i, e)) == table_of(entries).insert(e.topic@, entry_view(e)),
{
    let after = entries.update(i, e);
    assert forall|a: int, b: int| 0 <= a < b < after.len() implies #[trigger] after[a].topic@
        != #[trigger] after[b].topic@ by {
        assert(after[a].topic@ == entries[a].topic@);
        assert(after[b].topic@ == entries[b].topic@);
    }
    let want = table_of(entries).insert(e.topic@, entry_view(e));
    assert forall|t: Seq<char>| table_of(after).contains_key(t) == want.contains_key(t) by {
        if has_topic(after, t) {
            let k = index_of(after, t);
            assert(entries[k].topic@ == t);
        }
        if has_topic(entries, t) {
            let k = index_of(entries, t);
            assert(after[k].topic@ == t);
        }
        if t == e.topic@ {
            assert(after[i].topic@ == t);
        }
    }
    assert forall|t: Seq<char>| table_of(after).contains_key(t) implies table_of(after)[t]
        == want[t] by {
        let k = index_of(after, t);
        lemma_index_of(after, k);
        if k == i {
        } else {
            assert(entries[k].topic@ == t);
            lemma_index_of(entries, k);
        }
    }
    assert(table_of(after) =~= want);
}

/// Appending a handler under a topic that is not yet there adds that topic.
proof fn lemma_push(entries: Seq<Slot>, e: Slot)
    requires
        unique_topics(entries),
        !has_topic(entries, e.topic@),
    ensures
        unique_topics(entries.push(e)),
        table_of(entries.push(e)) == table_of(entries).insert(e.topic@, entry_view(e)),
{
    let after = entries.push(e);
    let n = entries.len() as int;
    assert forall|a: int, b: int| 0 <= a < b < after.len() implies #[trigger] after[a].topic@
        != #[trigger] after[b].topic@ by {
        assert(after[a].topic@ == entries[a].topic@);
        if b < n {
            assert(after[b].topic@ == entries[b].topic@);
        }
    }
    let want = table_of(entries).insert(e.topic@, entry_view(e));
    assert forall|t: Seq<char>| table_of(after).contains_key(t) == want.contains_key(t) by {
        if has_topic(after, t) {
            let k = index_of(after, t);
            if k < n {
                assert(entries[k].topic@ == t);
            }
        }
        if has_topic(entries, t) {
            let k = index_of(entries, t);
            assert(after[k].topic@ == t);
        }
        if t == e.topic@ {
            assert(after[n].topic@ == t);
        }
    }
    assert forall|t: Seq<char>| table_of(after).contains_key(t) implies table_of(after)[t]
        == want[t] by {
        let k = index_of(after, t);
        lemma_index_of(after, k);
        if k < n {
            assert(entries[k].topic@ == t);
            lemma_index_of(entries, k);
        }
    }
    assert(table_of(after) =~= want);
}

/// A manager for the handlers that have been registered via `register`. It
/// selects the handler for each incoming message by the message's topic.
pub struct TopicManager {
    entries: Vec<Slot>,
}

impl View for TopicManager {
    type V = Table;

    closed spec fn view(&self) -> Table {
        table_of(self.entries@)
    }
}

impl Default for TopicManager {
    /// A table without registrations.
    fn default() -> (m: Self)
        ensures
            m@ == Map::<Seq<char>, HandlerView>::empty(),
    {
        let m = Self { entries: Vec::new() };
        assert(m@ =~= Map::<Seq<char>, HandlerView>::empty());
        m
    }
}

/// Where the handler for `key` stands among `entries`, if one is there.
fn position(entries: &Vec<Slot>, key: &String) -> (r: Option<usize>)
    ensures
        match r {
            Some(i) => i < entries@.len() && entries@[i as int].topic@ == key@,
            None => !has_topic(entries@, key@),
        },
{
    let mut i: usize = 0;
    while i < entries.len()
        invariant
            i <= entries@.len(),
            forall|k: int| 0 <= k < i ==> #[trigger] entries@[k].topic@ != key@,
        decreases entries@.len() - i,
    {
        if entries[i].topic == *key {
            return Some(i);
        }
        i += 1;
    }
    None
}

impl TopicManager {
    #[verifier::type_invariant]
    spec fn well_formed(self) -> bool {
        unique_topics(self.entries@)
    }

    /// Puts the handler for `topic`, if there is one, into `state`, by the
    /// handler's own `halt` or `resume`.
    fn set_state(&mut self, topic: &str, state: StateValue)
        ensures
            final(self)@ == with_state(old(self)@, topic@, state),
    {
        proof {
            use_type_invariant(&*self);
        }
        let key = topic.to_owned();
        // The handler is changed in a list of its own, which is put back once
        // the change is made.
        let mut entries: Vec<Slot> = Vec::new();
        core::mem::swap(&mut self.entries, &mut entries);
        if let Some(i) = position(&entries, &key) {
            let ghost before = entries@;
            match state {
                StateValue::Halted => entries[i].handler.halt(),
                StateValue::Running => entries[i].handler.resume(),
            }
            proof {
                lemma_index_of(before, i as int);
                lemma_update(before, i as int, entries@[i as int]);
                assert(entries@ =~= before.update(i as int, entries@[i as int]));
            }
        }
        self.entries = entries;
    }

    /// Registers `handler` for `topic`. A handler already registered for that
    /// topic is replaced.
    pub fn register(&mut self, topic: &str, handler: Box<dyn JsonTopicProcessor>)
        ensures
            final(self)@ == old(self)@.insert(
                topic@,
                HandlerView { state: handler.state_value(), logic: handler.logic() },
            ),
    {
        proof {
            use_type_invariant(&*self);
        }
        let entry = Entry { topic: topic.to_owned(), handler };
        let mut entries: Vec<Slot> = Vec::new();
        core::mem::swap(&mut self.entries, &mut entries);
        match position(&entries, &entry.topic) {
            Some(i) => {
                proof {
                    lemma_update(entries@, i as int, entry);
                }
                entries.set(i, entry);
            },
            None => {
                proof {
                    lemma_push(entries@, entry);
                }
                entries.push(entry);
            },
        }
        self.entries = entries;
    }

    /// Halts the handler for `topic`. Without such a handler, or with one
    /// that is halted already, nothing changes.
    pub fn halt(&mut self, topic: &str)
        ensures
            final(self)@ == with_state(old(self)@, topic@, StateValue::Halted),
    {
        self.set_state(topic, StateValue::Halted);
    }

    /// Resumes the handler for `topic`. Without such a handler, or with one
    /// that is running already, nothing changes.
    pub fn resume(&mut self, topic: &str)
        ensures
            final(self)@ == with_state(old(self)@, topic@, StateValue::Running),
    {
        self.set_state(topic, StateValue::Running);
    }

    /// Hands the payload of `message` to the handler registered for its topic
    /// and returns that handler's result, an error included. Without such a
    /// handler, or with one that is halted, the result is `Ok(None)` and no
    /// handler is invoked.
    pub fn process(&self, message: JsonMessage) -> (r: Processed)
        ensures
            routed(self@, message@, outcome_view(r)),
    {
        proof {
            use_type_invariant(self);
        }
        if let Some(i) = position(&self.entries, &message.topic) {
            proof {
                lemma_index_of(self.entries@, i as int);
            }
            let handler = &self.entries[i].handler;
            if handler.is_running() {
                return handler.process(message.json);
            }
        }
        Ok(None)
    }
}

/// A message on a topic without a registered handler is answered with
/// nothing, whatever its payload.
pub proof fn lemma_unregistered_topic(table: Table, message: MessageView, outcome: Outcome)
    requires
        !table.contains_key(message.topic),
    ensures
        routed(table, message, outcome) <==> outcome == Ok::<Option<Seq<MessageView>>, Seq<char>>(
            None,
        ),
{
}

/// A message on the topic of a running handler is answered by that handler's
/// logic, applied to the message's payload.
pub proof fn lemma_running_handler_answers(table: Table, message: MessageView, outcome: Outcome)
    requires
        table.contains_key(message.topic),
        table[message.topic].state == StateValue::Running,
    ensures
        routed(table, message, outcome) <==> (table[message.topic].logic)(message.json, outcome),
{
}

/// The answer to a message depends on the registration under its own topic
/// alone: registering a handler under another topic, or halting or resuming
/// another topic, leaves it as it was.
pub proof fn lemma_other_topics_apart(
    table: Table,
    other: Seq<char>,
    handler: HandlerView,
    state: StateValue,
    message: MessageView,
    outcome: Outcome,
)
    requires
        other != message.topic,
    ensures
        routed(table.insert(other, handler), message, outcome) == routed(table, message, outcome),
        routed(with_state(table, other, state), message, outcome) == routed(
            table,
            message,
            outcome,
        ),
{
}

/// Halting a topic twice in a row leaves the table as halting it once does,
/// and so does resuming it twice.
pub proof fn lemma_state_change_idempotent(table: Table, topic: Seq<char>, state: StateValue)
    ensures
        with_state(with_state(table, topic, state), topic, state) == with_state(
            table,
            topic,
            state,
        ),
{
    assert(with_state(with_state(table, topic, state), topic, state) =~= with_state(
        table,
        topic,
        state,
    ));
}

/// Halting a topic that has no handler, or whose handler is halted already,
/// changes nothing, and neither does resuming one that has no handler or is
/// running already.
pub proof fn lemma_state_change_without_effect(table: Table, topic: Seq<char>, state: StateValue)
    requires
        !table.contains_key(topic) || table[topic].state == state,
    ensures
        with_state(table, topic, state) == table,
{
    assert(with_state(table, topic, state) =~= table);
}

/// Halting and resuming change no registration: the same topics stay
/// registered, each with the logic it had.
pub proof fn lemma_state_change_keeps_registrations(
    table: Table,
    topic: Seq<char>,
    state: StateValue,
    any: Seq<char>,
)
    ensures
        with_state(table, topic, state).contains_key(any) == table.contains_key(any),
        table.contains_key(any) ==> with_state(table, topic, state)[any].logic == table[any].logic,
        table.contains_key(any) && any != topic ==> with_state(table, topic, state)[any]
            == table[any],
        table.contains_key(topic) ==> with_state(table, topic, state)[topic].state == state,
{
}

/// Once a topic is halted, a message on it is answered with nothing, whatever
/// its payload.
pub proof fn lemma_halted_topic(table: Table, message: MessageView, outcome: Outcome)
    ensures
        routed(with_state(table, message.topic, StateValue::Halted), message, outcome)
            <==> outcome == Ok::<Option<Seq<MessageView>>, Seq<char>>(None),
{
}

/// Resuming a topic after halting it gives the table that resuming alone
/// gives, and a message on that topic is again answered by the logic of the
/// handler registered for it.
pub proof fn lemma_resume_after_halt(table: Table, message: MessageView, outcome: Outcome)
    ensures
        with_state(
            with_state(table, message.topic, StateValue::Halted),
            message.topic,
            StateValue::Running,
        ) == with_state(table, message.topic, StateValue::Running),
        table.contains_key(message.topic) ==> (routed(
            with_state(
                with_state(table, message.topic, StateValue::Halted),
                message.topic,
                StateValue::Running,
            ),
            message,
            outcome,
        ) <==> (table[message.topic].logic)(message.json, outcome)),
        table.contains_key(message.topic) && table[message.topic].state == StateValue::Running
            ==> with_state(
            with_state(table, message.topic, StateValue::Halted),
            message.topic,
            StateValue::Running,
        ) == table,
{
    let halted = with_state(table, message.topic, StateValue::Halted);
    let resumed = with_state(halted, message.topic, StateValue::Running);
    assert(resumed =~= with_state(table, message.topic, StateValue::Running));
    if table.contains_key(message.topic) && table[message.topic].state == StateValue::Running {
        assert(resumed =~= table);
    }
}

} // verus!

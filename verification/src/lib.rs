//! An in-process message router: topics map to handlers, handlers can be
//! halted and resumed, and inbound messages are dispatched to whichever
//! handler is registered for their topic.

pub mod implementations;
pub mod json_message;
pub mod processor;
pub mod state;

pub use json_message::JsonMessage;
pub use processor::{JsonTopicProcessor, ProcessError, TopicManager};
pub use state::{SimpleState, StateValue};

use topic_router::{JsonMessage, JsonTopicProcessor, ProcessError, StateValue, TopicManager};

/// Answers with a fixed result while running.
struct Fixed {
    state: StateValue,
    answer: Result<Option<Vec<JsonMessage>>, ProcessError>,
}

impl Fixed {
    fn new(answer: Result<Option<Vec<JsonMessage>>, ProcessError>) -> Self {
        Fixed { state: StateValue::Running, answer }
    }
}

impl JsonTopicProcessor for Fixed {
    fn process(&self, _input: String) -> Result<Option<Vec<JsonMessage>>, ProcessError> {
        if !self.is_running() {
            return Ok(None);
        }
        self.answer.clone()
    }

    fn state(&self) -> &StateValue {
        &self.state
    }

    fn set_state(&mut self, new_state: StateValue) {
        self.state = new_state;
    }
}

/// Rejects payloads that do not start with an opening brace.
struct Strict {
    state: StateValue,
}

impl JsonTopicProcessor for Strict {
    fn process(&self, input: String) -> Result<Option<Vec<JsonMessage>>, ProcessError> {
        if !self.is_running() {
            return Ok(None);
        }
        if input.starts_with('{') {
            Ok(Some(vec![]))
        } else {
            Err(ProcessError { message: format!("not an object: {}", input) })
        }
    }

    fn state(&self) -> &StateValue {
        &self.state
    }

    fn set_state(&mut self, new_state: StateValue) {
        self.state = new_state;
    }
}

#[test]
fn handler_error_is_propagated_unchanged() {
    let failure = ProcessError { message: "boom".to_string() };
    let mut manager = TopicManager::default();
    manager.register("t", Box::new(Fixed::new(Err(failure.clone()))));
    assert_eq!(manager.process(("t", "p").into()), Err(failure));
}

#[test]
fn handler_error_depends_on_the_payload_handed_over() {
    let mut manager = TopicManager::default();
    manager.register("t", Box::new(Strict { state: StateValue::Running }));
    assert_eq!(manager.process(("t", "{}").into()), Ok(Some(vec![])));
    assert_eq!(
        manager.process(("t", "[1]").into()),
        Err(ProcessError { message: "not an object: [1]".to_string() })
    );
}

#[test]
fn halted_handler_is_not_asked_even_if_it_would_fail() {
    let mut manager = TopicManager::default();
    manager.register("t", Box::new(Fixed::new(Err(ProcessError { message: "boom".to_string() }))));
    manager.halt("t");
    assert_eq!(manager.process(("t", "p").into()), Ok(None));
    manager.resume("t");
    assert_eq!(
        manager.process(("t", "p").into()),
        Err(ProcessError { message: "boom".to_string() })
    );
}

#[test]
fn empty_reply_list_differs_from_nothing() {
    let mut manager = TopicManager::default();
    manager.register("empty", Box::new(Fixed::new(Ok(Some(vec![])))));
    manager.register("none", Box::new(Fixed::new(Ok(None))));
    assert_eq!(manager.process(("empty", "p").into()), Ok(Some(vec![])));
    assert_eq!(manager.process(("none", "p").into()), Ok(None));
    assert_ne!(manager.process(("empty", "p").into()), Ok(None));
}

#[test]
fn several_replies_keep_their_order_and_topics() {
    let replies: Vec<JsonMessage> = vec![("x", "1").into(), ("y", "2").into(), ("x", "3").into()];
    let mut manager = TopicManager::default();
    manager.register("t", Box::new(Fixed::new(Ok(Some(replies.clone())))));
    assert_eq!(manager.process(("t", "p").into()), Ok(Some(replies)));
}

#[test]
fn derived_operations_follow_the_state() {
    let mut handler = Fixed::new(Ok(Some(vec![])));
    assert!(handler.is_running());
    assert!(!handler.is_halted());
    handler.halt();
    assert_eq!(*handler.state(), StateValue::Halted);
    assert!(handler.is_halted());
    assert!(!handler.is_running());
    handler.halt();
    assert!(handler.is_halted());
    handler.resume();
    assert_eq!(*handler.state(), StateValue::Running);
    assert!(handler.is_running());
    handler.resume();
    assert!(handler.is_running());
}

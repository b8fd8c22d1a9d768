//! Messages: a topic together with an opaque text payload.

use vstd::prelude::*;
use vstd::std_specs::convert::FromSpecImpl;
use vstd::string::StringExecFns;
use crate::processor::ProcessError;

verus! {

/// The mathematical value of a [`JsonMessage`]: its topic and its payload as
/// sequences of characters.
pub ghost struct MessageView {
    pub topic: Seq<char>,
    pub json: Seq<char>,
}

/// A message from or to a topic. The payload is conventionally JSON, but it is
/// carried as opaque text and never inspected.
#[derive(Debug, Clone, PartialEq, Eq)]
pub struct JsonMessage {
    /// The topic
    pub topic: String,
    /// The message payload
    pub json: String,
}

impl View for JsonMessage {
    type V = MessageView;

    open spec fn view(&self) -> MessageView {
        MessageView { topic: self.topic@, json: self.json@ }
    }
}

impl<'a> From<(&'a str, &'a str)> for JsonMessage {
    /// Builds the message with the given topic and payload.
    fn from(pair: (&'a str, &'a str)) -> (m: Self)
        ensures
            m@ == (MessageView { topic: pair.0@, json: pair.1@ }),
    {
        Self { topic: pair.0.to_owned(), json: pair.1.to_owned() }
    }
}

/// What `from` returns is stated on `from` itself, over the message's view:
/// no message is named here as its result.
impl<'a> FromSpecImpl<(&'a str, &'a str)> for JsonMessage {
    open spec fn obeys_from_spec() -> bool {
        false
    }

    open spec fn from_spec(pair: (&'a str, &'a str)) -> Self {
        arbitrary()
    }
}

/// The description of a payload that could not be decoded: what the decoder
/// said of it, and the payload itself.
pub open spec fn decode_failure_text(detail: Seq<char>, input: Seq<char>) -> Seq<char> {
    "Json decode error: "@ + detail + " in "@ + input
}

impl ProcessError {
    /// The failure to decode `input`, of which the decoder said `detail`.
    pub fn decode_failure(detail: &str, input: &str) -> (e: Self)
        ensures
            e.message@ == decode_failure_text(detail@, input@),
    {
        let mut message = "Json decode error: ".to_owned();
        message.append(detail);
        message.append(" in ");
        message.append(input);
        ProcessError { message }
    }
}

/// `serde_json::Error`: what the decoder reports of a text it rejects. It is
/// carried from the decoder to its description, and nothing is seen inside it.
#[verifier::external_type_specification]
#[verifier::external_body]
pub struct ExJsonError(serde_json::Error);

/// Calls `serde_json::from_reader` on the bytes of `input`. Whether the input
/// is accepted, and as which value, is decided by the decoder and by how `O`
/// deserializes itself: nothing is claimed of the result.
#[verifier::external_body]
fn parse<O: serde::de::DeserializeOwned>(input: &str) -> (r: Result<O, serde_json::Error>) {
    serde_json::from_reader(input.as_bytes())
}

/// Formats a `serde_json::Error` as its `Debug` impl does. Nothing is claimed
/// of the text.
#[verifier::external_body]
fn describe(error: &serde_json::Error) -> (detail: String) {
    format!("{:?}", error)
}

/// What becomes of the decoder's answer to `input`. A decoded value is handed
/// on as it is. A rejection, given by what the decoder said of it, becomes the
/// failure that names that description and the input.
pub fn decoded<O>(parsed: Result<O, String>, input: &str) -> (r: Result<O, ProcessError>)
    ensures
        match parsed {
            Ok(value) => r == Ok::<O, ProcessError>(value),
            Err(detail) => r is Err && r->Err_0.message@ == decode_failure_text(
                detail@,
                input@,
            ),
        },
{
    match parsed {
        Ok(value) => Ok(value),
        Err(detail) => Err(ProcessError::decode_failure(detail.as_str(), input)),
    }
}

/// Decodes `input` as a JSON value of type `O`. What the decoder accepts is
/// its own affair, so no input is promised to succeed; whatever the decoder
/// answers is passed through [`decoded`]. A failure therefore names what the
/// decoder said and the input itself.
pub fn decode<O: serde::de::DeserializeOwned>(input: &str) -> (r: Result<O, ProcessError>)
    ensures
        r matches Err(e) ==> exists|detail: Seq<char>|
            e.message@ == decode_failure_text(detail, input@),
{
    let parsed = match parse::<O>(input) {
        Ok(value) => Ok(value),
        Err(error) => Err(describe(&error)),
    };
    decoded(parsed, input)
}

} // verus!

//! Events: what the bridge publishes to its subscriber.

use vstd::prelude::*;
use crate::json::{json_tree, JsonTree};

verus! {

/// Name under which a parsed line without an event tag is published.
pub const LOG: &'static str = "log";

/// Name under which unparseable and diagnostic text is published.
pub const LOG_RAW: &'static str = "log_raw";

/// Name of the event that reports a failed launch.
pub const RUN_ERROR: &'static str = "run_error";

/// Name of the event that reports how the process ended.
pub const PROCESS_EXIT: &'static str = "process_exit";

/// Name of the event that reports a failure to wait for the process.
pub const PROCESS_ERROR: &'static str = "process_error";

/// What an event carries: a plain text, or a parsed JSON document.
#[derive(Debug, PartialEq)]
pub enum Payload {
    Text(String),
    Document(serde_json::Value),
}

/// The model of a [`Payload`].
pub ghost enum PayloadView {
    Text(Seq<char>),
    Document(JsonTree),
}

impl View for Payload {
    type V = PayloadView;

    open spec fn view(&self) -> PayloadView {
        match *self {
            Payload::Text(text) => PayloadView::Text(text@),
            Payload::Document(value) => PayloadView::Document(json_tree(value)),
        }
    }
}

/// A named occurrence with its payload.
#[derive(Debug, PartialEq)]
pub struct Event {
    pub name: String,
    pub payload: Payload,
}

/// The model of an [`Event`].
pub ghost struct EventView {
    pub name: Seq<char>,
    pub payload: PayloadView,
}

impl View for Event {
    type V = EventView;

    open spec fn view(&self) -> EventView {
        EventView { name: self.name@, payload: self.payload@ }
    }
}

/// The event with the given name and a text payload.
pub open spec fn text_event(name: Seq<char>, text: Seq<char>) -> EventView {
    EventView { name, payload: PayloadView::Text(text) }
}

/// The event with the given name and a document payload.
pub open spec fn document_event(name: Seq<char>, tree: JsonTree) -> EventView {
    EventView { name, payload: PayloadView::Document(tree) }
}

impl Event {
    /// An event that carries a text.
    pub fn with_text(name: &str, text: String) -> (event: Event)
        ensures
            event@ == text_event(name@, text@),
    {
        Event { name: name.to_owned(), payload: Payload::Text(text) }
    }

    /// An event that carries a parsed document.
    pub fn with_document(name: &str, document: serde_json::Value) -> (event: Event)
        ensures
            event@ == document_event(name@, json_tree(document)),
    {
        Event { name: name.to_owned(), payload: Payload::Document(document) }
    }
}

} // verus!

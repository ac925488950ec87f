//! The line protocol: one line of text is a tagged JSON event, a JSON
//! document without a tag, or raw text.  Decoding never fails.

use vstd::prelude::*;
use crate::event::{document_event, text_event, Event, EventView, LOG, LOG_RAW};
use crate::json::{
    json_parse, json_tree, member, parse_document, text_of, tree_member, tree_text, JsonTree,
};

verus! {

/// Key of the object member that names a structured event.
pub const EVENT_KEY: &'static str = "event";

/// What one line of the worker's output is.
#[derive(Debug, PartialEq)]
pub enum LineClassification {
    /// A JSON object with a string member `event`: the member's value and
    /// the whole document.
    StructuredEvent { name: String, payload: serde_json::Value },
    /// Any other JSON document.
    UntaggedPayload { payload: serde_json::Value },
    /// Text that is not JSON.
    RawLine { text: String },
}

/// The model of a [`LineClassification`].
pub ghost enum ClassificationView {
    StructuredEvent { name: Seq<char>, payload: JsonTree },
    UntaggedPayload { payload: JsonTree },
    RawLine { text: Seq<char> },
}

impl View for LineClassification {
    type V = ClassificationView;

    open spec fn view(&self) -> ClassificationView {
        match *self {
            LineClassification::StructuredEvent { name, payload } => {
                ClassificationView::StructuredEvent { name: name@, payload: json_tree(payload) }
            },
            LineClassification::UntaggedPayload { payload } => {
                ClassificationView::UntaggedPayload { payload: json_tree(payload) }
            },
            LineClassification::RawLine { text } => ClassificationView::RawLine { text: text@ },
        }
    }
}

/// The event tag of a document: the value of its member `event`, where the
/// document is an object and that member is a string.
pub open spec fn event_tag(tree: JsonTree) -> Option<Seq<char>> {
    match tree_member(tree, EVENT_KEY@) {
        Some(inner) => tree_text(inner),
        None => None,
    }
}

/// The classification of a line, given what the line parses to.
pub open spec fn classification(line: Seq<char>, parsed: Option<JsonTree>) -> ClassificationView {
    match parsed {
        None => ClassificationView::RawLine { text: line },
        Some(tree) => match event_tag(tree) {
            Some(name) => ClassificationView::StructuredEvent { name, payload: tree },
            None => ClassificationView::UntaggedPayload { payload: tree },
        },
    }
}

/// The classification of a line.
pub open spec fn line_classification(line: Seq<char>) -> ClassificationView {
    classification(line, json_parse(line))
}

/// The event under which a classification is published.
pub open spec fn classification_event(c: ClassificationView) -> EventView {
    match c {
        ClassificationView::StructuredEvent { name, payload } => document_event(name, payload),
        ClassificationView::UntaggedPayload { payload } => document_event(LOG@, payload),
        ClassificationView::RawLine { text } => text_event(LOG_RAW@, text),
    }
}

/// The document model of an optional parsed document.
pub open spec fn parsed_tree(parsed: Option<serde_json::Value>) -> Option<JsonTree> {
    match parsed {
        Some(value) => Some(json_tree(value)),
        None => None,
    }
}

/// The event tag of a parsed document.
pub fn document_event_tag(document: &serde_json::Value) -> (tag: Option<String>)
    ensures
        match tag {
            Some(name) => event_tag(json_tree(*document)) == Some(name@),
            None => event_tag(json_tree(*document)) is None,
        },
{
    match member(document, EVENT_KEY) {
        Some(inner) => match text_of(inner) {
            Some(name) => Some(name.to_owned()),
            None => None,
        },
        None => None,
    }
}

/// Classifies a line whose parse outcome is already at hand: `parsed` is the
/// document that the line holds, or `None` where the line is not JSON.
pub fn classify_parsed(line: &str, parsed: Option<serde_json::Value>) -> (c: LineClassification)
    ensures
        c@ == classification(line@, parsed_tree(parsed)),
{
    match parsed {
        None => LineClassification::RawLine { text: line.to_owned() },
        Some(document) => match document_event_tag(&document) {
            Some(name) => LineClassification::StructuredEvent { name, payload: document },
            None => LineClassification::UntaggedPayload { payload: document },
        },
    }
}

/// Classifies one line of text (without its line terminator).
pub fn classify_line(line: &str) -> (c: LineClassification)
    ensures
        c@ == line_classification(line@),
{
    let parsed = parse_document(line);
    classify_parsed(line, parsed)
}

impl LineClassification {
    /// The name under which this classification is published.
    pub fn event_name(&self) -> (name: &str)
        ensures
            name@ == classification_event(self@).name,
    {
        match self {
            LineClassification::StructuredEvent { name, .. } => name.as_str(),
            LineClassification::UntaggedPayload { .. } => LOG,
            LineClassification::RawLine { .. } => LOG_RAW,
        }
    }

    /// The event that publishes this classification.
    pub fn into_event(self) -> (event: Event)
        ensures
            event@ == classification_event(self@),
    {
        match self {
            LineClassification::StructuredEvent { name, payload } => {
                Event::with_document(name.as_str(), payload)
            },
            LineClassification::UntaggedPayload { payload } => Event::with_document(LOG, payload),
            LineClassification::RawLine { text } => Event::with_text(LOG_RAW, text),
        }
    }
}

/// A line that parses to an object with a string member `event` is a
/// structured event named by that member, and its payload is the whole
/// parsed document.
pub proof fn lemma_tagged_object_is_structured_event(
    line: Seq<char>,
    fields: Map<Seq<char>, JsonTree>,
    name: Seq<char>,
)
    requires
        json_parse(line) == Some(JsonTree::Object(fields)),
        fields.contains_key(EVENT_KEY@),
        fields[EVENT_KEY@] == JsonTree::Text(name),
    ensures
        line_classification(line) == (ClassificationView::StructuredEvent {
            name,
            payload: JsonTree::Object(fields),
        }),
        classification_event(line_classification(line)) == document_event(
            name,
            JsonTree::Object(fields),
        ),
{
}

/// A line that does not parse as JSON is a raw line that holds the line
/// itself, and it is published as `log_raw` with exactly that text.
pub proof fn lemma_unparseable_line_is_raw(line: Seq<char>)
    requires
        json_parse(line) is None,
    ensures
        line_classification(line) == (ClassificationView::RawLine { text: line }),
        classification_event(line_classification(line)) == text_event(LOG_RAW@, line),
{
}

/// A line that parses to a document without an event tag is an untagged
/// payload, published as `log` with the parsed document.
pub proof fn lemma_untagged_document_is_log(line: Seq<char>, tree: JsonTree)
    requires
        json_parse(line) == Some(tree),
        event_tag(tree) is None,
    ensures
        line_classification(line) == (ClassificationView::UntaggedPayload { payload: tree }),
        classification_event(line_classification(line)) == document_event(LOG@, tree),
{
}

/// Decoding is a function of the line alone: any two classifications of the
/// same line are the same classification.
pub proof fn lemma_classification_is_deterministic(
    line: Seq<char>,
    first: LineClassification,
    second: LineClassification,
)
    requires
        first@ == line_classification(line),
        second@ == line_classification(line),
    ensures
        first@ == second@,
        classification_event(first@) == classification_event(second@),
{
}

} // verus!

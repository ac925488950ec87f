use process_bridge::decoder::{classify_line, classify_parsed, document_event_tag, LineClassification};
use process_bridge::event::{Event, Payload};
use serde_json::{Number, Value};

fn progress_document() -> Value {
    let mut fields = serde_json::Map::new();
    fields.insert("event".to_string(), Value::String("progress".to_string()));
    fields.insert("pct".to_string(), Value::Number(Number::from(50)));
    Value::Object(fields)
}

fn pct_document() -> Value {
    let mut fields = serde_json::Map::new();
    fields.insert("pct".to_string(), Value::Number(Number::from(50)));
    Value::Object(fields)
}

#[test]
fn tagged_object_is_a_structured_event() {
    let c = classify_line("{\"event\":\"progress\",\"pct\":50}");
    assert_eq!(
        c,
        LineClassification::StructuredEvent {
            name: "progress".to_string(),
            payload: progress_document(),
        }
    );
    assert_eq!(c.event_name(), "progress");
    assert_eq!(
        c.into_event(),
        Event { name: "progress".to_string(), payload: Payload::Document(progress_document()) }
    );
}

#[test]
fn text_that_is_not_json_is_a_raw_line() {
    let c = classify_line("hello world");
    assert_eq!(c, LineClassification::RawLine { text: "hello world".to_string() });
    assert_eq!(c.event_name(), "log_raw");
    assert_eq!(
        c.into_event(),
        Event { name: "log_raw".to_string(), payload: Payload::Text("hello world".to_string()) }
    );
}

#[test]
fn json_without_event_member_is_an_untagged_payload() {
    let c = classify_line("{\"pct\":50}");
    assert_eq!(c, LineClassification::UntaggedPayload { payload: pct_document() });
    assert_eq!(c.event_name(), "log");
    assert_eq!(
        c.into_event(),
        Event { name: "log".to_string(), payload: Payload::Document(pct_document()) }
    );
}

#[test]
fn event_member_that_is_not_a_string_leaves_the_document_untagged() {
    let c = classify_line("{\"event\":5}");
    let mut fields = serde_json::Map::new();
    fields.insert("event".to_string(), Value::Number(Number::from(5)));
    assert_eq!(c, LineClassification::UntaggedPayload { payload: Value::Object(fields) });
    assert_eq!(c.event_name(), "log");
}

#[test]
fn json_that_is_not_an_object_is_an_untagged_payload() {
    assert_eq!(
        classify_line("[1,\"event\"]"),
        LineClassification::UntaggedPayload {
            payload: Value::Array(vec![
                Value::Number(Number::from(1)),
                Value::String("event".to_string()),
            ]),
        }
    );
    assert_eq!(
        classify_line("\"event\""),
        LineClassification::UntaggedPayload { payload: Value::String("event".to_string()) }
    );
    assert_eq!(classify_line("null"), LineClassification::UntaggedPayload { payload: Value::Null });
    assert_eq!(
        classify_line("true"),
        LineClassification::UntaggedPayload { payload: Value::Bool(true) }
    );
    assert_eq!(
        classify_line("50"),
        LineClassification::UntaggedPayload { payload: Value::Number(Number::from(50)) }
    );
}

#[test]
fn empty_line_and_broken_json_are_raw_lines() {
    assert_eq!(classify_line(""), LineClassification::RawLine { text: String::new() });
    assert_eq!(
        classify_line("{\"event\":\"progress\""),
        LineClassification::RawLine { text: "{\"event\":\"progress\"".to_string() }
    );
    assert_eq!(
        classify_line("{\"pct\":50} trailing"),
        LineClassification::RawLine { text: "{\"pct\":50} trailing".to_string() }
    );
}

#[test]
fn json_with_blank_space_around_it_is_still_json() {
    assert_eq!(
        classify_line("  {\"pct\":50}\t"),
        LineClassification::UntaggedPayload { payload: pct_document() }
    );
}

#[test]
fn nested_event_member_does_not_tag_the_document() {
    let c = classify_line("{\"data\":{\"event\":\"inner\"}}");
    assert_eq!(c.event_name(), "log");
    assert!(matches!(c, LineClassification::UntaggedPayload { .. }));
}

#[test]
fn empty_event_name_is_still_a_structured_event() {
    let c = classify_line("{\"event\":\"\"}");
    assert_eq!(c.event_name(), "");
    assert!(matches!(c, LineClassification::StructuredEvent { .. }));
}

#[test]
fn classifying_twice_gives_the_same_classification() {
    let lines = ["{\"event\":\"progress\",\"pct\":50}", "hello world", "{\"pct\":50}", ""];
    for line in lines {
        assert_eq!(classify_line(line), classify_line(line));
        assert_eq!(classify_line(line).into_event(), classify_line(line).into_event());
    }
}

#[test]
fn classify_parsed_goes_by_the_document_it_is_given() {
    assert_eq!(
        classify_parsed("anything", Some(progress_document())),
        LineClassification::StructuredEvent {
            name: "progress".to_string(),
            payload: progress_document(),
        }
    );
    assert_eq!(
        classify_parsed("anything", Some(pct_document())),
        LineClassification::UntaggedPayload { payload: pct_document() }
    );
    assert_eq!(
        classify_parsed("anything", None),
        LineClassification::RawLine { text: "anything".to_string() }
    );
}

#[test]
fn event_tag_is_the_string_member_event() {
    assert_eq!(document_event_tag(&progress_document()), Some("progress".to_string()));
    assert_eq!(document_event_tag(&pct_document()), None);
    assert_eq!(document_event_tag(&Value::String("event".to_string())), None);
    assert_eq!(document_event_tag(&Value::Null), None);
    let mut fields = serde_json::Map::new();
    fields.insert("event".to_string(), Value::Bool(true));
    assert_eq!(document_event_tag(&Value::Object(fields)), None);
}

#[test]
fn later_duplicate_of_the_event_member_wins() {
    let c = classify_line("{\"event\":\"first\",\"event\":\"second\"}");
    assert_eq!(c.event_name(), "second");
}

use process_bridge::event::{Event, Payload};
use process_bridge::reader::{event_for_bytes, event_for_line, trim_carriage_return, StreamKind, StreamReader};
use serde_json::{Number, Value};

fn raw(text: &str) -> Event {
    Event { name: "log_raw".to_string(), payload: Payload::Text(text.to_string()) }
}

fn done_document() -> Value {
    let mut fields = serde_json::Map::new();
    fields.insert("event".to_string(), Value::String("done".to_string()));
    fields.insert("n".to_string(), Value::Number(Number::from(3)));
    Value::Object(fields)
}

#[test]
fn output_line_is_decoded() {
    assert_eq!(
        event_for_line(StreamKind::Output, "{\"event\":\"done\",\"n\":3}"),
        Event { name: "done".to_string(), payload: Payload::Document(done_document()) }
    );
    assert_eq!(event_for_line(StreamKind::Output, "hello world"), raw("hello world"));
}

#[test]
fn diagnostic_line_is_raw_text_with_its_origin() {
    assert_eq!(event_for_line(StreamKind::Diagnostic, "warning: slow"), raw("STDERR: warning: slow"));
    assert_eq!(
        event_for_line(StreamKind::Diagnostic, "{\"event\":\"done\",\"n\":3}"),
        raw("STDERR: {\"event\":\"done\",\"n\":3}")
    );
    assert_eq!(event_for_line(StreamKind::Diagnostic, ""), raw("STDERR: "));
}

#[test]
fn bytes_that_are_not_utf8_give_no_event() {
    assert_eq!(event_for_bytes(StreamKind::Output, &[0xff, 0xfe]), None);
    assert_eq!(event_for_bytes(StreamKind::Diagnostic, &[b'a', 0xc3]), None);
    assert_eq!(event_for_bytes(StreamKind::Output, "gr\u{fc}n".as_bytes()), Some(raw("gr\u{fc}n")));
    assert_eq!(
        event_for_bytes(StreamKind::Diagnostic, "\u{65e5}\u{672c}".as_bytes()),
        Some(raw("STDERR: \u{65e5}\u{672c}"))
    );
}

#[test]
fn only_one_carriage_return_at_the_end_is_trimmed() {
    assert_eq!(trim_carriage_return(b"abc\r"), b"abc");
    assert_eq!(trim_carriage_return(b"abc\r\r"), b"abc\r");
    assert_eq!(trim_carriage_return(b"a\rbc"), b"a\rbc");
    assert_eq!(trim_carriage_return(b"\r"), b"");
    assert_eq!(trim_carriage_return(b""), b"");
}

#[test]
fn lines_come_out_in_stream_order() {
    let mut reader = StreamReader::new(StreamKind::Output);
    assert_eq!(reader.kind(), StreamKind::Output);
    assert!(reader.is_open());
    let events = reader.feed(b"L1\nL2\nL3\n");
    assert_eq!(events, vec![raw("L1"), raw("L2"), raw("L3")]);
    assert_eq!(reader.finish(), Vec::<Event>::new());
    assert!(!reader.is_open());
}

#[test]
fn events_are_the_same_however_the_stream_is_cut() {
    let stream: &[u8] = b"L1\n{\"event\":\"done\",\"n\":3}\r\nL3";
    let expected = vec![
        raw("L1"),
        Event { name: "done".to_string(), payload: Payload::Document(done_document()) },
    ];
    for cut in 0..=stream.len() {
        let mut reader = StreamReader::new(StreamKind::Output);
        let mut events = reader.feed(&stream[..cut]);
        events.extend(reader.feed(&stream[cut..]));
        assert_eq!(events, expected);
        assert_eq!(reader.finish(), vec![raw("L3")]);
    }
}

#[test]
fn line_is_published_as_soon_as_it_is_finished() {
    let mut reader = StreamReader::new(StreamKind::Output);
    assert_eq!(reader.feed(b"par"), Vec::<Event>::new());
    assert_eq!(reader.feed(b"tial\nnext"), vec![raw("partial")]);
    assert_eq!(reader.feed(b"\n"), vec![raw("next")]);
}

#[test]
fn unreadable_line_is_skipped_and_the_stream_goes_on() {
    let mut reader = StreamReader::new(StreamKind::Output);
    let events = reader.feed(b"before\n\xff\xfe\nafter\n");
    assert_eq!(events, vec![raw("before"), raw("after")]);
}

#[test]
fn crlf_is_a_line_end_but_a_last_carriage_return_stays() {
    let mut reader = StreamReader::new(StreamKind::Diagnostic);
    assert_eq!(reader.feed(b"one\r\ntwo\r"), vec![raw("STDERR: one")]);
    assert_eq!(reader.finish(), vec![raw("STDERR: two\r")]);
}

#[test]
fn empty_line_gives_an_event_but_an_empty_rest_gives_none() {
    let mut reader = StreamReader::new(StreamKind::Output);
    assert_eq!(reader.feed(b"\n"), vec![raw("")]);
    assert_eq!(reader.finish(), Vec::<Event>::new());
}

#[test]
fn unreadable_rest_gives_no_event() {
    let mut reader = StreamReader::new(StreamKind::Output);
    assert_eq!(reader.feed(b"ok\n\xff"), vec![raw("ok")]);
    assert_eq!(reader.finish(), Vec::<Event>::new());
    assert!(!reader.is_open());
}

#[test]
fn closed_reader_takes_nothing_more() {
    let mut reader = StreamReader::new(StreamKind::Output);
    assert_eq!(reader.feed(b"rest"), Vec::<Event>::new());
    assert_eq!(reader.finish(), vec![raw("rest")]);
    assert_eq!(reader.feed(b"late\n"), Vec::<Event>::new());
    assert_eq!(reader.finish(), Vec::<Event>::new());
}

#[test]
fn abandoned_reader_drops_what_is_pending() {
    let mut reader = StreamReader::new(StreamKind::Output);
    assert_eq!(reader.feed(b"done\nhalf"), vec![raw("done")]);
    reader.abandon();
    assert!(!reader.is_open());
    assert_eq!(reader.feed(b" more\n"), Vec::<Event>::new());
    assert_eq!(reader.finish(), Vec::<Event>::new());
}

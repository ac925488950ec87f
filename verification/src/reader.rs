//! The stream reader: the bytes of one stream of the worker go in, chunk by
//! chunk, and the events of its lines come out, one per readable line and in
//! line order.

use vstd::prelude::*;
use vstd::slice::slice_subrange;
use vstd::string::StringExecFns;
use vstd::utf8::{decode_utf8, valid_utf8};
use crate::decoder::{classification_event, classify_line, line_classification};
use crate::event::{text_event, Event, EventView, LOG_RAW};
use crate::framing::{
    joined, lemma_framing_in_pieces, lemma_lines_of_joined, line_contents, terminated_lines,
    unfinished_line, without_carriage_return, LineBuffer, CARRIAGE_RETURN, LINE_FEED,
};

verus! {

/// Which of the worker's two streams a reader consumes.
#[derive(Clone, Copy, Debug, PartialEq, Eq, Structural)]
pub enum StreamKind {
    /// The output stream, which speaks the line protocol.
    Output,
    /// The diagnostic stream, whose lines are passed on as raw text.
    Diagnostic,
}

/// What is put before each line of the diagnostic stream.
pub const DIAGNOSTIC_PREFIX: &'static str = "STDERR: ";

/// The event that a line of text of a stream gives.
pub open spec fn line_event(kind: StreamKind, text: Seq<char>) -> EventView {
    match kind {
        StreamKind::Output => classification_event(line_classification(text)),
        StreamKind::Diagnostic => text_event(LOG_RAW@, DIAGNOSTIC_PREFIX@ + text),
    }
}

/// The event that the bytes of a line give: none where they are not UTF-8.
pub open spec fn readable_line_event(kind: StreamKind, bytes: Seq<u8>) -> Option<EventView> {
    if valid_utf8(bytes) {
        Some(line_event(kind, decode_utf8(bytes)))
    } else {
        None
    }
}

/// The events of finished lines, in line order: each line gives one event,
/// but for the unreadable ones, which give none.
pub open spec fn line_events(kind: StreamKind, lines: Seq<Seq<u8>>) -> Seq<EventView>
    decreases lines.len(),
{
    if lines.len() == 0 {
        Seq::empty()
    } else {
        let earlier = line_events(kind, lines.drop_last());
        match readable_line_event(kind, without_carriage_return(lines.last())) {
            Some(event) => earlier.push(event),
            None => earlier,
        }
    }
}

/// The events of what a stream leaves unfinished when it ends: one for a
/// readable line that is not empty, else none.
pub open spec fn last_line_events(kind: StreamKind, rest: Seq<u8>) -> Seq<EventView> {
    if rest.len() == 0 {
        Seq::empty()
    } else {
        match readable_line_event(kind, rest) {
            Some(event) => seq![event],
            None => Seq::empty(),
        }
    }
}

/// The models of a vector of events.
pub open spec fn event_views(events: Seq<Event>) -> Seq<EventView> {
    Seq::new(events.len(), |i: int| events[i]@)
}

/// `core::str::from_utf8`: the text that the bytes encode, and `None` where
/// they are not valid UTF-8.
#[verifier::external_body]
pub(crate) fn decode_text<'a>(bytes: &'a [u8]) -> (text: Option<&'a str>)
    ensures
        text is Some <==> valid_utf8(bytes@),
        text matches Some(chars) ==> chars@ == decode_utf8(bytes@),
{
    match core::str::from_utf8(bytes) {
        Ok(chars) => Some(chars),
        Err(_) => None,
    }
}

/// The event for one line of text of a stream.
pub fn event_for_line(kind: StreamKind, text: &str) -> (event: Event)
    ensures
        event@ == line_event(kind, text@),
{
    match kind {
        StreamKind::Output => classify_line(text).into_event(),
        StreamKind::Diagnostic => {
            let mut prefixed = DIAGNOSTIC_PREFIX.to_owned();
            prefixed.append(text);
            Event::with_text(LOG_RAW, prefixed)
        },
    }
}

/// The event for the bytes of one line, if they are readable.
pub fn event_for_bytes(kind: StreamKind, bytes: &[u8]) -> (event: Option<Event>)
    ensures
        match event {
            Some(e) => readable_line_event(kind, bytes@) == Some(e@),
            None => readable_line_event(kind, bytes@) is None,
        },
{
    match decode_text(bytes) {
        Some(text) => Some(event_for_line(kind, text)),
        None => None,
    }
}

/// The line without a carriage return at its end.
pub fn trim_carriage_return(line: &[u8]) -> (trimmed: &[u8])
    ensures
        trimmed@ == without_carriage_return(line@),
{
    let n = line.len();
    if n > 0 && line[n - 1] == CARRIAGE_RETURN {
        let trimmed = slice_subrange(line, 0, n - 1);
        assert(trimmed@ =~= line@.drop_last());
        trimmed
    } else {
        line
    }
}

/// The state of a [`StreamReader`].
pub ghost struct ReaderView {
    pub kind: StreamKind,
    /// The bytes of the line that is not finished yet.
    pub pending: Seq<u8>,
    /// Whether the stream can still deliver.
    pub open: bool,
}

/// The reader of a stream that has delivered nothing yet.
pub open spec fn fresh_reader(kind: StreamKind) -> ReaderView {
    ReaderView { kind, pending: Seq::empty(), open: true }
}

/// The reader after a chunk: the chunk's last unfinished line is pending.
/// A reader that is not open ignores the chunk.
pub open spec fn reader_after_chunk(reader: ReaderView, chunk: Seq<u8>) -> ReaderView {
    if reader.open {
        ReaderView { pending: unfinished_line(reader.pending + chunk), ..reader }
    } else {
        reader
    }
}

/// The events that a chunk gives: those of the lines that it finishes.
pub open spec fn chunk_events(reader: ReaderView, chunk: Seq<u8>) -> Seq<EventView> {
    if reader.open {
        line_events(reader.kind, terminated_lines(reader.pending + chunk))
    } else {
        Seq::empty()
    }
}

/// The reader after its stream has ended or failed: closed, nothing pending.
pub open spec fn reader_closed(reader: ReaderView) -> ReaderView {
    ReaderView { pending: Seq::empty(), open: false, ..reader }
}

/// The events that the end of the stream gives: that of the last line,
/// where the stream did not end in a line feed.
pub open spec fn end_events(reader: ReaderView) -> Seq<EventView> {
    if reader.open {
        last_line_events(reader.kind, reader.pending)
    } else {
        Seq::empty()
    }
}

/// Turns the bytes of one stream into events.
pub struct StreamReader {
    kind: StreamKind,
    buffer: LineBuffer,
    open: bool,
}

impl View for StreamReader {
    type V = ReaderView;

    closed spec fn view(&self) -> ReaderView {
        ReaderView { kind: self.kind, pending: self.buffer@, open: self.open }
    }
}

impl StreamReader {
    /// A reader for a stream that has delivered nothing yet.
    pub fn new(kind: StreamKind) -> (reader: StreamReader)
        ensures
            reader@ == fresh_reader(kind),
    {
        StreamReader { kind, buffer: LineBuffer::new(), open: true }
    }

    /// The stream that this reader consumes.
    pub fn kind(&self) -> (kind: StreamKind)
        ensures
            kind == self@.kind,
    {
        self.kind
    }

    /// Whether the stream can still deliver.
    pub fn is_open(&self) -> (open: bool)
        ensures
            open == self@.open,
    {
        self.open
    }

    /// Takes in the next chunk of the stream and returns the events of the
    /// lines that the chunk finishes, in line order.
    pub fn feed(&mut self, chunk: &[u8]) -> (events: Vec<Event>)
        ensures
            final(self)@ == reader_after_chunk(old(self)@, chunk@),
            event_views(events@) == chunk_events(old(self)@, chunk@),
    {
        let mut events: Vec<Event> = Vec::new();
        assert(event_views(events@) =~= Seq::<EventView>::empty());
        if !self.open {
            return events;
        }
        let kind = self.kind;
        let lines = self.buffer.push(chunk);
        let ghost contents = terminated_lines(old(self)@.pending + chunk@);
        let mut i: usize = 0;
        assert(contents.take(0) =~= Seq::<Seq<u8>>::empty());
        while i < lines.len()
            invariant
                i <= lines.len(),
                line_contents(lines@) == contents,
                event_views(events@) == line_events(kind, contents.take(i as int)),
            decreases lines.len() - i,
        {
            let ghost earlier = events@;
            proof {
                assert(contents.take(i + 1).drop_last() =~= contents.take(i as int));
                assert(contents.take(i + 1).last() == lines@[i as int]@);
            }
            match event_for_bytes(kind, trim_carriage_return(lines[i].as_slice())) {
                Some(event) => {
                    events.push(event);
                    assert(event_views(events@) =~= event_views(earlier).push(event@));
                },
                None => {},
            }
            i += 1;
        }
        assert(contents.take(i as int) =~= contents);
        events
    }

    /// Tells the reader that its stream has ended.  Returns the event of the
    /// last line where the stream did not end in a line feed.
    pub fn finish(&mut self) -> (events: Vec<Event>)
        ensures
            final(self)@ == reader_closed(old(self)@),
            event_views(events@) == end_events(old(self)@),
    {
        let mut events: Vec<Event> = Vec::new();
        assert(event_views(events@) =~= Seq::<EventView>::empty());
        let rest = self.buffer.take_rest();
        let was_open = self.open;
        self.open = false;
        if was_open && rest.len() > 0 {
            match event_for_bytes(self.kind, rest.as_slice()) {
                Some(event) => {
                    events.push(event);
                    assert(event_views(events@) =~= seq![event@]);
                },
                None => {},
            }
        }
        events
    }

    /// Tells the reader that reading its stream has failed: what is pending
    /// is dropped, and the reader takes no more.
    pub fn abandon(&mut self)
        ensures
            final(self)@ == reader_closed(old(self)@),
    {
        let _ = self.buffer.take_rest();
        self.open = false;
    }
}

/// The events of lines come in the order of the lines: the events of a
/// sequence of lines are those of its front part followed by those of the
/// rest.
pub proof fn lemma_line_events_in_order(
    kind: StreamKind,
    first: Seq<Seq<u8>>,
    second: Seq<Seq<u8>>,
)
    ensures
        line_events(kind, first + second) == line_events(kind, first) + line_events(kind, second),
    decreases second.len(),
{
    if second.len() == 0 {
        assert(first + second =~= first);
        assert(line_events(kind, first) + line_events(kind, second) =~= line_events(
            kind,
            first,
        ));
    } else {
        lemma_line_events_in_order(kind, first, second.drop_last());
        assert((first + second).drop_last() =~= first + second.drop_last());
        assert((first + second).last() == second.last());
        assert(line_events(kind, first + second) =~= line_events(kind, first) + line_events(
            kind,
            second,
        ));
    }
}

/// Where every line is readable, every line gives exactly one event, and
/// the events stand in the order of their lines.
pub proof fn lemma_one_event_per_readable_line(kind: StreamKind, lines: Seq<Seq<u8>>)
    requires
        forall|i: int|
            0 <= i < lines.len() ==> valid_utf8(without_carriage_return(#[trigger] lines[i])),
    ensures
        line_events(kind, lines).len() == lines.len(),
        forall|i: int|
            0 <= i < lines.len() ==> #[trigger] line_events(kind, lines)[i] == line_event(
                kind,
                decode_utf8(without_carriage_return(lines[i])),
            ),
    decreases lines.len(),
{
    if lines.len() > 0 {
        let front = lines.drop_last();
        assert forall|i: int| 0 <= i < front.len() implies valid_utf8(
            without_carriage_return(#[trigger] front[i]),
        ) by {
            assert(front[i] == lines[i]);
        }
        lemma_one_event_per_readable_line(kind, front);
        assert forall|i: int| 0 <= i < lines.len() implies #[trigger] line_events(
            kind,
            lines,
        )[i] == line_event(kind, decode_utf8(without_carriage_return(lines[i]))) by {
            if i < front.len() {
                assert(front[i] == lines[i]);
                assert(line_events(kind, lines)[i] == line_events(kind, front)[i]);
            }
        }
    }
}

/// A reader does not depend on how its stream is cut into chunks: feeding
/// two chunks one after the other leaves the reader as feeding both at once
/// does, and gives the same events in the same order.
pub proof fn lemma_feeding_in_pieces(reader: ReaderView, first: Seq<u8>, second: Seq<u8>)
    ensures
        reader_after_chunk(reader_after_chunk(reader, first), second) == reader_after_chunk(
            reader,
            first + second,
        ),
        chunk_events(reader, first) + chunk_events(reader_after_chunk(reader, first), second)
            == chunk_events(reader, first + second),
{
    if reader.open {
        let whole = reader.pending + first;
        lemma_framing_in_pieces(whole, second);
        assert(whole + second =~= reader.pending + (first + second));
        lemma_line_events_in_order(
            reader.kind,
            terminated_lines(whole),
            terminated_lines(unfinished_line(whole) + second),
        );
    } else {
        assert(chunk_events(reader, first) + chunk_events(reader, second) =~= Seq::<
            EventView,
        >::empty());
    }
}

/// A stream that produces lines gives their events in the order of the
/// lines: a fresh reader that is fed the lines, each ended by a line feed,
/// gives exactly the events of those lines, and nothing stays pending.
pub proof fn lemma_stream_of_lines_gives_their_events(kind: StreamKind, lines: Seq<Seq<u8>>)
    requires
        forall|i: int| 0 <= i < lines.len() ==> !(#[trigger] lines[i]).contains(LINE_FEED),
    ensures
        chunk_events(fresh_reader(kind), joined(lines)) == line_events(kind, lines),
        reader_after_chunk(fresh_reader(kind), joined(lines)) == fresh_reader(kind),
{
    lemma_lines_of_joined(lines);
    assert(Seq::<u8>::empty() + joined(lines) =~= joined(lines));
}

} // verus!

//! The supervision session: what the supervisor of one worker process
//! publishes and does next, as a function of what has happened so far.
//!
//! The caller launches the process, reads its two streams and waits for its
//! end; each thing that happens goes into [`Session::step`] as a
//! [`Signal`], and the [`Directive`]s that come back are carried out in
//! order.

use vstd::prelude::*;
use vstd::string::StringExecFns;
use crate::event::{text_event, Event, EventView, PROCESS_ERROR, PROCESS_EXIT, RUN_ERROR};
use crate::reader::{
    chunk_events, end_events, event_views, fresh_reader, reader_after_chunk, reader_closed,
    ReaderView, StreamKind, StreamReader,
};

verus! {

/// What stands before the reason in the payload of `run_error`.
pub const SPAWN_FAILURE_PREFIX: &'static str = "Failed to spawn python: ";

/// What stands before the status in the payload of `process_exit`.
pub const EXIT_PREFIX: &'static str = "Exit code: ";

/// What stands before the reason in the payload of `process_error`.
pub const WAIT_FAILURE_PREFIX: &'static str = "Wait error: ";

/// How far a session has come.
#[derive(Clone, Copy, Debug, PartialEq, Eq, Structural)]
pub enum Phase {
    /// Nothing has been launched yet.
    Idle,
    /// The process runs and at least one of its streams is open.
    Streaming,
    /// Both streams are done; the end of the process is awaited.
    Awaiting,
    /// The session is over: nothing more is published.
    Finished,
}

/// Something that has happened to the supervised process.
#[derive(Debug, PartialEq)]
pub enum Signal {
    /// The process could not be launched.
    SpawnFailed { reason: String },
    /// The process was launched, with both streams captured.
    Spawned,
    /// A stream has delivered bytes.
    Chunk { stream: StreamKind, bytes: Vec<u8> },
    /// A stream has ended.
    EndOfStream { stream: StreamKind },
    /// Reading a stream has failed.
    ReadFailed { stream: StreamKind },
    /// The process has ended; `status` describes how.
    Exited { status: String },
    /// Waiting for the end of the process has failed.
    WaitFailed { reason: String },
}

/// The model of a [`Signal`].
pub ghost enum SignalView {
    SpawnFailed { reason: Seq<char> },
    Spawned,
    Chunk { stream: StreamKind, bytes: Seq<u8> },
    EndOfStream { stream: StreamKind },
    ReadFailed { stream: StreamKind },
    Exited { status: Seq<char> },
    WaitFailed { reason: Seq<char> },
}

impl View for Signal {
    type V = SignalView;

    open spec fn view(&self) -> SignalView {
        match *self {
            Signal::SpawnFailed { reason } => SignalView::SpawnFailed { reason: reason@ },
            Signal::Spawned => SignalView::Spawned,
            Signal::Chunk { stream, bytes } => SignalView::Chunk { stream, bytes: bytes@ },
            Signal::EndOfStream { stream } => SignalView::EndOfStream { stream },
            Signal::ReadFailed { stream } => SignalView::ReadFailed { stream },
            Signal::Exited { status } => SignalView::Exited { status: status@ },
            Signal::WaitFailed { reason } => SignalView::WaitFailed { reason: reason@ },
        }
    }
}

/// What the caller is to do.
#[derive(Debug, PartialEq)]
pub enum Directive {
    /// Publish the event of a line.
    Publish(Event),
    /// Publish the event that ends the session; nothing follows it.
    Conclude(Event),
    /// Start reading both streams, each on its own.
    StartReaders,
    /// Wait for the process to end.
    AwaitExit,
}

/// The model of a [`Directive`].
pub ghost enum DirectiveView {
    Publish(EventView),
    Conclude(EventView),
    StartReaders,
    AwaitExit,
}

impl View for Directive {
    type V = DirectiveView;

    open spec fn view(&self) -> DirectiveView {
        match *self {
            Directive::Publish(event) => DirectiveView::Publish(event@),
            Directive::Conclude(event) => DirectiveView::Conclude(event@),
            Directive::StartReaders => DirectiveView::StartReaders,
            Directive::AwaitExit => DirectiveView::AwaitExit,
        }
    }
}

/// The models of a vector of directives.
pub open spec fn directive_views(directives: Seq<Directive>) -> Seq<DirectiveView> {
    Seq::new(directives.len(), |i: int| directives[i]@)
}

/// One `Publish` for each event, in order.
pub open spec fn publish_all(events: Seq<EventView>) -> Seq<DirectiveView> {
    Seq::new(events.len(), |i: int| DirectiveView::Publish(events[i]))
}

/// The state of a [`Session`].
pub ghost struct SessionView {
    pub phase: Phase,
    pub output: ReaderView,
    pub diagnostic: ReaderView,
}

/// The session before anything has happened.
pub open spec fn initial_session() -> SessionView {
    SessionView {
        phase: Phase::Idle,
        output: fresh_reader(StreamKind::Output),
        diagnostic: fresh_reader(StreamKind::Diagnostic),
    }
}

/// The reader of a stream.
pub open spec fn reader_of(session: SessionView, stream: StreamKind) -> ReaderView {
    match stream {
        StreamKind::Output => session.output,
        StreamKind::Diagnostic => session.diagnostic,
    }
}

/// The session with another reader for a stream.
pub open spec fn with_reader(session: SessionView, stream: StreamKind, reader: ReaderView)
    -> SessionView {
    match stream {
        StreamKind::Output => SessionView { output: reader, ..session },
        StreamKind::Diagnostic => SessionView { diagnostic: reader, ..session },
    }
}

/// The event that reports a failed launch.
pub open spec fn run_error_event(reason: Seq<char>) -> EventView {
    text_event(RUN_ERROR@, SPAWN_FAILURE_PREFIX@ + reason)
}

/// The event that reports how the process ended.
pub open spec fn process_exit_event(status: Seq<char>) -> EventView {
    text_event(PROCESS_EXIT@, EXIT_PREFIX@ + status)
}

/// The event that reports a failure to wait for the process.
pub open spec fn process_error_event(reason: Seq<char>) -> EventView {
    text_event(PROCESS_ERROR@, WAIT_FAILURE_PREFIX@ + reason)
}

/// A streaming session after one of its streams is done: the stream's last
/// events are published, and once both streams are done the end of the
/// process is awaited.
pub open spec fn after_stream_end(
    session: SessionView,
    stream: StreamKind,
    events: Seq<EventView>,
) -> (SessionView, Seq<DirectiveView>) {
    let closed = with_reader(session, stream, reader_closed(reader_of(session, stream)));
    if !closed.output.open && !closed.diagnostic.open {
        (
            SessionView { phase: Phase::Awaiting, ..closed },
            publish_all(events).push(DirectiveView::AwaitExit),
        )
    } else {
        (closed, publish_all(events))
    }
}

/// The session after a signal, and what the caller is to do.  A signal that
/// does not fit the phase changes nothing and asks for nothing.
pub open spec fn session_step(session: SessionView, signal: SignalView) -> (
    SessionView,
    Seq<DirectiveView>,
) {
    match (session.phase, signal) {
        (Phase::Idle, SignalView::SpawnFailed { reason }) => (
            SessionView { phase: Phase::Finished, ..session },
            seq![DirectiveView::Conclude(run_error_event(reason))],
        ),
        (Phase::Idle, SignalView::Spawned) => (
            SessionView { phase: Phase::Streaming, ..session },
            seq![DirectiveView::StartReaders],
        ),
        (Phase::Streaming, SignalView::Chunk { stream, bytes }) => (
            with_reader(session, stream, reader_after_chunk(reader_of(session, stream), bytes)),
            publish_all(chunk_events(reader_of(session, stream), bytes)),
        ),
        (Phase::Streaming, SignalView::EndOfStream { stream }) => after_stream_end(
            session,
            stream,
            end_events(reader_of(session, stream)),
        ),
        (Phase::Streaming, SignalView::ReadFailed { stream }) => after_stream_end(
            session,
            stream,
            Seq::empty(),
        ),
        (Phase::Awaiting, SignalView::Exited { status }) => (
            SessionView { phase: Phase::Finished, ..session },
            seq![DirectiveView::Conclude(process_exit_event(status))],
        ),
        (Phase::Awaiting, SignalView::WaitFailed { reason }) => (
            SessionView { phase: Phase::Finished, ..session },
            seq![DirectiveView::Conclude(process_error_event(reason))],
        ),
        _ => (session, Seq::empty()),
    }
}

/// The session after a sequence of signals, and all directives that the
/// signals have given, in order.
pub open spec fn session_run(start: SessionView, signals: Seq<SignalView>) -> (
    SessionView,
    Seq<DirectiveView>,
)
    decreases signals.len(),
{
    if signals.len() == 0 {
        (start, Seq::empty())
    } else {
        let before = session_run(start, signals.drop_last());
        let last = session_step(before.0, signals.last());
        (last.0, before.1 + last.1)
    }
}

/// The models of a vector of signals.
pub open spec fn signal_views(signals: Seq<Signal>) -> Seq<SignalView> {
    Seq::new(signals.len(), |i: int| signals[i]@)
}

/// The text with a prefix before it.
pub fn prefixed(prefix: &str, text: &str) -> (whole: String)
    ensures
        whole@ == prefix@ + text@,
{
    let mut whole = prefix.to_owned();
    whole.append(text);
    whole
}

/// One `Publish` for each event, in order.
pub fn publish_each(events: Vec<Event>) -> (directives: Vec<Directive>)
    ensures
        directive_views(directives@) == publish_all(event_views(events@)),
{
    let mut directives: Vec<Directive> = Vec::new();
    let ghost all = events@;
    for event in iter: events
        invariant
            iter.seq() == all,
            directives@.len() == iter.index(),
            forall|i: int| 0 <= i < directives@.len() ==> directives@[i]@ == DirectiveView::Publish(all[i]@),
    {
        directives.push(Directive::Publish(event));
    }
    assert(directive_views(directives@) =~= publish_all(event_views(all)));
    directives
}

/// The supervisor's view of one worker process.
pub struct Session {
    phase: Phase,
    output: StreamReader,
    diagnostic: StreamReader,
}

impl View for Session {
    type V = SessionView;

    closed spec fn view(&self) -> SessionView {
        SessionView { phase: self.phase, output: self.output@, diagnostic: self.diagnostic@ }
    }
}

impl Session {
    /// A session in which nothing has happened yet.
    pub fn new() -> (session: Session)
        ensures
            session@ == initial_session(),
    {
        Session {
            phase: Phase::Idle,
            output: StreamReader::new(StreamKind::Output),
            diagnostic: StreamReader::new(StreamKind::Diagnostic),
        }
    }

    /// How far the session has come.
    pub fn phase(&self) -> (phase: Phase)
        ensures
            phase == self@.phase,
    {
        self.phase
    }

    /// Whether the session is over.
    pub fn is_finished(&self) -> (finished: bool)
        ensures
            finished == (self@.phase == Phase::Finished),
    {
        match self.phase {
            Phase::Finished => true,
            _ => false,
        }
    }

    /// Takes in what has happened and returns what the caller is to do, in
    /// order.
    pub fn step(&mut self, signal: Signal) -> (directives: Vec<Directive>)
        ensures
            final(self)@ == session_step(old(self)@, signal@).0,
            directive_views(directives@) == session_step(old(self)@, signal@).1,
    {
        let mut directives: Vec<Directive> = Vec::new();
        assert(directive_views(directives@) =~= Seq::<DirectiveView>::empty());
        match self.phase {
            Phase::Idle => match signal {
                Signal::SpawnFailed { reason } => {
                    self.phase = Phase::Finished;
                    let event = Event::with_text(
                        RUN_ERROR,
                        prefixed(SPAWN_FAILURE_PREFIX, reason.as_str()),
                    );
                    directives.push(Directive::Conclude(event));
                    assert(directive_views(directives@) =~= seq![
                        DirectiveView::Conclude(run_error_event(reason@)),
                    ]);
                },
                Signal::Spawned => {
                    self.phase = Phase::Streaming;
                    directives.push(Directive::StartReaders);
                    assert(directive_views(directives@) =~= seq![DirectiveView::StartReaders]);
                },
                _ => {},
            },
            Phase::Streaming => match signal {
                Signal::Chunk { stream, bytes } => {
                    let events = match stream {
                        StreamKind::Output => self.output.feed(bytes.as_slice()),
                        StreamKind::Diagnostic => self.diagnostic.feed(bytes.as_slice()),
                    };
                    directives = publish_each(events);
                },
                Signal::EndOfStream { stream } => {
                    let events = match stream {
                        StreamKind::Output => self.output.finish(),
                        StreamKind::Diagnostic => self.diagnostic.finish(),
                    };
                    directives = publish_each(events);
                    self.await_exit_when_drained(&mut directives);
                },
                Signal::ReadFailed { stream } => {
                    match stream {
                        StreamKind::Output => self.output.abandon(),
                        StreamKind::Diagnostic => self.diagnostic.abandon(),
                    }
                    assert(directive_views(directives@) =~= publish_all(Seq::empty()));
                    self.await_exit_when_drained(&mut directives);
                },
                _ => {},
            },
            Phase::Awaiting => match signal {
                Signal::Exited { status } => {
                    self.phase = Phase::Finished;
                    let event = Event::with_text(
                        PROCESS_EXIT,
                        prefixed(EXIT_PREFIX, status.as_str()),
                    );
                    directives.push(Directive::Conclude(event));
                    assert(directive_views(directives@) =~= seq![
                        DirectiveView::Conclude(process_exit_event(status@)),
                    ]);
                },
                Signal::WaitFailed { reason } => {
                    self.phase = Phase::Finished;
                    let event = Event::with_text(
                        PROCESS_ERROR,
                        prefixed(WAIT_FAILURE_PREFIX, reason.as_str()),
                    );
                    directives.push(Directive::Conclude(event));
                    assert(directive_views(directives@) =~= seq![
                        DirectiveView::Conclude(process_error_event(reason@)),
                    ]);
                },
                _ => {},
            },
            Phase::Finished => {},
        }
        directives
    }

    /// Takes in a sequence of signals, one after the other, and returns all
    /// that the caller is to do, in order.
    pub fn run(&mut self, signals: Vec<Signal>) -> (directives: Vec<Directive>)
        ensures
            final(self)@ == session_run(old(self)@, signal_views(signals@)).0,
            directive_views(directives@) == session_run(old(self)@, signal_views(signals@)).1,
    {
        let mut directives: Vec<Directive> = Vec::new();
        let ghost start = self@;
        let ghost all = signals@;
        assert(signal_views(all.take(0)) =~= Seq::<SignalView>::empty());
        assert(directive_views(directives@) =~= Seq::<DirectiveView>::empty());
        for signal in iter: signals
            invariant
                iter.seq() == all,
                self@ == session_run(start, signal_views(all.take(iter.index() as int))).0,
                directive_views(directives@) == session_run(
                    start,
                    signal_views(all.take(iter.index() as int)),
                ).1,
        {
            let ghost taken = signal_views(all.take(iter.index() + 1));
            let ghost earlier = directives@;
            proof {
                assert(taken.drop_last() =~= signal_views(all.take(iter.index() as int)));
                assert(taken.last() == signal@);
            }
            let mut given = self.step(signal);
            let ghost added = given@;
            directives.append(&mut given);
            assert(directive_views(directives@) =~= directive_views(earlier) + directive_views(
                added,
            ));
        }
        assert(all.take(all.len() as int) =~= all);
        directives
    }

    /// Once both streams are done, moves on to awaiting the end of the
    /// process and asks the caller to wait for it.
    fn await_exit_when_drained(&mut self, directives: &mut Vec<Directive>)
        ensures
            !old(self)@.output.open && !old(self)@.diagnostic.open ==> final(self)@ == (
            SessionView { phase: Phase::Awaiting, ..old(self)@ }) && directive_views(
                final(directives)@,
            ) == directive_views(old(directives)@).push(DirectiveView::AwaitExit),
            old(self)@.output.open || old(self)@.diagnostic.open ==> final(self)@ == old(self)@
                && final(directives)@ == old(directives)@,
    {
        if !self.output.is_open() && !self.diagnostic.is_open() {
            self.phase = Phase::Awaiting;
            directives.push(Directive::AwaitExit);
            assert(directive_views(directives@) =~= directive_views(old(directives)@).push(
                DirectiveView::AwaitExit,
            ));
        }
    }
}

} // verus!

//! Runs of a session: what holds of the directives of every sequence of
//! signals, whatever the process and its streams do.

use vstd::prelude::*;
use crate::event::EventView;
use crate::reader::{chunk_events, lemma_feeding_in_pieces, reader_after_chunk, StreamKind};
use crate::session::{
    initial_session, process_error_event, process_exit_event, publish_all, reader_of,
    run_error_event, session_run, session_step, with_reader, DirectiveView, Phase, SessionView,
    SignalView,
};

verus! {

/// The directive concludes a session whose process could not be launched.
pub open spec fn is_launch_failure(directive: DirectiveView) -> bool {
    exists|reason: Seq<char>| directive == DirectiveView::Conclude(#[trigger] run_error_event(reason))
}

/// The directive publishes a terminal event: how the process ended, or that
/// waiting for its end failed.
pub open spec fn is_terminal(directive: DirectiveView) -> bool {
    ||| exists|status: Seq<char>|
        directive == DirectiveView::Conclude(#[trigger] process_exit_event(status))
    ||| exists|reason: Seq<char>|
        directive == DirectiveView::Conclude(#[trigger] process_error_event(reason))
}

/// All directives from `from` up to `to` publish the event of a line.
pub open spec fn all_publish(directives: Seq<DirectiveView>, from: int, to: int) -> bool {
    forall|i: int| from <= i < to ==> #[trigger] directives[i] is Publish
}

/// The shape of the directives of a run, by the phase it has reached: the
/// readers are started first, then come the events of lines, then the wait
/// for the end of the process, then one terminal event; or else the only
/// directive is the report of a failed launch.
pub open spec fn orderly(session: SessionView, directives: Seq<DirectiveView>) -> bool {
    let n = directives.len() as int;
    match session.phase {
        Phase::Idle => n == 0 && session == initial_session(),
        Phase::Streaming => {
            &&& n >= 1
            &&& directives[0] == DirectiveView::StartReaders
            &&& all_publish(directives, 1, n)
            &&& (session.output.open || session.diagnostic.open)
        },
        Phase::Awaiting => {
            &&& n >= 2
            &&& directives[0] == DirectiveView::StartReaders
            &&& all_publish(directives, 1, n - 1)
            &&& directives[n - 1] == DirectiveView::AwaitExit
            &&& !session.output.open
            &&& !session.diagnostic.open
        },
        Phase::Finished => {
            ||| n == 1 && is_launch_failure(directives[0])
            ||| {
                &&& n >= 3
                &&& directives[0] == DirectiveView::StartReaders
                &&& all_publish(directives, 1, n - 2)
                &&& directives[n - 2] == DirectiveView::AwaitExit
                &&& is_terminal(directives[n - 1])
                &&& !session.output.open
                &&& !session.diagnostic.open
            }
        },
    }
}

/// A step keeps the directives of a run in shape.
pub proof fn lemma_step_keeps_order(
    session: SessionView,
    directives: Seq<DirectiveView>,
    signal: SignalView,
)
    requires
        orderly(session, directives),
    ensures
        orderly(
            session_step(session, signal).0,
            directives + session_step(session, signal).1,
        ),
{
    let next = session_step(session, signal).0;
    let given = session_step(session, signal).1;
    let all = directives + given;
    let n = directives.len() as int;
    match (session.phase, signal) {
        (Phase::Idle, SignalView::SpawnFailed { reason }) => {
            assert(all[0] == DirectiveView::Conclude(run_error_event(reason)));
        },
        (Phase::Idle, SignalView::Spawned) => {
            assert(all[0] == DirectiveView::StartReaders);
        },
        (Phase::Streaming, SignalView::Chunk { stream, bytes }) => {
            assert(all[0] == directives[0]);
            assert forall|i: int| 1 <= i < all.len() implies #[trigger] all[i] is Publish by {
                if i < n {
                    assert(all[i] == directives[i]);
                } else {
                    assert(all[i] == given[i - n]);
                }
            }
        },
        (Phase::Streaming, SignalView::EndOfStream { stream }) => {
            lemma_stream_end_keeps_order(session, directives, signal);
        },
        (Phase::Streaming, SignalView::ReadFailed { stream }) => {
            lemma_stream_end_keeps_order(session, directives, signal);
        },
        (Phase::Awaiting, SignalView::Exited { status }) => {
            assert(all[0] == directives[0]);
            assert(all[n] == DirectiveView::Conclude(process_exit_event(status)));
            assert(all[n - 1] == directives[n - 1]);
            assert forall|i: int| 1 <= i < n - 1 implies #[trigger] all[i] is Publish by {
                assert(all[i] == directives[i]);
            }
        },
        (Phase::Awaiting, SignalView::WaitFailed { reason }) => {
            assert(all[0] == directives[0]);
            assert(all[n] == DirectiveView::Conclude(process_error_event(reason)));
            assert(all[n - 1] == directives[n - 1]);
            assert forall|i: int| 1 <= i < n - 1 implies #[trigger] all[i] is Publish by {
                assert(all[i] == directives[i]);
            }
        },
        _ => {
            assert(all =~= directives);
        },
    }
}

/// The end of a stream, or a failure to read it, keeps the directives of a
/// streaming session in shape.
proof fn lemma_stream_end_keeps_order(
    session: SessionView,
    directives: Seq<DirectiveView>,
    signal: SignalView,
)
    requires
        orderly(session, directives),
        session.phase == Phase::Streaming,
        signal is EndOfStream || signal is ReadFailed,
    ensures
        orderly(
            session_step(session, signal).0,
            directives + session_step(session, signal).1,
        ),
{
    let next = session_step(session, signal).0;
    let given = session_step(session, signal).1;
    let all = directives + given;
    let n = directives.len() as int;
    assert(all[0] == directives[0]);
    if next.phase == Phase::Awaiting {
        let m = all.len() as int;
        assert(all[m - 1] == given[given.len() - 1]);
        assert forall|i: int| 1 <= i < m - 1 implies #[trigger] all[i] is Publish by {
            if i < n {
                assert(all[i] == directives[i]);
            } else {
                assert(all[i] == given[i - n]);
            }
        }
    } else {
        assert forall|i: int| 1 <= i < all.len() implies #[trigger] all[i] is Publish by {
            if i < n {
                assert(all[i] == directives[i]);
            } else {
                assert(all[i] == given[i - n]);
            }
        }
    }
}

/// The directives of every run from the start are in shape.
pub proof fn lemma_runs_are_orderly(signals: Seq<SignalView>)
    ensures
        orderly(
            session_run(initial_session(), signals).0,
            session_run(initial_session(), signals).1,
        ),
    decreases signals.len(),
{
    if signals.len() > 0 {
        lemma_runs_are_orderly(signals.drop_last());
        let before = session_run(initial_session(), signals.drop_last());
        lemma_step_keeps_order(before.0, before.1, signals.last());
    }
}

/// A finished session takes no notice of anything: it stays as it is and
/// gives no directive.
pub proof fn lemma_finished_session_is_silent(session: SessionView, signals: Seq<SignalView>)
    requires
        session.phase == Phase::Finished,
    ensures
        session_run(session, signals) == (session, Seq::<DirectiveView>::empty()),
    decreases signals.len(),
{
    if signals.len() > 0 {
        lemma_finished_session_is_silent(session, signals.drop_last());
        assert(Seq::<DirectiveView>::empty() + Seq::<DirectiveView>::empty() =~= Seq::<
            DirectiveView,
        >::empty());
    }
}

/// A run can be taken in two parts: the second part goes on from where the
/// first has come to, and its directives follow those of the first.
pub proof fn lemma_run_in_pieces(
    start: SessionView,
    first: Seq<SignalView>,
    second: Seq<SignalView>,
)
    ensures
        session_run(start, first + second).0 == session_run(
            session_run(start, first).0,
            second,
        ).0,
        session_run(start, first + second).1 == session_run(start, first).1 + session_run(
            session_run(start, first).0,
            second,
        ).1,
    decreases second.len(),
{
    let middle = session_run(start, first);
    if second.len() == 0 {
        assert(first + second =~= first);
        assert(middle.1 + Seq::<DirectiveView>::empty() =~= middle.1);
    } else {
        lemma_run_in_pieces(start, first, second.drop_last());
        assert((first + second).drop_last() =~= first + second.drop_last());
        assert((first + second).last() == second.last());
        let shorter = session_run(middle.0, second.drop_last());
        let last = session_step(shorter.0, second.last());
        assert((middle.1 + shorter.1) + last.1 =~= middle.1 + (shorter.1 + last.1));
    }
}

/// Where the launch fails, the run publishes exactly one event, `run_error`
/// with the reason, and nothing else is ever asked for, whatever follows:
/// no reader is started, no line is published, no wait and no terminal
/// event.
pub proof fn lemma_spawn_failure_short_circuits(reason: Seq<char>, later: Seq<SignalView>)
    ensures
        session_run(initial_session(), seq![SignalView::SpawnFailed { reason }] + later).1
            == seq![DirectiveView::Conclude(run_error_event(reason))],
        session_run(initial_session(), seq![SignalView::SpawnFailed { reason }] + later).0.phase
            == Phase::Finished,
{
    let first = seq![SignalView::SpawnFailed { reason }];
    let report = seq![DirectiveView::Conclude(run_error_event(reason))];
    assert(first.drop_last() =~= Seq::<SignalView>::empty());
    assert(session_run(initial_session(), first.drop_last()).1 =~= Seq::<DirectiveView>::empty());
    let failed = session_run(initial_session(), first);
    assert(failed.1 =~= report);
    lemma_run_in_pieces(initial_session(), first, later);
    lemma_finished_session_is_silent(failed.0, later);
    assert(report + Seq::<DirectiveView>::empty() =~= report);
}

/// A session that was launched and has finished has published exactly one
/// terminal event: it is the last directive of the run, it follows the end
/// of both streams and the wait for the process, no directive before it
/// concludes anything, and nothing that happens later adds a directive.
pub proof fn lemma_exactly_one_terminal_event(signals: Seq<SignalView>, later: Seq<SignalView>)
    requires
        session_run(initial_session(), signals).0.phase == Phase::Finished,
        session_run(initial_session(), signals).1.contains(DirectiveView::StartReaders),
    ensures
        ({
            let run = session_run(initial_session(), signals);
            let n = run.1.len() as int;
            &&& n >= 3
            &&& is_terminal(run.1[n - 1])
            &&& run.1[n - 2] == DirectiveView::AwaitExit
            &&& forall|i: int| 0 <= i < n - 1 ==> !(#[trigger] run.1[i] is Conclude)
            &&& !run.0.output.open
            &&& !run.0.diagnostic.open
            &&& session_run(initial_session(), signals + later).1 == run.1
        }),
{
    let run = session_run(initial_session(), signals);
    let n = run.1.len() as int;
    lemma_runs_are_orderly(signals);
    if n == 1 && is_launch_failure(run.1[0]) {
        let i = choose|i: int| 0 <= i < n && run.1[i] == DirectiveView::StartReaders;
        assert(i == 0);
        assert(false);
    }
    assert forall|i: int| 0 <= i < n - 1 implies !(#[trigger] run.1[i] is Conclude) by {
        if 1 <= i < n - 2 {
            assert(run.1[i] is Publish);
        }
    }
    lemma_run_in_pieces(initial_session(), signals, later);
    lemma_finished_session_is_silent(run.0, later);
    assert(run.1 + Seq::<DirectiveView>::empty() =~= run.1);
}

/// No run concludes twice: at most one directive of a run is a conclusion,
/// and where there is one it is the last directive.
pub proof fn lemma_conclusion_comes_last(signals: Seq<SignalView>)
    ensures
        ({
            let run = session_run(initial_session(), signals);
            forall|i: int|
                0 <= i < run.1.len() && #[trigger] run.1[i] is Conclude ==> i == run.1.len() - 1
                    && run.0.phase == Phase::Finished
        }),
{
    let run = session_run(initial_session(), signals);
    let n = run.1.len() as int;
    lemma_runs_are_orderly(signals);
    assert forall|i: int| 0 <= i < n && #[trigger] run.1[i] is Conclude implies i == n - 1
        && run.0.phase == Phase::Finished by {
        match run.0.phase {
            Phase::Idle => {},
            Phase::Streaming => {
                if i >= 1 {
                    assert(run.1[i] is Publish);
                }
            },
            Phase::Awaiting => {
                if 1 <= i < n - 1 {
                    assert(run.1[i] is Publish);
                }
            },
            Phase::Finished => {
                if 1 <= i < n - 2 {
                    assert(run.1[i] is Publish);
                }
            },
        }
    }
}

/// The signals of one stream that delivers the given chunks in order.
pub open spec fn chunk_signals(stream: StreamKind, chunks: Seq<Seq<u8>>) -> Seq<SignalView> {
    Seq::new(chunks.len(), |i: int| SignalView::Chunk { stream, bytes: chunks[i] })
}

/// The chunks laid end to end: the bytes of the stream.
pub open spec fn concatenated(chunks: Seq<Seq<u8>>) -> Seq<u8>
    decreases chunks.len(),
{
    if chunks.len() == 0 {
        Seq::empty()
    } else {
        concatenated(chunks.drop_last()) + chunks.last()
    }
}

/// Publishing the events of two sequences one after the other publishes the
/// events of their concatenation.
pub proof fn lemma_publish_all_in_order(first: Seq<EventView>, second: Seq<EventView>)
    ensures
        publish_all(first) + publish_all(second) == publish_all(first + second),
{
    assert(publish_all(first) + publish_all(second) =~= publish_all(first + second));
}

/// While a session streams, the lines of a stream are published in the
/// order in which the stream produced them, however the stream arrives in
/// chunks: the directives of the chunks are one `Publish` for each event of
/// the lines of the whole stream, in line order, and the other stream's
/// reader is left as it was.
pub proof fn lemma_stream_is_published_in_order(
    session: SessionView,
    stream: StreamKind,
    chunks: Seq<Seq<u8>>,
)
    requires
        session.phase == Phase::Streaming,
        chunks.len() > 0,
    ensures
        session_run(session, chunk_signals(stream, chunks)).0 == with_reader(
            session,
            stream,
            reader_after_chunk(reader_of(session, stream), concatenated(chunks)),
        ),
        session_run(session, chunk_signals(stream, chunks)).1 == publish_all(
            chunk_events(reader_of(session, stream), concatenated(chunks)),
        ),
    decreases chunks.len(),
{
    let reader = reader_of(session, stream);
    let signals = chunk_signals(stream, chunks);
    let front = chunks.drop_last();
    assert(signals.drop_last() =~= chunk_signals(stream, front));
    assert(signals.last() == SignalView::Chunk { stream, bytes: chunks.last() });
    if chunks.len() == 1 {
        assert(concatenated(front) =~= Seq::<u8>::empty());
        assert(concatenated(chunks) =~= chunks.last());
        assert(session_run(session, signals.drop_last()).1 =~= Seq::<DirectiveView>::empty());
        assert(session_run(session, signals).1 =~= session_step(session, signals.last()).1);
    } else {
        lemma_stream_is_published_in_order(session, stream, front);
        let before = session_run(session, signals.drop_last());
        let sofar = concatenated(front);
        lemma_feeding_in_pieces(reader, sofar, chunks.last());
        lemma_publish_all_in_order(
            chunk_events(reader, sofar),
            chunk_events(reader_after_chunk(reader, sofar), chunks.last()),
        );
        assert(reader_of(before.0, stream) == reader_after_chunk(reader, sofar));
    }
}

} // verus!

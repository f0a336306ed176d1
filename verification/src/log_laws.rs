//! What holds of every log stream.

use vstd::prelude::*;
use crate::lines::{last_n, lines_of};
use crate::log::{
    byte_len, distinct, end_frame, line_frames, log_stream, text_of, LogActionView, LogEventView,
    LogStepView, LogStreamView,
};
use crate::protocol::ResponseView;

verus! {

/// The state of a stream after the reports `events`, taken in order.
pub open spec fn reached(state: LogStreamView, events: Seq<LogEventView>) -> LogStreamView
    decreases events.len(),
{
    if events.len() == 0 {
        state
    } else {
        reached(state.step(events[0]).0, events.drop_first())
    }
}

/// All frames that a stream hands out over the reports `events`, in order.
pub open spec fn sent(state: LogStreamView, events: Seq<LogEventView>) -> Seq<ResponseView>
    decreases events.len(),
{
    if events.len() == 0 {
        Seq::empty()
    } else {
        state.step(events[0]).1.frames + sent(state.step(events[0]).0, events.drop_first())
    }
}

/// Every frame of `frames` is a line of output.
pub open spec fn only_lines(frames: Seq<ResponseView>) -> bool {
    forall|i: int| 0 <= i < frames.len() ==> #[trigger] frames[i] is LogLine
}

/// `frames` is lines of output followed by the frame that ends a stream.
pub open spec fn lines_then_end(frames: Seq<ResponseView>) -> bool {
    &&& frames.len() >= 1
    &&& frames.last() == end_frame()
    &&& only_lines(frames.drop_last())
}

// ---------------------------------------------------------------------------
// Last lines
// ---------------------------------------------------------------------------

/// One step of a stream of last lines: it sends the last lines of the file
/// that was read, under the name of its stream, and nothing else; after the
/// last file it sends the end frame and closes.
pub proof fn history_step_sends_last_lines(state: LogStreamView, content: Option<Seq<char>>)
    requires
        state.wf(),
        state.phase is History,
    ensures
        ({
            let (after, step) = state.step(LogEventView::Content(content));
            let lines = last_n(lines_of(text_of(content)), state.lines as nat);
            &&& after.wf()
            &&& lines.len() <= state.lines
            &&& state.at_last() ==> after.phase is Closed && step.next is Close && step.frames
                == line_frames(state.label(), lines).push(end_frame())
            &&& !state.at_last() ==> after.phase is History && step.next is Read && step.frames
                == line_frames(state.label(), lines)
        }),
{
}

/// A stream that is over takes no report and sends nothing more.
pub proof fn lemma_closed_stays(state: LogStreamView, events: Seq<LogEventView>)
    requires
        state.phase is Closed,
    ensures
        reached(state, events) == state,
        sent(state, events) == Seq::<ResponseView>::empty(),
    decreases events.len(),
{
    if events.len() > 0 {
        lemma_closed_stays(state, events.drop_first());
    }
}

proof fn lemma_history_run(state: LogStreamView, events: Seq<LogEventView>)
    requires
        state.wf(),
        state.phase is History,
    ensures
        ({
            let after = reached(state, events);
            let frames = sent(state, events);
            &&& after.phase is History || after.phase is Closed
            &&& after.phase is History ==> only_lines(frames)
            &&& after.phase is Closed ==> lines_then_end(frames)
            &&& state.lines == 0 ==> frames == (if after.phase is Closed {
                seq![end_frame()]
            } else {
                Seq::empty()
            })
        }),
    decreases events.len(),
{
    if events.len() > 0 {
        let (next, step) = state.step(events[0]);
        let rest = events.drop_first();
        let after = reached(state, events);
        let frames = sent(state, events);
        match events[0] {
            LogEventView::Content(content) => {
                let lines = last_n(lines_of(text_of(content)), state.lines as nat);
                let shown = line_frames(state.label(), lines);
                assert(only_lines(shown));
                if state.at_last() {
                    lemma_closed_stays(next, rest);
                    assert(frames == shown.push(end_frame()));
                    assert(frames.drop_last() == shown);
                } else {
                    lemma_history_run(next, rest);
                    let tail = sent(next, rest);
                    assert(frames == shown + tail);
                    if after.phase is Closed {
                        assert(frames.drop_last() == shown + tail.drop_last());
                    }
                }
            },
            LogEventView::Failed => {
                let shown = Seq::<ResponseView>::empty();
                assert(line_frames(state.label(), last_n(lines_of(text_of(None)), state.lines as nat))
                    == shown);
                if state.at_last() {
                    lemma_closed_stays(next, rest);
                    assert(frames == shown.push(end_frame()));
                    assert(frames.drop_last() == shown);
                } else {
                    lemma_history_run(next, rest);
                    let tail = sent(next, rest);
                    assert(frames == shown + tail);
                    assert(frames == tail);
                }
            },
            _ => {
                assert(next == state);
                lemma_history_run(state, rest);
                assert(frames == Seq::<ResponseView>::empty() + sent(state, rest));
                assert(frames == sent(state, rest));
            },
        }
    }
}

/// A request for last lines gets lines of output and then the end frame:
/// whenever such a stream has closed, what it sent is at least one frame,
/// the last of them is the success frame without a message, and all
/// before it are lines. Until then it has sent lines only.
///
/// With zero lines asked for, it sends no line at all: nothing until the
/// end, then the end frame alone.
pub proof fn history_sends_lines_then_end(
    name: Option<Seq<char>>,
    lines: u64,
    table: Seq<Seq<char>>,
    data_dir: Seq<char>,
    events: Seq<LogEventView>,
)
    requires
        distinct(table),
    ensures
        ({
            let (begun, first) = log_stream(name, lines, false, table, data_dir);
            let after = reached(begun, events);
            let frames = first.frames + sent(begun, events);
            &&& after.phase is History || after.phase is Closed
            &&& after.phase is History ==> only_lines(frames)
            &&& after.phase is Closed ==> lines_then_end(frames)
            &&& lines == 0 ==> frames == (if after.phase is Closed {
                seq![end_frame()]
            } else {
                Seq::empty()
            })
        }),
{
    let (begun, first) = log_stream(name, lines, false, table, data_dir);
    if name is None && table.len() == 0 {
        lemma_closed_stays(begun, events);
        assert(first.frames + sent(begun, events) == first.frames);
        assert(first.frames.drop_last() == Seq::<ResponseView>::empty());
    } else {
        assert(first.frames == Seq::<ResponseView>::empty());
        lemma_history_run(begun, events);
        assert(first.frames + sent(begun, events) == sent(begun, events));
    }
}

/// Where no process is named and none is managed, a log request has
/// nothing to show: it is answered with the end frame alone, and the
/// stream is over.
pub proof fn log_of_nothing_is_the_end_frame(lines: u64, follow: bool, data_dir: Seq<char>)
    ensures
        ({
            let (begun, first) = log_stream(None, lines, follow, Seq::empty(), data_dir);
            &&& first.next is Close
            &&& begun.phase is Closed
            &&& first.frames == seq![end_frame()]
        }),
{
}

// ---------------------------------------------------------------------------
// Following
// ---------------------------------------------------------------------------

/// The stream follows: it is neither sending last lines nor over.
pub open spec fn following(state: LogStreamView) -> bool {
    state.wf() && !(state.phase is History) && !(state.phase is Closed)
}

/// The request is noted at the end of each file: while the lengths are
/// taken, the offset into a file becomes the length that is reported of
/// it, or zero for a file that is absent.
pub proof fn follow_starts_at_the_end(state: LogStreamView, length: Option<u64>)
    requires
        state.wf(),
        state.phase is Snapshot,
    ensures
        ({
            let after = state.step(LogEventView::Length(length)).0;
            &&& after.tails.len() == state.tails.len()
            &&& after.tails[state.index].offset(state.stream) == (match length {
                Some(bytes) => bytes,
                None => 0,
            })
            &&& after.tails[state.index].name == state.tail().name
        }),
{
}

/// A file is read only where it has grown, and from where the stream has
/// come to: a poll that finds a file longer than its offset asks for the
/// file from that offset, and one that does not asks for nothing of it.
pub proof fn follow_reads_what_was_appended(state: LogStreamView, length: Option<u64>)
    requires
        state.wf(),
        state.phase is Probe,
    ensures
        ({
            let (after, step) = state.step(LogEventView::Length(length));
            let grown = length is Some && length->0 > state.offset();
            &&& step.frames.len() == 0
            &&& after.tails == state.tails
            &&& grown ==> step.next == (LogActionView::Read {
                path: state.path(),
                from: state.offset(),
            })
            &&& !grown ==> !(step.next is Read)
        }),
{
}

/// What was read is sent line by line, and the offset moves on by the
/// bytes that were read.
pub proof fn follow_sends_each_line_once(state: LogStreamView, content: Option<Seq<char>>)
    requires
        state.wf(),
        state.phase is Read,
        state.accepts(LogEventView::Content(content)),
    ensures
        ({
            let (after, step) = state.step(LogEventView::Content(content));
            &&& step.frames == line_frames(state.label(), lines_of(text_of(content)))
            &&& after.tails.len() == state.tails.len()
            &&& after.tails[state.index].offset(state.stream) == state.offset() + byte_len(
                text_of(content),
            )
        }),
{
}

/// Once the lengths are taken, no offset ever goes back, whatever is
/// reported: nothing is sent twice.
pub proof fn follow_never_goes_back(state: LogStreamView, event: LogEventView)
    requires
        following(state),
        !(state.phase is Snapshot),
        state.accepts(event),
    ensures
        ({
            let after = state.step(event).0;
            &&& following(after) || after.phase is Closed
            &&& !(after.phase is Snapshot)
            &&& after.tails.len() == state.tails.len()
            &&& forall|i: int|
                0 <= i < state.tails.len() ==> {
                    &&& (#[trigger] after.tails[i]).name == state.tails[i].name
                    &&& after.tails[i].stdout_offset >= state.tails[i].stdout_offset
                    &&& after.tails[i].stderr_offset >= state.tails[i].stderr_offset
                }
        }),
{
}

/// A stream that follows sends lines of output only, and never closes by
/// itself: it goes on until an action fails or nobody is left to send to.
pub proof fn follow_sends_only_lines(state: LogStreamView, event: LogEventView)
    requires
        following(state),
    ensures
        only_lines(state.step(event).1.frames),
        !(event is Failed) && !(event is Hangup) ==> following(state.step(event).0),
        !(event is Failed) && !(event is Hangup) ==> !(state.step(event).1.next is Close),
        state.step(event).1.next is Close ==> state.step(event).0.phase is Closed
            && state.step(event).1.frames.len() == 0,
{
}

/// A stream that follows does not outlive its client: when it is told that
/// the client has closed the connection or that the supervisor shuts down,
/// it ends at once, whatever it was doing, and sends nothing more. So it
/// does when a wait or a flush fails.
pub proof fn follow_ends_with_its_client(state: LogStreamView)
    requires
        following(state),
    ensures
        state.step(LogEventView::Hangup) == state.closed(),
        state.closed().0.phase is Closed,
        state.closed().1 == (LogStepView { frames: Seq::empty(), next: LogActionView::Close }),
        !(state.phase is Snapshot) ==> state.step(LogEventView::Failed) == state.closed(),
{
}

/// A stream of last lines takes no notice of a client that has closed: it
/// ends by itself, after the last file.
pub proof fn history_ignores_a_hangup(state: LogStreamView)
    requires
        state.phase is History,
    ensures
        state.step(LogEventView::Hangup).0 == state,
        state.step(LogEventView::Hangup).1.next is Ignored,
        state.step(LogEventView::Hangup).1.frames.len() == 0,
{
}

} // verus!

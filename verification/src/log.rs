//! Sending the output of managed processes to a client.
//!
//! The output of a process lies in two files, one for each of its output
//! streams. A log request is answered either from what the files hold now
//! (the last lines of each), or by following them: the files are polled, and
//! what has been appended since the request is sent on.
//!
//! Reading files, writing to the client and waiting are the caller's part.
//! [`handle_log`] and [`LogStream::step`] say what to do: each hands out the
//! frames to send now and one [`LogAction`], and the caller reports how the
//! action ended with the next call of `step`.
//!
//! What a stream does is defined by the functions on [`LogStreamView`]; the
//! executable methods compute exactly those.

use vstd::prelude::*;
use vstd::utf8::encode_utf8;
use crate::lines::{last_lines, last_n, lines_of, split_lines};
use crate::paths::{stderr_log_path, stdout_log_path, Paths};
use crate::protocol::{Response, ResponseView};
use crate::table::{names_of, ProcessTable};
use crate::text::clone_opt_string;

verus! {

/// Milliseconds between two polls of the files that are followed.
pub const POLL_INTERVAL_MS: u64 = 100;

/// One of the two output streams of a process.
#[derive(Debug, Clone, Copy, PartialEq, Eq, Structural)]
pub enum Stream {
    Stdout,
    Stderr,
}

/// How far the output of one process has been sent on: a byte offset into
/// each of its two log files.
#[derive(Debug, PartialEq, Eq)]
pub struct LogTail {
    pub name: String,
    pub stdout_offset: u64,
    pub stderr_offset: u64,
}

/// The mathematical content of a [`LogTail`].
pub struct LogTailView {
    pub name: Seq<char>,
    pub stdout_offset: u64,
    pub stderr_offset: u64,
}

impl View for LogTail {
    type V = LogTailView;

    open spec fn view(&self) -> LogTailView {
        LogTailView {
            name: self.name@,
            stdout_offset: self.stdout_offset,
            stderr_offset: self.stderr_offset,
        }
    }
}

impl DeepView for LogTail {
    type V = LogTailView;

    open spec fn deep_view(&self) -> LogTailView {
        self.view()
    }
}

impl LogTailView {
    /// The offset into the file of `stream`.
    pub open spec fn offset(self, stream: Stream) -> u64 {
        match stream {
            Stream::Stdout => self.stdout_offset,
            Stream::Stderr => self.stderr_offset,
        }
    }

    /// The tail with the offset into the file of `stream` set to `offset`.
    pub open spec fn with_offset(self, stream: Stream, offset: u64) -> LogTailView {
        match stream {
            Stream::Stdout => LogTailView { stdout_offset: offset, ..self },
            Stream::Stderr => LogTailView { stderr_offset: offset, ..self },
        }
    }
}

// ---------------------------------------------------------------------------
// Actions and events
// ---------------------------------------------------------------------------

/// What the caller of a log stream is to do next, after it has sent the
/// frames that came with the action.
#[derive(Debug, PartialEq, Eq)]
pub enum LogAction {
    /// Find out how long the file is; report with [`LogEvent::Length`],
    /// or with [`LogEvent::Failed`].
    Stat { path: String },
    /// Read the file from byte `from` to its end; report with
    /// [`LogEvent::Content`], or with [`LogEvent::Failed`].
    Read { path: String, from: u64 },
    /// Flush what was written to the client; report with
    /// [`LogEvent::Done`], or with [`LogEvent::Failed`].
    Flush,
    /// Wait for `millis` milliseconds; report with [`LogEvent::Done`], or
    /// with [`LogEvent::Hangup`] if meanwhile the client has closed the
    /// connection or the supervisor has begun to shut down.
    Sleep { millis: u64 },
    /// The stream is over: close the connection.
    Close,
    /// The event answered no action; nothing has changed.
    Ignored,
}

/// The mathematical content of a [`LogAction`].
pub enum LogActionView {
    Stat { path: Seq<char> },
    Read { path: Seq<char>, from: u64 },
    Flush,
    Sleep { millis: u64 },
    Close,
    Ignored,
}

impl View for LogAction {
    type V = LogActionView;

    open spec fn view(&self) -> LogActionView {
        match self {
            LogAction::Stat { path } => LogActionView::Stat { path: path@ },
            LogAction::Read { path, from } => LogActionView::Read { path: path@, from: *from },
            LogAction::Flush => LogActionView::Flush,
            LogAction::Sleep { millis } => LogActionView::Sleep { millis: *millis },
            LogAction::Close => LogActionView::Close,
            LogAction::Ignored => LogActionView::Ignored,
        }
    }
}

/// How the action that was handed out last ended.
#[derive(Debug, PartialEq, Eq)]
pub enum LogEvent {
    /// The length of the file in bytes, or nothing if the file is absent
    /// or cannot be opened.
    Length(Option<u64>),
    /// What was read, or nothing if the file is absent or cannot be read.
    Content(Option<String>),
    /// The flush or the wait is over.
    Done,
    /// The action failed: the length could not be found out, the file
    /// could not be read, or the flush went wrong.
    Failed,
    /// Nobody is left to send to: the client has closed the connection, or
    /// the supervisor is shutting down. This may be reported in place of
    /// the report of any action.
    Hangup,
}

/// The mathematical content of a [`LogEvent`].
pub enum LogEventView {
    Length(Option<u64>),
    Content(Option<Seq<char>>),
    Done,
    Failed,
    Hangup,
}

impl View for LogEvent {
    type V = LogEventView;

    open spec fn view(&self) -> LogEventView {
        match self {
            LogEvent::Length(length) => LogEventView::Length(*length),
            LogEvent::Content(text) => LogEventView::Content(text.deep_view()),
            LogEvent::Done => LogEventView::Done,
            LogEvent::Failed => LogEventView::Failed,
            LogEvent::Hangup => LogEventView::Hangup,
        }
    }
}

/// The frames to send now, and what to do after that.
#[derive(Debug, PartialEq, Eq)]
pub struct LogStep {
    pub frames: Vec<Response>,
    pub next: LogAction,
}

/// The mathematical content of a [`LogStep`].
pub struct LogStepView {
    pub frames: Seq<ResponseView>,
    pub next: LogActionView,
}

impl View for LogStep {
    type V = LogStepView;

    open spec fn view(&self) -> LogStepView {
        LogStepView { frames: self.frames.deep_view(), next: self.next@ }
    }
}

// ---------------------------------------------------------------------------
// The model
// ---------------------------------------------------------------------------

/// What a stream is doing.
#[derive(Debug, Clone, Copy, PartialEq, Eq, Structural)]
pub enum LogPhase {
    /// Sending the last lines of each file; waits for the content of one.
    History,
    /// Noting how long each file is when the request comes; waits for the
    /// length of one.
    Snapshot,
    /// Polling; waits for the length of a file.
    Probe,
    /// Polling; waits for what was appended to a file.
    Read,
    /// Waits for the flush at the end of a poll.
    Flush,
    /// Waits for the next poll.
    Sleep,
    /// Over.
    Closed,
}

/// The number of bytes that `text` takes in a file.
pub open spec fn byte_len(text: Seq<char>) -> nat {
    encode_utf8(text).len()
}

/// The name to put on the lines of `stream` of the process `name`: none
/// where only one process is shown.
pub open spec fn label_of(name: Seq<char>, stream: Stream, show_prefix: bool) -> Option<Seq<char>> {
    if !show_prefix {
        None
    } else {
        match stream {
            Stream::Stdout => Some(name),
            Stream::Stderr => Some(name + ":err"@),
        }
    }
}

/// One frame for each of `lines`, in order, under the name `label`.
pub open spec fn line_frames(label: Option<Seq<char>>, lines: Seq<Seq<char>>) -> Seq<ResponseView> {
    Seq::new(lines.len(), |i: int| ResponseView::LogLine { name: label, line: lines[i] })
}

/// The frame that ends a stream of last lines.
pub open spec fn end_frame() -> ResponseView {
    ResponseView::Success { message: None }
}

/// The text that was read, or none.
pub open spec fn text_of(content: Option<Seq<char>>) -> Seq<char> {
    match content {
        Some(text) => text,
        None => Seq::empty(),
    }
}

/// The processes whose output a request is about: the one it names, or
/// every process in the table.
pub open spec fn log_targets(name: Option<Seq<char>>, table: Seq<Seq<char>>) -> Seq<Seq<char>> {
    match name {
        Some(one) => seq![one],
        None => table,
    }
}

/// No name occurs twice in `names`.
pub open spec fn distinct(names: Seq<Seq<char>>) -> bool {
    forall|i: int, j: int| 0 <= i < j < names.len() ==> names[i] != names[j]
}

/// No two tails are of the same process.
pub open spec fn distinct_tails(tails: Seq<LogTailView>) -> bool {
    forall|i: int, j: int| 0 <= i < j < tails.len() ==> tails[i].name != tails[j].name
}

/// A tail at the start of both files.
pub open spec fn fresh_tail(name: Seq<char>) -> LogTailView {
    LogTailView { name, stdout_offset: 0, stderr_offset: 0 }
}

/// The state of a log stream.
pub struct LogStreamView {
    /// One tail for each process, in the order in which they are shown.
    pub tails: Seq<LogTailView>,
    /// Whether lines carry the name of their process.
    pub show_prefix: bool,
    pub data_dir: Seq<char>,
    /// How many last lines of each file are wanted.
    pub lines: u64,
    /// The process and the stream that are being dealt with.
    pub index: int,
    pub stream: Stream,
    pub phase: LogPhase,
    /// Whether the poll in progress has sent anything.
    pub any_output: bool,
}

impl LogStreamView {
    /// What holds of every stream: each process has one tail, and the
    /// stream is dealing with one of them while it waits for a file.
    pub open spec fn wf(self) -> bool {
        &&& distinct_tails(self.tails)
        &&& 0 <= self.index <= self.tails.len()
        &&& (self.phase is History || self.phase is Snapshot || self.phase is Probe
            || self.phase is Read) ==> self.index < self.tails.len()
    }

    /// The tail of the process that is being dealt with.
    pub open spec fn tail(self) -> LogTailView {
        self.tails[self.index]
    }

    /// The file that is being dealt with.
    pub open spec fn path(self) -> Seq<char> {
        match self.stream {
            Stream::Stdout => stdout_log_path(self.data_dir, self.tail().name),
            Stream::Stderr => stderr_log_path(self.data_dir, self.tail().name),
        }
    }

    /// The name on the lines of the file that is being dealt with.
    pub open spec fn label(self) -> Option<Seq<char>> {
        label_of(self.tail().name, self.stream, self.show_prefix)
    }

    /// How far the file that is being dealt with has been sent on.
    pub open spec fn offset(self) -> u64 {
        self.tail().offset(self.stream)
    }

    /// The file that is being dealt with is the last of all.
    pub open spec fn at_last(self) -> bool {
        self.index + 1 >= self.tails.len() && self.stream is Stderr
    }

    /// The state with the next file in turn: after the output of a process
    /// its error output, after that the output of the process that follows.
    pub open spec fn moved(self) -> LogStreamView {
        match self.stream {
            Stream::Stdout => LogStreamView { stream: Stream::Stderr, ..self },
            Stream::Stderr => LogStreamView {
                index: self.index + 1,
                stream: Stream::Stdout,
                ..self
            },
        }
    }

    /// The state with the offset into the file that is being dealt with
    /// set to `offset`.
    pub open spec fn with_offset(self, offset: u64) -> LogStreamView {
        LogStreamView {
            tails: self.tails.update(self.index, self.tail().with_offset(self.stream, offset)),
            ..self
        }
    }

    /// Waits for the next poll.
    pub open spec fn sleep(self) -> (LogStreamView, LogActionView) {
        (
            LogStreamView { phase: LogPhase::Sleep, ..self },
            LogActionView::Sleep { millis: POLL_INTERVAL_MS },
        )
    }

    /// Begins a poll with the first file, or waits where there is none.
    pub open spec fn poll(self) -> (LogStreamView, LogActionView) {
        if self.tails.len() == 0 {
            self.sleep()
        } else {
            let first = LogStreamView {
                index: 0,
                stream: Stream::Stdout,
                phase: LogPhase::Probe,
                any_output: false,
                ..self
            };
            (first, LogActionView::Stat { path: first.path() })
        }
    }

    /// Goes on after a file has been polled: to the next file, or, after
    /// the last, to the flush if anything was sent and else to the wait.
    pub open spec fn polled(self) -> (LogStreamView, LogActionView) {
        if self.at_last() {
            if self.any_output {
                (LogStreamView { phase: LogPhase::Flush, ..self }, LogActionView::Flush)
            } else {
                self.sleep()
            }
        } else {
            let moved = LogStreamView { phase: LogPhase::Probe, ..self.moved() };
            (moved, LogActionView::Stat { path: moved.path() })
        }
    }

    /// The stream that sends the last `lines` lines of each file of
    /// `names`, and its first step.
    pub open spec fn history(
        names: Seq<Seq<char>>,
        show_prefix: bool,
        lines: u64,
        data_dir: Seq<char>,
    ) -> (LogStreamView, LogStepView) {
        let start = LogStreamView {
            tails: Seq::new(names.len(), |i: int| fresh_tail(names[i])),
            show_prefix,
            data_dir,
            lines,
            index: 0,
            stream: Stream::Stdout,
            phase: LogPhase::History,
            any_output: false,
        };
        if names.len() == 0 {
            (
                LogStreamView { phase: LogPhase::Closed, ..start },
                LogStepView { frames: seq![end_frame()], next: LogActionView::Close },
            )
        } else {
            (
                start,
                LogStepView {
                    frames: Seq::empty(),
                    next: LogActionView::Read { path: start.path(), from: 0 },
                },
            )
        }
    }

    /// The stream that follows the files of `names`, and its first step.
    /// It begins by asking how long each file is. Where there is nothing
    /// to follow, it is over at once, with the end frame.
    pub open spec fn follow(names: Seq<Seq<char>>, show_prefix: bool, data_dir: Seq<char>) -> (
        LogStreamView,
        LogStepView,
    ) {
        let start = LogStreamView {
            tails: Seq::new(names.len(), |i: int| fresh_tail(names[i])),
            show_prefix,
            data_dir,
            lines: 0,
            index: 0,
            stream: Stream::Stdout,
            phase: LogPhase::Snapshot,
            any_output: false,
        };
        if names.len() == 0 {
            (
                LogStreamView { phase: LogPhase::Closed, ..start },
                LogStepView { frames: seq![end_frame()], next: LogActionView::Close },
            )
        } else {
            (
                start,
                LogStepView {
                    frames: Seq::empty(),
                    next: LogActionView::Stat { path: start.path() },
                },
            )
        }
    }

    /// Whether `event` can be taken in this state: it can, unless it
    /// brings more bytes than an offset can count.
    pub open spec fn accepts(self, event: LogEventView) -> bool {
        (self.phase is Read && event is Content) ==> self.offset() + byte_len(
            text_of(event->Content_0),
        ) <= u64::MAX
    }

    /// The stream is over, with nothing more to send.
    pub open spec fn closed(self) -> (LogStreamView, LogStepView) {
        (
            LogStreamView { phase: LogPhase::Closed, ..self },
            LogStepView { frames: Seq::empty(), next: LogActionView::Close },
        )
    }

    /// The state after the failure of the action in hand. While last
    /// lines are sent, a file that cannot be read counts as absent; so does
    /// a file whose length cannot be found out when the request comes. Once
    /// files are followed, a failure ends the stream.
    pub open spec fn failed(self) -> (LogStreamView, LogStepView) {
        match self.phase {
            LogPhase::History => self.reported(LogEventView::Content(None)),
            LogPhase::Snapshot => self.reported(LogEventView::Length(None)),
            LogPhase::Probe | LogPhase::Read | LogPhase::Flush | LogPhase::Sleep => self.closed(),
            LogPhase::Closed => (
                self,
                LogStepView { frames: Seq::empty(), next: LogActionView::Ignored },
            ),
        }
    }

    /// The state after the report that nobody is left to send to. A stream
    /// that follows ends, whatever it was doing; a stream of last lines,
    /// which ends by itself, takes no notice.
    pub open spec fn hung_up(self) -> (LogStreamView, LogStepView) {
        match self.phase {
            LogPhase::Snapshot | LogPhase::Probe | LogPhase::Read | LogPhase::Flush
            | LogPhase::Sleep => self.closed(),
            LogPhase::History | LogPhase::Closed => (
                self,
                LogStepView { frames: Seq::empty(), next: LogActionView::Ignored },
            ),
        }
    }

    /// The state after `event`, the frames to send, and the next action.
    pub open spec fn step(self, event: LogEventView) -> (LogStreamView, LogStepView) {
        if event is Failed {
            self.failed()
        } else if event is Hangup {
            self.hung_up()
        } else {
            self.reported(event)
        }
    }

    /// The state after `event`, which reports how the action in hand went
    /// or that it failed, the frames to send, and the next action.
    pub open spec fn reported(self, event: LogEventView) -> (LogStreamView, LogStepView) {
        match (self.phase, event) {
            (LogPhase::History, LogEventView::Content(content)) => {
                let frames = line_frames(
                    self.label(),
                    last_n(lines_of(text_of(content)), self.lines as nat),
                );
                if self.at_last() {
                    (
                        LogStreamView { phase: LogPhase::Closed, ..self },
                        LogStepView { frames: frames.push(end_frame()), next: LogActionView::Close },
                    )
                } else {
                    let moved = self.moved();
                    (
                        moved,
                        LogStepView {
                            frames,
                            next: LogActionView::Read { path: moved.path(), from: 0 },
                        },
                    )
                }
            },
            (LogPhase::Snapshot, LogEventView::Length(length)) => {
                let noted = self.with_offset(
                    match length {
                        Some(bytes) => bytes,
                        None => 0,
                    },
                );
                if self.at_last() {
                    let (state, next) = noted.poll();
                    (state, LogStepView { frames: Seq::empty(), next })
                } else {
                    let moved = noted.moved();
                    (
                        moved,
                        LogStepView {
                            frames: Seq::empty(),
                            next: LogActionView::Stat { path: moved.path() },
                        },
                    )
                }
            },
            (LogPhase::Probe, LogEventView::Length(length)) => {
                if length is Some && length->0 > self.offset() {
                    (
                        LogStreamView { phase: LogPhase::Read, ..self },
                        LogStepView {
                            frames: Seq::empty(),
                            next: LogActionView::Read { path: self.path(), from: self.offset() },
                        },
                    )
                } else {
                    let (state, next) = self.polled();
                    (state, LogStepView { frames: Seq::empty(), next })
                }
            },
            (LogPhase::Read, LogEventView::Content(content)) => {
                let text = text_of(content);
                let frames = line_frames(self.label(), lines_of(text));
                let read = LogStreamView {
                    any_output: self.any_output || frames.len() > 0,
                    ..self.with_offset((self.offset() + byte_len(text)) as u64)
                };
                let (state, next) = read.polled();
                (state, LogStepView { frames, next })
            },
            (LogPhase::Flush, LogEventView::Done) => {
                let (state, next) = self.sleep();
                (state, LogStepView { frames: Seq::empty(), next })
            },
            (LogPhase::Sleep, LogEventView::Done) => {
                let (state, next) = self.poll();
                (state, LogStepView { frames: Seq::empty(), next })
            },
            _ => (self, LogStepView { frames: Seq::empty(), next: LogActionView::Ignored }),
        }
    }
}

/// The stream that answers a log request, and its first step.
///
/// The lines of each file carry the name of their process unless one
/// process was named. Where no process is named and none is managed, the
/// stream is over at once: its only frame is the end frame.
pub open spec fn log_stream(
    name: Option<Seq<char>>,
    lines: u64,
    follow: bool,
    table: Seq<Seq<char>>,
    data_dir: Seq<char>,
) -> (LogStreamView, LogStepView) {
    let names = log_targets(name, table);
    let show_prefix = name is None || names.len() > 1;
    if follow {
        LogStreamView::follow(names, show_prefix, data_dir)
    } else {
        LogStreamView::history(names, show_prefix, lines, data_dir)
    }
}

// ---------------------------------------------------------------------------
// The stream
// ---------------------------------------------------------------------------

/// A log request being answered.
#[derive(Debug)]
pub struct LogStream {
    tails: Vec<LogTail>,
    show_prefix: bool,
    paths: Paths,
    lines: u64,
    index: usize,
    stream: Stream,
    phase: LogPhase,
    any_output: bool,
}

impl View for LogStream {
    type V = LogStreamView;

    closed spec fn view(&self) -> LogStreamView {
        LogStreamView {
            tails: self.tails.deep_view(),
            show_prefix: self.show_prefix,
            data_dir: self.paths@,
            lines: self.lines,
            index: self.index as int,
            stream: self.stream,
            phase: self.phase,
            any_output: self.any_output,
        }
    }
}

/// One frame for each of `lines`, in order, under the name `label`.
pub fn frames_of_lines(label: &Option<String>, lines: &Vec<String>) -> (frames: Vec<Response>)
    ensures
        frames.deep_view() == line_frames(label.deep_view(), lines.deep_view()),
{
    let mut frames: Vec<Response> = Vec::new();
    let mut i: usize = 0;
    while i < lines.len()
        invariant
            i <= lines.len(),
            frames.deep_view() == line_frames(label.deep_view(), lines.deep_view()).take(i as int),
        decreases lines.len() - i,
    {
        let ghost before = frames.deep_view();
        let frame = Response::LogLine { name: clone_opt_string(label), line: lines[i].clone() };
        frames.push(frame);
        assert(frames.deep_view() == before.push(
            ResponseView::LogLine { name: label.deep_view(), line: lines[i as int]@ },
        ));
        i += 1;
    }
    frames
}

fn fresh_tails(names: Vec<String>) -> (tails: Vec<LogTail>)
    ensures
        tails.deep_view() == Seq::new(
            names.deep_view().len(),
            |i: int| fresh_tail(names.deep_view()[i]),
        ),
{
    let mut tails: Vec<LogTail> = Vec::new();
    let mut i: usize = 0;
    while i < names.len()
        invariant
            i <= names.len(),
            tails.deep_view() == Seq::new(
                names.deep_view().len(),
                |i: int| fresh_tail(names.deep_view()[i]),
            ).take(i as int),
        decreases names.len() - i,
    {
        let ghost before = tails.deep_view();
        tails.push(LogTail { name: names[i].clone(), stdout_offset: 0, stderr_offset: 0 });
        assert(tails.deep_view() == before.push(fresh_tail(names[i as int]@)));
        i += 1;
    }
    tails
}

impl LogStream {
    /// What holds of every stream.
    pub open spec fn wf(&self) -> bool {
        self@.wf()
    }

    fn path(&self) -> (path: String)
        requires
            self@.index < self@.tails.len(),
        ensures
            path@ == self@.path(),
    {
        match self.stream {
            Stream::Stdout => self.paths.stdout_log(self.tails[self.index].name.as_str()),
            Stream::Stderr => self.paths.stderr_log(self.tails[self.index].name.as_str()),
        }
    }

    fn label(&self) -> (label: Option<String>)
        requires
            self@.index < self@.tails.len(),
        ensures
            label.deep_view() == self@.label(),
    {
        if !self.show_prefix {
            None
        } else {
            match self.stream {
                Stream::Stdout => Some(self.tails[self.index].name.clone()),
                Stream::Stderr => Some(self.tails[self.index].name.clone().concat(":err")),
            }
        }
    }

    fn offset(&self) -> (offset: u64)
        requires
            self@.index < self@.tails.len(),
        ensures
            offset == self@.offset(),
    {
        match self.stream {
            Stream::Stdout => self.tails[self.index].stdout_offset,
            Stream::Stderr => self.tails[self.index].stderr_offset,
        }
    }

    fn set_offset(&mut self, offset: u64)
        requires
            old(self)@.index < old(self)@.tails.len(),
            old(self).wf(),
        ensures
            final(self)@ == old(self)@.with_offset(offset),
            final(self).wf(),
    {
        let ghost before = self.tails.deep_view();
        let mut tail = self.tails.remove(self.index);
        match self.stream {
            Stream::Stdout => {
                tail.stdout_offset = offset;
            },
            Stream::Stderr => {
                tail.stderr_offset = offset;
            },
        }
        let ghost changed = tail@;
        self.tails.insert(self.index, tail);
        assert(self.tails.deep_view() == before.update(self.index as int, changed));
    }

    fn at_last(&self) -> (last: bool)
        requires
            self.wf(),
        ensures
            last == self@.at_last(),
    {
        self.tails.len() - self.index <= 1 && self.stream == Stream::Stderr
    }

    fn advance(&mut self)
        requires
            old(self).wf(),
            !old(self)@.at_last(),
            old(self)@.index < old(self)@.tails.len(),
        ensures
            final(self)@ == old(self)@.moved(),
            final(self).wf(),
            final(self)@.index < final(self)@.tails.len(),
    {
        match self.stream {
            Stream::Stdout => {
                self.stream = Stream::Stderr;
            },
            Stream::Stderr => {
                assert(self.index < self.tails.len());
                self.index += 1;
                self.stream = Stream::Stdout;
            },
        }
    }

    fn sleep(&mut self) -> (next: LogAction)
        requires
            old(self).wf(),
        ensures
            (final(self)@, next@) == old(self)@.sleep(),
            final(self).wf(),
    {
        self.phase = LogPhase::Sleep;
        LogAction::Sleep { millis: POLL_INTERVAL_MS }
    }

    fn poll(&mut self) -> (next: LogAction)
        requires
            old(self).wf(),
        ensures
            (final(self)@, next@) == old(self)@.poll(),
            final(self).wf(),
    {
        if self.tails.len() == 0 {
            self.sleep()
        } else {
            self.index = 0;
            self.stream = Stream::Stdout;
            self.phase = LogPhase::Probe;
            self.any_output = false;
            LogAction::Stat { path: self.path() }
        }
    }

    fn polled(&mut self) -> (next: LogAction)
        requires
            old(self).wf(),
            old(self)@.index < old(self)@.tails.len(),
        ensures
            (final(self)@, next@) == old(self)@.polled(),
            final(self).wf(),
    {
        if self.at_last() {
            if self.any_output {
                self.phase = LogPhase::Flush;
                LogAction::Flush
            } else {
                self.sleep()
            }
        } else {
            self.advance();
            self.phase = LogPhase::Probe;
            LogAction::Stat { path: self.path() }
        }
    }

    /// The stream that sends the last `lines` lines of each file of
    /// `names`, and its first step.
    pub fn history(names: Vec<String>, show_prefix: bool, lines: u64, paths: &Paths) -> (begun: (
        LogStream,
        LogStep,
    ))
        requires
            distinct(names.deep_view()),
        ensures
            (begun.0@, begun.1@) == LogStreamView::history(
                names.deep_view(),
                show_prefix,
                lines,
                paths@,
            ),
            begun.0.wf(),
    {
        let count = names.len();
        let mut stream = LogStream {
            tails: fresh_tails(names),
            show_prefix,
            paths: paths.clone(),
            lines,
            index: 0,
            stream: Stream::Stdout,
            phase: LogPhase::History,
            any_output: false,
        };
        if count == 0 {
            stream.phase = LogPhase::Closed;
            let mut frames: Vec<Response> = Vec::new();
            frames.push(Response::Success { message: None });
            assert(frames.deep_view() == seq![end_frame()]);
            (stream, LogStep { frames, next: LogAction::Close })
        } else {
            let path = stream.path();
            let frames: Vec<Response> = Vec::new();
            assert(frames.deep_view() == Seq::<ResponseView>::empty());
            (stream, LogStep { frames, next: LogAction::Read { path, from: 0 } })
        }
    }

    /// The stream that follows the files of `names`, and its first step.
    pub fn follow(names: Vec<String>, show_prefix: bool, paths: &Paths) -> (begun: (
        LogStream,
        LogStep,
    ))
        requires
            distinct(names.deep_view()),
        ensures
            (begun.0@, begun.1@) == LogStreamView::follow(names.deep_view(), show_prefix, paths@),
            begun.0.wf(),
    {
        let count = names.len();
        let mut stream = LogStream {
            tails: fresh_tails(names),
            show_prefix,
            paths: paths.clone(),
            lines: 0,
            index: 0,
            stream: Stream::Stdout,
            phase: LogPhase::Snapshot,
            any_output: false,
        };
        if count == 0 {
            stream.phase = LogPhase::Closed;
            let mut frames: Vec<Response> = Vec::new();
            frames.push(Response::Success { message: None });
            assert(frames.deep_view() == seq![end_frame()]);
            (stream, LogStep { frames, next: LogAction::Close })
        } else {
            let path = stream.path();
            let frames: Vec<Response> = Vec::new();
            assert(frames.deep_view() == Seq::<ResponseView>::empty());
            (stream, LogStep { frames, next: LogAction::Stat { path } })
        }
    }

    /// Whether `event` can be handed to [`LogStream::step`].
    pub fn accepts(&self, event: &LogEvent) -> (ok: bool)
        requires
            self.wf(),
        ensures
            ok == self@.accepts(event@),
    {
        match (self.phase, event) {
            (LogPhase::Read, LogEvent::Content(Some(text))) => {
                text.as_str().as_bytes().len() as u64 <= u64::MAX - self.offset()
            },
            (LogPhase::Read, LogEvent::Content(None)) => {
                assert(byte_len(Seq::<char>::empty()) == 0) by {
                    reveal_with_fuel(encode_utf8, 1);
                }
                true
            },
            _ => true,
        }
    }

    /// Takes in how the last action ended; says which frames to send now
    /// and what to do after that.
    pub fn step(&mut self, event: LogEvent) -> (step: LogStep)
        requires
            old(self).wf(),
            old(self)@.accepts(event@),
        ensures
            (final(self)@, step@) == old(self)@.step(event@),
            final(self).wf(),
    {
        let frames: Vec<Response> = Vec::new();
        assert(frames.deep_view() == Seq::<ResponseView>::empty());
        match event {
            LogEvent::Failed => match self.phase {
                LogPhase::History => self.reported(LogEvent::Content(None)),
                LogPhase::Snapshot => self.reported(LogEvent::Length(None)),
                LogPhase::Probe | LogPhase::Read | LogPhase::Flush | LogPhase::Sleep => {
                    self.phase = LogPhase::Closed;
                    LogStep { frames, next: LogAction::Close }
                },
                LogPhase::Closed => LogStep { frames, next: LogAction::Ignored },
            },
            LogEvent::Hangup => match self.phase {
                LogPhase::Snapshot | LogPhase::Probe | LogPhase::Read | LogPhase::Flush
                | LogPhase::Sleep => {
                    self.phase = LogPhase::Closed;
                    LogStep { frames, next: LogAction::Close }
                },
                LogPhase::History | LogPhase::Closed => LogStep { frames, next: LogAction::Ignored },
            },
            event => self.reported(event),
        }
    }

    fn reported(&mut self, event: LogEvent) -> (step: LogStep)
        requires
            old(self).wf(),
            old(self)@.accepts(event@),
        ensures
            (final(self)@, step@) == old(self)@.reported(event@),
            final(self).wf(),
    {
        let none: Vec<Response> = Vec::new();
        assert(none.deep_view() == Seq::<ResponseView>::empty());
        match (self.phase, event) {
            (LogPhase::History, LogEvent::Content(content)) => {
                let lines = match &content {
                    Some(text) => last_lines(text.as_str(), self.lines),
                    None => {
                        let lines = last_lines("", self.lines);
                        proof {
                            reveal_strlit("");
                            assert(""@ == Seq::<char>::empty());
                        }
                        lines
                    },
                };
                let mut frames = frames_of_lines(&self.label(), &lines);
                if self.at_last() {
                    self.phase = LogPhase::Closed;
                    let ghost before = frames.deep_view();
                    frames.push(Response::Success { message: None });
                    assert(frames.deep_view() == before.push(end_frame()));
                    LogStep { frames, next: LogAction::Close }
                } else {
                    self.advance();
                    LogStep { frames, next: LogAction::Read { path: self.path(), from: 0 } }
                }
            },
            (LogPhase::Snapshot, LogEvent::Length(length)) => {
                let last = self.at_last();
                self.set_offset(
                    match length {
                        Some(bytes) => bytes,
                        None => 0,
                    },
                );
                if last {
                    let next = self.poll();
                    LogStep { frames: none, next }
                } else {
                    self.advance();
                    LogStep { frames: none, next: LogAction::Stat { path: self.path() } }
                }
            },
            (LogPhase::Probe, LogEvent::Length(length)) => {
                let grown = match length {
                    Some(bytes) => bytes > self.offset(),
                    None => false,
                };
                if grown {
                    self.phase = LogPhase::Read;
                    LogStep {
                        frames: none,
                        next: LogAction::Read { path: self.path(), from: self.offset() },
                    }
                } else {
                    let next = self.polled();
                    LogStep { frames: none, next }
                }
            },
            (LogPhase::Read, LogEvent::Content(content)) => {
                let (lines, bytes) = match &content {
                    Some(text) => (split_lines(text.as_str()), text.as_str().as_bytes().len() as u64),
                    None => {
                        let lines = split_lines("");
                        proof {
                            reveal_strlit("");
                            assert(""@ == Seq::<char>::empty());
                            reveal_with_fuel(encode_utf8, 1);
                        }
                        (lines, 0)
                    },
                };
                let frames = frames_of_lines(&self.label(), &lines);
                let offset = self.offset() + bytes;
                self.set_offset(offset);
                self.any_output = self.any_output || frames.len() > 0;
                let next = self.polled();
                LogStep { frames, next }
            },
            (LogPhase::Flush, LogEvent::Done) => {
                let next = self.sleep();
                LogStep { frames: none, next }
            },
            (LogPhase::Sleep, LogEvent::Done) => {
                let next = self.poll();
                LogStep { frames: none, next }
            },
            _ => LogStep { frames: none, next: LogAction::Ignored },
        }
    }
}

/// Begins to answer a log request: says which frames to send at once and
/// what to do after that.
///
/// `name` is the process whose output is wanted; without it the output of
/// every process in `table` is. `lines` is how many last lines of each file
/// to send; `follow` asks for what is appended from now on instead.
pub fn handle_log(
    name: Option<String>,
    lines: u64,
    follow: bool,
    table: &ProcessTable,
    paths: &Paths,
) -> (begun: (LogStream, LogStep))
    requires
        table.wf(),
    ensures
        (begun.0@, begun.1@) == log_stream(
            name.deep_view(),
            lines,
            follow,
            names_of(table@),
            paths@,
        ),
        begun.0.wf(),
{
    let unnamed = name.is_none();
    let names = match name {
        Some(one) => {
            let mut names: Vec<String> = Vec::new();
            names.push(one);
            assert(names.deep_view() == seq![one@]);
            names
        },
        None => table.names(),
    };
    let show_prefix = unnamed || names.len() > 1;
    if follow {
        LogStream::follow(names, show_prefix, paths)
    } else {
        LogStream::history(names, show_prefix, lines, paths)
    }
}

} // verus!

//! The life of the supervisor: from the guard against a second instance,
//! through the loop that accepts connections, to the removal of what it
//! left on disk.
//!
//! Files, sockets and signals are the caller's part. [`run`] and
//! [`Daemon::step`] say what to do; the caller reports how each action ended
//! with the next call of `step`, until the action is [`DaemonAction::Exit`].
//!
//! The supervisor owns its PID file from the moment it has written it, and
//! its endpoint from the moment it has bound it. Whatever happens after
//! that, it removes both before it exits.

use vstd::prelude::*;
use crate::paths::{pid_file_path, socket_file_path, Paths};
use crate::pid::{guard_of, guard_pid, pid_file_content, pid_text};

verus! {

/// How far the supervisor has come.
#[derive(Debug, Clone, Copy, PartialEq, Eq, Structural)]
pub enum DaemonPhase {
    /// Making sure that the data directory exists.
    CreatingDir,
    /// Reading the PID file, if there is one.
    ReadingPid,
    /// Finding out whether the process named in the PID file is alive.
    Probing,
    /// Writing its own PID file.
    WritingPid,
    /// Finding out whether an endpoint was left behind.
    CheckingSocket,
    /// Removing the endpoint that was left behind.
    RemovingStale,
    /// Binding its own endpoint.
    Binding,
    /// Waiting for a connection, a shutdown or a signal.
    Accepting,
    /// Stopping every child.
    Draining,
    /// Removing its endpoint.
    RemovingSocket,
    /// Removing its PID file.
    RemovingPid,
    /// Over.
    Exited,
}

/// What the caller is to do next.
#[derive(Debug, PartialEq, Eq)]
pub enum DaemonAction {
    /// Create the directory and its parents; report `Done` or `Failed`.
    CreateDir { path: String },
    /// Read the file; report `PidFile` with what it holds, or with nothing
    /// if there is no file, or `Failed`.
    ReadPidFile { path: String },
    /// Find out with a zero signal whether the process is alive and one's
    /// own; report `Alive` or `Failed`.
    Probe { pid: u32 },
    /// Write the file, in one piece; report `Done` or `Failed`.
    WritePidFile { path: String, content: String },
    /// Find out whether the path exists; report `Exists`.
    CheckSocket { path: String },
    /// Remove the endpoint; report `Done` or `Failed`.
    RemoveSocket { path: String },
    /// Bind the endpoint; report `Done` or `Failed`.
    Bind { path: String },
    /// Wait for whichever comes first: a connection (`Accepted`), a change
    /// of the shutdown watch (`Shutdown` with its value), a terminate or
    /// interrupt signal (`Signal`), or a failure to accept (`Failed`).
    Accept,
    /// Give the connection just accepted a handler of its own that runs
    /// beside the loop, then wait as for `Accept`.
    Serve,
    /// Stop every child (see `Dispatcher::drain`); report `Done`.
    Drain,
    /// Remove the PID file; report `Done` or `Failed`.
    RemovePidFile { path: String },
    /// End, with this error if there is one.
    Exit { error: Option<String> },
    /// The event answered no action; nothing has changed.
    Ignored,
}

/// The mathematical content of a [`DaemonAction`].
pub enum DaemonActionView {
    CreateDir { path: Seq<char> },
    ReadPidFile { path: Seq<char> },
    Probe { pid: u32 },
    WritePidFile { path: Seq<char>, content: Seq<char> },
    CheckSocket { path: Seq<char> },
    RemoveSocket { path: Seq<char> },
    Bind { path: Seq<char> },
    Accept,
    Serve,
    Drain,
    RemovePidFile { path: Seq<char> },
    Exit { error: Option<Seq<char>> },
    Ignored,
}

impl View for DaemonAction {
    type V = DaemonActionView;

    open spec fn view(&self) -> DaemonActionView {
        match self {
            DaemonAction::CreateDir { path } => DaemonActionView::CreateDir { path: path@ },
            DaemonAction::ReadPidFile { path } => DaemonActionView::ReadPidFile { path: path@ },
            DaemonAction::Probe { pid } => DaemonActionView::Probe { pid: *pid },
            DaemonAction::WritePidFile { path, content } => DaemonActionView::WritePidFile {
                path: path@,
                content: content@,
            },
            DaemonAction::CheckSocket { path } => DaemonActionView::CheckSocket { path: path@ },
            DaemonAction::RemoveSocket { path } => DaemonActionView::RemoveSocket { path: path@ },
            DaemonAction::Bind { path } => DaemonActionView::Bind { path: path@ },
            DaemonAction::Accept => DaemonActionView::Accept,
            DaemonAction::Serve => DaemonActionView::Serve,
            DaemonAction::Drain => DaemonActionView::Drain,
            DaemonAction::RemovePidFile { path } => DaemonActionView::RemovePidFile { path: path@ },
            DaemonAction::Exit { error } => DaemonActionView::Exit { error: error.deep_view() },
            DaemonAction::Ignored => DaemonActionView::Ignored,
        }
    }
}

/// How the action that was handed out last ended, or what the wait for the
/// next event brought.
#[derive(Debug, PartialEq, Eq)]
pub enum DaemonEvent {
    Done,
    Failed { reason: String },
    PidFile(Option<String>),
    Alive(bool),
    Exists(bool),
    Accepted,
    Shutdown(bool),
    Signal,
}

/// The mathematical content of a [`DaemonEvent`].
pub enum DaemonEventView {
    Done,
    Failed { reason: Seq<char> },
    PidFile(Option<Seq<char>>),
    Alive(bool),
    Exists(bool),
    Accepted,
    Shutdown(bool),
    Signal,
}

impl View for DaemonEvent {
    type V = DaemonEventView;

    open spec fn view(&self) -> DaemonEventView {
        match self {
            DaemonEvent::Done => DaemonEventView::Done,
            DaemonEvent::Failed { reason } => DaemonEventView::Failed { reason: reason@ },
            DaemonEvent::PidFile(content) => DaemonEventView::PidFile(content.deep_view()),
            DaemonEvent::Alive(alive) => DaemonEventView::Alive(*alive),
            DaemonEvent::Exists(exists) => DaemonEventView::Exists(*exists),
            DaemonEvent::Accepted => DaemonEventView::Accepted,
            DaemonEvent::Shutdown(now) => DaemonEventView::Shutdown(*now),
            DaemonEvent::Signal => DaemonEventView::Signal,
        }
    }
}

/// The state of the supervisor's life.
pub struct DaemonView {
    pub data_dir: Seq<char>,
    /// The supervisor's own process id.
    pub pid: u32,
    pub phase: DaemonPhase,
    /// The error to end with, once there is one.
    pub error: Option<Seq<char>>,
}

pub open spec fn exit(error: Option<Seq<char>>) -> DaemonActionView {
    DaemonActionView::Exit { error }
}

impl DaemonView {
    /// The state in another phase.
    pub open spec fn at(self, phase: DaemonPhase) -> DaemonView {
        DaemonView { phase, ..self }
    }

    /// Ends at once with the error `reason`. This is for failures before
    /// anything was written.
    pub open spec fn abort(self, reason: Seq<char>) -> (DaemonView, DaemonActionView) {
        (DaemonView { phase: DaemonPhase::Exited, error: Some(reason), ..self }, exit(Some(reason)))
    }

    /// Goes on to write the PID file.
    pub open spec fn write_pid(self) -> (DaemonView, DaemonActionView) {
        (
            self.at(DaemonPhase::WritingPid),
            DaemonActionView::WritePidFile {
                path: pid_file_path(self.data_dir),
                content: pid_text(self.pid),
            },
        )
    }

    /// Goes on to bind the endpoint.
    pub open spec fn bind(self) -> (DaemonView, DaemonActionView) {
        (
            self.at(DaemonPhase::Binding),
            DaemonActionView::Bind { path: socket_file_path(self.data_dir) },
        )
    }

    /// Goes on to remove the PID file.
    pub open spec fn remove_pid(self) -> (DaemonView, DaemonActionView) {
        (
            self.at(DaemonPhase::RemovingPid),
            DaemonActionView::RemovePidFile { path: pid_file_path(self.data_dir) },
        )
    }

    /// Leaves the accept loop: every child is stopped first.
    pub open spec fn drain(self) -> (DaemonView, DaemonActionView) {
        (self.at(DaemonPhase::Draining), DaemonActionView::Drain)
    }

    /// The state with the error to end with set to `reason`.
    pub open spec fn failing(self, reason: Seq<char>) -> DaemonView {
        DaemonView { error: Some(reason), ..self }
    }

    /// The state after `event`, and the next action.
    pub open spec fn next(self, event: DaemonEventView) -> (DaemonView, DaemonActionView) {
        match (self.phase, event) {
            (DaemonPhase::CreatingDir, DaemonEventView::Done) => (
                self.at(DaemonPhase::ReadingPid),
                DaemonActionView::ReadPidFile { path: pid_file_path(self.data_dir) },
            ),
            (DaemonPhase::ReadingPid, DaemonEventView::PidFile(content)) => match guard_of(content) {
                Some(pid) => (self.at(DaemonPhase::Probing), DaemonActionView::Probe { pid }),
                None => self.write_pid(),
            },
            (DaemonPhase::Probing, DaemonEventView::Alive(alive)) => if alive {
                self.abort("daemon is already running"@)
            } else {
                self.write_pid()
            },
            (DaemonPhase::WritingPid, DaemonEventView::Done) => (
                self.at(DaemonPhase::CheckingSocket),
                DaemonActionView::CheckSocket { path: socket_file_path(self.data_dir) },
            ),
            (DaemonPhase::CreatingDir, DaemonEventView::Failed { reason })
            | (DaemonPhase::ReadingPid, DaemonEventView::Failed { reason })
            | (DaemonPhase::Probing, DaemonEventView::Failed { reason })
            | (DaemonPhase::WritingPid, DaemonEventView::Failed { reason }) => self.abort(reason),
            (DaemonPhase::CheckingSocket, DaemonEventView::Exists(exists)) => if exists {
                (
                    self.at(DaemonPhase::RemovingStale),
                    DaemonActionView::RemoveSocket { path: socket_file_path(self.data_dir) },
                )
            } else {
                self.bind()
            },
            (DaemonPhase::RemovingStale, DaemonEventView::Done) => self.bind(),
            (DaemonPhase::Binding, DaemonEventView::Done) => (
                self.at(DaemonPhase::Accepting),
                DaemonActionView::Accept,
            ),
            (DaemonPhase::RemovingStale, DaemonEventView::Failed { reason })
            | (DaemonPhase::Binding, DaemonEventView::Failed { reason }) => self.failing(
                reason,
            ).remove_pid(),
            (DaemonPhase::Accepting, DaemonEventView::Accepted) => (self, DaemonActionView::Serve),
            (DaemonPhase::Accepting, DaemonEventView::Shutdown(now)) => if now {
                self.drain()
            } else {
                (self, DaemonActionView::Accept)
            },
            (DaemonPhase::Accepting, DaemonEventView::Signal) => self.drain(),
            (DaemonPhase::Accepting, DaemonEventView::Failed { reason }) => self.failing(
                reason,
            ).drain(),
            (DaemonPhase::Draining, DaemonEventView::Done)
            | (DaemonPhase::Draining, DaemonEventView::Failed { .. }) => (
                self.at(DaemonPhase::RemovingSocket),
                DaemonActionView::RemoveSocket { path: socket_file_path(self.data_dir) },
            ),
            (DaemonPhase::RemovingSocket, DaemonEventView::Done)
            | (DaemonPhase::RemovingSocket, DaemonEventView::Failed { .. }) => self.remove_pid(),
            (DaemonPhase::RemovingPid, DaemonEventView::Done)
            | (DaemonPhase::RemovingPid, DaemonEventView::Failed { .. }) => (
                self.at(DaemonPhase::Exited),
                exit(self.error),
            ),
            _ => (self, DaemonActionView::Ignored),
        }
    }
}

/// The beginning: the data directory is made first.
pub open spec fn started(data_dir: Seq<char>, pid: u32) -> (DaemonView, DaemonActionView) {
    (
        DaemonView { data_dir, pid, phase: DaemonPhase::CreatingDir, error: None },
        DaemonActionView::CreateDir { path: data_dir },
    )
}

/// The supervisor's life, under way.
#[derive(Debug)]
pub struct Daemon {
    paths: Paths,
    pid: u32,
    phase: DaemonPhase,
    error: Option<String>,
}

impl View for Daemon {
    type V = DaemonView;

    closed spec fn view(&self) -> DaemonView {
        DaemonView {
            data_dir: self.paths@,
            pid: self.pid,
            phase: self.phase,
            error: self.error.deep_view(),
        }
    }
}

/// Begins the life of a supervisor with process id `pid` in the data
/// directory of `paths`, and says what to do first.
pub fn run(paths: Paths, pid: u32) -> (begun: (Daemon, DaemonAction))
    ensures
        (begun.0@, begun.1@) == started(paths@, pid),
{
    let path = paths.data_dir();
    let daemon = Daemon { paths, pid, phase: DaemonPhase::CreatingDir, error: None };
    (daemon, DaemonAction::CreateDir { path })
}

impl Daemon {
    /// The phase the supervisor is in.
    pub fn phase(&self) -> (phase: DaemonPhase)
        ensures
            phase == self@.phase,
    {
        self.phase
    }

    fn abort(&mut self, reason: String) -> (action: DaemonAction)
        ensures
            (final(self)@, action@) == old(self)@.abort(reason@),
    {
        self.phase = DaemonPhase::Exited;
        self.error = Some(reason.clone());
        DaemonAction::Exit { error: Some(reason) }
    }

    fn write_pid(&mut self) -> (action: DaemonAction)
        ensures
            (final(self)@, action@) == old(self)@.write_pid(),
    {
        self.phase = DaemonPhase::WritingPid;
        DaemonAction::WritePidFile {
            path: self.paths.pid_file(),
            content: pid_file_content(self.pid),
        }
    }

    fn bind(&mut self) -> (action: DaemonAction)
        ensures
            (final(self)@, action@) == old(self)@.bind(),
    {
        self.phase = DaemonPhase::Binding;
        DaemonAction::Bind { path: self.paths.socket_file() }
    }

    fn remove_pid(&mut self) -> (action: DaemonAction)
        ensures
            (final(self)@, action@) == old(self)@.remove_pid(),
    {
        self.phase = DaemonPhase::RemovingPid;
        DaemonAction::RemovePidFile { path: self.paths.pid_file() }
    }

    fn drain(&mut self) -> (action: DaemonAction)
        ensures
            (final(self)@, action@) == old(self)@.drain(),
    {
        self.phase = DaemonPhase::Draining;
        DaemonAction::Drain
    }

    /// Takes in how the last action ended and says what to do next.
    pub fn step(&mut self, event: DaemonEvent) -> (action: DaemonAction)
        ensures
            (final(self)@, action@) == old(self)@.next(event@),
    {
        match (self.phase, event) {
            (DaemonPhase::CreatingDir, DaemonEvent::Done) => {
                self.phase = DaemonPhase::ReadingPid;
                DaemonAction::ReadPidFile { path: self.paths.pid_file() }
            },
            (DaemonPhase::ReadingPid, DaemonEvent::PidFile(content)) => match guard_pid(&content) {
                Some(pid) => {
                    self.phase = DaemonPhase::Probing;
                    DaemonAction::Probe { pid }
                },
                None => self.write_pid(),
            },
            (DaemonPhase::Probing, DaemonEvent::Alive(alive)) => {
                if alive {
                    self.abort(String::from_str("daemon is already running"))
                } else {
                    self.write_pid()
                }
            },
            (DaemonPhase::WritingPid, DaemonEvent::Done) => {
                self.phase = DaemonPhase::CheckingSocket;
                DaemonAction::CheckSocket { path: self.paths.socket_file() }
            },
            (DaemonPhase::CreatingDir, DaemonEvent::Failed { reason })
            | (DaemonPhase::ReadingPid, DaemonEvent::Failed { reason })
            | (DaemonPhase::Probing, DaemonEvent::Failed { reason })
            | (DaemonPhase::WritingPid, DaemonEvent::Failed { reason }) => self.abort(reason),
            (DaemonPhase::CheckingSocket, DaemonEvent::Exists(exists)) => {
                if exists {
                    self.phase = DaemonPhase::RemovingStale;
                    DaemonAction::RemoveSocket { path: self.paths.socket_file() }
                } else {
                    self.bind()
                }
            },
            (DaemonPhase::RemovingStale, DaemonEvent::Done) => self.bind(),
            (DaemonPhase::Binding, DaemonEvent::Done) => {
                self.phase = DaemonPhase::Accepting;
                DaemonAction::Accept
            },
            (DaemonPhase::RemovingStale, DaemonEvent::Failed { reason })
            | (DaemonPhase::Binding, DaemonEvent::Failed { reason }) => {
                self.error = Some(reason);
                self.remove_pid()
            },
            (DaemonPhase::Accepting, DaemonEvent::Accepted) => DaemonAction::Serve,
            (DaemonPhase::Accepting, DaemonEvent::Shutdown(now)) => {
                if now {
                    self.drain()
                } else {
                    DaemonAction::Accept
                }
            },
            (DaemonPhase::Accepting, DaemonEvent::Signal) => self.drain(),
            (DaemonPhase::Accepting, DaemonEvent::Failed { reason }) => {
                self.error = Some(reason);
                self.drain()
            },
            (DaemonPhase::Draining, DaemonEvent::Done)
            | (DaemonPhase::Draining, DaemonEvent::Failed { .. }) => {
                self.phase = DaemonPhase::RemovingSocket;
                DaemonAction::RemoveSocket { path: self.paths.socket_file() }
            },
            (DaemonPhase::RemovingSocket, DaemonEvent::Done)
            | (DaemonPhase::RemovingSocket, DaemonEvent::Failed { .. }) => self.remove_pid(),
            (DaemonPhase::RemovingPid, DaemonEvent::Done)
            | (DaemonPhase::RemovingPid, DaemonEvent::Failed { .. }) => {
                self.phase = DaemonPhase::Exited;
                DaemonAction::Exit { error: crate::text::clone_opt_string(&self.error) }
            },
            _ => DaemonAction::Ignored,
        }
    }
}

} // verus!

//! Stopping one child gracefully: first the terminate signal and time to
//! exit, then, for a child that is still there, the kill signal.
//!
//! Signals and waits are the caller's part. [`GracefulStop::begin`] and
//! [`GracefulStop::step`] say what to do; the caller reports how each action
//! ended with the next call of `step`, until the action is
//! [`StopAction::Finish`].

use vstd::prelude::*;
use crate::dispatch::{StopOutcome, StopOutcomeView};
use crate::protocol::ProcessStatus;

verus! {

/// The two signals a child is sent.
#[derive(Debug, Clone, Copy, PartialEq, Eq, Structural)]
pub enum Signal {
    /// Asks the child to exit (`SIGTERM`).
    Terminate,
    /// Ends the child (`SIGKILL`).
    Kill,
}

/// How far the stop has come.
#[derive(Debug, Clone, Copy, PartialEq, Eq, Structural)]
pub enum StopPhase {
    /// The terminate signal is being sent.
    Terminating,
    /// The child has its time to exit.
    Waiting,
    /// The kill signal is being sent.
    Killing,
    /// The killed child is awaited, however long it takes.
    Reaping,
    /// Over.
    Done,
}

/// What the caller is to do next.
#[derive(Debug, PartialEq, Eq)]
pub enum StopAction {
    /// Send `signal` to the process `pid`; report [`StopEvent::Sent`] or
    /// [`StopEvent::Failed`].
    Send { pid: u32, signal: Signal },
    /// Wait until the child has exited and reap it, for at most
    /// `timeout_ms` milliseconds if that is given. Report
    /// [`StopEvent::Exited`], [`StopEvent::TimedOut`] or
    /// [`StopEvent::Failed`].
    Wait { timeout_ms: Option<u64> },
    /// The stop is over, with this outcome.
    Finish { outcome: StopOutcome },
    /// The event answered no action; nothing has changed.
    Ignored,
}

/// The mathematical content of a [`StopAction`].
pub enum StopActionView {
    Send { pid: u32, signal: Signal },
    Wait { timeout_ms: Option<u64> },
    Finish { outcome: StopOutcomeView },
    Ignored,
}

impl View for StopAction {
    type V = StopActionView;

    open spec fn view(&self) -> StopActionView {
        match self {
            StopAction::Send { pid, signal } => StopActionView::Send { pid: *pid, signal: *signal },
            StopAction::Wait { timeout_ms } => StopActionView::Wait { timeout_ms: *timeout_ms },
            StopAction::Finish { outcome } => StopActionView::Finish { outcome: outcome@ },
            StopAction::Ignored => StopActionView::Ignored,
        }
    }
}

/// How the action that was handed out last ended.
#[derive(Debug, PartialEq, Eq)]
pub enum StopEvent {
    /// The signal was sent.
    Sent,
    /// The child has exited and been reaped.
    Exited,
    /// The time is up and the child is still there.
    TimedOut,
    /// The signal could not be sent, or the wait failed.
    Failed { reason: String },
}

/// The mathematical content of a [`StopEvent`].
pub enum StopEventView {
    Sent,
    Exited,
    TimedOut,
    Failed { reason: Seq<char> },
}

impl View for StopEvent {
    type V = StopEventView;

    open spec fn view(&self) -> StopEventView {
        match self {
            StopEvent::Sent => StopEventView::Sent,
            StopEvent::Exited => StopEventView::Exited,
            StopEvent::TimedOut => StopEventView::TimedOut,
            StopEvent::Failed { reason } => StopEventView::Failed { reason: reason@ },
        }
    }
}

/// The stop of one child, under way.
#[derive(Debug, Clone, Copy, PartialEq, Eq)]
pub struct GracefulStop {
    /// The process id of the child.
    pub pid: u32,
    /// Milliseconds the child has to exit after the terminate signal.
    pub kill_timeout_ms: u64,
    pub phase: StopPhase,
}

pub open spec fn stopped() -> StopActionView {
    StopActionView::Finish { outcome: StopOutcomeView::Stopped }
}

pub open spec fn failed(reason: Seq<char>) -> StopActionView {
    StopActionView::Finish { outcome: StopOutcomeView::Failed { reason } }
}

impl GracefulStop {
    /// The stop with another phase.
    pub open spec fn at(self, phase: StopPhase) -> GracefulStop {
        GracefulStop { phase, ..self }
    }

    /// The beginning of the stop of a process with status `status` and
    /// child `pid`. A process that is stopped, or whose child has been
    /// reaped, needs nothing done: the stop is over at once, with success.
    /// Any other is sent the terminate signal first.
    pub open spec fn begun(status: ProcessStatus, pid: Option<u32>, kill_timeout_ms: u64) -> (
        GracefulStop,
        StopActionView,
    ) {
        match pid {
            Some(pid) if status != ProcessStatus::Stopped => (
                GracefulStop { pid, kill_timeout_ms, phase: StopPhase::Terminating },
                StopActionView::Send { pid, signal: Signal::Terminate },
            ),
            _ => (
                GracefulStop {
                    pid: match pid {
                        Some(pid) => pid,
                        None => 0,
                    },
                    kill_timeout_ms,
                    phase: StopPhase::Done,
                },
                stopped(),
            ),
        }
    }

    /// The stop after `event`, and the next action.
    ///
    /// After the terminate signal the child has `kill_timeout_ms` to exit.
    /// If it has not by then, it is sent the kill signal and awaited
    /// without a limit. The stop succeeds when the child has exited, and
    /// fails when a signal cannot be sent or a wait fails.
    pub open spec fn next(self, event: StopEventView) -> (GracefulStop, StopActionView) {
        match (self.phase, event) {
            (StopPhase::Terminating, StopEventView::Sent) => (
                self.at(StopPhase::Waiting),
                StopActionView::Wait { timeout_ms: Some(self.kill_timeout_ms) },
            ),
            (StopPhase::Waiting, StopEventView::Exited) => (self.at(StopPhase::Done), stopped()),
            (StopPhase::Waiting, StopEventView::TimedOut) => (
                self.at(StopPhase::Killing),
                StopActionView::Send { pid: self.pid, signal: Signal::Kill },
            ),
            (StopPhase::Killing, StopEventView::Sent) => (
                self.at(StopPhase::Reaping),
                StopActionView::Wait { timeout_ms: None },
            ),
            (StopPhase::Reaping, StopEventView::Exited) => (self.at(StopPhase::Done), stopped()),
            (StopPhase::Terminating, StopEventView::Failed { reason })
            | (StopPhase::Waiting, StopEventView::Failed { reason })
            | (StopPhase::Killing, StopEventView::Failed { reason })
            | (StopPhase::Reaping, StopEventView::Failed { reason }) => (
                self.at(StopPhase::Done),
                failed(reason),
            ),
            _ => (self, StopActionView::Ignored),
        }
    }

    /// Begins to stop a process with status `status` and child `pid`.
    pub fn begin(status: ProcessStatus, pid: Option<u32>, kill_timeout_ms: u64) -> (begun: (
        GracefulStop,
        StopAction,
    ))
        ensures
            (begun.0, begun.1@) == GracefulStop::begun(status, pid, kill_timeout_ms),
    {
        match pid {
            Some(pid) if status != ProcessStatus::Stopped => (
                GracefulStop { pid, kill_timeout_ms, phase: StopPhase::Terminating },
                StopAction::Send { pid, signal: Signal::Terminate },
            ),
            _ => (
                GracefulStop {
                    pid: match pid {
                        Some(pid) => pid,
                        None => 0,
                    },
                    kill_timeout_ms,
                    phase: StopPhase::Done,
                },
                StopAction::Finish { outcome: StopOutcome::Stopped },
            ),
        }
    }

    /// Takes in how the last action ended and says what to do next.
    pub fn step(&mut self, event: StopEvent) -> (action: StopAction)
        ensures
            (*final(self), action@) == old(self).next(event@),
    {
        match (self.phase, event) {
            (StopPhase::Terminating, StopEvent::Sent) => {
                self.phase = StopPhase::Waiting;
                StopAction::Wait { timeout_ms: Some(self.kill_timeout_ms) }
            },
            (StopPhase::Waiting, StopEvent::Exited) => {
                self.phase = StopPhase::Done;
                StopAction::Finish { outcome: StopOutcome::Stopped }
            },
            (StopPhase::Waiting, StopEvent::TimedOut) => {
                self.phase = StopPhase::Killing;
                StopAction::Send { pid: self.pid, signal: Signal::Kill }
            },
            (StopPhase::Killing, StopEvent::Sent) => {
                self.phase = StopPhase::Reaping;
                StopAction::Wait { timeout_ms: None }
            },
            (StopPhase::Reaping, StopEvent::Exited) => {
                self.phase = StopPhase::Done;
                StopAction::Finish { outcome: StopOutcome::Stopped }
            },
            (StopPhase::Done, StopEvent::Failed { reason }) => StopAction::Ignored,
            (_, StopEvent::Failed { reason }) => {
                self.phase = StopPhase::Done;
                StopAction::Finish { outcome: StopOutcome::Failed { reason } }
            },
            _ => StopAction::Ignored,
        }
    }
}

/// The kill signal comes second and only when the time is up: it is asked
/// for in answer to nothing but the report that the child, already sent
/// the terminate signal, has outlived its time.
pub proof fn kill_only_after_the_deadline(stop: GracefulStop, event: StopEventView)
    ensures
        (stop.next(event).1 matches StopActionView::Send { signal, .. } && signal is Kill) <==> (
        stop.phase is Waiting && event is TimedOut),
        stop.next(event).1 is Send ==> stop.next(event).1->Send_pid == stop.pid,
{
}

/// A stop ends with success only when the child has exited, and with
/// failure only when a signal or a wait has failed, for the reason
/// reported.
pub proof fn stop_ends_as_reported(stop: GracefulStop, event: StopEventView)
    ensures
        stop.next(event).1 == stopped() <==> ((stop.phase is Waiting || stop.phase is Reaping)
            && event is Exited),
        stop.next(event).1 is Finish <==> stop.next(event).0.phase is Done && !(stop.phase
            is Done),
        forall|reason: Seq<char>|
            stop.next(event).1 == failed(reason) <==> (!(stop.phase is Done) && event
                == (StopEventView::Failed { reason })),
{
}

/// How many reports a stop in this phase can still take before it is over.
pub open spec fn stop_rank(phase: StopPhase) -> int {
    match phase {
        StopPhase::Terminating => 4,
        StopPhase::Waiting => 3,
        StopPhase::Killing => 2,
        StopPhase::Reaping => 1,
        StopPhase::Done => 0,
    }
}

/// A stop takes four reports at most: each report that is not ignored
/// brings the stop nearer to its end, and an ignored one changes nothing.
pub proof fn stop_comes_to_an_end(stop: GracefulStop, event: StopEventView)
    ensures
        stop.next(event).1 is Ignored ==> stop.next(event).0 == stop,
        !(stop.next(event).1 is Ignored) ==> stop_rank(stop.next(event).0.phase) < stop_rank(
            stop.phase,
        ),
        stop.next(event).0.pid == stop.pid,
        stop.next(event).0.kill_timeout_ms == stop.kill_timeout_ms,
{
}

} // verus!

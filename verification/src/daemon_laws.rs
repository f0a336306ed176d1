//! What holds of every life of the supervisor.

use vstd::prelude::*;
use crate::daemon::{exit, started, DaemonActionView, DaemonEventView, DaemonPhase, DaemonView};
use crate::paths::{pid_file_path, socket_file_path};
use crate::pid::{guard_of, pid_of, pid_text, MAX_PID};

verus! {

/// The supervisor holds a PID file of its own.
pub open spec fn owns_pid_file(phase: DaemonPhase) -> bool {
    phase is CheckingSocket || phase is RemovingStale || phase is Binding || phase is Accepting
        || phase is Draining || phase is RemovingSocket || phase is RemovingPid
}

/// The supervisor holds an endpoint of its own.
pub open spec fn owns_endpoint(phase: DaemonPhase) -> bool {
    phase is Accepting || phase is Draining || phase is RemovingSocket
}

/// One data directory, one supervisor. Where the PID file names a process
/// and the probe finds it alive, the supervisor ends at once with the error
/// `daemon is already running`; it has written and removed nothing.
pub proof fn second_daemon_is_refused(
    data_dir: Seq<char>,
    pid: u32,
    content: Seq<char>,
)
    requires
        pid_of(content) is Some,
    ensures
        ({
            let (created, first) = started(data_dir, pid);
            let (read, second) = created.next(DaemonEventView::Done);
            let (probing, third) = read.next(DaemonEventView::PidFile(Some(content)));
            let (ended, last) = probing.next(DaemonEventView::Alive(true));
            &&& first == DaemonActionView::CreateDir { path: data_dir }
            &&& second == DaemonActionView::ReadPidFile { path: pid_file_path(data_dir) }
            &&& third == DaemonActionView::Probe { pid: pid_of(content)->0 }
            &&& last == exit(Some("daemon is already running"@))
            &&& ended.phase is Exited
        }),
{
}

/// What a running supervisor has written turns a second one away: the PID
/// file that a supervisor writes names that supervisor.
pub proof fn own_pid_file_guards(state: DaemonView)
    requires
        1 <= state.pid <= MAX_PID,
    ensures
        state.write_pid().1 == (DaemonActionView::WritePidFile {
            path: pid_file_path(state.data_dir),
            content: pid_text(state.pid),
        }),
        guard_of(Some(pid_text(state.pid))) == Some(state.pid),
{
    crate::pid::pid_file_names_its_writer(state.pid);
}

/// A PID file that is stale does not keep a supervisor from starting: where
/// there is no file, or the file names no process, or the process it names
/// is gone, the supervisor goes on to write its own.
pub proof fn stale_pid_file_is_replaced(state: DaemonView, content: Option<Seq<char>>)
    ensures
        state.phase is ReadingPid && guard_of(content) is None ==> state.next(
            DaemonEventView::PidFile(content),
        ) == state.write_pid(),
        state.phase is Probing ==> state.next(DaemonEventView::Alive(false)) == state.write_pid(),
{
}

/// An endpoint that was left behind is made anew: the supervisor, which by
/// then knows that no other is alive, removes the file and binds the same
/// path.
pub proof fn stale_endpoint_is_replaced(state: DaemonView)
    requires
        state.phase is CheckingSocket,
    ensures
        ({
            let path = socket_file_path(state.data_dir);
            let (removing, first) = state.next(DaemonEventView::Exists(true));
            let (binding, second) = removing.next(DaemonEventView::Done);
            let (accepting, third) = binding.next(DaemonEventView::Done);
            &&& first == DaemonActionView::RemoveSocket { path }
            &&& second == DaemonActionView::Bind { path }
            &&& third == DaemonActionView::Accept
            &&& accepting.phase is Accepting
            &&& state.next(DaemonEventView::Exists(false)).1 == DaemonActionView::Bind { path }
        }),
{
}

/// The accept loop serves every connection and goes on; it ends on a
/// shutdown that is set, on a signal, and on a failure to accept, and on
/// nothing else. However it ends, the children are stopped first.
pub proof fn accept_loop_ends_when_told(state: DaemonView, event: DaemonEventView)
    requires
        state.phase is Accepting,
    ensures
        ({
            let (after, action) = state.next(event);
            let ends = event == DaemonEventView::Shutdown(true) || event is Signal || event
                is Failed;
            &&& event is Accepted ==> action is Serve && after == state
            &&& event == DaemonEventView::Shutdown(false) ==> action is Accept && after == state
            &&& ends <==> action is Drain
            &&& ends <==> after.phase is Draining
            &&& !ends ==> after.phase is Accepting
            &&& event matches DaemonEventView::Failed { reason } ==> after.error == Some(reason)
            &&& !(event is Failed) ==> after.error == state.error
        }),
{
}

/// After the accept loop nothing is left behind. Once the loop has ended,
/// the supervisor stops its children, removes its endpoint, removes its PID
/// file and exits, in this order and whatever is reported on the way; it
/// exits with the error that ended the loop, if one did.
pub proof fn shutdown_leaves_nothing_behind(
    state: DaemonView,
    drained: DaemonEventView,
    unbound: DaemonEventView,
    removed: DaemonEventView,
)
    requires
        state.phase is Draining,
        drained is Done || drained is Failed,
        unbound is Done || unbound is Failed,
        removed is Done || removed is Failed,
    ensures
        ({
            let (second, remove_socket) = state.next(drained);
            let (third, remove_pid) = second.next(unbound);
            let (ended, last) = third.next(removed);
            &&& remove_socket == DaemonActionView::RemoveSocket {
                path: socket_file_path(state.data_dir),
            }
            &&& remove_pid == DaemonActionView::RemovePidFile {
                path: pid_file_path(state.data_dir),
            }
            &&& last == exit(state.error)
            &&& ended.phase is Exited
        }),
{
}

/// What the supervisor owns it gives back on every way out. It exits only
/// from where it owns nothing: before it has written its PID file, or when
/// the removal of the file is reported. While it owns its endpoint, or its
/// PID file, no report makes it forget either: it goes on owning it or is
/// on its way to remove it.
pub proof fn nothing_owned_is_forgotten(state: DaemonView, event: DaemonEventView)
    ensures
        ({
            let (after, action) = state.next(event);
            &&& action is Exit ==> !owns_pid_file(state.phase) || state.phase is RemovingPid
            &&& action is Exit <==> (after.phase is Exited && !(state.phase is Exited))
            &&& owns_pid_file(state.phase) ==> owns_pid_file(after.phase) || (state.phase
                is RemovingPid && action is Exit)
            &&& owns_endpoint(state.phase) ==> owns_endpoint(after.phase) || (state.phase
                is RemovingSocket && after.phase is RemovingPid)
            &&& after.phase is RemovingPid && !(state.phase is RemovingPid) ==> action
                == (DaemonActionView::RemovePidFile { path: pid_file_path(state.data_dir) })
            &&& after.phase is RemovingSocket && !(state.phase is RemovingSocket) ==> action
                == (DaemonActionView::RemoveSocket { path: socket_file_path(state.data_dir) })
            &&& after.data_dir == state.data_dir
            &&& after.pid == state.pid
        }),
{
}

/// How many reports the supervisor can still take outside the accept loop
/// before it has exited.
pub open spec fn phase_rank(phase: DaemonPhase) -> int {
    match phase {
        DaemonPhase::CreatingDir => 11,
        DaemonPhase::ReadingPid => 10,
        DaemonPhase::Probing => 9,
        DaemonPhase::WritingPid => 8,
        DaemonPhase::CheckingSocket => 7,
        DaemonPhase::RemovingStale => 6,
        DaemonPhase::Binding => 5,
        DaemonPhase::Accepting => 4,
        DaemonPhase::Draining => 3,
        DaemonPhase::RemovingSocket => 2,
        DaemonPhase::RemovingPid => 1,
        DaemonPhase::Exited => 0,
    }
}

/// The supervisor never goes back: a report either is ignored, or keeps
/// the accept loop waiting, or brings the supervisor nearer to its exit.
pub proof fn life_never_goes_back(state: DaemonView, event: DaemonEventView)
    ensures
        ({
            let (after, action) = state.next(event);
            &&& action is Ignored ==> after == state
            &&& (action is Accept || action is Serve) ==> after.phase is Accepting
            &&& !(action is Ignored) && !(state.phase is Accepting && after.phase is Accepting)
                ==> phase_rank(after.phase) < phase_rank(state.phase)
        }),
{
}

} // verus!

use pm3::dispatch::StopOutcome;
use pm3::protocol::ProcessStatus;
use pm3::stop::{GracefulStop, Signal, StopAction, StopEvent, StopPhase};

fn finish_stopped() -> StopAction {
    StopAction::Finish { outcome: StopOutcome::Stopped }
}

#[test]
fn a_child_that_exits_in_time_is_not_killed() {
    let (mut stop, first) = GracefulStop::begin(ProcessStatus::Online, Some(4711), 10_000);
    assert_eq!(first, StopAction::Send { pid: 4711, signal: Signal::Terminate });
    assert_eq!(stop.step(StopEvent::Sent), StopAction::Wait { timeout_ms: Some(10_000) });
    assert_eq!(stop.step(StopEvent::Exited), finish_stopped());
    assert_eq!(stop.phase, StopPhase::Done);
}

#[test]
fn a_child_that_outlives_its_time_is_killed() {
    let (mut stop, _) = GracefulStop::begin(ProcessStatus::Online, Some(4711), 250);
    assert_eq!(stop.step(StopEvent::Sent), StopAction::Wait { timeout_ms: Some(250) });
    assert_eq!(
        stop.step(StopEvent::TimedOut),
        StopAction::Send { pid: 4711, signal: Signal::Kill }
    );
    assert_eq!(stop.step(StopEvent::Sent), StopAction::Wait { timeout_ms: None });
    assert_eq!(stop.step(StopEvent::Exited), finish_stopped());
}

#[test]
fn a_stopped_process_needs_nothing() {
    let (stop, first) = GracefulStop::begin(ProcessStatus::Stopped, Some(4711), 10_000);
    assert_eq!(first, finish_stopped());
    assert_eq!(stop.phase, StopPhase::Done);
    let (_, first) = GracefulStop::begin(ProcessStatus::Stopped, None, 10_000);
    assert_eq!(first, finish_stopped());
    let (_, first) = GracefulStop::begin(ProcessStatus::Online, None, 10_000);
    assert_eq!(first, finish_stopped());
}

#[test]
fn a_failure_ends_the_stop_with_its_reason() {
    let failed = |reason: &str| StopEvent::Failed { reason: reason.to_string() };
    let finish = |reason: &str| StopAction::Finish {
        outcome: StopOutcome::Failed { reason: reason.to_string() },
    };

    let (mut stop, _) = GracefulStop::begin(ProcessStatus::Online, Some(1), 10);
    assert_eq!(stop.step(failed("not permitted")), finish("not permitted"));
    assert_eq!(stop.step(failed("again")), StopAction::Ignored);

    let (mut stop, _) = GracefulStop::begin(ProcessStatus::Online, Some(1), 10);
    stop.step(StopEvent::Sent);
    assert_eq!(stop.step(failed("wait failed")), finish("wait failed"));

    let (mut stop, _) = GracefulStop::begin(ProcessStatus::Online, Some(1), 10);
    stop.step(StopEvent::Sent);
    stop.step(StopEvent::TimedOut);
    assert_eq!(stop.step(failed("kill failed")), finish("kill failed"));

    let (mut stop, _) = GracefulStop::begin(ProcessStatus::Online, Some(1), 10);
    stop.step(StopEvent::Sent);
    stop.step(StopEvent::TimedOut);
    stop.step(StopEvent::Sent);
    assert_eq!(stop.step(failed("reap failed")), finish("reap failed"));
}

#[test]
fn a_report_out_of_turn_is_ignored() {
    let (mut stop, _) = GracefulStop::begin(ProcessStatus::Online, Some(1), 10);
    assert_eq!(stop.step(StopEvent::Exited), StopAction::Ignored);
    assert_eq!(stop.step(StopEvent::TimedOut), StopAction::Ignored);
    assert_eq!(stop.phase, StopPhase::Terminating);
    stop.step(StopEvent::Sent);
    assert_eq!(stop.step(StopEvent::Sent), StopAction::Ignored);
    stop.step(StopEvent::TimedOut);
    stop.step(StopEvent::Sent);
    assert_eq!(stop.step(StopEvent::TimedOut), StopAction::Ignored);
    assert_eq!(stop.phase, StopPhase::Reaping);
}

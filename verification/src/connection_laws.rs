//! What holds of every connection.

use vstd::prelude::*;
use crate::connection::{incoming_of, IncomingView};
use crate::dispatch::{ActionView, DispatcherView, EventView};
use crate::dispatch_laws::{
    every_request_is_answered, first_action_of_a_request, lemma_step_frame, run,
};
use crate::log::{distinct, end_frame, log_stream, LogEventView, LogStreamView};
use crate::log_laws::{
    follow_sends_only_lines, following, history_sends_lines_then_end, lemma_closed_stays, reached,
    sent,
};
use crate::protocol::ResponseView;
use crate::table::names_of;

verus! {

/// All frames that a connection has got when it is closed, or nothing
/// while it is not closed.
///
/// `line` is what the client sent, `state` the dispatcher when the request
/// came and `now` the clock then. `reports` are the reports to the
/// dispatcher and `log_reports` those to the log stream, as far as they have
/// come.
pub open spec fn frames_of_connection(
    line: Seq<char>,
    state: DispatcherView,
    now: u64,
    reports: Seq<EventView>,
    log_reports: Seq<LogEventView>,
) -> Option<Seq<ResponseView>> {
    match incoming_of(line) {
        IncomingView::Silent => Some(Seq::empty()),
        IncomingView::Reject { frame } => Some(seq![frame]),
        IncomingView::Command { request, lock } => {
            let (begun, first) = state.dispatch(request, now);
            match run(begun, first, reports).1 {
                ActionView::Reply { response, .. } => Some(seq![response]),
                _ => None,
            }
        },
        IncomingView::Log { name, lines, follow } => {
            let (begun, first) = log_stream(
                name,
                lines,
                follow,
                names_of(state.table),
                state.data_dir,
            );
            if reached(begun, log_reports).phase is Closed {
                Some(first.frames + sent(begun, log_reports))
            } else {
                None
            }
        },
    }
}

proof fn lemma_run_replies(state: DispatcherView, action: ActionView, reports: Seq<EventView>)
    requires
        state.wf(),
        action matches ActionView::Reply { response, .. } ==> response.is_terminal(),
    ensures
        run(state, action, reports).1 matches ActionView::Reply { response, .. }
            ==> response.is_terminal(),
    decreases reports.len(),
{
    if reports.len() > 0 {
        let (next, asked) = state.step(reports[0]);
        lemma_step_frame(state, reports[0]);
        if !(state.awaiting is Nothing) {
            every_request_is_answered(state, reports[0]);
        }
        lemma_run_replies(next, asked, reports.drop_first());
    }
}

proof fn lemma_follow_goes_on(state: LogStreamView, reports: Seq<LogEventView>)
    requires
        following(state),
        forall|i: int|
            0 <= i < reports.len() ==> !(reports[i] is Failed) && !(reports[i] is Hangup),
    ensures
        following(reached(state, reports)),
    decreases reports.len(),
{
    if reports.len() > 0 {
        follow_sends_only_lines(state, reports[0]);
        lemma_follow_goes_on(state.step(reports[0]).0, reports.drop_first());
    }
}

/// A connection on which anything was sent gets an answer before it is
/// closed: when it is closed it has got at least one frame, and the last
/// frame is a success, an error, a list of processes or the report of one
/// process; for a log request it is the success without a message that
/// ends a log stream.
///
/// Two connections are closed without such a frame: the one on which
/// nothing was sent, and the one that follows files, which ends when an
/// action on them fails, when its client closes or when the supervisor
/// shuts down.
pub proof fn every_connection_gets_an_answer(
    line: Seq<char>,
    state: DispatcherView,
    now: u64,
    reports: Seq<EventView>,
    log_reports: Seq<LogEventView>,
)
    requires
        state.wf(),
        line.len() > 0,
        (incoming_of(line) matches IncomingView::Log { follow, .. } && follow) ==> forall|i: int|
            0 <= i < log_reports.len() ==> !(log_reports[i] is Failed) && !(log_reports[i]
                is Hangup),
        frames_of_connection(line, state, now, reports, log_reports) is Some,
    ensures
        ({
            let frames = frames_of_connection(line, state, now, reports, log_reports)->0;
            &&& frames.len() >= 1
            &&& frames.last().is_terminal()
            &&& incoming_of(line) is Log ==> frames.last() == end_frame()
        }),
{
    match incoming_of(line) {
        IncomingView::Command { request, lock } => {
            let (begun, first) = state.dispatch(request, now);
            first_action_of_a_request(state, request, now);
            lemma_run_replies(begun, first, reports);
        },
        IncomingView::Log { name, lines, follow } => {
            let table = names_of(state.table);
            assert(distinct(table)) by {
                assert forall|i: int, j: int| 0 <= i < j < table.len() implies table[i]
                    != table[j] by {
                    assert(table[i] == state.table[i].name);
                    assert(table[j] == state.table[j].name);
                }
            }
            let (begun, first) = log_stream(name, lines, follow, table, state.data_dir);
            if name is None && table.len() == 0 {
                lemma_closed_stays(begun, log_reports);
                assert(first.frames + Seq::<ResponseView>::empty() == first.frames);
            } else if follow {
                lemma_follow_goes_on(begun, log_reports);
            } else {
                history_sends_lines_then_end(name, lines, table, state.data_dir, log_reports);
            }
        },
        _ => {},
    }
}

/// A connection on which nothing was sent gets nothing.
pub proof fn silent_connection_gets_nothing(
    state: DispatcherView,
    now: u64,
    reports: Seq<EventView>,
    log_reports: Seq<LogEventView>,
)
    ensures
        frames_of_connection(Seq::empty(), state, now, reports, log_reports) == Some(
            Seq::<ResponseView>::empty(),
        ),
{
}

} // verus!

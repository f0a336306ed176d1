//! What holds of every run of the dispatcher.
//!
//! A run is a request followed by the reports of the actions it led to.

use vstd::prelude::*;
use crate::config::ProcessConfigView;
use crate::dispatch::{
    done_message, failure, first_not_in_table, first_without_config, has_config, success,
    table_targets, ActionView, Awaiting, DispatcherView, EventView, JobKind, StopOutcomeView,
};
use crate::process::{parsed_command, ManagedProcessView, SpawnOutcomeView};
use crate::protocol::{ProcessStatus, RequestView, ResponseView};
use crate::table::{
    distinct_names, has_name, infos_of, lemma_position_of, lemma_position_of_is_first,
    lemma_upsert, names_of, position_of, upsert,
};
use crate::text::join;

verus! {

/// The state and the action in hand after the reports `events`, taken in
/// order from a state in which `action` was in hand.
pub open spec fn run(state: DispatcherView, action: ActionView, events: Seq<EventView>) -> (
    DispatcherView,
    ActionView,
)
    decreases events.len(),
{
    if events.len() == 0 {
        (state, action)
    } else {
        let (next, asked) = state.step(events[0]);
        run(next, asked, events.drop_first())
    }
}

/// `action` is a reply that reports success.
pub open spec fn replies_success(action: ActionView) -> bool {
    action matches ActionView::Reply { response, .. } && response is Success
}

/// Going on to the next name that needs work changes neither the table nor
/// what the request is about, and never goes back.
pub proof fn lemma_advance_frame(state: DispatcherView)
    requires
        state.wf(),
    ensures
        ({
            let (after, action) = state.advance();
            &&& after.wf()
            &&& after.table == state.table
            &&& after.data_dir == state.data_dir
            &&& after.kind == state.kind
            &&& after.names == state.names
            &&& after.configs == state.configs
            &&& after.done == state.done
            &&& state.next <= after.next
            &&& !(action is Ignored)
            &&& replies_success(action) ==> after.completed()
            &&& action is Drained ==> after.completed()
            &&& after.awaiting is Nothing <==> (action is Reply || action is Drained)
            &&& action is Drained ==> state.kind is Drain
            &&& action matches ActionView::Reply { response, .. } ==> response.is_terminal()
            &&& after.awaiting is Launch <==> action is Launch
            &&& after.awaiting is Stop <==> action is Stop
        }),
    decreases state.names.len() - state.next,
{
    if 0 <= state.next < state.names.len() {
        let known = has_name(state.table, state.current());
        let record = state.table[position_of(state.table, state.current())];
        let skip = match state.kind {
            JobKind::Start => known,
            JobKind::Stop | JobKind::Drain => !known || record.status == ProcessStatus::Stopped,
            JobKind::Restart => !known,
        };
        if skip {
            lemma_advance_frame(state.skipped());
        }
    }
}

/// A step changes nothing of what the request is about, keeps the state
/// well formed, and keeps every name of the table in its place.
pub proof fn lemma_step_frame(state: DispatcherView, event: EventView)
    requires
        state.wf(),
    ensures
        ({
            let (after, action) = state.step(event);
            &&& after.wf()
            &&& after.data_dir == state.data_dir
            &&& after.kind == state.kind
            &&& after.names == state.names
            &&& after.configs == state.configs
            &&& state.next <= after.next
            &&& after.table.len() >= state.table.len()
            &&& forall|i: int|
                0 <= i < state.table.len() ==> (#[trigger] after.table[i]).name
                    == state.table[i].name
            &&& replies_success(action) ==> after.completed()
            &&& action is Drained ==> after.completed()
        }),
{
    let (after, action) = state.step(event);
    if 0 <= state.next < state.names.len() {
        match (state.awaiting, event) {
            (Awaiting::Launch, EventView::Launch(SpawnOutcomeView::Spawned { pid, at })) => {
                let record = state.launched_record(pid, at);
                lemma_upsert(state.table, record);
                lemma_position_of_is_first(state.table, record.name);
                let inserted = DispatcherView { table: upsert(state.table, record), ..state };
                lemma_advance_frame(inserted.ticked());
            },
            (Awaiting::Stop, EventView::Stop(StopOutcomeView::Stopped)) => {
                let at = position_of(state.table, state.current());
                lemma_position_of_is_first(state.table, state.current());
                let table = state.table.update(at, state.table[at].stopped());
                assert(distinct_names(table));
                let stopped = DispatcherView { table, awaiting: Awaiting::Nothing, ..state };
                lemma_position_of(table, state.current(), at);
                match state.kind {
                    JobKind::Restart => {
                        lemma_advance_frame(stopped);
                    },
                    _ => {
                        lemma_advance_frame(stopped.ticked());
                    },
                }
            },
            (Awaiting::Stop, EventView::Stop(StopOutcomeView::Failed { reason })) => {
                if state.kind is Drain {
                    lemma_advance_frame(state.skipped());
                }
            },
            _ => {},
        }
    }
}


// ---------------------------------------------------------------------------
// Restart
// ---------------------------------------------------------------------------

/// A restart counts one up. When the launch of a restart is reported, the
/// record under the name is online, runs the child just launched from the
/// descriptor it had, and shows one restart more than before; zero becomes
/// one. No other record changes.
///
/// This is so for every descriptor whose command line is a command, as
/// that of a process that has been launched is. For any other the table
/// stays as it is.
pub proof fn restart_counts_one_up(state: DispatcherView, pid: Option<u32>, at: u64)
    requires
        state.wf(),
        state.kind is Restart,
        state.awaiting is Launch,
        state.accepts(EventView::Launch(SpawnOutcomeView::Spawned { pid, at })),
    ensures
        ({
            let name = state.current();
            let old_record = state.table[position_of(state.table, name)];
            let launched = EventView::Launch(SpawnOutcomeView::Spawned { pid, at });
            let table = state.step(launched).0.table;
            let new_record = table[position_of(table, name)];
            if parsed_command(old_record.config.command) is Ok {
                &&& has_name(table, name)
                &&& new_record.restarts == old_record.restarts + 1
                &&& new_record.status is Online
                &&& new_record.pid == pid
                &&& new_record.started_at == at
                &&& new_record.config == old_record.config
                &&& table.len() == state.table.len()
                &&& forall|i: int|
                    0 <= i < table.len() && state.table[i].name != name ==> table[i]
                        == state.table[i]
            } else {
                table == state.table
            }
        }),
{
    let record = state.launched_record(pid, at);
    lemma_upsert(state.table, record);
    lemma_position_of_is_first(state.table, record.name);
    let inserted = DispatcherView { table: upsert(state.table, record), ..state };
    lemma_advance_frame(inserted.ticked());
}

/// A restart of one process that runs, from the request to the reply: the
/// child is stopped, then launched again from the descriptor in the table,
/// and the reply names the process. The record then shows one restart more
/// and the new child. Where the descriptor holds no command, the restart
/// ends after the stop, with the error.
pub proof fn restart_of_a_running_process(
    state: DispatcherView,
    name: Seq<char>,
    now: u64,
    pid: Option<u32>,
    at: u64,
)
    requires
        state.wf(),
        has_name(state.table, name),
        !(state.table[position_of(state.table, name)].status is Stopped),
        state.table[position_of(state.table, name)].restarts < u32::MAX,
    ensures
        ({
            let before = state.table[position_of(state.table, name)];
            let request = RequestView::Restart { names: Some(seq![name]) };
            let (stopping, first) = state.dispatch(request, now);
            let (launching, second) = stopping.step(EventView::Stop(StopOutcomeView::Stopped));
            let launched = EventView::Launch(SpawnOutcomeView::Spawned { pid, at });
            let (after, last) = launching.step(launched);
            let record = after.table[position_of(after.table, name)];
            &&& first == (ActionView::Stop {
                name,
                pid: before.pid,
                kill_timeout_ms: before.config.kill_timeout_ms(),
            })
            &&& match crate::process::launch_plan_of(name, before.config, state.data_dir) {
                Ok(plan) => {
                    &&& second == (ActionView::Launch { name, plan })
                    &&& launching.accepts(launched)
                    &&& last == success("restarted: "@ + name)
                    &&& has_name(after.table, name)
                    &&& record.restarts == before.restarts + 1
                    &&& record.status is Online
                    &&& record.pid == pid
                    &&& record.started_at == at
                    &&& record.config == before.config
                },
                Err(error) => second == failure(
                    crate::dispatch::launch_failure(JobKind::Restart, name, error),
                ),
            }
        }),
{
    let at_name = position_of(state.table, name);
    lemma_position_of_is_first(state.table, name);
    let names = seq![name];
    let idle = DispatcherView::idle(state.table, state.data_dir);
    crate::dispatch::lemma_first_not_in_table(names, state.table, 1);
    let fresh = DispatcherView { kind: JobKind::Restart, names, ..idle };
    assert(fresh.current() == name);
    let (stopping, first) = state.dispatch(RequestView::Restart { names: Some(names) }, now);
    assert(stopping == fresh.ask_stop().0);
    let table = state.table.update(at_name, state.table[at_name].stopped());
    assert(distinct_names(table));
    lemma_position_of(table, name, at_name);
    let stopped = DispatcherView { table, awaiting: Awaiting::Nothing, ..stopping };
    assert(stopped.advance() == stopped.plan_launch());
    let (launching, second) = stopping.step(EventView::Stop(StopOutcomeView::Stopped));
    if crate::process::launch_plan_of(name, state.table[at_name].config, state.data_dir) is Ok {
        assert(launching.wf());
        restart_counts_one_up(launching, pid, at);
        let record = launching.launched_record(pid, at);
        lemma_upsert(launching.table, record);
        let inserted = DispatcherView { table: upsert(launching.table, record), ..launching };
        let done = inserted.ticked();
        assert(done.next == 1 && done.names.len() == 1);
        assert(done.done == seq![name]);
        assert(join(seq![name], ", "@) == name);
    }
}

/// Stopping a child leaves the restart counter of its record as it was.
pub proof fn stop_keeps_counter(state: DispatcherView)
    requires
        state.wf(),
        state.awaiting is Stop,
    ensures
        ({
            let name = state.current();
            let table = state.step(EventView::Stop(StopOutcomeView::Stopped)).0.table;
            &&& has_name(table, name)
            &&& table[position_of(table, name)].restarts == state.table[position_of(
                state.table,
                name,
            )].restarts
            &&& table[position_of(table, name)].status is Stopped
        }),
{
    let at = position_of(state.table, state.current());
    lemma_position_of_is_first(state.table, state.current());
    let table = state.table.update(at, state.table[at].stopped());
    assert(distinct_names(table));
    lemma_position_of(table, state.current(), at);
    let stopped = DispatcherView { table, awaiting: Awaiting::Nothing, ..state };
    match state.kind {
        JobKind::Restart => {
            lemma_advance_frame(stopped);
        },
        _ => {
            lemma_advance_frame(stopped.ticked());
        },
    }
}

// ---------------------------------------------------------------------------
// List
// ---------------------------------------------------------------------------

/// A list only looks: it leaves the table as it is, and replies with what
/// the table holds, record by record.
pub proof fn list_changes_nothing(state: DispatcherView, now: u64)
    ensures
        state.dispatch(RequestView::List, now).0.table == state.table,
        state.dispatch(RequestView::List, now).1 == (ActionView::Reply {
            response: ResponseView::ProcessList { processes: infos_of(state.table, now) },
            shutdown: false,
        }),
{
}

/// A list names every process once: in a well-formed table the name of a
/// record stands at the record's own place in the list and nowhere else.
pub proof fn list_names_each_once(table: Seq<ManagedProcessView>, now: u64, name: Seq<char>)
    requires
        distinct_names(table),
        has_name(table, name),
    ensures
        ({
            let infos = infos_of(table, now);
            let at = position_of(table, name);
            &&& infos.len() == table.len()
            &&& 0 <= at < infos.len()
            &&& infos[at] == table[at].info(now)
            &&& forall|k: int| 0 <= k < infos.len() ==> (infos[k].name == name <==> k == at)
        }),
{
    lemma_position_of_is_first(table, name);
}


// ---------------------------------------------------------------------------
// Start
// ---------------------------------------------------------------------------

/// Some name of `names` has no descriptor, so the first such name stands
/// at or before it.
proof fn lemma_first_without_config_bound(
    names: Seq<Seq<char>>,
    configs: Seq<(Seq<char>, ProcessConfigView)>,
    at: int,
)
    requires
        0 <= at < names.len(),
        !has_config(configs, names[at]),
    ensures
        0 <= first_without_config(names, configs) <= at,
        !has_config(configs, names[first_without_config(names, configs)]),
    decreases at,
{
    if has_config(configs, names[0]) {
        lemma_first_without_config_bound(names.drop_first(), configs, at - 1);
    }
}

/// A start that names a process without a descriptor starts nothing: it
/// is answered at once with an error that names the first such process,
/// and the table stays as it was.
pub proof fn start_with_unknown_name_starts_nothing(
    state: DispatcherView,
    configs: Seq<(Seq<char>, ProcessConfigView)>,
    names: Seq<Seq<char>>,
    env: Option<Seq<(Seq<char>, Seq<char>)>>,
    now: u64,
    unknown: int,
)
    requires
        0 <= unknown < names.len(),
        !has_config(configs, names[unknown]),
    ensures
        ({
            let request = RequestView::Start { configs, names: Some(names), env };
            let (after, action) = state.dispatch(request, now);
            let first = first_without_config(names, configs);
            &&& 0 <= first <= unknown
            &&& !has_config(configs, names[first])
            &&& action == failure("process '"@ + names[first] + "' not found in configs"@)
            &&& after == DispatcherView::idle(state.table, state.data_dir)
        }),
{
    lemma_first_without_config_bound(names, configs, unknown);
}

/// What holds while a start is carried out: no stop is asked for, and every
/// process started so far is in the table and online.
pub open spec fn starting(state: DispatcherView) -> bool {
    &&& state.wf()
    &&& state.kind is Start ==> !(state.awaiting is Stop)
    &&& state.kind is Start ==> forall|k: int|
        0 <= k < state.done.len() ==> has_name(state.table, #[trigger] state.done[k])
            && state.table[position_of(state.table, state.done[k])].status is Online
}

proof fn lemma_advance_start(state: DispatcherView)
    requires
        state.wf(),
        state.kind is Start,
    ensures
        !(state.advance().1 is Stop),
    decreases state.names.len() - state.next,
{
    if 0 <= state.next < state.names.len() && has_name(state.table, state.current()) {
        lemma_advance_start(state.skipped());
    }
}

proof fn lemma_step_starting(state: DispatcherView, event: EventView)
    requires
        starting(state),
    ensures
        starting(state.step(event).0),
{
    lemma_step_frame(state, event);
    let (after, action) = state.step(event);
    if state.kind is Start && 0 <= state.next < state.names.len() {
        match (state.awaiting, event) {
            (Awaiting::Launch, EventView::Launch(SpawnOutcomeView::Spawned { pid, at })) => {
                let record = state.launched_record(pid, at);
                lemma_upsert(state.table, record);
                let inserted = DispatcherView { table: upsert(state.table, record), ..state };
                lemma_advance_frame(inserted.ticked());
                lemma_advance_start(inserted.ticked());
                if parsed_command(state.current_config().command) is Ok {
                    assert forall|k: int| 0 <= k < after.done.len() implies has_name(
                        after.table,
                        #[trigger] after.done[k],
                    ) && after.table[position_of(after.table, after.done[k])].status is Online by {
                        let table = upsert(state.table, record);
                        assert(after.table == table);
                        assert(after.done == state.done.push(record.name));
                        let name = after.done[k];
                        if name != record.name {
                            assert(name == state.done[k]);
                            assert(has_name(table, name) == has_name(state.table, name));
                            assert(table[position_of(table, name)] == state.table[position_of(
                                state.table,
                                name,
                            )]);
                        } else {
                            assert(table[position_of(table, name)] == record);
                        }
                    }
                }
            },
            _ => {},
        }
    }
}

proof fn lemma_run_starting(state: DispatcherView, action: ActionView, events: Seq<EventView>)
    requires
        starting(state),
    ensures
        starting(run(state, action, events).0),
        run(state, action, events).0.kind == state.kind,
    decreases events.len(),
{
    if events.len() > 0 {
        lemma_step_starting(state, events[0]);
        lemma_step_frame(state, events[0]);
        let (next, asked) = state.step(events[0]);
        lemma_run_starting(next, asked, events.drop_first());
    }
}

/// After a start, however far it has come: every process that it has
/// started is in the table, once, and online. A list then reports it so
/// (see [`list_names_each_once`]).
pub proof fn started_names_are_online(
    state: DispatcherView,
    configs: Seq<(Seq<char>, ProcessConfigView)>,
    names: Option<Seq<Seq<char>>>,
    env: Option<Seq<(Seq<char>, Seq<char>)>>,
    now: u64,
    events: Seq<EventView>,
)
    requires
        state.wf(),
    ensures
        ({
            let (begun, first) = state.dispatch(RequestView::Start { configs, names, env }, now);
            let (after, last) = run(begun, first, events);
            &&& distinct_names(after.table)
            &&& forall|k: int|
                0 <= k < after.done.len() ==> has_name(after.table, #[trigger] after.done[k])
                    && after.table[position_of(after.table, after.done[k])].status is Online
        }),
{
    let (begun, first) = state.dispatch(RequestView::Start { configs, names, env }, now);
    let idle = DispatcherView::idle(state.table, state.data_dir);
    let targets = crate::dispatch::start_names(configs, names);
    if first_without_config(targets, configs) < targets.len() {
        assert(starting(begun));
    } else {
        let fresh = DispatcherView {
            kind: JobKind::Start,
            names: targets,
            configs: crate::dispatch::start_configs(configs, names),
            ..idle
        };
        assert(fresh.wf());
        lemma_advance_frame(fresh);
        lemma_advance_start(fresh);
        assert(starting(begun));
    }
    lemma_run_starting(begun, first, events);
    let (after, last) = run(begun, first, events);
    if !(after.kind is Start) {
        assert(begun.kind is Stop);
        lemma_run_idle(begun, first, events);
    }
}

/// Where no name is left to deal with, reports change nothing.
proof fn lemma_run_idle(state: DispatcherView, action: ActionView, events: Seq<EventView>)
    requires
        state.next >= state.names.len(),
    ensures
        run(state, action, events).0 == state,
        events.len() > 0 ==> run(state, action, events).1 is Ignored,
        events.len() == 0 ==> run(state, action, events).1 == action,
    decreases events.len(),
{
    if events.len() > 0 {
        lemma_run_idle(state, ActionView::Ignored, events.drop_first());
    }
}


// ---------------------------------------------------------------------------
// Stop
// ---------------------------------------------------------------------------

/// Tables with the same names in the same places find each name at the
/// same place.
proof fn lemma_position_same_names(
    one: Seq<ManagedProcessView>,
    other: Seq<ManagedProcessView>,
    name: Seq<char>,
)
    requires
        names_of(one) == names_of(other),
    ensures
        position_of(one, name) == position_of(other, name),
        has_name(one, name) == has_name(other, name),
    decreases one.len(),
{
    assert(one.len() == names_of(one).len());
    assert(other.len() == names_of(other).len());
    if one.len() > 0 {
        assert(one[0].name == names_of(one)[0]);
        assert(other[0].name == names_of(other)[0]);
        if one[0].name != name {
            assert forall|i: int| 0 <= i < one.len() - 1 implies names_of(one.drop_first())[i]
                == names_of(other.drop_first())[i] by {
                assert(names_of(one)[i + 1] == names_of(other)[i + 1]);
            }
            assert(names_of(one.drop_first()) == names_of(other.drop_first()));
            lemma_position_same_names(one.drop_first(), other.drop_first(), name);
        }
    }
}

/// `event` reports a stop that failed.
pub open spec fn stop_failed(event: EventView) -> bool {
    event matches EventView::Stop(outcome) && outcome is Failed
}

/// What holds while a stop is carried out, or a drain in which every stop
/// goes well: no launch is asked for, the table holds the names it held,
/// every name of the request is in the table, and those dealt with are
/// stopped.
pub open spec fn stopping(state: DispatcherView, names: Seq<Seq<char>>) -> bool {
    &&& state.wf()
    &&& state.kind is Stop || state.kind is Drain
    &&& !(state.awaiting is Launch)
    &&& names_of(state.table) == names
    &&& forall|i: int|
        0 <= i < state.names.len() ==> has_name(state.table, #[trigger] state.names[i])
    &&& forall|i: int|
        0 <= i < state.next ==> state.table[position_of(
            state.table,
            #[trigger] state.names[i],
        )].status is Stopped
}

proof fn lemma_advance_stopping(state: DispatcherView, names: Seq<Seq<char>>)
    requires
        stopping(DispatcherView { awaiting: Awaiting::Nothing, ..state }, names),
    ensures
        stopping(state.advance().0, names),
    decreases state.names.len() - state.next,
{
    if 0 <= state.next < state.names.len() {
        let record = state.table[position_of(state.table, state.current())];
        assert(has_name(state.table, state.names[state.next]));
        if record.status == ProcessStatus::Stopped {
            lemma_advance_stopping(state.skipped(), names);
        }
    }
}

proof fn lemma_step_stopping(state: DispatcherView, event: EventView, names: Seq<Seq<char>>)
    requires
        stopping(state, names),
        state.kind is Drain ==> !stop_failed(event),
    ensures
        stopping(state.step(event).0, names),
{
    lemma_step_frame(state, event);
    if 0 <= state.next < state.names.len() {
        match (state.awaiting, event) {
            (Awaiting::Stop, EventView::Stop(StopOutcomeView::Stopped)) => {
                let at = position_of(state.table, state.current());
                lemma_position_of_is_first(state.table, state.current());
                let table = state.table.update(at, state.table[at].stopped());
                assert(names_of(table) == names_of(state.table));
                let stopped = DispatcherView { table, awaiting: Awaiting::Nothing, ..state };
                assert forall|i: int| 0 <= i < stopped.names.len() implies has_name(
                    table,
                    #[trigger] stopped.names[i],
                ) by {
                    lemma_position_same_names(table, state.table, stopped.names[i]);
                }
                assert forall|i: int| 0 <= i < state.next + 1 implies table[position_of(
                    table,
                    #[trigger] stopped.names[i],
                )].status is Stopped by {
                    let name = state.names[i];
                    lemma_position_same_names(table, state.table, name);
                    lemma_position_of_is_first(state.table, name);
                    let found = position_of(state.table, name);
                    assert(has_name(state.table, name));
                    if found != at {
                        assert(i < state.next);
                        assert(table[found] == state.table[found]);
                    }
                }
                assert(distinct_names(table));
                lemma_advance_stopping(stopped.ticked(), names);
            },
            _ => {},
        }
    }
}

proof fn lemma_run_stopping(
    state: DispatcherView,
    action: ActionView,
    events: Seq<EventView>,
    names: Seq<Seq<char>>,
)
    requires
        stopping(state, names),
        replies_success(action) ==> state.completed(),
        action is Drained ==> state.completed(),
        state.kind is Drain ==> forall|i: int| 0 <= i < events.len() ==> !stop_failed(events[i]),
    ensures
        stopping(run(state, action, events).0, names),
        run(state, action, events).0.names == state.names,
        replies_success(run(state, action, events).1) ==> run(state, action, events).0.completed(),
        run(state, action, events).1 is Drained ==> run(state, action, events).0.completed(),
    decreases events.len(),
{
    if events.len() > 0 {
        lemma_step_stopping(state, events[0], names);
        lemma_step_frame(state, events[0]);
        let (next, asked) = state.step(events[0]);
        lemma_run_stopping(next, asked, events.drop_first(), names);
    }
}

/// A stop of processes that are all stopped asks for nothing and reports
/// that it stopped none.
proof fn lemma_advance_all_stopped(state: DispatcherView)
    requires
        state.kind is Stop,
        0 <= state.next <= state.names.len(),
        forall|i: int|
            state.next <= i < state.names.len() ==> state.table[position_of(
                state.table,
                #[trigger] state.names[i],
            )].status is Stopped,
    ensures
        state.advance() == (
            DispatcherView { next: state.names.len() as int, awaiting: Awaiting::Nothing, ..state },
            success(done_message(JobKind::Stop, state.done)),
        ),
    decreases state.names.len() - state.next,
{
    if state.next < state.names.len() {
        assert(state.table[position_of(state.table, state.names[state.next])].status is Stopped);
        lemma_advance_all_stopped(state.skipped());
    }
}

/// Where every name is in the table, none is the first that is not.
proof fn lemma_first_not_in_table_bound(
    names: Seq<Seq<char>>,
    table: Seq<ManagedProcessView>,
)
    ensures
        0 <= first_not_in_table(names, table) <= names.len(),
        first_not_in_table(names, table) < names.len() ==> !has_name(
            table,
            names[first_not_in_table(names, table)],
        ),
        forall|i: int|
            0 <= i < first_not_in_table(names, table) ==> has_name(table, #[trigger] names[i]),
    decreases names.len(),
{
    if names.len() == 0 || !has_name(table, names[0]) {
    } else {
        let rest = names.drop_first();
        lemma_first_not_in_table_bound(rest, table);
        assert forall|i: int| 0 <= i < first_not_in_table(names, table) implies has_name(
            table,
            #[trigger] names[i],
        ) by {
            if i > 0 {
                assert(names[i] == rest[i - 1]);
            }
        }
    }
}

/// Stopping twice is stopping once. When a stop has ended with success,
/// whatever the reports on the way, the same stop asked again is answered
/// at once: it asks for no child to be stopped, reports success with no
/// name after `stopped: `, and leaves the table as the first stop left it.
pub proof fn stop_twice_is_stop_once(
    state: DispatcherView,
    names: Option<Seq<Seq<char>>>,
    now: u64,
    events: Seq<EventView>,
    later: u64,
)
    requires
        state.wf(),
        replies_success(
            run(
                state.dispatch(RequestView::Stop { names }, now).0,
                state.dispatch(RequestView::Stop { names }, now).1,
                events,
            ).1,
        ),
    ensures
        ({
            let (begun, first) = state.dispatch(RequestView::Stop { names }, now);
            let (after, last) = run(begun, first, events);
            let (again, reply) = after.dispatch(RequestView::Stop { names }, later);
            &&& reply == success("stopped: "@)
            &&& again.table == after.table
            &&& again.completed()
            &&& forall|i: int|
                0 <= i < after.names.len() ==> after.table[position_of(
                    after.table,
                    #[trigger] after.names[i],
                )].status is Stopped
        }),
{
    let request = RequestView::Stop { names };
    let (begun, first) = state.dispatch(request, now);
    let (after, last) = run(begun, first, events);
    let idle = DispatcherView::idle(state.table, state.data_dir);
    let targets = table_targets(state.table, names);
    lemma_first_not_in_table_bound(targets, state.table);
    if first_not_in_table(targets, state.table) < targets.len() {
        lemma_run_idle(begun, first, events);
    } else {
        let fresh = DispatcherView { kind: JobKind::Stop, names: targets, ..idle };
        let held = names_of(state.table);
        assert(stopping(fresh, held));
        lemma_advance_stopping(fresh, held);
        lemma_advance_frame(fresh);
        lemma_run_stopping(begun, first, events, held);
        assert(after.completed());
        assert(after.names == targets);
        let again_targets = table_targets(after.table, names);
        assert(again_targets == targets);
        crate::dispatch::lemma_first_not_in_table(targets, after.table, targets.len() as int);
        let again_fresh = DispatcherView {
            kind: JobKind::Stop,
            names: targets,
            ..DispatcherView::idle(after.table, after.data_dir)
        };
        lemma_advance_all_stopped(again_fresh);
        assert(join(Seq::<Seq<char>>::empty(), ", "@) == Seq::<char>::empty());
        assert("stopped: "@ + Seq::<char>::empty() == "stopped: "@);
    }
}


// ---------------------------------------------------------------------------
// Drain
// ---------------------------------------------------------------------------

/// A child that cannot be stopped does not hold up the end of the
/// supervisor: the drain leaves its record as it is and goes on to the next
/// child, or is done.
pub proof fn drain_passes_over_failures(state: DispatcherView, reason: Seq<char>)
    requires
        state.wf(),
        state.kind is Drain,
        state.awaiting is Stop,
    ensures
        ({
            let event = EventView::Stop(StopOutcomeView::Failed { reason });
            let (after, action) = state.step(event);
            &&& after.table == state.table
            &&& after.next > state.next
            &&& action is Stop || action is Drained
        }),
{
    lemma_advance_frame(state.skipped());
    lemma_advance_drain(state.skipped());
}

/// Where every child lets itself be stopped, the drain leaves none
/// running: when it is done, every record in the table is stopped, and the
/// table holds the names it held.
pub proof fn drain_stops_every_child(state: DispatcherView, events: Seq<EventView>)
    requires
        state.wf(),
        forall|i: int| 0 <= i < events.len() ==> !stop_failed(events[i]),
        run(state.drain().0, state.drain().1, events).1 is Drained,
    ensures
        ({
            let table = run(state.drain().0, state.drain().1, events).0.table;
            &&& names_of(table) == names_of(state.table)
            &&& distinct_names(table)
            &&& forall|i: int| 0 <= i < table.len() ==> (#[trigger] table[i]).status is Stopped
        }),
{
    let (begun, first) = state.drain();
    let held = names_of(state.table);
    let fresh = DispatcherView {
        kind: JobKind::Drain,
        names: held,
        ..DispatcherView::idle(state.table, state.data_dir)
    };
    assert forall|i: int| 0 <= i < held.len() implies has_name(
        state.table,
        #[trigger] fresh.names[i],
    ) by {
        lemma_position_of_is_first(state.table, state.table[i].name);
    }
    assert(stopping(fresh, held));
    lemma_advance_stopping(fresh, held);
    lemma_advance_frame(fresh);
    lemma_run_stopping(begun, first, events, held);
    let after = run(begun, first, events).0;
    let table = after.table;
    assert(after.names == held);
    assert(table.len() == names_of(table).len());
    assert forall|i: int| 0 <= i < table.len() implies (#[trigger] table[i]).status is Stopped by {
        assert(names_of(table)[i] == table[i].name);
        lemma_position_of(table, table[i].name, i);
        assert(after.names[i] == table[i].name);
    }
}

proof fn lemma_advance_drain(state: DispatcherView)
    requires
        state.wf(),
        state.kind is Drain,
    ensures
        state.advance().1 is Stop || state.advance().1 is Drained,
    decreases state.names.len() - state.next,
{
    if 0 <= state.next < state.names.len() {
        let known = has_name(state.table, state.current());
        let record = state.table[position_of(state.table, state.current())];
        if !known || record.status == ProcessStatus::Stopped {
            lemma_advance_drain(state.skipped());
        }
    }
}

// ---------------------------------------------------------------------------
// Replies
// ---------------------------------------------------------------------------

/// The most reports that the request in progress can still take before it
/// is answered: none when nothing is awaited, else two for each name that
/// is left, one less when the launch of the current name is awaited.
pub open spec fn reports_left(state: DispatcherView) -> int {
    match state.awaiting {
        Awaiting::Nothing => 0,
        Awaiting::Stop => 2 * (state.names.len() - state.next),
        Awaiting::Launch => 2 * (state.names.len() - state.next) - 1,
    }
}

proof fn lemma_advance_reports_left(state: DispatcherView)
    requires
        state.wf(),
        state.awaiting is Nothing,
    ensures
        0 <= reports_left(state.advance().0) <= 2 * (state.names.len() - state.next),
    decreases state.names.len() - state.next,
{
    if 0 <= state.next < state.names.len() {
        let known = has_name(state.table, state.current());
        let record = state.table[position_of(state.table, state.current())];
        let skip = match state.kind {
            JobKind::Start => known,
            JobKind::Stop | JobKind::Drain => !known || record.status == ProcessStatus::Stopped,
            JobKind::Restart => !known,
        };
        if skip {
            lemma_advance_reports_left(state.skipped());
        }
    }
}

/// Every request is answered, and with one frame that may close the
/// connection. A request is answered at once or asks for work; each report
/// of such work either brings the reply or leaves fewer reports to come,
/// and never less than none. The reply of a request is a success, an error
/// or a list of processes: never a line of output.
pub proof fn every_request_is_answered(state: DispatcherView, event: EventView)
    requires
        state.wf(),
        !(state.awaiting is Nothing),
    ensures
        ({
            let (after, action) = state.step(event);
            &&& reports_left(state) >= 1
            &&& reports_left(after) >= 0
            &&& action is Ignored || reports_left(after) < reports_left(state)
            &&& action is Ignored ==> after == state
            &&& !(action is Ignored) ==> ((action is Launch || action is Stop) <==> !(after.awaiting
                is Nothing))
            &&& action matches ActionView::Reply { response, .. } ==> response.is_terminal()
        }),
{
    lemma_step_frame(state, event);
    match (state.awaiting, event) {
        (Awaiting::Launch, EventView::Launch(SpawnOutcomeView::Spawned { pid, at })) => {
            let record = state.launched_record(pid, at);
            lemma_upsert(state.table, record);
            let inserted = DispatcherView { table: upsert(state.table, record), ..state };
            lemma_advance_frame(inserted.ticked());
            lemma_advance_reports_left(inserted.ticked());
        },
        (Awaiting::Stop, EventView::Stop(StopOutcomeView::Stopped)) => {
            let at = position_of(state.table, state.current());
            lemma_position_of_is_first(state.table, state.current());
            let table = state.table.update(at, state.table[at].stopped());
            assert(distinct_names(table));
            lemma_position_of(table, state.current(), at);
            let stopped = DispatcherView { table, awaiting: Awaiting::Nothing, ..state };
            match state.kind {
                JobKind::Restart => {
                    lemma_advance_frame(stopped);
                    assert(stopped.advance() == stopped.plan_launch());
                },
                _ => {
                    lemma_advance_frame(stopped.ticked());
                    lemma_advance_reports_left(stopped.ticked());
                },
            }
        },
        (Awaiting::Stop, EventView::Stop(StopOutcomeView::Failed { reason })) => {
            if state.kind is Drain {
                lemma_advance_frame(state.skipped());
                lemma_advance_reports_left(state.skipped());
            }
        },
        _ => {},
    }
}

/// What a request is answered with at once, if it is, may close the
/// connection too; and a request that asks for work first awaits its
/// report.
pub proof fn first_action_of_a_request(state: DispatcherView, request: RequestView, now: u64)
    requires
        state.wf(),
    ensures
        ({
            let (after, action) = state.dispatch(request, now);
            &&& after.wf()
            &&& action is Reply || action is Launch || action is Stop
            &&& (action is Launch || action is Stop) <==> !(after.awaiting is Nothing)
            &&& action matches ActionView::Reply { response, .. } ==> response.is_terminal()
        }),
{
    let idle = DispatcherView::idle(state.table, state.data_dir);
    match request {
        RequestView::Start { configs, names, env } => {
            let targets = crate::dispatch::start_names(configs, names);
            if !(first_without_config(targets, configs) < targets.len()) {
                let fresh = DispatcherView {
                    kind: JobKind::Start,
                    names: targets,
                    configs: crate::dispatch::start_configs(configs, names),
                    ..idle
                };
                lemma_advance_frame(fresh);
            }
        },
        RequestView::Stop { names } => {
            let targets = table_targets(state.table, names);
            if !(first_not_in_table(targets, state.table) < targets.len()) {
                lemma_advance_frame(DispatcherView { kind: JobKind::Stop, names: targets, ..idle });
            }
        },
        RequestView::Restart { names } => {
            let targets = table_targets(state.table, names);
            if !(first_not_in_table(targets, state.table) < targets.len()) {
                lemma_advance_frame(
                    DispatcherView { kind: JobKind::Restart, names: targets, ..idle },
                );
            }
        },
        _ => {},
    }
}

} // verus!

//! The dispatcher: the one place where the process table changes.
//!
//! A request that starts, stops or restarts processes needs work that only
//! the operating system can do. The dispatcher decides; its caller acts. A
//! call of [`Dispatcher::dispatch`] or [`Dispatcher::step`] hands out one
//! [`Action`]; the caller performs it and reports how it ended with the next
//! call of `step`, until the action is a reply.
//!
//! What the dispatcher does is defined by the functions [`dispatch`] and
//! [`step`] on [`DispatcherView`]; the executable methods compute exactly
//! those.

use vstd::prelude::*;
use crate::config::{ProcessConfig, ProcessConfigView};
use crate::paths::Paths;
use crate::process::{
    launch_plan, launch_plan_of, spawn_process, spawn_result, LaunchPlan, LaunchPlanView,
    ManagedProcessView, ProcessError, ProcessErrorView, SpawnOutcome, SpawnOutcomeView,
};
use crate::protocol::{ProcessStatus, Request, RequestView, Response, ResponseView};
use crate::table::{
    distinct_names, has_name, infos_of, lemma_position_of_is_first, names_of, position_of, upsert,
    ProcessTable,
};
use crate::text::join;

verus! {

// ---------------------------------------------------------------------------
// Actions and events
// ---------------------------------------------------------------------------

/// What the caller is to do next.
#[derive(Debug, PartialEq, Eq)]
pub enum Action {
    /// Launch a child for `name` as `plan` says, and report with
    /// [`Event::Launch`].
    Launch { name: String, plan: LaunchPlan },
    /// Stop the child of `name`: send it the terminate signal, give it
    /// `kill_timeout_ms` to exit, kill it if it has not, and reap it.
    /// Report with [`Event::Stop`].
    Stop { name: String, pid: Option<u32>, kill_timeout_ms: u64 },
    /// The request is done: send `response`. If `shutdown` is set, tell the
    /// accept loop to end.
    Reply { response: Response, shutdown: bool },
    /// Every child has been asked to stop; there is nobody to reply to.
    Drained,
    /// The event answered no action; nothing has changed.
    Ignored,
}

/// The mathematical content of an [`Action`].
pub enum ActionView {
    Launch { name: Seq<char>, plan: LaunchPlanView },
    Stop { name: Seq<char>, pid: Option<u32>, kill_timeout_ms: u64 },
    Reply { response: ResponseView, shutdown: bool },
    Drained,
    Ignored,
}

impl View for Action {
    type V = ActionView;

    open spec fn view(&self) -> ActionView {
        match self {
            Action::Launch { name, plan } => ActionView::Launch { name: name@, plan: plan@ },
            Action::Stop { name, pid, kill_timeout_ms } => ActionView::Stop {
                name: name@,
                pid: *pid,
                kill_timeout_ms: *kill_timeout_ms,
            },
            Action::Reply { response, shutdown } => ActionView::Reply {
                response: response@,
                shutdown: *shutdown,
            },
            Action::Drained => ActionView::Drained,
            Action::Ignored => ActionView::Ignored,
        }
    }
}

/// How stopping a child ended.
#[derive(Debug, PartialEq, Eq)]
pub enum StopOutcome {
    /// The child has exited and been reaped.
    Stopped,
    /// A signal could not be sent or the wait failed; `reason` says which.
    Failed { reason: String },
}

/// The mathematical content of a [`StopOutcome`].
pub enum StopOutcomeView {
    Stopped,
    Failed { reason: Seq<char> },
}

impl View for StopOutcome {
    type V = StopOutcomeView;

    open spec fn view(&self) -> StopOutcomeView {
        match self {
            StopOutcome::Stopped => StopOutcomeView::Stopped,
            StopOutcome::Failed { reason } => StopOutcomeView::Failed { reason: reason@ },
        }
    }
}

/// How the action that was handed out last ended.
#[derive(Debug, PartialEq, Eq)]
pub enum Event {
    Launch(SpawnOutcome),
    Stop(StopOutcome),
}

/// The mathematical content of an [`Event`].
pub enum EventView {
    Launch(SpawnOutcomeView),
    Stop(StopOutcomeView),
}

impl View for Event {
    type V = EventView;

    open spec fn view(&self) -> EventView {
        match self {
            Event::Launch(outcome) => EventView::Launch(outcome@),
            Event::Stop(outcome) => EventView::Stop(outcome@),
        }
    }
}

// ---------------------------------------------------------------------------
// The model
// ---------------------------------------------------------------------------

/// Which request is being carried out.
#[derive(Debug, Clone, Copy, PartialEq, Eq, Structural)]
pub enum JobKind {
    Start,
    Stop,
    Restart,
    /// Stopping every child before the supervisor ends. Unlike a stop it
    /// goes on when a child cannot be stopped, and it has no reply.
    Drain,
}

/// Which report the dispatcher waits for.
#[derive(Debug, Clone, Copy, PartialEq, Eq, Structural)]
pub enum Awaiting {
    /// No report: no request is in progress.
    Nothing,
    /// That of a launch.
    Launch,
    /// That of a stop.
    Stop,
}

/// The state of the dispatcher: the table, and how far the request in
/// progress has come.
pub struct DispatcherView {
    pub table: Seq<ManagedProcessView>,
    /// The data directory, under which the logs lie.
    pub data_dir: Seq<char>,
    pub kind: JobKind,
    /// The names the request is about, in the order in which they are taken.
    pub names: Seq<Seq<char>>,
    /// For a start, the descriptor of each name.
    pub configs: Seq<ProcessConfigView>,
    /// How many names have been dealt with.
    pub next: int,
    /// The names that were started, stopped or restarted so far.
    pub done: Seq<Seq<char>>,
    pub awaiting: Awaiting,
}

/// The position of the first pair whose name is `name`, or the number of
/// pairs if there is none.
pub open spec fn config_position(
    configs: Seq<(Seq<char>, ProcessConfigView)>,
    name: Seq<char>,
) -> int
    decreases configs.len(),
{
    if configs.len() == 0 || configs[0].0 == name {
        0
    } else {
        1 + config_position(configs.drop_first(), name)
    }
}

/// Whether `configs` holds a descriptor under `name`.
pub open spec fn has_config(configs: Seq<(Seq<char>, ProcessConfigView)>, name: Seq<char>) -> bool {
    config_position(configs, name) < configs.len()
}

/// The position of the first of `names` that has no descriptor in
/// `configs`, or the number of names if each has one.
pub open spec fn first_without_config(
    names: Seq<Seq<char>>,
    configs: Seq<(Seq<char>, ProcessConfigView)>,
) -> int
    decreases names.len(),
{
    if names.len() == 0 || !has_config(configs, names[0]) {
        0
    } else {
        1 + first_without_config(names.drop_first(), configs)
    }
}

/// The position of the first of `names` that is not in `table`, or the
/// number of names if all are.
pub open spec fn first_not_in_table(names: Seq<Seq<char>>, table: Seq<ManagedProcessView>) -> int
    decreases names.len(),
{
    if names.len() == 0 || !has_name(table, names[0]) {
        0
    } else {
        1 + first_not_in_table(names.drop_first(), table)
    }
}

/// What a start is about: the requested names, or every name that has a
/// descriptor.
pub open spec fn start_names(
    configs: Seq<(Seq<char>, ProcessConfigView)>,
    names: Option<Seq<Seq<char>>>,
) -> Seq<Seq<char>> {
    match names {
        Some(requested) => requested,
        None => Seq::new(configs.len(), |i: int| configs[i].0),
    }
}

/// The descriptor of each name that a start is about.
pub open spec fn start_configs(
    configs: Seq<(Seq<char>, ProcessConfigView)>,
    names: Option<Seq<Seq<char>>>,
) -> Seq<ProcessConfigView> {
    match names {
        Some(requested) => Seq::new(
            requested.len(),
            |i: int| configs[config_position(configs, requested[i])].1,
        ),
        None => Seq::new(configs.len(), |i: int| configs[i].1),
    }
}

/// What a stop or a restart is about: the requested names, or every name
/// in the table.
pub open spec fn table_targets(
    table: Seq<ManagedProcessView>,
    names: Option<Seq<Seq<char>>>,
) -> Seq<Seq<char>> {
    match names {
        Some(requested) => requested,
        None => names_of(table),
    }
}

/// The reply that a request went well, with `message`.
pub open spec fn success(message: Seq<char>) -> ActionView {
    ActionView::Reply {
        response: ResponseView::Success { message: Some(message) },
        shutdown: false,
    }
}

/// The reply that a request failed, with `message`.
pub open spec fn failure(message: Seq<char>) -> ActionView {
    ActionView::Reply { response: ResponseView::Error { message }, shutdown: false }
}

/// The message that ends a request of kind `kind` that dealt with `done`.
pub open spec fn done_message(kind: JobKind, done: Seq<Seq<char>>) -> Seq<char> {
    match kind {
        JobKind::Start => if done.len() == 0 {
            "everything is already running"@
        } else {
            "started: "@ + join(done, ", "@)
        },
        JobKind::Stop | JobKind::Drain => "stopped: "@ + join(done, ", "@),
        JobKind::Restart => "restarted: "@ + join(done, ", "@),
    }
}

/// The message for a launch of `name` that came to nothing.
pub open spec fn launch_failure(kind: JobKind, name: Seq<char>, error: ProcessErrorView) -> Seq<char> {
    match kind {
        JobKind::Restart => "failed to restart '"@ + name + "': "@ + error.text(),
        _ => "failed to start '"@ + name + "': "@ + error.text(),
    }
}

/// The message for a stop of `name` that failed for `reason`.
pub open spec fn stop_failure(name: Seq<char>, reason: Seq<char>) -> Seq<char> {
    "failed to stop '"@ + name + "': "@ + reason
}

impl DispatcherView {
    /// The state in which no request is in progress.
    pub open spec fn idle(table: Seq<ManagedProcessView>, data_dir: Seq<char>) -> DispatcherView {
        DispatcherView {
            table,
            data_dir,
            kind: JobKind::Stop,
            names: Seq::empty(),
            configs: Seq::empty(),
            next: 0,
            done: Seq::empty(),
            awaiting: Awaiting::Nothing,
        }
    }

    /// What holds of every state the dispatcher is ever in.
    pub open spec fn wf(self) -> bool {
        &&& distinct_names(self.table)
        &&& 0 <= self.next <= self.names.len()
        &&& self.kind is Start ==> self.configs.len() == self.names.len()
        &&& !(self.awaiting is Nothing) ==> self.next < self.names.len()
        &&& (self.awaiting is Stop || (self.awaiting is Launch && !(self.kind is Start)))
            ==> has_name(self.table, self.current())
    }

    /// The name being dealt with.
    pub open spec fn current(self) -> Seq<char> {
        self.names[self.next]
    }

    /// The request in progress has come to its end without an error.
    pub open spec fn completed(self) -> bool {
        self.awaiting is Nothing && self.next == self.names.len()
    }

    /// The state with the request ended where it stands.
    pub open spec fn halted(self) -> DispatcherView {
        DispatcherView { awaiting: Awaiting::Nothing, ..self }
    }

    /// The state with the current name dealt with and nothing noted of it.
    pub open spec fn skipped(self) -> DispatcherView {
        DispatcherView { next: self.next + 1, awaiting: Awaiting::Nothing, ..self }
    }

    /// The state with the current name dealt with and noted as done.
    pub open spec fn ticked(self) -> DispatcherView {
        DispatcherView {
            next: self.next + 1,
            done: self.done.push(self.current()),
            awaiting: Awaiting::Nothing,
            ..self
        }
    }

    /// The descriptor from which the current name is launched: for a
    /// start the one that came with the request, for a restart the one in
    /// the table.
    pub open spec fn current_config(self) -> ProcessConfigView {
        match self.kind {
            JobKind::Start => self.configs[self.next],
            _ => self.table[position_of(self.table, self.current())].config,
        }
    }

    /// Plans the launch of the current name: the launch is the next action,
    /// unless the command line is no command, which ends the request.
    pub open spec fn plan_launch(self) -> (DispatcherView, ActionView) {
        match launch_plan_of(self.current(), self.current_config(), self.data_dir) {
            Ok(plan) => (
                DispatcherView { awaiting: Awaiting::Launch, ..self },
                ActionView::Launch { name: self.current(), plan },
            ),
            Err(error) => (
                self.halted(),
                failure(launch_failure(self.kind, self.current(), error)),
            ),
        }
    }

    /// Asks for the child of the current name to be stopped.
    pub open spec fn ask_stop(self) -> (DispatcherView, ActionView) {
        let record = self.table[position_of(self.table, self.current())];
        (
            DispatcherView { awaiting: Awaiting::Stop, ..self },
            ActionView::Stop {
                name: self.current(),
                pid: record.pid,
                kill_timeout_ms: record.config.kill_timeout_ms(),
            },
        )
    }

    /// Goes on from the current name to the first that needs work from
    /// outside, and asks for that work; or ends the request with its
    /// message, if no name is left.
    ///
    /// A start passes over names that are in the table. A stop passes over
    /// processes that are stopped. A restart stops what is not stopped and
    /// launches what is.
    pub open spec fn advance(self) -> (DispatcherView, ActionView)
        decreases self.names.len() - self.next,
    {
        if !(0 <= self.next < self.names.len()) {
            (
                self.halted(),
                if self.kind is Drain {
                    ActionView::Drained
                } else {
                    success(done_message(self.kind, self.done))
                },
            )
        } else {
            let known = has_name(self.table, self.current());
            let record = self.table[position_of(self.table, self.current())];
            match self.kind {
                JobKind::Start => if known {
                    self.skipped().advance()
                } else {
                    self.plan_launch()
                },
                JobKind::Stop | JobKind::Drain => if !known || record.status
                    == ProcessStatus::Stopped {
                    self.skipped().advance()
                } else {
                    self.ask_stop()
                },
                JobKind::Restart => if !known {
                    self.skipped().advance()
                } else if record.status == ProcessStatus::Stopped {
                    self.plan_launch()
                } else {
                    self.ask_stop()
                },
            }
        }
    }

    /// The record of the child that was launched for the current name. A
    /// restart counts one up from the record it replaces.
    pub open spec fn launched_record(self, pid: Option<u32>, at: u64) -> ManagedProcessView {
        let fresh = ManagedProcessView::fresh(self.current(), self.current_config(), pid, at);
        match self.kind {
            JobKind::Restart => ManagedProcessView {
                restarts: (self.table[position_of(self.table, self.current())].restarts
                    + 1) as u32,
                ..fresh
            },
            _ => fresh,
        }
    }

    /// Whether `event` can be taken in this state: it can, unless it
    /// reports a restart of a process whose counter cannot count further.
    pub open spec fn accepts(self, event: EventView) -> bool {
        let restarted = self.awaiting is Launch && self.kind is Restart && event is Launch
            && event->Launch_0 is Spawned && 0 <= self.next < self.names.len();
        restarted ==> self.table[position_of(self.table, self.current())].restarts < u32::MAX
    }

    /// The state after `event`, and the next action. A report that does
    /// not answer the action in hand is ignored.
    ///
    /// The report of a launch becomes a record as [`spawn_result`] says; the
    /// record goes into the table under its name, and the request goes on.
    /// Where there is no record, the request ends with the error.
    pub open spec fn step(self, event: EventView) -> (DispatcherView, ActionView) {
        if !(0 <= self.next < self.names.len()) {
            (self, ActionView::Ignored)
        } else {
            match (self.awaiting, event) {
                (Awaiting::Launch, EventView::Launch(outcome)) => match spawn_result(
                    self.current(),
                    self.current_config(),
                    outcome,
                ) {
                    Ok(record) => DispatcherView {
                        table: upsert(
                            self.table,
                            self.launched_record(record.pid, record.started_at),
                        ),
                        ..self
                    }.ticked().advance(),
                    Err(error) => (
                        self.halted(),
                        failure(launch_failure(self.kind, self.current(), error)),
                    ),
                },
                (Awaiting::Stop, EventView::Stop(StopOutcomeView::Stopped)) => {
                    let at = position_of(self.table, self.current());
                    let stopped = DispatcherView {
                        table: if has_name(self.table, self.current()) {
                            self.table.update(at, self.table[at].stopped())
                        } else {
                            self.table
                        },
                        awaiting: Awaiting::Nothing,
                        ..self
                    };
                    match self.kind {
                        JobKind::Restart => stopped.advance(),
                        _ => stopped.ticked().advance(),
                    }
                },
                (Awaiting::Stop, EventView::Stop(StopOutcomeView::Failed { reason })) => {
                    if self.kind is Drain {
                        self.skipped().advance()
                    } else {
                        (self.halted(), failure(stop_failure(self.current(), reason)))
                    }
                },
                _ => (self, ActionView::Ignored),
            }
        }
    }

    /// The state after `request` has come in, and the first action.
    pub open spec fn dispatch(self, request: RequestView, now: u64) -> (DispatcherView, ActionView) {
        let idle = DispatcherView::idle(self.table, self.data_dir);
        match request {
            RequestView::Start { configs, names, env } => {
                let targets = start_names(configs, names);
                let missing = first_without_config(targets, configs);
                if missing < targets.len() {
                    (idle, failure("process '"@ + targets[missing] + "' not found in configs"@))
                } else {
                    DispatcherView {
                        kind: JobKind::Start,
                        names: targets,
                        configs: start_configs(configs, names),
                        ..idle
                    }.advance()
                }
            },
            RequestView::Stop { names } => self.dispatch_on_table(JobKind::Stop, names),
            RequestView::Restart { names } => self.dispatch_on_table(JobKind::Restart, names),
            RequestView::List => (
                idle,
                ActionView::Reply {
                    response: ResponseView::ProcessList { processes: infos_of(self.table, now) },
                    shutdown: false,
                },
            ),
            RequestView::Kill => (
                idle,
                ActionView::Reply {
                    response: ResponseView::Success { message: Some("daemon shutting down"@) },
                    shutdown: true,
                },
            ),
            RequestView::Log { .. } => (idle, failure("not implemented"@)),
        }
    }

    /// The beginning of the end: every child in the table that is not
    /// stopped is asked to stop, in the order of the table.
    pub open spec fn drain(self) -> (DispatcherView, ActionView) {
        DispatcherView {
            kind: JobKind::Drain,
            names: names_of(self.table),
            ..DispatcherView::idle(self.table, self.data_dir)
        }.advance()
    }

    /// The beginning of a stop or a restart: every requested name must be
    /// in the table.
    pub open spec fn dispatch_on_table(self, kind: JobKind, names: Option<Seq<Seq<char>>>) -> (
        DispatcherView,
        ActionView,
    ) {
        let idle = DispatcherView::idle(self.table, self.data_dir);
        let targets = table_targets(self.table, names);
        let missing = first_not_in_table(targets, self.table);
        if missing < targets.len() {
            (idle, failure(ProcessErrorView::NotFound(targets[missing]).text()))
        } else {
            DispatcherView { kind, names: targets, ..idle }.advance()
        }
    }
}


// ---------------------------------------------------------------------------
// Lemmas on the model
// ---------------------------------------------------------------------------

/// `config_position` is the first position that holds the name.
pub proof fn lemma_config_position(
    configs: Seq<(Seq<char>, ProcessConfigView)>,
    name: Seq<char>,
    at: int,
)
    requires
        0 <= at <= configs.len(),
        forall|j: int| 0 <= j < at ==> configs[j].0 != name,
        at < configs.len() ==> configs[at].0 == name,
    ensures
        config_position(configs, name) == at,
    decreases at,
{
    if at > 0 {
        lemma_config_position(configs.drop_first(), name, at - 1);
    }
}

/// A name that stands in `configs` is found at or before where it stands.
pub proof fn lemma_config_position_bound(
    configs: Seq<(Seq<char>, ProcessConfigView)>,
    name: Seq<char>,
    at: int,
)
    requires
        0 <= at < configs.len(),
        configs[at].0 == name,
    ensures
        0 <= config_position(configs, name) <= at,
    decreases at,
{
    if configs[0].0 != name {
        lemma_config_position_bound(configs.drop_first(), name, at - 1);
    }
}

/// `first_without_config` is the first position whose name has no
/// descriptor.
pub proof fn lemma_first_without_config(
    names: Seq<Seq<char>>,
    configs: Seq<(Seq<char>, ProcessConfigView)>,
    at: int,
)
    requires
        0 <= at <= names.len(),
        forall|j: int| 0 <= j < at ==> has_config(configs, names[j]),
        at < names.len() ==> !has_config(configs, names[at]),
    ensures
        first_without_config(names, configs) == at,
    decreases at,
{
    if at > 0 {
        lemma_first_without_config(names.drop_first(), configs, at - 1);
    }
}

/// `first_not_in_table` is the first position whose name is not in the
/// table.
pub proof fn lemma_first_not_in_table(
    names: Seq<Seq<char>>,
    table: Seq<ManagedProcessView>,
    at: int,
)
    requires
        0 <= at <= names.len(),
        forall|j: int| 0 <= j < at ==> has_name(table, names[j]),
        at < names.len() ==> !has_name(table, names[at]),
    ensures
        first_not_in_table(names, table) == at,
    decreases at,
{
    if at > 0 {
        lemma_first_not_in_table(names.drop_first(), table, at - 1);
    }
}

// ---------------------------------------------------------------------------
// The dispatcher
// ---------------------------------------------------------------------------

/// The process table together with the request that is being carried out
/// on it.
#[derive(Debug)]
pub struct Dispatcher {
    table: ProcessTable,
    paths: Paths,
    kind: JobKind,
    names: Vec<String>,
    configs: Vec<ProcessConfig>,
    next: usize,
    done: Vec<String>,
    awaiting: Awaiting,
}

impl View for Dispatcher {
    type V = DispatcherView;

    closed spec fn view(&self) -> DispatcherView {
        DispatcherView {
            table: self.table@,
            data_dir: self.paths@,
            kind: self.kind,
            names: self.names.deep_view(),
            configs: self.configs.deep_view(),
            next: self.next as int,
            done: self.done.deep_view(),
            awaiting: self.awaiting,
        }
    }
}

/// Where the descriptor named `name` stands in `configs`.
fn find_config(configs: &Vec<(String, ProcessConfig)>, name: &String) -> (found: Option<usize>)
    ensures
        found is Some == has_config(configs.deep_view(), name@),
        found matches Some(at) ==> at == config_position(configs.deep_view(), name@),
{
    let mut i: usize = 0;
    while i < configs.len()
        invariant
            i <= configs.len(),
            forall|j: int| 0 <= j < i ==> configs.deep_view()[j].0 != name@,
        decreases configs.len() - i,
    {
        if configs[i].0 == *name {
            proof {
                lemma_config_position(configs.deep_view(), name@, i as int);
            }
            return Some(i);
        }
        i += 1;
    }
    proof {
        lemma_config_position(configs.deep_view(), name@, configs.len() as int);
    }
    None
}

fn reply_success(message: String) -> (action: Action)
    ensures
        action@ == success(message@),
{
    Action::Reply { response: Response::Success { message: Some(message) }, shutdown: false }
}

fn reply_failure(message: String) -> (action: Action)
    ensures
        action@ == failure(message@),
{
    Action::Reply { response: Response::Error { message }, shutdown: false }
}

fn done_text(kind: JobKind, done: &Vec<String>) -> (text: String)
    ensures
        text@ == done_message(kind, done.deep_view()),
{
    match kind {
        JobKind::Start => {
            if done.len() == 0 {
                String::from_str("everything is already running")
            } else {
                String::from_str("started: ").concat(crate::text::join_strings(done, ", ").as_str())
            }
        },
        JobKind::Stop | JobKind::Drain => String::from_str("stopped: ").concat(
            crate::text::join_strings(done, ", ").as_str(),
        ),
        JobKind::Restart => String::from_str("restarted: ").concat(
            crate::text::join_strings(done, ", ").as_str(),
        ),
    }
}

fn launch_failure_text(kind: JobKind, name: &String, error: &ProcessError) -> (text: String)
    ensures
        text@ == launch_failure(kind, name@, error@),
{
    let head = match kind {
        JobKind::Restart => String::from_str("failed to restart '"),
        _ => String::from_str("failed to start '"),
    };
    head.concat(name.as_str()).concat("': ").concat(error.to_string().as_str())
}

fn stop_failure_text(name: &String, reason: &String) -> (text: String)
    ensures
        text@ == stop_failure(name@, reason@),
{
    String::from_str("failed to stop '").concat(name.as_str()).concat("': ").concat(
        reason.as_str(),
    )
}

impl Dispatcher {
    /// What holds of every dispatcher.
    pub open spec fn wf(&self) -> bool {
        self@.wf()
    }

    /// A dispatcher with an empty table and no request in progress.
    pub fn new(paths: Paths) -> (dispatcher: Dispatcher)
        ensures
            dispatcher@ == DispatcherView::idle(Seq::empty(), paths@),
            dispatcher.wf(),
    {
        let dispatcher = Dispatcher {
            table: ProcessTable::new(),
            paths,
            kind: JobKind::Stop,
            names: Vec::new(),
            configs: Vec::new(),
            next: 0,
            done: Vec::new(),
            awaiting: Awaiting::Nothing,
        };
        assert(dispatcher.names.deep_view() == Seq::<Seq<char>>::empty());
        assert(dispatcher.done.deep_view() == Seq::<Seq<char>>::empty());
        assert(dispatcher.configs.deep_view() == Seq::<ProcessConfigView>::empty());
        dispatcher
    }

    /// A dispatcher that goes on from `table`, with no request in progress.
    pub fn with_table(paths: Paths, table: ProcessTable) -> (dispatcher: Dispatcher)
        requires
            table.wf(),
        ensures
            dispatcher@ == DispatcherView::idle(table@, paths@),
            dispatcher.wf(),
    {
        let dispatcher = Dispatcher {
            table,
            paths,
            kind: JobKind::Stop,
            names: Vec::new(),
            configs: Vec::new(),
            next: 0,
            done: Vec::new(),
            awaiting: Awaiting::Nothing,
        };
        assert(dispatcher.names.deep_view() == Seq::<Seq<char>>::empty());
        assert(dispatcher.done.deep_view() == Seq::<Seq<char>>::empty());
        assert(dispatcher.configs.deep_view() == Seq::<ProcessConfigView>::empty());
        dispatcher
    }

    /// The process table.
    pub fn table(&self) -> (table: &ProcessTable)
        ensures
            table@ == self@.table,
    {
        &self.table
    }

    /// The reply to a list, for a caller that holds the dispatcher beside
    /// other readers: what [`Dispatcher::dispatch`] replies to
    /// [`Request::List`], with nothing changed.
    pub fn list(&self, now: u64) -> (reply: Action)
        ensures
            reply@ == self@.dispatch(RequestView::List, now).1,
    {
        Action::Reply {
            response: Response::ProcessList { processes: self.table.list(now) },
            shutdown: false,
        }
    }

    /// The reply to a kill, for a caller that does not hold the dispatcher:
    /// what [`Dispatcher::dispatch`] replies to [`Request::Kill`] in any
    /// state.
    pub fn kill() -> (reply: Action)
        ensures
            reply@ == (ActionView::Reply {
                response: ResponseView::Success { message: Some("daemon shutting down"@) },
                shutdown: true,
            }),
            forall|state: DispatcherView, now: u64|
                reply@ == (#[trigger] state.dispatch(RequestView::Kill, now)).1,
    {
        Action::Reply {
            response: Response::Success { message: Some(String::from_str("daemon shutting down")) },
            shutdown: true,
        }
    }

    /// Forgets the request in progress.
    fn reset(&mut self)
        requires
            old(self).wf(),
        ensures
            final(self)@ == DispatcherView::idle(old(self)@.table, old(self)@.data_dir),
            final(self).wf(),
    {
        self.kind = JobKind::Stop;
        self.names = Vec::new();
        self.configs = Vec::new();
        self.next = 0;
        self.done = Vec::new();
        self.awaiting = Awaiting::Nothing;
        assert(self.names.deep_view() == Seq::<Seq<char>>::empty());
        assert(self.done.deep_view() == Seq::<Seq<char>>::empty());
        assert(self.configs.deep_view() == Seq::<ProcessConfigView>::empty());
    }

    fn plan_launch(&mut self, at: Option<usize>) -> (action: Action)
        requires
            old(self).wf(),
            old(self)@.next < old(self)@.names.len(),
            old(self)@.kind is Start ==> at is None,
            !(old(self)@.kind is Start) ==> has_name(old(self)@.table, old(self)@.current()),
            !(old(self)@.kind is Start) ==> (at matches Some(p) && p == position_of(
                old(self)@.table,
                old(self)@.current(),
            )),
        ensures
            (final(self)@, action@) == old(self)@.plan_launch(),
            final(self).wf(),
    {
        let planned = match at {
            Some(at) => launch_plan(
                self.names[self.next].as_str(),
                &self.table.entry(at).config,
                &self.paths,
            ),
            None => launch_plan(
                self.names[self.next].as_str(),
                &self.configs[self.next],
                &self.paths,
            ),
        };
        match planned {
            Ok(plan) => {
                self.awaiting = Awaiting::Launch;
                Action::Launch { name: self.names[self.next].clone(), plan }
            },
            Err(error) => {
                self.awaiting = Awaiting::Nothing;
                reply_failure(launch_failure_text(self.kind, &self.names[self.next], &error))
            },
        }
    }

    fn ask_stop(&mut self, at: usize) -> (action: Action)
        requires
            old(self).wf(),
            old(self)@.next < old(self)@.names.len(),
            has_name(old(self)@.table, old(self)@.current()),
            at == position_of(old(self)@.table, old(self)@.current()),
        ensures
            (final(self)@, action@) == old(self)@.ask_stop(),
            final(self).wf(),
    {
        self.awaiting = Awaiting::Stop;
        let record = self.table.entry(at);
        Action::Stop {
            name: self.names[self.next].clone(),
            pid: record.pid,
            kill_timeout_ms: record.config.kill_timeout_ms(),
        }
    }

    fn advance(&mut self) -> (action: Action)
        requires
            old(self).wf(),
        ensures
            (final(self)@, action@) == old(self)@.advance(),
            final(self).wf(),
    {
        loop
            invariant
                self.wf(),
                self@.advance() == old(self)@.advance(),
            decreases self.names.len() - self.next,
        {
            if self.next >= self.names.len() {
                self.awaiting = Awaiting::Nothing;
                return match self.kind {
                    JobKind::Drain => Action::Drained,
                    _ => reply_success(done_text(self.kind, &self.done)),
                };
            }
            let found = self.table.position(&self.names[self.next]);
            match self.kind {
                JobKind::Start => {
                    if found.is_none() {
                        return self.plan_launch(None);
                    }
                },
                JobKind::Stop | JobKind::Drain => {
                    if let Some(at) = found {
                        if self.table.entry(at).status != ProcessStatus::Stopped {
                            return self.ask_stop(at);
                        }
                    }
                },
                JobKind::Restart => {
                    if let Some(at) = found {
                        if self.table.entry(at).status == ProcessStatus::Stopped {
                            return self.plan_launch(found);
                        } else {
                            return self.ask_stop(at);
                        }
                    }
                },
            }
            self.next += 1;
            self.awaiting = Awaiting::Nothing;
        }
    }

    fn handle_start(
        &mut self,
        configs: Vec<(String, ProcessConfig)>,
        names: Option<Vec<String>>,
    ) -> (action: Action)
        requires
            old(self).wf(),
            old(self)@ == DispatcherView::idle(old(self)@.table, old(self)@.data_dir),
        ensures
            (final(self)@, action@) == old(self)@.dispatch(
                RequestView::Start {
                    configs: configs.deep_view(),
                    names: names.deep_view(),
                    env: None,
                },
                0,
            ),
            final(self).wf(),
    {
        let ghost all = configs.deep_view();
        let mut chosen: Vec<ProcessConfig> = Vec::new();
        let targets = match names {
            Some(requested) => {
                let mut i: usize = 0;
                while i < requested.len()
                    invariant
                        i <= requested.len(),
                        all == configs.deep_view(),
                        names == Some(requested),
                        self.wf(),
                        self@ == old(self)@,
                        self@ == DispatcherView::idle(self@.table, self@.data_dir),
                        forall|j: int| 0 <= j < i ==> has_config(all, requested.deep_view()[j]),
                        chosen.deep_view() == start_configs(all, Some(requested.deep_view())).take(
                            i as int,
                        ),
                    decreases requested.len() - i,
                {
                    match find_config(&configs, &requested[i]) {
                        Some(at) => {
                            let ghost before = chosen.deep_view();
                            chosen.push(configs[at].1.clone());
                            assert(chosen.deep_view() == before.push(all[at as int].1));
                        },
                        None => {
                            proof {
                                lemma_first_without_config(requested.deep_view(), all, i as int);
                                assert(names.deep_view() == Some(requested.deep_view()));
                                assert(start_names(all, names.deep_view())
                                    == requested.deep_view());
                                assert(requested.deep_view()[i as int] == requested[i as int]@);
                            }
                            return reply_failure(
                                String::from_str("process '").concat(requested[i].as_str()).concat(
                                    "' not found in configs",
                                ),
                            );
                        },
                    }
                    i += 1;
                }
                proof {
                    lemma_first_without_config(requested.deep_view(), all, requested.len() as int);
                    assert(names.deep_view() == Some(requested.deep_view()));
                    let wanted = start_configs(all, Some(requested.deep_view()));
                    assert(wanted.take(requested.len() as int) == wanted);
                }
                requested
            },
            None => {
                let mut found: Vec<String> = Vec::new();
                let mut i: usize = 0;
                while i < configs.len()
                    invariant
                        i <= configs.len(),
                        all == configs.deep_view(),
                        self.wf(),
                        self@ == old(self)@,
                        found.deep_view() == start_names(all, None).take(i as int),
                        chosen.deep_view() == start_configs(all, None).take(i as int),
                    decreases configs.len() - i,
                {
                    let ghost names_before = found.deep_view();
                    let ghost configs_before = chosen.deep_view();
                    found.push(configs[i].0.clone());
                    chosen.push(configs[i].1.clone());
                    assert(found.deep_view() == names_before.push(all[i as int].0));
                    assert(chosen.deep_view() == configs_before.push(all[i as int].1));
                    i += 1;
                }
                proof {
                    let listed = start_names(all, None);
                    assert forall|j: int| 0 <= j < listed.len() implies has_config(
                        all,
                        listed[j],
                    ) by {
                        lemma_config_position_bound(all, listed[j], j);
                    }
                    lemma_first_without_config(listed, all, listed.len() as int);
                    assert(names.deep_view() == None::<Seq<Seq<char>>>);
                    assert(listed.take(configs.len() as int) == listed);
                    let wanted = start_configs(all, None);
                    assert(wanted.take(configs.len() as int) == wanted);
                }
                found
            },
        };
        self.kind = JobKind::Start;
        self.names = targets;
        self.configs = chosen;
        self.advance()
    }

    fn handle_on_table(&mut self, kind: JobKind, names: Option<Vec<String>>) -> (action: Action)
        requires
            old(self).wf(),
            !(kind is Start),
            old(self)@ == DispatcherView::idle(old(self)@.table, old(self)@.data_dir),
        ensures
            (final(self)@, action@) == old(self)@.dispatch_on_table(kind, names.deep_view()),
            final(self).wf(),
    {
        let targets = match names {
            Some(requested) => {
                let mut i: usize = 0;
                while i < requested.len()
                    invariant
                        i <= requested.len(),
                        forall|j: int|
                            0 <= j < i ==> has_name(self@.table, requested.deep_view()[j]),
                        self@ == old(self)@,
                        self.wf(),
                        names == Some(requested),
                        self@ == DispatcherView::idle(self@.table, self@.data_dir),
                    decreases requested.len() - i,
                {
                    if !self.table.contains_key(&requested[i]) {
                        proof {
                            lemma_first_not_in_table(
                                requested.deep_view(),
                                self@.table,
                                i as int,
                            );
                            assert(names.deep_view() == Some(requested.deep_view()));
                            assert(requested.deep_view()[i as int] == requested[i as int]@);
                        }
                        return reply_failure(
                            ProcessError::NotFound(requested[i].clone()).to_string(),
                        );
                    }
                    i += 1;
                }
                proof {
                    lemma_first_not_in_table(
                        requested.deep_view(),
                        self@.table,
                        requested.len() as int,
                    );
                }
                requested
            },
            None => {
                let all = self.table.names();
                proof {
                    let table = self@.table;
                    assert forall|j: int| 0 <= j < table.len() implies has_name(
                        table,
                        names_of(table)[j],
                    ) by {
                        lemma_position_of_is_first(table, table[j].name);
                    }
                    lemma_first_not_in_table(names_of(table), table, table.len() as int);
                }
                all
            },
        };
        self.kind = kind;
        self.names = targets;
        self.advance()
    }

    fn handle_stop(&mut self, names: Option<Vec<String>>) -> (action: Action)
        requires
            old(self).wf(),
            old(self)@ == DispatcherView::idle(old(self)@.table, old(self)@.data_dir),
        ensures
            (final(self)@, action@) == old(self)@.dispatch_on_table(
                JobKind::Stop,
                names.deep_view(),
            ),
            final(self).wf(),
    {
        self.handle_on_table(JobKind::Stop, names)
    }

    fn handle_restart(&mut self, names: Option<Vec<String>>) -> (action: Action)
        requires
            old(self).wf(),
            old(self)@ == DispatcherView::idle(old(self)@.table, old(self)@.data_dir),
        ensures
            (final(self)@, action@) == old(self)@.dispatch_on_table(
                JobKind::Restart,
                names.deep_view(),
            ),
            final(self).wf(),
    {
        self.handle_on_table(JobKind::Restart, names)
    }

    /// Takes in `request` and says what to do first. A request that is
    /// still in progress is dropped.
    ///
    /// The descriptors of a start that has been decoded hold each name
    /// once. Of descriptors that hold a name twice, the first under the name
    /// counts.
    ///
    /// `now` is the supervisor's clock in milliseconds; a list reports
    /// uptimes against it.
    pub fn dispatch(&mut self, request: Request, now: u64) -> (action: Action)
        requires
            old(self).wf(),
        ensures
            (final(self)@, action@) == old(self)@.dispatch(request@, now),
            final(self).wf(),
    {
        self.reset();
        match request {
            Request::Start { configs, names, env } => self.handle_start(configs, names),
            Request::Stop { names } => self.handle_stop(names),
            Request::Restart { names } => self.handle_restart(names),
            Request::List => Action::Reply {
                response: Response::ProcessList { processes: self.table.list(now) },
                shutdown: false,
            },
            Request::Kill => Action::Reply {
                response: Response::Success {
                    message: Some(String::from_str("daemon shutting down")),
                },
                shutdown: true,
            },
            Request::Log { name, lines, follow } => reply_failure(
                String::from_str("not implemented"),
            ),
        }
    }

    /// Begins to stop every child, as the supervisor does before it ends.
    /// A request that is still in progress is dropped.
    pub fn drain(&mut self) -> (action: Action)
        requires
            old(self).wf(),
        ensures
            (final(self)@, action@) == old(self)@.drain(),
            final(self).wf(),
    {
        self.reset();
        self.kind = JobKind::Drain;
        self.names = self.table.names();
        self.advance()
    }

    /// Whether `event` can be handed to [`Dispatcher::step`].
    pub fn accepts(&self, event: &Event) -> (ok: bool)
        requires
            self.wf(),
        ensures
            ok == self@.accepts(event@),
    {
        if self.next >= self.names.len() {
            return true;
        }
        match (self.awaiting, self.kind, event) {
            (Awaiting::Launch, JobKind::Restart, Event::Launch(SpawnOutcome::Spawned { .. })) => {
                match self.table.position(&self.names[self.next]) {
                    Some(at) => self.table.entry(at).restarts < u32::MAX,
                    None => true,
                }
            },
            _ => true,
        }
    }

    /// Takes in how the last action ended and says what to do next.
    pub fn step(&mut self, event: Event) -> (action: Action)
        requires
            old(self).wf(),
            old(self)@.accepts(event@),
        ensures
            (final(self)@, action@) == old(self)@.step(event@),
            final(self).wf(),
    {
        if self.next >= self.names.len() {
            return Action::Ignored;
        }
        match (self.awaiting, event) {
            (Awaiting::Launch, Event::Launch(outcome)) => {
                let name = self.names[self.next].clone();
                let found = self.table.position(&name);
                let (config, restarts) = match (self.kind, found) {
                    (JobKind::Restart, Some(at)) => (
                        self.table.entry(at).config.clone(),
                        match outcome {
                            SpawnOutcome::Spawned { .. } => self.table.entry(at).restarts + 1,
                            _ => 0,
                        },
                    ),
                    (JobKind::Stop, Some(at)) | (JobKind::Drain, Some(at)) => (
                        self.table.entry(at).config.clone(),
                        0,
                    ),
                    _ => (self.configs[self.next].clone(), 0),
                };
                match spawn_process(name, config, outcome) {
                    Ok(record) => {
                        let mut record = record;
                        record.restarts = restarts;
                        let name = self.names[self.next].clone();
                        self.table.insert(record);
                        let ghost done_before = self.done.deep_view();
                        self.done.push(name);
                        assert(self.done.deep_view() == done_before.push(old(self)@.current()));
                        self.next += 1;
                        self.awaiting = Awaiting::Nothing;
                        self.advance()
                    },
                    Err(error) => {
                        self.awaiting = Awaiting::Nothing;
                        reply_failure(
                            launch_failure_text(self.kind, &self.names[self.next], &error),
                        )
                    },
                }
            },
            (Awaiting::Stop, Event::Stop(StopOutcome::Stopped)) => {
                if let Some(at) = self.table.position(&self.names[self.next]) {
                    self.table.mark_stopped(at);
                }
                self.awaiting = Awaiting::Nothing;
                match self.kind {
                    JobKind::Restart => {},
                    _ => {
                        let ghost done_before = self.done.deep_view();
                        self.done.push(self.names[self.next].clone());
                        assert(self.done.deep_view() == done_before.push(old(self)@.current()));
                        self.next += 1;
                    },
                }
                self.advance()
            },
            (Awaiting::Stop, Event::Stop(StopOutcome::Failed { reason })) => {
                self.awaiting = Awaiting::Nothing;
                match self.kind {
                    JobKind::Drain => {
                        self.next += 1;
                        self.advance()
                    },
                    _ => reply_failure(stop_failure_text(&self.names[self.next], &reason)),
                }
            },
            _ => Action::Ignored,
        }
    }
}

} // verus!

//! Managed processes: how a command line becomes a program and its
//! arguments, what is recorded of a launched child, and the table of all
//! records.

use vstd::prelude::*;
use crate::config::{ProcessConfig, ProcessConfigView};
use crate::paths::{stderr_log_path, stdout_log_path, Paths};
use crate::protocol::{ProcessInfo, ProcessInfoView, ProcessStatus};
use crate::text::{clone_opt_string, clone_pairs};

verus! {

// ---------------------------------------------------------------------------
// Errors
// ---------------------------------------------------------------------------

/// Why a process could not be launched or found.
#[derive(Debug, PartialEq, Eq)]
pub enum ProcessError {
    /// The command line is empty or cannot be split into words.
    InvalidCommand(String),
    /// The operating system refused to launch the child; holds its message.
    SpawnFailed(String),
    /// No process of this name is known.
    NotFound(String),
}

/// The mathematical content of a [`ProcessError`].
pub enum ProcessErrorView {
    InvalidCommand(Seq<char>),
    SpawnFailed(Seq<char>),
    NotFound(Seq<char>),
}

impl View for ProcessError {
    type V = ProcessErrorView;

    open spec fn view(&self) -> ProcessErrorView {
        match self {
            ProcessError::InvalidCommand(reason) => ProcessErrorView::InvalidCommand(reason@),
            ProcessError::SpawnFailed(reason) => ProcessErrorView::SpawnFailed(reason@),
            ProcessError::NotFound(name) => ProcessErrorView::NotFound(name@),
        }
    }
}

impl ProcessErrorView {
    /// The error as one line of text.
    pub open spec fn text(self) -> Seq<char> {
        match self {
            ProcessErrorView::InvalidCommand(reason) => "invalid command: "@ + reason,
            ProcessErrorView::SpawnFailed(reason) => "failed to spawn process: "@ + reason,
            ProcessErrorView::NotFound(name) => "process not found: "@ + name,
        }
    }
}

impl ProcessError {
    /// The error as one line of text.
    pub fn to_string(&self) -> (text: String)
        ensures
            text@ == self@.text(),
    {
        match self {
            ProcessError::InvalidCommand(reason) => {
                String::from_str("invalid command: ").concat(reason.as_str())
            },
            ProcessError::SpawnFailed(reason) => {
                String::from_str("failed to spawn process: ").concat(reason.as_str())
            },
            ProcessError::NotFound(name) => {
                String::from_str("process not found: ").concat(name.as_str())
            },
        }
    }
}

// ---------------------------------------------------------------------------
// Command parsing
// ---------------------------------------------------------------------------

/// The error type of `shell_words::split`.
#[verifier::external_type_specification]
#[verifier::external_body]
pub struct ExParseError(shell_words::ParseError);

/// What `shell_words::split` makes of a command line: its words after quote
/// removal, or nothing where a quote is left open.
pub uninterp spec fn shell_split(command: Seq<char>) -> Option<Seq<Seq<char>>>;

/// `shell_words::split` reads its argument and nothing else, so its result
/// is `shell_split` of the argument; it fails exactly where that is `None`.
pub assume_specification[ shell_words::split ](s: &str) -> (words: Result<
    Vec<String>,
    shell_words::ParseError,
>)
    ensures
        match words {
            Ok(list) => shell_split(s@) == Some(list.deep_view()),
            Err(_) => shell_split(s@) is None,
        },
;

/// The text that `shell_words::ParseError` displays. The crate has one
/// message for its one error.
#[verifier::external_body]
fn parse_error_text(error: &shell_words::ParseError) -> (text: String)
    ensures
        text@ == "missing closing quote"@,
{
    error.to_string()
}

/// A program and its arguments, or the reason why there is none.
pub type ParsedCommand = Result<(Seq<char>, Seq<Seq<char>>), ProcessErrorView>;

/// The first word is the program, the others are its arguments. No words
/// make no command.
pub open spec fn command_of_words(words: Seq<Seq<char>>) -> ParsedCommand {
    if words.len() == 0 {
        Err(ProcessErrorView::InvalidCommand("command is empty"@))
    } else {
        Ok((words[0], words.skip(1)))
    }
}

/// The program and arguments that a command line stands for.
pub open spec fn parsed_command(command: Seq<char>) -> ParsedCommand {
    match shell_split(command) {
        Some(words) => command_of_words(words),
        None => Err(
            ProcessErrorView::InvalidCommand("failed to parse: "@ + "missing closing quote"@),
        ),
    }
}

/// The mathematical content of what [`parse_command`] returns.
pub open spec fn parsed_view(parsed: Result<(String, Vec<String>), ProcessError>) -> ParsedCommand {
    match parsed {
        Ok((program, args)) => Ok((program@, args.deep_view())),
        Err(error) => Err(error@),
    }
}

/// Takes the program and its arguments from the words of a command line.
pub fn command_from_words(words: Vec<String>) -> (parsed: Result<(String, Vec<String>), ProcessError>)
    ensures
        parsed_view(parsed) == command_of_words(words.deep_view()),
{
    let mut words = words;
    if words.len() == 0 {
        return Err(ProcessError::InvalidCommand(String::from_str("command is empty")));
    }
    let ghost all = words.deep_view();
    let args = words.split_off(1);
    let program = words.remove(0);
    assert(args.deep_view() == all.skip(1));
    assert(program@ == all[0]);
    Ok((program, args))
}

/// Splits a command line into a program and its arguments by shell rules.
pub fn parse_command(command: &str) -> (parsed: Result<(String, Vec<String>), ProcessError>)
    ensures
        parsed_view(parsed) == parsed_command(command@),
{
    match shell_words::split(command) {
        Ok(words) => command_from_words(words),
        Err(error) => {
            let reason = String::from_str("failed to parse: ").concat(
                parse_error_text(&error).as_str(),
            );
            Err(ProcessError::InvalidCommand(reason))
        },
    }
}


// ---------------------------------------------------------------------------
// Launching
// ---------------------------------------------------------------------------

/// Everything needed to launch one child. Its standard input is the null
/// device; its output is appended to the two log files, which are created
/// when they do not exist.
#[derive(Debug, PartialEq, Eq)]
pub struct LaunchPlan {
    pub program: String,
    pub args: Vec<String>,
    /// The working directory, where it is not the supervisor's own.
    pub cwd: Option<String>,
    /// Variables set on top of the inherited environment.
    pub env: Vec<(String, String)>,
    pub stdout_log: String,
    pub stderr_log: String,
}

/// The mathematical content of a [`LaunchPlan`].
pub struct LaunchPlanView {
    pub program: Seq<char>,
    pub args: Seq<Seq<char>>,
    pub cwd: Option<Seq<char>>,
    pub env: Seq<(Seq<char>, Seq<char>)>,
    pub stdout_log: Seq<char>,
    pub stderr_log: Seq<char>,
}

impl View for LaunchPlan {
    type V = LaunchPlanView;

    open spec fn view(&self) -> LaunchPlanView {
        LaunchPlanView {
            program: self.program@,
            args: self.args.deep_view(),
            cwd: self.cwd.deep_view(),
            env: self.env.deep_view(),
            stdout_log: self.stdout_log@,
            stderr_log: self.stderr_log@,
        }
    }
}

/// The plan for launching `config` under the name `name`, with the logs
/// under `data_dir`; or the reason why its command line is no command.
pub open spec fn launch_plan_of(
    name: Seq<char>,
    config: ProcessConfigView,
    data_dir: Seq<char>,
) -> Result<LaunchPlanView, ProcessErrorView> {
    match parsed_command(config.command) {
        Ok((program, args)) => Ok(
            LaunchPlanView {
                program,
                args,
                cwd: config.cwd,
                env: match config.env {
                    Some(pairs) => pairs,
                    None => Seq::empty(),
                },
                stdout_log: stdout_log_path(data_dir, name),
                stderr_log: stderr_log_path(data_dir, name),
            },
        ),
        Err(error) => Err(error),
    }
}

/// The mathematical content of what [`launch_plan`] returns.
pub open spec fn planned_view(planned: Result<LaunchPlan, ProcessError>) -> Result<
    LaunchPlanView,
    ProcessErrorView,
> {
    match planned {
        Ok(plan) => Ok(plan@),
        Err(error) => Err(error@),
    }
}

/// Works out how to launch `config` under the name `name`.
pub fn launch_plan(name: &str, config: &ProcessConfig, paths: &Paths) -> (planned: Result<
    LaunchPlan,
    ProcessError,
>)
    ensures
        planned_view(planned) == launch_plan_of(name@, config@, paths@),
{
    match parse_command(config.command.as_str()) {
        Ok((program, args)) => {
            let env = match &config.env {
                Some(pairs) => clone_pairs(pairs),
                None => Vec::new(),
            };
            assert(env.deep_view() == (match config@.env {
                Some(pairs) => pairs,
                None => Seq::empty(),
            }));
            Ok(
                LaunchPlan {
                    program,
                    args,
                    cwd: clone_opt_string(&config.cwd),
                    env,
                    stdout_log: paths.stdout_log(name),
                    stderr_log: paths.stderr_log(name),
                },
            )
        },
        Err(error) => Err(error),
    }
}

/// How an attempt to launch a child ended.
#[derive(Debug, PartialEq, Eq)]
pub enum SpawnOutcome {
    /// The child runs. `pid` is its process id, `at` the supervisor's clock
    /// at that moment, in milliseconds.
    Spawned { pid: Option<u32>, at: u64 },
    /// The operating system refused; `reason` is its message.
    Failed { reason: String },
}

/// The mathematical content of a [`SpawnOutcome`].
pub enum SpawnOutcomeView {
    Spawned { pid: Option<u32>, at: u64 },
    Failed { reason: Seq<char> },
}

impl View for SpawnOutcome {
    type V = SpawnOutcomeView;

    open spec fn view(&self) -> SpawnOutcomeView {
        match self {
            SpawnOutcome::Spawned { pid, at } => SpawnOutcomeView::Spawned { pid: *pid, at: *at },
            SpawnOutcome::Failed { reason } => SpawnOutcomeView::Failed { reason: reason@ },
        }
    }
}

// ---------------------------------------------------------------------------
// ManagedProcess
// ---------------------------------------------------------------------------

/// What the supervisor records of one process. The child itself is held by
/// whoever launched it; `pid` stands for it here.
#[derive(Debug, PartialEq, Eq)]
pub struct ManagedProcess {
    pub name: String,
    /// The descriptor it was launched from, kept for a restart.
    pub config: ProcessConfig,
    /// The id of the child, until the child has been reaped.
    pub pid: Option<u32>,
    pub status: ProcessStatus,
    /// The supervisor's clock at the most recent launch, in milliseconds.
    pub started_at: u64,
    /// How often the process has been restarted on request.
    pub restarts: u32,
}

/// The mathematical content of a [`ManagedProcess`].
pub struct ManagedProcessView {
    pub name: Seq<char>,
    pub config: ProcessConfigView,
    pub pid: Option<u32>,
    pub status: ProcessStatus,
    pub started_at: u64,
    pub restarts: u32,
}

impl View for ManagedProcess {
    type V = ManagedProcessView;

    open spec fn view(&self) -> ManagedProcessView {
        ManagedProcessView {
            name: self.name@,
            config: self.config@,
            pid: self.pid,
            status: self.status,
            started_at: self.started_at,
            restarts: self.restarts,
        }
    }
}

impl DeepView for ManagedProcess {
    type V = ManagedProcessView;

    open spec fn deep_view(&self) -> ManagedProcessView {
        self.view()
    }
}

/// Whole seconds from `started_at` to `now`, both in milliseconds; zero
/// where the clock shows an earlier time.
pub open spec fn uptime_secs(started_at: u64, now: u64) -> u64 {
    if now >= started_at {
        ((now - started_at) / 1000) as u64
    } else {
        0
    }
}

impl ManagedProcessView {
    /// What a client is told about the process at time `now`.
    pub open spec fn info(self, now: u64) -> ProcessInfoView {
        ProcessInfoView {
            name: self.name,
            pid: self.pid,
            status: self.status,
            uptime_secs: Some(uptime_secs(self.started_at, now)),
            restarts: self.restarts,
            group: self.config.group,
        }
    }

    /// The record of a child launched just now: online, never restarted.
    pub open spec fn fresh(
        name: Seq<char>,
        config: ProcessConfigView,
        pid: Option<u32>,
        at: u64,
    ) -> ManagedProcessView {
        ManagedProcessView {
            name,
            config,
            pid,
            status: ProcessStatus::Online,
            started_at: at,
            restarts: 0,
        }
    }

    /// The record after the child has been stopped and reaped. The restart
    /// counter stays.
    pub open spec fn stopped(self) -> ManagedProcessView {
        ManagedProcessView { pid: None, status: ProcessStatus::Stopped, ..self }
    }
}

impl ManagedProcess {
    /// What a client is told about the process when the supervisor's clock
    /// shows `now` milliseconds.
    pub fn to_process_info(&self, now: u64) -> (info: ProcessInfo)
        ensures
            info@ == self@.info(now),
    {
        let uptime: u64 = if now >= self.started_at {
            (now - self.started_at) / 1000
        } else {
            0
        };
        ProcessInfo {
            name: self.name.clone(),
            pid: self.pid,
            status: self.status,
            uptime_secs: Some(uptime),
            restarts: self.restarts,
            group: clone_opt_string(&self.config.group),
        }
    }
}

/// The mathematical content of what [`spawn_process`] returns.
pub open spec fn spawned_view(spawned: Result<ManagedProcess, ProcessError>) -> Result<
    ManagedProcessView,
    ProcessErrorView,
> {
    match spawned {
        Ok(process) => Ok(process@),
        Err(error) => Err(error@),
    }
}

/// What becomes of a launch. A descriptor whose command line is no
/// command has no child and no record, whatever is reported: the error is
/// that of the command line. Else a child that runs has its record, and a
/// launch that was refused is the error.
pub open spec fn spawn_result(
    name: Seq<char>,
    config: ProcessConfigView,
    outcome: SpawnOutcomeView,
) -> Result<ManagedProcessView, ProcessErrorView> {
    match parsed_command(config.command) {
        Err(error) => Err(error),
        Ok(_) => match outcome {
            SpawnOutcomeView::Spawned { pid, at } => Ok(
                ManagedProcessView::fresh(name, config, pid, at),
            ),
            SpawnOutcomeView::Failed { reason } => Err(ProcessErrorView::SpawnFailed(reason)),
        },
    }
}

/// Records the child that was launched for `config` under the name `name`:
/// online, started at the time of the launch, never restarted.
///
/// Where the command line of `config` is empty or cannot be split into
/// words, nothing is to be launched, and the result is that error. Where the
/// launch was refused there is no record either, and the refusal is the
/// error.
pub fn spawn_process(name: String, config: ProcessConfig, outcome: SpawnOutcome) -> (spawned: Result<
    ManagedProcess,
    ProcessError,
>)
    ensures
        spawned_view(spawned) == spawn_result(name@, config@, outcome@),
{
    match parse_command(config.command.as_str()) {
        Err(error) => Err(error),
        Ok(_) => match outcome {
            SpawnOutcome::Spawned { pid, at } => Ok(
                ManagedProcess {
                    name,
                    config,
                    pid,
                    status: ProcessStatus::Online,
                    started_at: at,
                    restarts: 0,
                },
            ),
            SpawnOutcome::Failed { reason } => Err(ProcessError::SpawnFailed(reason)),
        },
    }
}

} // verus!

//! The client's side of the protocol: from a command to the request that
//! is sent, and from a response to the lines that are shown.

use vstd::prelude::*;
use crate::config::{ProcessConfig, ProcessConfigView};
use crate::decimal::{decimal, decimal_chars};
use crate::protocol::{
    ProcessInfo, ProcessInfoView, ProcessStatus, Request, RequestView, Response, ResponseView,
};
use crate::text::string_of;

verus! {

/// What a user can ask for on the command line.
#[derive(Debug, PartialEq, Eq)]
pub enum Command {
    Start { names: Vec<String>, env: Option<Vec<(String, String)>> },
    Stop { names: Vec<String> },
    Restart { names: Vec<String> },
    List,
    Kill,
    Log { name: Option<String>, lines: u64, follow: bool },
}

/// The mathematical content of a [`Command`].
pub enum CommandView {
    Start { names: Seq<Seq<char>>, env: Option<Seq<(Seq<char>, Seq<char>)>> },
    Stop { names: Seq<Seq<char>> },
    Restart { names: Seq<Seq<char>> },
    List,
    Kill,
    Log { name: Option<Seq<char>>, lines: u64, follow: bool },
}

impl View for Command {
    type V = CommandView;

    open spec fn view(&self) -> CommandView {
        match self {
            Command::Start { names, env } => CommandView::Start {
                names: names.deep_view(),
                env: env.deep_view(),
            },
            Command::Stop { names } => CommandView::Stop { names: names.deep_view() },
            Command::Restart { names } => CommandView::Restart { names: names.deep_view() },
            Command::List => CommandView::List,
            Command::Kill => CommandView::Kill,
            Command::Log { name, lines, follow } => CommandView::Log {
                name: name.deep_view(),
                lines: *lines,
                follow: *follow,
            },
        }
    }
}

/// The names as a request carries them: no names stand for all
/// processes.
pub open spec fn names_or_all(names: Seq<Seq<char>>) -> Option<Seq<Seq<char>>> {
    if names.len() == 0 {
        None
    } else {
        Some(names)
    }
}

/// The request that a command stands for. A start carries `configs`, the
/// descriptors that the manifest declares; no other request carries any.
pub open spec fn request_of(
    command: CommandView,
    configs: Seq<(Seq<char>, ProcessConfigView)>,
) -> RequestView {
    match command {
        CommandView::Start { names, env } => RequestView::Start {
            configs,
            names: names_or_all(names),
            env,
        },
        CommandView::Stop { names } => RequestView::Stop { names: names_or_all(names) },
        CommandView::Restart { names } => RequestView::Restart { names: names_or_all(names) },
        CommandView::List => RequestView::List,
        CommandView::Kill => RequestView::Kill,
        CommandView::Log { name, lines, follow } => RequestView::Log { name, lines, follow },
    }
}

impl Command {
    /// The names as a request carries them: no names stand for all
    /// processes.
    pub fn optional_names(names: Vec<String>) -> (optional: Option<Vec<String>>)
        ensures
            optional.deep_view() == names_or_all(names.deep_view()),
    {
        if names.len() == 0 {
            None
        } else {
            Some(names)
        }
    }
}

/// The request that `command` stands for. `configs` are the descriptors
/// that the manifest declares, each under its name; a start sends them all,
/// and the supervisor picks those that are asked for.
pub fn command_to_request(command: Command, configs: Vec<(String, ProcessConfig)>) -> (request:
    Request)
    ensures
        request@ == request_of(command@, configs.deep_view()),
{
    match command {
        Command::Start { names, env } => Request::Start {
            configs,
            names: Command::optional_names(names),
            env,
        },
        Command::Stop { names } => Request::Stop { names: Command::optional_names(names) },
        Command::Restart { names } => Request::Restart { names: Command::optional_names(names) },
        Command::List => Request::List,
        Command::Kill => Request::Kill,
        Command::Log { name, lines, follow } => Request::Log { name, lines, follow },
    }
}

/// One line to show, and where.
#[derive(Debug, PartialEq, Eq)]
pub enum Output {
    /// On standard output.
    Stdout(String),
    /// On standard error.
    Stderr(String),
}

/// The mathematical content of an [`Output`].
pub enum OutputView {
    Stdout(Seq<char>),
    Stderr(Seq<char>),
}

impl View for Output {
    type V = OutputView;

    open spec fn view(&self) -> OutputView {
        match self {
            Output::Stdout(line) => OutputView::Stdout(line@),
            Output::Stderr(line) => OutputView::Stderr(line@),
        }
    }
}

impl DeepView for Output {
    type V = OutputView;

    open spec fn deep_view(&self) -> OutputView {
        self.view()
    }
}

/// The name of a status.
pub open spec fn status_name(status: ProcessStatus) -> Seq<char> {
    match status {
        ProcessStatus::Online => "Online"@,
        ProcessStatus::Stopped => "Stopped"@,
    }
}

/// The process id as it is shown, or nothing for none.
pub open spec fn pid_column(pid: Option<u32>) -> Seq<char> {
    match pid {
        Some(pid) => decimal(pid as nat),
        None => Seq::empty(),
    }
}

/// The line for one process of a list: name, process id and status, with
/// tabs between them.
pub open spec fn process_row(info: ProcessInfoView) -> Seq<char> {
    info.name + "\t"@ + pid_column(info.pid) + "\t"@ + status_name(info.status)
}

/// What is shown for a response. An error goes to standard error behind
/// `error: `; everything else goes to standard output. A success without a
/// message shows `ok`, an empty list `no processes running`, and a line of
/// output its line, behind the name of its process in brackets if it has
/// one.
pub open spec fn shown(response: ResponseView) -> Seq<OutputView> {
    match response {
        ResponseView::Success { message } => seq![
            OutputView::Stdout(
                match message {
                    Some(text) => text,
                    None => "ok"@,
                },
            ),
        ],
        ResponseView::Error { message } => seq![OutputView::Stderr("error: "@ + message)],
        ResponseView::ProcessList { processes } => if processes.len() == 0 {
            seq![OutputView::Stdout("no processes running"@)]
        } else {
            Seq::new(processes.len(), |i: int| OutputView::Stdout(process_row(processes[i])))
        },
        ResponseView::ProcessDetail { info } => {
            let head = seq![OutputView::Stdout(info.name + ": "@ + status_name(info.status))];
            match info.pid {
                Some(pid) => head.push(OutputView::Stdout("  pid: "@ + decimal(pid as nat))),
                None => head,
            }
        },
        ResponseView::LogLine { name, line } => seq![
            OutputView::Stdout(
                match name {
                    Some(name) => "["@ + name + "] "@ + line,
                    None => line,
                },
            ),
        ],
    }
}

/// The exit code that a client ends with after `response`: zero, unless the
/// response is an error.
pub open spec fn exit_code_of(response: ResponseView) -> u8 {
    if response is Error {
        1
    } else {
        0
    }
}

fn status_text(status: ProcessStatus) -> (text: &'static str)
    ensures
        text@ == status_name(status),
{
    match status {
        ProcessStatus::Online => "Online",
        ProcessStatus::Stopped => "Stopped",
    }
}

fn row(info: &ProcessInfo) -> (line: String)
    ensures
        line@ == process_row(info@),
{
    let pid = match info.pid {
        Some(pid) => string_of(&decimal_chars(pid as u64)),
        None => String::new(),
    };
    info.name.clone().concat("\t").concat(pid.as_str()).concat("\t").concat(
        status_text(info.status),
    )
}

/// The lines to show for `response`.
pub fn print_response(response: &Response) -> (lines: Vec<Output>)
    ensures
        lines.deep_view() == shown(response@),
{
    let mut lines: Vec<Output> = Vec::new();
    assert(lines.deep_view() == Seq::<OutputView>::empty());
    match response {
        Response::Success { message } => {
            let text = match message {
                Some(text) => text.clone(),
                None => String::from_str("ok"),
            };
            lines.push(Output::Stdout(text));
            assert(lines.deep_view() == shown(response@));
        },
        Response::Error { message } => {
            lines.push(Output::Stderr(String::from_str("error: ").concat(message.as_str())));
            assert(lines.deep_view() == shown(response@));
        },
        Response::ProcessList { processes } => {
            if processes.len() == 0 {
                lines.push(Output::Stdout(String::from_str("no processes running")));
                assert(lines.deep_view() == shown(response@));
            } else {
                let mut i: usize = 0;
                while i < processes.len()
                    invariant
                        i <= processes.len(),
                        processes.len() > 0,
                        response@ == (ResponseView::ProcessList {
                            processes: processes.deep_view(),
                        }),
                        lines.deep_view() == shown(response@).take(i as int),
                    decreases processes.len() - i,
                {
                    let ghost before = lines.deep_view();
                    lines.push(Output::Stdout(row(&processes[i])));
                    assert(lines.deep_view() == before.push(
                        OutputView::Stdout(process_row(processes.deep_view()[i as int])),
                    ));
                    i += 1;
                }
                assert(shown(response@).take(processes.len() as int) == shown(response@));
            }
        },
        Response::ProcessDetail { info } => {
            let head = info.name.clone().concat(": ").concat(status_text(info.status));
            lines.push(Output::Stdout(head));
            let ghost first = lines.deep_view();
            assert(first == seq![
                OutputView::Stdout(info@.name + ": "@ + status_name(info.status)),
            ]);
            match info.pid {
                Some(pid) => {
                    let text = String::from_str("  pid: ").concat(
                        string_of(&decimal_chars(pid as u64)).as_str(),
                    );
                    lines.push(Output::Stdout(text));
                    assert(lines.deep_view() == first.push(
                        OutputView::Stdout("  pid: "@ + decimal(pid as nat)),
                    ));
                },
                None => {},
            }
        },
        Response::LogLine { name, line } => {
            let text = match name {
                Some(name) => String::from_str("[").concat(name.as_str()).concat("] ").concat(
                    line.as_str(),
                ),
                None => line.clone(),
            };
            lines.push(Output::Stdout(text));
            assert(lines.deep_view() == shown(response@));
        },
    }
    lines
}

/// The exit code that a client ends with after `response`.
pub fn exit_code(response: &Response) -> (code: u8)
    ensures
        code == exit_code_of(response@),
{
    match response {
        Response::Error { .. } => 1,
        _ => 0,
    }
}

} // verus!

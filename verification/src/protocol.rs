//! The values that travel between a client and the supervisor.

use vstd::prelude::*;
use crate::config::{ProcessConfig, ProcessConfigView};

verus! {

/// Whether a managed process has a live child.
#[derive(Debug, Clone, Copy, PartialEq, Eq, Structural)]
pub enum ProcessStatus {
    Online,
    Stopped,
}

/// What a client is told about one managed process.
#[derive(Debug, PartialEq, Eq)]
pub struct ProcessInfo {
    pub name: String,
    /// Absent once the child has exited and been reaped.
    pub pid: Option<u32>,
    pub status: ProcessStatus,
    /// Whole seconds since the most recent launch.
    pub uptime_secs: Option<u64>,
    pub restarts: u32,
    pub group: Option<String>,
}

/// The mathematical content of a [`ProcessInfo`].
pub struct ProcessInfoView {
    pub name: Seq<char>,
    pub pid: Option<u32>,
    pub status: ProcessStatus,
    pub uptime_secs: Option<u64>,
    pub restarts: u32,
    pub group: Option<Seq<char>>,
}

impl View for ProcessInfo {
    type V = ProcessInfoView;

    open spec fn view(&self) -> ProcessInfoView {
        ProcessInfoView {
            name: self.name@,
            pid: self.pid,
            status: self.status,
            uptime_secs: self.uptime_secs,
            restarts: self.restarts,
            group: self.group.deep_view(),
        }
    }
}

impl DeepView for ProcessInfo {
    type V = ProcessInfoView;

    open spec fn deep_view(&self) -> ProcessInfoView {
        self.view()
    }
}

/// What a client may ask of the supervisor.
#[derive(Debug, PartialEq, Eq)]
pub enum Request {
    /// Launch the named descriptors, or all of them.
    Start {
        configs: Vec<(String, ProcessConfig)>,
        names: Option<Vec<String>>,
        env: Option<Vec<(String, String)>>,
    },
    /// Stop the named processes, or all of them.
    Stop { names: Option<Vec<String>> },
    /// Stop and launch again the named processes, or all of them.
    Restart { names: Option<Vec<String>> },
    /// Report every managed process.
    List,
    /// Shut the supervisor down.
    Kill,
    /// Send the output of one process, or of all of them.
    Log { name: Option<String>, lines: u64, follow: bool },
}

/// The mathematical content of a [`Request`].
pub enum RequestView {
    Start {
        configs: Seq<(Seq<char>, ProcessConfigView)>,
        names: Option<Seq<Seq<char>>>,
        env: Option<Seq<(Seq<char>, Seq<char>)>>,
    },
    Stop { names: Option<Seq<Seq<char>>> },
    Restart { names: Option<Seq<Seq<char>>> },
    List,
    Kill,
    Log { name: Option<Seq<char>>, lines: u64, follow: bool },
}

impl View for Request {
    type V = RequestView;

    open spec fn view(&self) -> RequestView {
        match self {
            Request::Start { configs, names, env } => RequestView::Start {
                configs: configs.deep_view(),
                names: names.deep_view(),
                env: env.deep_view(),
            },
            Request::Stop { names } => RequestView::Stop { names: names.deep_view() },
            Request::Restart { names } => RequestView::Restart { names: names.deep_view() },
            Request::List => RequestView::List,
            Request::Kill => RequestView::Kill,
            Request::Log { name, lines, follow } => RequestView::Log {
                name: name.deep_view(),
                lines: *lines,
                follow: *follow,
            },
        }
    }
}

impl DeepView for Request {
    type V = RequestView;

    open spec fn deep_view(&self) -> RequestView {
        self.view()
    }
}

/// No name occurs twice among the descriptors.
pub open spec fn distinct_keys(configs: Seq<(Seq<char>, ProcessConfigView)>) -> bool {
    forall|i: int, j: int| 0 <= i < j < configs.len() ==> configs[i].0 != configs[j].0
}

impl RequestView {
    /// What holds of every request that travels: the descriptors of a
    /// start are a mapping, so each name has one descriptor.
    pub open spec fn wf(self) -> bool {
        self matches RequestView::Start { configs, .. } ==> distinct_keys(configs)
    }
}

/// Whether no name occurs twice among the descriptors.
pub fn has_distinct_keys(configs: &Vec<(String, ProcessConfig)>) -> (distinct: bool)
    ensures
        distinct == distinct_keys(configs.deep_view()),
{
    let ghost all = configs.deep_view();
    let mut i: usize = 0;
    while i < configs.len()
        invariant
            i <= configs.len(),
            all == configs.deep_view(),
            forall|a: int, b: int| 0 <= a < b < all.len() && a < i ==> all[a].0 != all[b].0,
        decreases configs.len() - i,
    {
        let mut j: usize = i + 1;
        while j < configs.len()
            invariant
                i < j <= configs.len(),
                all == configs.deep_view(),
                forall|b: int| i < b < j ==> all[i as int].0 != all[b].0,
            decreases configs.len() - j,
        {
            if configs[i].0 == configs[j].0 {
                assert(all[i as int].0 == all[j as int].0);
                return false;
            }
            j += 1;
        }
        i += 1;
    }
    true
}

impl Request {
    /// Whether the request is one that travels: the descriptors of a start
    /// hold no name twice.
    pub fn is_well_formed(&self) -> (ok: bool)
        ensures
            ok == self@.wf(),
    {
        match self {
            Request::Start { configs, .. } => has_distinct_keys(configs),
            _ => true,
        }
    }
}

/// What the supervisor answers. One connection carries one or more of these.
#[derive(Debug, PartialEq, Eq)]
#[allow(inconsistent_fields)]
pub enum Response {
    Success { message: Option<String> },
    Error { message: String },
    ProcessList { processes: Vec<ProcessInfo> },
    ProcessDetail { info: ProcessInfo },
    /// One line of a process's output; `name` says whose when several are shown.
    LogLine { name: Option<String>, line: String },
}

/// The mathematical content of a [`Response`].
#[allow(inconsistent_fields)]
pub enum ResponseView {
    Success { message: Option<Seq<char>> },
    Error { message: Seq<char> },
    ProcessList { processes: Seq<ProcessInfoView> },
    ProcessDetail { info: ProcessInfoView },
    LogLine { name: Option<Seq<char>>, line: Seq<char> },
}

impl View for Response {
    type V = ResponseView;

    open spec fn view(&self) -> ResponseView {
        match self {
            Response::Success { message } => ResponseView::Success { message: message.deep_view() },
            Response::Error { message } => ResponseView::Error { message: message@ },
            Response::ProcessList { processes } => ResponseView::ProcessList {
                processes: processes.deep_view(),
            },
            Response::ProcessDetail { info } => ResponseView::ProcessDetail { info: info@ },
            Response::LogLine { name, line } => ResponseView::LogLine {
                name: name.deep_view(),
                line: line@,
            },
        }
    }
}

impl DeepView for Response {
    type V = ResponseView;

    open spec fn deep_view(&self) -> ResponseView {
        self.view()
    }
}

impl ResponseView {
    /// A frame that may close a connection: every kind but a log line.
    pub open spec fn is_terminal(self) -> bool {
        !(self is LogLine)
    }
}


/// Why a line is no request or no response.
#[derive(Debug, Clone, Copy, PartialEq, Eq, Structural)]
pub enum ProtocolError {
    /// The line is empty.
    Empty,
    /// The line is not well formed.
    Malformed,
    /// The first word of the line is no tag.
    UnknownVariant,
}

impl ProtocolError {
    /// The error as one line of text.
    pub open spec fn text(self) -> Seq<char> {
        match self {
            ProtocolError::Empty => "protocol error: empty line"@,
            ProtocolError::Malformed => "protocol error: malformed line"@,
            ProtocolError::UnknownVariant => "protocol error: unknown variant"@,
        }
    }

    /// The error as one line of text.
    pub fn to_string(&self) -> (text: String)
        ensures
            text@ == self.text(),
    {
        match self {
            ProtocolError::Empty => String::from_str("protocol error: empty line"),
            ProtocolError::Malformed => String::from_str("protocol error: malformed line"),
            ProtocolError::UnknownVariant => String::from_str("protocol error: unknown variant"),
        }
    }
}

} // verus!

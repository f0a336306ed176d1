//! The descriptor of one managed process, as a client supplies it.

use vstd::prelude::*;
use crate::text::{clone_opt_string, clone_pairs};

verus! {

/// How one process is to be run. The supervisor never changes a descriptor
/// after it has received it.
#[derive(Debug, PartialEq, Eq)]
pub struct ProcessConfig {
    /// The command line, split into words by shell rules when the process is launched.
    pub command: String,
    /// The working directory of the child, if it is not the supervisor's own.
    pub cwd: Option<String>,
    /// Variables set on top of the inherited environment.
    pub env: Option<Vec<(String, String)>>,
    /// A label the client may use to group processes.
    pub group: Option<String>,
    /// Milliseconds a child is given to exit after the terminate signal.
    pub kill_timeout: Option<u64>,
    /// Further settings under their names. The supervisor keeps them as
    /// they came and reads none of them.
    pub extra: Vec<(String, String)>,
}

/// The mathematical content of a [`ProcessConfig`].
pub struct ProcessConfigView {
    pub command: Seq<char>,
    pub cwd: Option<Seq<char>>,
    pub env: Option<Seq<(Seq<char>, Seq<char>)>>,
    pub group: Option<Seq<char>>,
    pub kill_timeout: Option<u64>,
    pub extra: Seq<(Seq<char>, Seq<char>)>,
}

impl View for ProcessConfig {
    type V = ProcessConfigView;

    open spec fn view(&self) -> ProcessConfigView {
        ProcessConfigView {
            command: self.command@,
            cwd: self.cwd.deep_view(),
            env: self.env.deep_view(),
            group: self.group.deep_view(),
            kill_timeout: self.kill_timeout,
            extra: self.extra.deep_view(),
        }
    }
}

impl DeepView for ProcessConfig {
    type V = ProcessConfigView;

    open spec fn deep_view(&self) -> ProcessConfigView {
        self.view()
    }
}

/// The deadline used when a descriptor names none: ten seconds.
pub const DEFAULT_KILL_TIMEOUT_MS: u64 = 10_000;

impl ProcessConfigView {
    /// Milliseconds between the terminate signal and the kill signal.
    pub open spec fn kill_timeout_ms(self) -> u64 {
        match self.kill_timeout {
            Some(ms) => ms,
            None => DEFAULT_KILL_TIMEOUT_MS,
        }
    }
}

impl ProcessConfig {
    /// A descriptor that runs `command` with nothing else set.
    pub fn new(command: String) -> (config: ProcessConfig)
        ensures
            config@ == (ProcessConfigView {
                command: command@,
                cwd: None,
                env: None,
                group: None,
                kill_timeout: None,
                extra: Seq::empty(),
            }),
    {
        let extra: Vec<(String, String)> = Vec::new();
        assert(extra.deep_view() == Seq::<(Seq<char>, Seq<char>)>::empty());
        ProcessConfig { command, cwd: None, env: None, group: None, kill_timeout: None, extra }
    }

    /// Milliseconds between the terminate signal and the kill signal:
    /// the descriptor's own setting, or ten seconds.
    pub fn kill_timeout_ms(&self) -> (ms: u64)
        ensures
            ms == self@.kill_timeout_ms(),
    {
        match self.kill_timeout {
            Some(ms) => ms,
            None => DEFAULT_KILL_TIMEOUT_MS,
        }
    }
}

impl Clone for ProcessConfig {
    fn clone(&self) -> (copy: ProcessConfig)
        ensures
            copy@ == self@,
    {
        let env = match &self.env {
            Some(pairs) => Some(clone_pairs(pairs)),
            None => None,
        };
        ProcessConfig {
            command: self.command.clone(),
            cwd: clone_opt_string(&self.cwd),
            env,
            group: clone_opt_string(&self.group),
            kill_timeout: self.kill_timeout,
            extra: clone_pairs(&self.extra),
        }
    }
}

} // verus!

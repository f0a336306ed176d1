//! The PID file: the sign that a supervisor is running in a data directory.
//!
//! The file holds the process id of the supervisor in decimal digits and a
//! line feed. A file that holds anything else, or the id of a process that
//! is gone, is stale.

use vstd::prelude::*;
use crate::decimal::{decimal, decimal_chars, lemma_decimal_parses, parse_decimal, parse_u64};
use crate::text::{chars_of, string_of};

verus! {

/// The largest process id: process ids are positive and fit 31 bits.
pub const MAX_PID: u32 = 0x7fff_ffff;

/// What the PID file of the process `pid` holds.
pub open spec fn pid_text(pid: u32) -> Seq<char> {
    decimal(pid as nat).push('\n')
}

/// `content` without the line feed at its end, if it has one.
pub open spec fn without_line_feed(content: Seq<char>) -> Seq<char> {
    if content.len() > 0 && content.last() == '\n' {
        content.drop_last()
    } else {
        content
    }
}

/// The process id that a PID file with `content` names: `content` must be
/// decimal digits, with or without a line feed behind them, that stand for
/// a process id.
pub open spec fn pid_of(content: Seq<char>) -> Option<u32> {
    match parse_decimal(without_line_feed(content)) {
        Some(n) if 1 <= n <= MAX_PID => Some(n as u32),
        _ => None,
    }
}

/// The process that has to be alive for a supervisor to be running:
/// the one that the PID file names, if there is a file and it names one.
pub open spec fn guard_of(pid_file: Option<Seq<char>>) -> Option<u32> {
    match pid_file {
        Some(content) => pid_of(content),
        None => None,
    }
}

/// What is written was read: the PID file of a process names that process.
pub proof fn pid_file_names_its_writer(pid: u32)
    requires
        1 <= pid <= MAX_PID,
    ensures
        pid_of(pid_text(pid)) == Some(pid),
{
    lemma_decimal_parses(pid as nat);
    assert(pid_text(pid).drop_last() == decimal(pid as nat));
}

/// What the PID file of the process `pid` holds.
pub fn pid_file_content(pid: u32) -> (content: String)
    ensures
        content@ == pid_text(pid),
{
    let mut chars = decimal_chars(pid as u64);
    chars.push('\n');
    string_of(&chars)
}

/// The process id that a PID file with `content` names.
pub fn parse_pid(content: &str) -> (pid: Option<u32>)
    ensures
        pid == pid_of(content@),
{
    let mut chars = chars_of(content);
    let n = chars.len();
    if n > 0 && chars[n - 1] == '\n' {
        chars.pop();
    }
    assert(chars@ == without_line_feed(content@));
    match parse_u64(&chars) {
        Some(number) => {
            if 1 <= number && number <= MAX_PID as u64 {
                Some(number as u32)
            } else {
                None
            }
        },
        None => None,
    }
}

/// The process to probe before a supervisor starts: the one that the PID
/// file names. `pid_file` is what the file holds, or nothing if there is no
/// file.
pub fn guard_pid(pid_file: &Option<String>) -> (pid: Option<u32>)
    ensures
        pid == guard_of(pid_file.deep_view()),
{
    match pid_file {
        Some(content) => parse_pid(content.as_str()),
        None => None,
    }
}

/// Whether a supervisor is running: there is a PID file, it names a
/// process, and that process is alive. `alive` is what the probe of the
/// process that [`guard_pid`] names has shown.
pub fn is_daemon_running(pid_file: &Option<String>, alive: bool) -> (running: bool)
    ensures
        running == (guard_of(pid_file.deep_view()) is Some && alive),
{
    guard_pid(pid_file).is_some() && alive
}

} // verus!

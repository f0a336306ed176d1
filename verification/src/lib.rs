//! A process supervisor: a daemon that owns a set of long-running children,
//! answers requests on a socket, and is told what to do by a command-line
//! client.
//!
//! This library is the part that decides. It never touches a file, a socket
//! or a process. Whatever needs the operating system is handed out as an
//! action; the caller performs it and reports how it ended. What the
//! library decides is stated in contracts and proved.
//!
//! The modules, from the leaves up:
//!
//! - `text`, `decimal`, `lines`: strings, numbers, lines of text
//! - `config`, `protocol`: the values that travel
//! - `wire`, `format`, `codec`: how requests and responses become lines
//! - `paths`, `pid`: where files lie, and the PID file
//! - `process`, `table`: launching a child, the record of it, the table
//! - `stop`: stopping one child gracefully
//! - `dispatch`: carrying out start, stop, restart, list and kill
//! - `log`: sending the output of processes
//! - `connection`: what one connection gets
//! - `daemon`: the life of the supervisor
//! - `cli`: the client's side
//!
//! The modules whose names end in `_laws` hold what is proved of every run.

pub mod cli;
pub mod codec;
pub mod config;
pub mod connection;
pub mod connection_laws;
pub mod daemon;
pub mod daemon_laws;
pub mod decimal;
pub mod dispatch;
pub mod dispatch_laws;
pub mod format;
pub mod lines;
pub mod log;
pub mod log_laws;
pub mod paths;
pub mod pid;
pub mod process;
pub mod protocol;
pub mod stop;
pub mod table;
pub mod text;
pub mod wire;

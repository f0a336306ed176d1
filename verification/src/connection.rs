//! One connection: one line in, one or more frames out.
//!
//! The caller reads one line from the client and hands it to
//! [`handle_connection`], which says what the connection is to get.

use vstd::prelude::*;
use crate::codec::decode_request;
use crate::format::{decoded_request, request_line};
use crate::protocol::{Request, RequestView, Response, ResponseView};

verus! {

/// How the process table is held while a request is carried out.
#[derive(Debug, Clone, Copy, PartialEq, Eq, Structural)]
pub enum LockMode {
    /// The table is not needed.
    Unlocked,
    /// For reading, beside other readers.
    Shared,
    /// For writing, alone, from the first action of the request to its
    /// reply.
    Exclusive,
}

/// What a connection is to get.
#[derive(Debug, PartialEq, Eq)]
pub enum Incoming {
    /// Nothing was read: close the connection and send nothing.
    Silent,
    /// The line is no request: send `frame` and close.
    Reject { frame: Response },
    /// A log request: answer it with a log stream (see the module `log`)
    /// and close when the stream is over.
    Log { name: Option<String>, lines: u64, follow: bool },
    /// Any other request: hold the table as `lock` says, hand the request
    /// to the dispatcher, send its one reply and close.
    Command { request: Request, lock: LockMode },
}

/// The mathematical content of an [`Incoming`].
pub enum IncomingView {
    Silent,
    Reject { frame: ResponseView },
    Log { name: Option<Seq<char>>, lines: u64, follow: bool },
    Command { request: RequestView, lock: LockMode },
}

impl View for Incoming {
    type V = IncomingView;

    open spec fn view(&self) -> IncomingView {
        match self {
            Incoming::Silent => IncomingView::Silent,
            Incoming::Reject { frame } => IncomingView::Reject { frame: frame@ },
            Incoming::Log { name, lines, follow } => IncomingView::Log {
                name: name.deep_view(),
                lines: *lines,
                follow: *follow,
            },
            Incoming::Command { request, lock } => IncomingView::Command {
                request: request@,
                lock: *lock,
            },
        }
    }
}

/// How the table is held for `request`: alone by what changes it, beside
/// others by what reads it, not at all by a kill.
pub open spec fn lock_for(request: RequestView) -> LockMode {
    match request {
        RequestView::Start { .. } | RequestView::Stop { .. } | RequestView::Restart { .. } => {
            LockMode::Exclusive
        },
        RequestView::List | RequestView::Log { .. } => LockMode::Shared,
        RequestView::Kill => LockMode::Unlocked,
    }
}

/// What a connection gets whose first line is `line`. An empty read gets
/// nothing; a line that is no request gets an error frame that says why; a
/// log request gets a log stream; every other request goes to the
/// dispatcher.
pub open spec fn incoming_of(line: Seq<char>) -> IncomingView {
    if line.len() == 0 {
        IncomingView::Silent
    } else {
        match decoded_request(line) {
            Err(error) => IncomingView::Reject {
                frame: ResponseView::Error { message: error.text() },
            },
            Ok(RequestView::Log { name, lines, follow }) => IncomingView::Log {
                name,
                lines,
                follow,
            },
            Ok(request) => IncomingView::Command { request, lock: lock_for(request) },
        }
    }
}

/// How the table is held for `request`.
pub fn lock_mode(request: &Request) -> (lock: LockMode)
    ensures
        lock == lock_for(request@),
{
    match request {
        Request::Start { .. } | Request::Stop { .. } | Request::Restart { .. } => {
            LockMode::Exclusive
        },
        Request::List | Request::Log { .. } => LockMode::Shared,
        Request::Kill => LockMode::Unlocked,
    }
}

/// Says what the connection whose first line is `line` is to get. `line` is
/// what was read up to and with the first line feed, or up to the end; it
/// is empty when the client sent nothing.
pub fn handle_connection(line: &str) -> (incoming: Incoming)
    ensures
        incoming@ == incoming_of(line@),
{
    if line.is_empty() {
        return Incoming::Silent;
    }
    match decode_request(line) {
        Err(error) => Incoming::Reject { frame: Response::Error { message: error.to_string() } },
        Ok(Request::Log { name, lines, follow }) => Incoming::Log { name, lines, follow },
        Ok(request) => {
            let lock = lock_mode(&request);
            Incoming::Command { request, lock }
        },
    }
}

/// An empty request line closes the connection silently, and no other
/// line does.
pub proof fn empty_line_closes_silently(line: Seq<char>)
    ensures
        incoming_of(line) is Silent <==> line.len() == 0,
{
}

/// A line that is no request is answered with one error frame, which
/// closes the connection.
pub proof fn bad_line_gets_an_error(line: Seq<char>)
    requires
        line.len() > 0,
        decoded_request(line) is Err,
    ensures
        incoming_of(line) matches IncomingView::Reject { frame } && frame is Error
            && frame.is_terminal(),
{
}

/// What goes to the dispatcher is a request that travels: the descriptors
/// of a start that has arrived hold no name twice.
pub proof fn arrived_requests_are_well_formed(line: Seq<char>)
    ensures
        incoming_of(line) matches IncomingView::Command { request, .. } ==> request.wf(),
{
}

/// Every request that a client can send arrives: the line of a request is
/// taken for that request. A log request goes to the log stream, every
/// other request to the dispatcher, with the table held as the request
/// needs it.
pub proof fn requests_arrive(request: RequestView)
    requires
        request.wf(),
    ensures
        incoming_of(request_line(request)) == (match request {
            RequestView::Log { name, lines, follow } => IncomingView::Log { name, lines, follow },
            _ => IncomingView::Command { request, lock: lock_for(request) },
        }),
{
    crate::format::request_round_trip(request);
}

} // verus!

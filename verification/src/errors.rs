//! The error taxonomy shared by every task outcome: a kind that callers can
//! branch on, plus a human-readable detail string.

use vstd::prelude::*;

verus! {

/// Why a task failed. `Transport`, `Handshake`, `Auth` and `SubsystemInit`
/// can only come out of a connection attempt; `NotConnected` is produced by
/// the dispatcher itself when an operation reaches it without a live session;
/// `Io` reports a remote operation the server rejected; `Parse` reports
/// diagnostic output that did not have the expected shape.
#[derive(Clone, Copy, Debug, PartialEq, Eq, Structural)]
pub enum ErrorKind {
    Transport,
    Handshake,
    Auth,
    SubsystemInit,
    NotConnected,
    Io,
    Parse,
}

/// The mathematical model of a `TaskError`: its kind and the characters of
/// its detail message.
pub struct TaskErrorV {
    pub kind: ErrorKind,
    pub detail: Seq<char>,
}

/// An error reported for exactly one task: a kind plus a detail message.
#[derive(Debug)]
pub struct TaskError {
    pub kind: ErrorKind,
    pub detail: String,
}

impl View for TaskError {
    type V = TaskErrorV;

    open spec fn view(&self) -> TaskErrorV {
        TaskErrorV { kind: self.kind, detail: self.detail@ }
    }
}

/// The detail message carried by every `NotConnected` error.
pub open spec fn not_connected_detail() -> Seq<char> {
    "Not connected"@
}

impl TaskError {
    /// Build an error from a kind and a detail message.
    pub fn new(kind: ErrorKind, detail: String) -> (e: TaskError)
        ensures
            e@ == (TaskErrorV { kind: kind, detail: detail@ }),
    {
        TaskError { kind, detail }
    }

    /// The error every operation receives while no session is live.
    pub fn not_connected() -> (e: TaskError)
        ensures
            e@.kind == ErrorKind::NotConnected,
            e@.detail == not_connected_detail(),
    {
        TaskError { kind: ErrorKind::NotConnected, detail: "Not connected".to_owned() }
    }
}

} // verus!

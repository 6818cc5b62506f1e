//! Core logic of a connection-reset utility: it learns the server endpoint a
//! game client is talking to from the client's log file, matches that endpoint
//! against the process's TCP connection table, and decides when and how to
//! force the matching connection closed.
//!
//! Everything here is pure decision logic over plain values; the operating
//! system calls that feed it (process listing, TCP table queries, file
//! reads, the keyboard hook) live in the surrounding application.
use vstd::prelude::*;

pub mod binding;
pub mod config;
pub mod coordinator;
pub mod hotkey;
pub mod logline;
pub mod network;
pub mod process;
pub mod program;
pub mod scan;
pub mod tail;
pub mod workflow;

verus! {

/// An IPv4 address as four octets, most significant first.
#[derive(Clone, Copy, PartialEq, Eq, Structural, Debug)]
pub struct Ipv4 {
    pub a: u8,
    pub b: u8,
    pub c: u8,
    pub d: u8,
}

/// The failures a single trigger attempt or a watch session can report.
/// None of them ends the application; each is surfaced to the caller.
#[derive(Clone, Copy, PartialEq, Eq, Structural, Debug)]
pub enum AppError {
    /// No running process has the expected executable name.
    ProcessNotFound,
    /// More than one running process has the name; refusing to guess.
    AmbiguousProcess,
    /// The connection-table query failed at the system level.
    TableQueryFailed,
    /// No live connection matches the last known endpoint.
    ConnectionNotFound,
    /// The forced reset was rejected at the system level.
    TerminationFailed,
    /// The watched log file shrank or vanished; the watch must restart.
    WatchSessionLost,
    /// A hotkey string named no recognizable main key.
    HotkeyParseFailed,
}

/// The description text of each failure.
pub open spec fn spec_describe(e: AppError) -> Seq<char> {
    match e {
        AppError::ProcessNotFound => "no matching process is running"@,
        AppError::AmbiguousProcess => "more than one matching process is running"@,
        AppError::TableQueryFailed => "the connection table query failed"@,
        AppError::ConnectionNotFound => "no connection matches the known endpoint"@,
        AppError::TerminationFailed => "the forced reset was rejected"@,
        AppError::WatchSessionLost => "the watched log file shrank or vanished"@,
        AppError::HotkeyParseFailed => "the hotkey string has no recognizable main key"@,
    }
}

impl AppError {
    /// A short fixed description for log output.
    pub fn describe(&self) -> (r: &'static str)
        ensures
            r@ == spec_describe(*self),
            r@.len() > 0,
    {
        proof {
            reveal_strlit("no matching process is running");
            reveal_strlit("more than one matching process is running");
            reveal_strlit("the connection table query failed");
            reveal_strlit("no connection matches the known endpoint");
            reveal_strlit("the forced reset was rejected");
            reveal_strlit("the watched log file shrank or vanished");
            reveal_strlit("the hotkey string has no recognizable main key");
        }
        match self {
            AppError::ProcessNotFound => "no matching process is running",
            AppError::AmbiguousProcess => "more than one matching process is running",
            AppError::TableQueryFailed => "the connection table query failed",
            AppError::ConnectionNotFound => "no connection matches the known endpoint",
            AppError::TerminationFailed => "the forced reset was rejected",
            AppError::WatchSessionLost => "the watched log file shrank or vanished",
            AppError::HotkeyParseFailed => "the hotkey string has no recognizable main key",
        }
    }
}

} // verus!

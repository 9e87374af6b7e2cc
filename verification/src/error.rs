//! What can go wrong.

use crate::table::ProcessKey;
use vstd::prelude::*;

verus! {

/// Why a request was refused.
#[derive(Debug, Clone, Copy, PartialEq, Eq)]
pub enum Error {
    /// The process to restart is unknown.
    InvalidProcess(ProcessKey),
    /// The manager ended before it answered.
    ReturnMessage,
    /// The child process could not be started.
    Process,
    /// The process does not exist.
    NonExistantProcess,
    /// The process manager has been shut down.
    Stopped,
    /// The message could not be sent to the process's stdin.
    StdinMessage,
    /// The receiver for stdin messages is missing from the process.
    MissingStdinReceiver,
}

} // verus!

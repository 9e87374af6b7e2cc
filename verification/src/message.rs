//! What can be told of a supervised process.

use vstd::prelude::*;

verus! {

/// Something that happened to a process.
#[derive(Debug, Clone, PartialEq, Eq, Hash)]
pub enum ProcessMessage {
    /// It was started.
    Started,
    /// It wrote a line to stdout.
    Stdout(String),
    /// It wrote a line to stderr.
    Stderr(String),
    /// It exited.
    Exited { code: Option<i32>, restarting: bool },
}

} // verus!

//! The ways in which an operation on a managed process can fail.
use vstd::prelude::*;

verus! {

/// Why an operation on a managed process failed.
#[derive(Debug, Clone, Copy, PartialEq, Eq, Structural)]
pub enum ProcessError {
    /// No process has been started yet, so there is no pool to look in.
    PoolNotInitialized,
    /// The pool holds no process under this id.
    ProcessNotFound { pid: u32 },
    /// The process has no channel carrying its output.
    ReceiverNotAvailable { pid: u32 },
    /// The channel carrying the process's output has been disconnected.
    ChannelDisconnected { pid: u32 },
    /// The process has no channel carrying its input.
    SenderNotAvailable { pid: u32 },
    /// The channel carrying the process's input has been closed.
    InputChannelClosed { pid: u32 },
}

} // verus!

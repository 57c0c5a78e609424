//! Start external processes, talk to them line by line, and stop them.
//!
//! The library holds the rules: how a process is described before it is
//! launched, the pool that records running processes with the channels to
//! their input and output, what reading and writing report, how lines are
//! framed, and the decisions taken while waiting for output or for a process
//! to exit. Running the processes and the clock is left to the caller.
pub mod channel;
pub mod config;
pub mod error;
pub mod handle;
pub mod pool;
pub mod text;

pub use channel::{open_process_channels, ProcessChannels, ReceiveOutcome, SendOutcome};
pub use config::AsynchronousInteractiveProcess;
pub use error::ProcessError;
pub use handle::{
    exit_code_of, ProcessHandle, ReceiveStep, ShutdownAction, ShutdownEvent, ShutdownPhase,
    ShutdownProgress, CHANNEL_CAPACITY, DEFAULT_RECEIVE_TIMEOUT_MS, INPUT_FLUSH_INTERVAL_MS,
    RETRY_DELAY_MS, SHUTDOWN_POLL_MS,
};
pub use pool::{receive_result, settle_flush_attempt, ProcessPool};
pub use text::{resolve_working_directory, stderr_message, stdin_line, stdout_message};

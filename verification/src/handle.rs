//! A handle to one running process, and the decisions taken while waiting on
//! it.
use vstd::prelude::*;
use vstd::string::*;

use crate::error::ProcessError;
use crate::pool::{entries_carry_their_ids, received_through, sent_through, ProcessPool};

verus! {

/// A handle to the process running under one process id.
#[derive(Debug, Clone, Copy, PartialEq, Eq, Structural)]
pub struct ProcessHandle {
    pid: u32,
}

impl View for ProcessHandle {
    type V = u32;

    /// The id of the process the handle refers to.
    closed spec fn view(&self) -> u32 {
        self.pid
    }
}

impl ProcessHandle {
    /// The handle of `pid`.
    pub(crate) fn from_pid(pid: u32) -> (r: Self)
        ensures
            r@ == pid,
    {
        ProcessHandle { pid }
    }

    /// The id of the process the handle refers to.
    pub fn pid(&self) -> (r: u32)
        ensures
            r == self@,
    {
        self.pid
    }

    /// Whether the pool holds the process; false when no pool exists yet.
    pub fn is_process_running(&self, pool: Option<&ProcessPool>) -> (r: bool)
        ensures
            r == (pool is Some && pool.unwrap()@.contains_key(self@)),
    {
        match pool {
            Some(p) => p.contains(self.pid),
            None => false,
        }
    }

    /// Takes the next line of output of the process without waiting: the
    /// line taken from the process's output channel, or nothing when none is
    /// waiting. Fails when no pool exists yet, when the pool does not hold
    /// the process, when the process has no output channel, and when that
    /// channel is disconnected. Nothing else in the pool moves.
    pub fn try_receive_message(&self, pool: Option<&mut ProcessPool>) -> (r: Result<
        Option<String>,
        ProcessError,
    >)
        ensures
            pool is None ==> r == Err::<Option<String>, ProcessError>(
                ProcessError::PoolNotInitialized,
            ),
            pool matches Some(p) ==> {
                &&& received_through(p@, final(p)@, self@, r)
                &&& entries_carry_their_ids(final(p)@)
            },
    {
        match pool {
            Some(p) => p.try_receive_message(self.pid),
            None => Err(ProcessError::PoolNotInitialized),
        }
    }

    /// Hands `input` to the process's input channel and records what the
    /// channel did with it (see `ProcessPool::send_input`): the channel takes
    /// it, or, when the channel is full, the input waits at the end of the
    /// process's queue.
    /// Fails when no pool exists yet, when the pool does not hold the process,
    /// when the process has no input channel, and when that channel is closed.
    pub fn send_input(&self, pool: Option<&mut ProcessPool>, input: &str) -> (r: Result<
        (),
        ProcessError,
    >)
        ensures
            pool is None ==> r == Err::<(), ProcessError>(ProcessError::PoolNotInitialized),
            pool matches Some(p) ==> entries_carry_their_ids(final(p)@),
            pool matches Some(p) ==> sent_through(p@, final(p)@, self@, input@, r),
    {
        match pool {
            Some(p) => p.send_input(self.pid, String::from_str(input)),
            None => Err(ProcessError::PoolNotInitialized),
        }
    }

    /// What to do after one attempt to read the process's output while
    /// waiting for a line: a line or a failure is reported at once; when
    /// nothing was waiting, try again after a short pause as long as the time
    /// waited is below the timeout, and report nothing once it is not.
    pub fn receive_step(
        attempt: Result<Option<String>, ProcessError>,
        elapsed_nanos: u128,
        timeout_nanos: u128,
    ) -> (r: ReceiveStep)
        ensures
            r == match attempt {
                Ok(None) => if elapsed_nanos < timeout_nanos {
                    ReceiveStep::RetryAfterMillis(RETRY_DELAY_MS)
                } else {
                    ReceiveStep::Deliver(Ok(None))
                },
                _ => ReceiveStep::Deliver(attempt),
            },
    {
        match attempt {
            Ok(None) => {
                if elapsed_nanos < timeout_nanos {
                    ReceiveStep::RetryAfterMillis(RETRY_DELAY_MS)
                } else {
                    ReceiveStep::Deliver(Ok(None))
                }
            },
            _ => ReceiveStep::Deliver(attempt),
        }
    }
}

/// How long a read of a process's output waits when no timeout is given.
pub const DEFAULT_RECEIVE_TIMEOUT_MS: u64 = 100;

/// The pause between two attempts to read a process's output.
pub const RETRY_DELAY_MS: u64 = 10;

/// The pause between two checks of whether a process asked to stop has
/// exited.
pub const SHUTDOWN_POLL_MS: u64 = 100;

/// The pause between two moves of waiting input into a process's input
/// channel.
pub const INPUT_FLUSH_INTERVAL_MS: u64 = 50;

/// How many lines the channels to and from a process hold.
pub const CHANNEL_CAPACITY: usize = 100;

/// What to do next while waiting for a line of output.
#[derive(Debug, PartialEq, Eq)]
pub enum ReceiveStep {
    /// Stop waiting and report this.
    Deliver(Result<Option<String>, ProcessError>),
    /// Pause this many milliseconds, then try again.
    RetryAfterMillis(u64),
}

/// Where a shutdown stands.
#[derive(Debug, Clone, Copy, PartialEq, Eq, Structural)]
pub enum ShutdownPhase {
    /// The request to exit is being sent.
    Signalling,
    /// The request was sent; waiting for the process to exit.
    Waiting,
    /// The process is being terminated by force.
    Killing,
    /// The process exited by itself.
    Finished,
}

/// What was seen since the last step of a shutdown.
#[derive(Debug, Clone, Copy, PartialEq, Eq, Structural)]
pub enum ShutdownEvent {
    /// The request to exit was sent.
    SignalSent,
    /// The request to exit could not be sent.
    SignalFailed,
    /// The time since the request was sent, and whether the process still
    /// runs.
    Observed { elapsed_nanos: u128, running: bool },
}

/// What to do next in a shutdown.
#[derive(Debug, Clone, Copy, PartialEq, Eq, Structural)]
pub enum ShutdownAction {
    /// Send the request to exit.
    SendSignal,
    /// Look at the clock and at whether the process runs, now.
    Observe,
    /// Pause this many milliseconds, then look again.
    ObserveAfterMillis(u64),
    /// Terminate the process by force; the shutdown ends with the outcome of
    /// that.
    Kill,
    /// The process has exited; the shutdown succeeded.
    Complete,
}

/// The progress of one shutdown: ask the process to exit, wait up to a
/// timeout for it to do so, and terminate it by force when the request could
/// not be sent or the timeout passed.
pub struct ShutdownProgress {
    timeout_nanos: u128,
    phase: ShutdownPhase,
}

/// The order of the phases: a shutdown never goes back.
pub open spec fn phase_rank(p: ShutdownPhase) -> int {
    match p {
        ShutdownPhase::Signalling => 0,
        ShutdownPhase::Waiting => 1,
        ShutdownPhase::Killing => 2,
        ShutdownPhase::Finished => 2,
    }
}

/// The action that a phase asks for when nothing new is learnt.
pub open spec fn pending_action(p: ShutdownPhase) -> ShutdownAction {
    match p {
        ShutdownPhase::Signalling => ShutdownAction::SendSignal,
        ShutdownPhase::Waiting => ShutdownAction::Observe,
        ShutdownPhase::Killing => ShutdownAction::Kill,
        ShutdownPhase::Finished => ShutdownAction::Complete,
    }
}

/// The next phase and action of a shutdown in `phase` with `timeout_nanos`
/// once `event` is seen.
pub open spec fn shutdown_transition(
    timeout_nanos: u128,
    phase: ShutdownPhase,
    event: ShutdownEvent,
) -> (ShutdownPhase, ShutdownAction) {
    match (phase, event) {
        (ShutdownPhase::Signalling, ShutdownEvent::SignalFailed) => (
            ShutdownPhase::Killing,
            ShutdownAction::Kill,
        ),
        (ShutdownPhase::Signalling, ShutdownEvent::SignalSent) => (
            ShutdownPhase::Waiting,
            ShutdownAction::Observe,
        ),
        (ShutdownPhase::Waiting, ShutdownEvent::Observed { elapsed_nanos, running }) => {
            if elapsed_nanos >= timeout_nanos {
                (ShutdownPhase::Killing, ShutdownAction::Kill)
            } else if !running {
                (ShutdownPhase::Finished, ShutdownAction::Complete)
            } else {
                (ShutdownPhase::Waiting, ShutdownAction::ObserveAfterMillis(SHUTDOWN_POLL_MS))
            }
        },
        _ => (phase, pending_action(phase)),
    }
}

impl View for ShutdownProgress {
    type V = (u128, ShutdownPhase);

    /// The timeout and the phase.
    closed spec fn view(&self) -> (u128, ShutdownPhase) {
        (self.timeout_nanos, self.phase)
    }
}

impl ShutdownProgress {
    /// A shutdown that waits up to `timeout_nanos` for the process to exit; it
    /// starts by sending the request to exit.
    pub fn new(timeout_nanos: u128) -> (r: Self)
        ensures
            r@ == (timeout_nanos, ShutdownPhase::Signalling),
    {
        ShutdownProgress { timeout_nanos, phase: ShutdownPhase::Signalling }
    }

    /// Where the shutdown stands.
    pub fn phase(&self) -> (r: ShutdownPhase)
        ensures
            r == self@.1,
    {
        self.phase
    }

    /// Takes in what was seen and says what to do next. A failed request
    /// leads to termination by force; once the request is sent, the process is
    /// watched until it exits (success) or the timeout passes (termination by
    /// force). An event that does not fit the phase changes nothing.
    pub fn step(&mut self, event: ShutdownEvent) -> (r: ShutdownAction)
        ensures
            final(self)@.0 == old(self)@.0,
            (final(self)@.1, r) == shutdown_transition(old(self)@.0, old(self)@.1, event),
    {
        match (self.phase, event) {
            (ShutdownPhase::Signalling, ShutdownEvent::SignalFailed) => {
                self.phase = ShutdownPhase::Killing;
                ShutdownAction::Kill
            },
            (ShutdownPhase::Signalling, ShutdownEvent::SignalSent) => {
                self.phase = ShutdownPhase::Waiting;
                ShutdownAction::Observe
            },
            (ShutdownPhase::Waiting, ShutdownEvent::Observed { elapsed_nanos, running }) => {
                if elapsed_nanos >= self.timeout_nanos {
                    self.phase = ShutdownPhase::Killing;
                    ShutdownAction::Kill
                } else if !running {
                    self.phase = ShutdownPhase::Finished;
                    ShutdownAction::Complete
                } else {
                    ShutdownAction::ObserveAfterMillis(SHUTDOWN_POLL_MS)
                }
            },
            (ShutdownPhase::Signalling, _) => ShutdownAction::SendSignal,
            (ShutdownPhase::Waiting, _) => ShutdownAction::Observe,
            (ShutdownPhase::Killing, _) => ShutdownAction::Kill,
            (ShutdownPhase::Finished, _) => ShutdownAction::Complete,
        }
    }
}

/// The exit code handed to the exit callback: the process's own code, or -1
/// when its status carries none or could not be obtained.
pub fn exit_code_of(status: Option<Option<i32>>) -> (r: i32)
    ensures
        r == match status {
            Some(Some(code)) => code,
            _ => -1i32,
        },
{
    match status {
        Some(Some(code)) => code,
        _ => -1,
    }
}

/// A shutdown never goes back: its phase only moves forward, and once the
/// process is being killed or has exited, nothing changes any more.
pub proof fn lemma_shutdown_moves_forward(timeout_nanos: u128, phase: ShutdownPhase, event: ShutdownEvent)
    ensures
        phase_rank(shutdown_transition(timeout_nanos, phase, event).0) >= phase_rank(phase),
        phase == ShutdownPhase::Killing ==> shutdown_transition(timeout_nanos, phase, event) == (
            ShutdownPhase::Killing,
            ShutdownAction::Kill,
        ),
        phase == ShutdownPhase::Finished ==> shutdown_transition(timeout_nanos, phase, event) == (
            ShutdownPhase::Finished,
            ShutdownAction::Complete,
        ),
{
}

/// A shutdown reports success without killing only for a process that was
/// seen not running before the timeout passed.
pub proof fn lemma_shutdown_success_means_exited(
    timeout_nanos: u128,
    phase: ShutdownPhase,
    event: ShutdownEvent,
)
    requires
        phase != ShutdownPhase::Finished,
        shutdown_transition(timeout_nanos, phase, event).1 == ShutdownAction::Complete,
    ensures
        phase == ShutdownPhase::Waiting,
        event matches ShutdownEvent::Observed { elapsed_nanos, running } && !running
            && elapsed_nanos < timeout_nanos,
{
}

/// A process that cannot be asked to exit, or that has not exited when the
/// timeout passes, is killed.
pub proof fn lemma_shutdown_kills_on_failure_or_timeout(
    timeout_nanos: u128,
    elapsed_nanos: u128,
    running: bool,
)
    ensures
        shutdown_transition(timeout_nanos, ShutdownPhase::Signalling, ShutdownEvent::SignalFailed)
            == (ShutdownPhase::Killing, ShutdownAction::Kill),
        elapsed_nanos >= timeout_nanos ==> shutdown_transition(
            timeout_nanos,
            ShutdownPhase::Waiting,
            ShutdownEvent::Observed { elapsed_nanos, running },
        ) == (ShutdownPhase::Killing, ShutdownAction::Kill),
{
}

/// While the timeout has not passed, a process that still runs gets more
/// time: it is looked at again after 100 ms and the shutdown keeps waiting;
/// one seen not running by then ends the shutdown with success.
pub proof fn lemma_shutdown_waits_until_timeout(timeout_nanos: u128, elapsed_nanos: u128)
    requires
        elapsed_nanos < timeout_nanos,
    ensures
        shutdown_transition(
            timeout_nanos,
            ShutdownPhase::Waiting,
            ShutdownEvent::Observed { elapsed_nanos, running: true },
        ) == (ShutdownPhase::Waiting, ShutdownAction::ObserveAfterMillis(100)),
        shutdown_transition(
            timeout_nanos,
            ShutdownPhase::Waiting,
            ShutdownEvent::Observed { elapsed_nanos, running: false },
        ) == (ShutdownPhase::Finished, ShutdownAction::Complete),
{
}

/// A shutdown that is waiting for the process kills it only once the
/// timeout has passed, and only a failed request kills it before any
/// waiting.
pub proof fn lemma_shutdown_kills_only_after_timeout(
    timeout_nanos: u128,
    phase: ShutdownPhase,
    event: ShutdownEvent,
)
    requires
        phase == ShutdownPhase::Waiting || phase == ShutdownPhase::Signalling,
        shutdown_transition(timeout_nanos, phase, event).1 == ShutdownAction::Kill,
    ensures
        phase == ShutdownPhase::Waiting ==> (event matches ShutdownEvent::Observed {
            elapsed_nanos,
            ..
        } && elapsed_nanos >= timeout_nanos),
        phase == ShutdownPhase::Signalling ==> event == ShutdownEvent::SignalFailed,
{
}

/// A shutdown starts by asking the process to exit, and a request that was
/// sent leads to looking at the process at once.
pub proof fn lemma_shutdown_starts_with_request(timeout_nanos: u128)
    ensures
        pending_action(ShutdownPhase::Signalling) == ShutdownAction::SendSignal,
        shutdown_transition(timeout_nanos, ShutdownPhase::Signalling, ShutdownEvent::SignalSent)
            == (ShutdownPhase::Waiting, ShutdownAction::Observe),
{
}

} // verus!

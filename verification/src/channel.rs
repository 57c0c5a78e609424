//! The channels that connect the pool to the tasks that feed a child
//! process's standard input and read its output.
use vstd::prelude::*;
use tokio::sync::mpsc::error::{TryRecvError, TrySendError};

use crate::handle::CHANNEL_CAPACITY;

verus! {

#[verifier::external_type_specification]
#[verifier::external_body]
#[verifier::reject_recursive_types(T)]
pub struct ExSender<T>(tokio::sync::mpsc::Sender<T>);

#[verifier::external_type_specification]
#[verifier::external_body]
#[verifier::reject_recursive_types(T)]
pub struct ExReceiver<T>(tokio::sync::mpsc::Receiver<T>);

/// What one attempt to take a line from an output channel gave.
pub enum ReceiveOutcome {
    /// A line was waiting and has been taken.
    Line(String),
    /// No line is waiting, and more may come.
    Empty,
    /// No line is waiting, and none will come.
    Disconnected,
}

/// What one attempt to put a line into an input channel gave.
pub enum SendOutcome {
    /// The line is in the channel.
    Sent,
    /// The channel is full; the line is handed back.
    Full(String),
    /// The receiving side is gone; the line is handed back.
    Closed(String),
}

/// The lines that have gone into the channel through this sending half by
/// way of `try_send_line`, oldest first.
pub uninterp spec fn sent_lines(sender: tokio::sync::mpsc::Sender<String>) -> Seq<Seq<char>>;

/// The lines that have been taken out of the channel through this receiving
/// half by way of `try_receive_line`, oldest first.
pub uninterp spec fn received_lines(receiver: tokio::sync::mpsc::Receiver<String>) -> Seq<Seq<char>>;

/// `tokio::sync::mpsc::channel`: a new channel that holds up to `capacity`
/// lines. Nothing has gone through either half yet. Tokio refuses a capacity
/// of 0 and one above `usize::MAX >> 3`, which is `usize::MAX / 8`.
#[verifier::external_body]
fn new_channel(capacity: usize) -> (r: (
    tokio::sync::mpsc::Sender<String>,
    tokio::sync::mpsc::Receiver<String>,
))
    requires
        0 < capacity <= usize::MAX / 8,
    ensures
        sent_lines(r.0) == Seq::<Seq<char>>::empty(),
        received_lines(r.1) == Seq::<Seq<char>>::empty(),
{
    tokio::sync::mpsc::channel::<String>(capacity)
}

/// The channels of one process: its input goes from `input_sender` to
/// `input_receiver`, its output from `output_sender` to `output_receiver`.
pub struct ProcessChannels {
    pub input_sender: tokio::sync::mpsc::Sender<String>,
    pub input_receiver: tokio::sync::mpsc::Receiver<String>,
    pub output_sender: tokio::sync::mpsc::Sender<String>,
    pub output_receiver: tokio::sync::mpsc::Receiver<String>,
}

/// The two channels of a process about to be launched, each holding
/// `CHANNEL_CAPACITY` lines; no line has gone through the halves the pool
/// keeps.
pub fn open_process_channels() -> (r: ProcessChannels)
    ensures
        sent_lines(r.input_sender) == Seq::<Seq<char>>::empty(),
        received_lines(r.output_receiver) == Seq::<Seq<char>>::empty(),
{
    let (input_sender, input_receiver) = new_channel(CHANNEL_CAPACITY);
    let (output_sender, output_receiver) = new_channel(CHANNEL_CAPACITY);
    ProcessChannels { input_sender, input_receiver, output_sender, output_receiver }
}

/// `tokio::sync::mpsc::Receiver::try_recv`: takes the next waiting line
/// without waiting. Which of the three it gives depends on the tasks at the
/// other end of the channel. A line it takes joins what was received through
/// this half; otherwise the half is as it was.
#[verifier::external_body]
pub(crate) fn try_receive_line(receiver: &mut tokio::sync::mpsc::Receiver<String>) -> (r: ReceiveOutcome)
    ensures
        match r {
            ReceiveOutcome::Line(line) => received_lines(*final(receiver)) == received_lines(
                *old(receiver),
            ).push(line@),
            _ => *final(receiver) == *old(receiver),
        },
{
    match receiver.try_recv() {
        Ok(line) => ReceiveOutcome::Line(line),
        Err(TryRecvError::Empty) => ReceiveOutcome::Empty,
        Err(TryRecvError::Disconnected) => ReceiveOutcome::Disconnected,
    }
}

/// `tokio::sync::mpsc::Sender::try_send`: puts a line into the channel without
/// waiting. Whether the channel takes it depends on the channel's state. A
/// line it takes joins what was sent through this half; a line it refuses is
/// handed back as it was given, and the half is as it was.
#[verifier::external_body]
pub(crate) fn try_send_line(sender: &mut tokio::sync::mpsc::Sender<String>, line: String) -> (r: SendOutcome)
    ensures
        match r {
            SendOutcome::Sent => sent_lines(*final(sender)) == sent_lines(*old(sender)).push(line@),
            SendOutcome::Full(back) => back@ == line@ && *final(sender) == *old(sender),
            SendOutcome::Closed(back) => back@ == line@ && *final(sender) == *old(sender),
        },
{
    match sender.try_send(line) {
        Ok(()) => SendOutcome::Sent,
        Err(TrySendError::Full(back)) => SendOutcome::Full(back),
        Err(TrySendError::Closed(back)) => SendOutcome::Closed(back),
    }
}

} // verus!

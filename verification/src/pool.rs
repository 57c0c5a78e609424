//! The pool of running processes: for each process id, the description it
//! was launched from, the channels to its input and output, and the inputs
//! that wait for room in the input channel.
use std::collections::HashMap;
use std::collections::VecDeque;
use vstd::prelude::*;

use crate::channel::{
    received_lines, sent_lines, try_receive_line, try_send_line, ReceiveOutcome, SendOutcome,
};
use crate::config::{strings_view, AsynchronousInteractiveProcess, ProcessSpec};
use crate::error::ProcessError;

verus! {

broadcast use vstd::std_specs::hash::group_hash_axioms;

/// What the pool knows of one running process: its description, the
/// channels to its input and output, and the inputs that wait for room.
pub struct PooledView {
    pub process: ProcessSpec,
    pub sender: Option<tokio::sync::mpsc::Sender<String>>,
    pub receiver: Option<tokio::sync::mpsc::Receiver<String>>,
    pub input_queue: Seq<Seq<char>>,
}

/// One running process in the pool.
pub struct PooledProcess {
    process: AsynchronousInteractiveProcess,
    sender: Option<tokio::sync::mpsc::Sender<String>>,
    receiver: Option<tokio::sync::mpsc::Receiver<String>>,
    input_queue: VecDeque<String>,
}

impl View for PooledProcess {
    type V = PooledView;

    closed spec fn view(&self) -> PooledView {
        PooledView {
            process: self.process@,
            sender: self.sender,
            receiver: self.receiver,
            input_queue: strings_view(self.input_queue@),
        }
    }
}

/// The running processes, by process id.
pub struct ProcessPool {
    processes: HashMap<u32, PooledProcess>,
}

/// What the pool knows of a map of running processes.
closed spec fn pool_view(m: Map<u32, PooledProcess>) -> Map<u32, PooledView> {
    m.map_values(|p: PooledProcess| p@)
}

impl View for ProcessPool {
    type V = Map<u32, PooledView>;

    closed spec fn view(&self) -> Map<u32, PooledView> {
        pool_view(self.processes@)
    }
}

/// Every process in the pool is recorded under the id it runs under.
pub open spec fn entries_carry_their_ids(pool: Map<u32, PooledView>) -> bool {
    forall|k: u32| #[trigger] pool.contains_key(k) ==> pool[k].process.pid == Some(k)
}

/// The pool with the input queue of `pid` replaced by `queue`.
pub open spec fn with_queue(pool: Map<u32, PooledView>, pid: u32, queue: Seq<Seq<char>>) -> Map<
    u32,
    PooledView,
> {
    pool.insert(pid, PooledView { input_queue: queue, ..pool[pid] })
}

/// The lines sent through the input channel of `pid`.
pub open spec fn sent_to(pool: Map<u32, PooledView>, pid: u32) -> Seq<Seq<char>> {
    sent_lines(pool[pid].sender.unwrap())
}

/// The lines received through the output channel of `pid`.
pub open spec fn received_from(pool: Map<u32, PooledView>, pid: u32) -> Seq<Seq<char>> {
    received_lines(pool[pid].receiver.unwrap())
}

/// Why reading the output of `pid` fails before any channel is touched, if it
/// does.
pub open spec fn receive_failure(pool: Map<u32, PooledView>, pid: u32) -> Option<ProcessError> {
    if !pool.contains_key(pid) {
        Some(ProcessError::ProcessNotFound { pid })
    } else if pool[pid].receiver is None {
        Some(ProcessError::ReceiverNotAvailable { pid })
    } else {
        None
    }
}

/// Why sending input to `pid` fails before any channel is touched, if it
/// does.
pub open spec fn send_failure(pool: Map<u32, PooledView>, pid: u32) -> Option<ProcessError> {
    if !pool.contains_key(pid) {
        Some(ProcessError::ProcessNotFound { pid })
    } else if pool[pid].sender is None {
        Some(ProcessError::SenderNotAvailable { pid })
    } else {
        None
    }
}

/// A read of the output of `pid` that reported `r` took the pool from
/// `before` to `after`: a failure before any channel is touched changes
/// nothing; a reported line is the one taken from the output channel of
/// `pid`, and only that channel moved on; nothing reported, or a disconnected
/// channel, changes nothing.
pub open spec fn received_through(
    before: Map<u32, PooledView>,
    after: Map<u32, PooledView>,
    pid: u32,
    r: Result<Option<String>, ProcessError>,
) -> bool {
    match receive_failure(before, pid) {
        Some(e) => r == Err::<Option<String>, ProcessError>(e) && after == before,
        None => match r {
            Ok(Some(line)) => {
                &&& after == before.insert(
                    pid,
                    PooledView { receiver: after[pid].receiver, ..before[pid] },
                )
                &&& after[pid].receiver is Some
                &&& received_from(after, pid) == received_from(before, pid).push(line@)
            },
            Ok(None) => after == before,
            Err(e) => e == ProcessError::ChannelDisconnected { pid } && after == before,
        },
    }
}

/// Sending `input` to `pid` that reported `r` took the pool from `before` to
/// `after`: a failure before any channel is touched changes nothing;
/// otherwise the input went into the input channel of `pid` and nothing else
/// moved, or the channel was full and the input waits at the end of the
/// queue, or the channel was closed and nothing changed.
pub open spec fn sent_through(
    before: Map<u32, PooledView>,
    after: Map<u32, PooledView>,
    pid: u32,
    input: Seq<char>,
    r: Result<(), ProcessError>,
) -> bool {
    match send_failure(before, pid) {
        Some(e) => r == Err::<(), ProcessError>(e) && after == before,
        None => {
            ||| {
                &&& r == Ok::<(), ProcessError>(())
                &&& after == before.insert(
                    pid,
                    PooledView { sender: after[pid].sender, ..before[pid] },
                )
                &&& after[pid].sender is Some
                &&& sent_to(after, pid) == sent_to(before, pid).push(input)
            }
            ||| {
                &&& r == Ok::<(), ProcessError>(())
                &&& after == with_queue(before, pid, before[pid].input_queue.push(input))
            }
            ||| {
                &&& r == Err::<(), ProcessError>(ProcessError::InputChannelClosed { pid })
                &&& after == before
            }
        },
    }
}

/// A flush of `pid` handed its first `k` waiting inputs, in order, to the
/// input channel, and the rest still wait.
pub open spec fn handed_over(
    before: Map<u32, PooledView>,
    after: Map<u32, PooledView>,
    pid: u32,
    k: int,
) -> bool {
    let queue = before[pid].input_queue;
    &&& 0 <= k <= queue.len()
    &&& after == before.insert(
        pid,
        PooledView { sender: after[pid].sender, input_queue: queue.skip(k), ..before[pid] },
    )
    &&& after[pid].sender is Some
    &&& sent_to(after, pid) == sent_to(before, pid) + queue.take(k)
}

/// A flush of `pid` that reported `found` took the pool from `before` to
/// `after`.
pub open spec fn flushed(
    before: Map<u32, PooledView>,
    after: Map<u32, PooledView>,
    pid: u32,
    found: bool,
) -> bool {
    &&& found == before.contains_key(pid)
    &&& !found ==> after == before
    &&& found && before[pid].sender is None ==> after == with_queue(before, pid, Seq::empty())
    &&& found && before[pid].sender is Some ==> exists|k: int|
        #[trigger] handed_over(before, after, pid, k)
}

/// What a read of the output of `pid` reports for an attempt on its channel.
pub open spec fn receive_result_spec(outcome: ReceiveOutcome, pid: u32) -> Result<
    Option<String>,
    ProcessError,
> {
    match outcome {
        ReceiveOutcome::Line(line) => Ok(Some(line)),
        ReceiveOutcome::Empty => Ok(None),
        ReceiveOutcome::Disconnected => Err(ProcessError::ChannelDisconnected { pid }),
    }
}

/// What a read of the output of `pid` reports for an attempt on its channel:
/// the line that was taken, nothing when none is waiting, or an error when the
/// channel is disconnected.
pub fn receive_result(outcome: ReceiveOutcome, pid: u32) -> (r: Result<Option<String>, ProcessError>)
    ensures
        r == receive_result_spec(outcome, pid),
{
    match outcome {
        ReceiveOutcome::Line(line) => Ok(Some(line)),
        ReceiveOutcome::Empty => Ok(None),
        ReceiveOutcome::Disconnected => Err(ProcessError::ChannelDisconnected { pid }),
    }
}

/// What sending input to `pid` reports, and what the pool becomes, once its
/// input channel gave `outcome`: a sent input leaves the queue as it is; an
/// input refused by a full channel waits at the end of the queue, and that is
/// no failure; a closed channel is a failure and nothing waits.
pub open spec fn after_send(pool: Map<u32, PooledView>, pid: u32, outcome: SendOutcome) -> (
    Result<(), ProcessError>,
    Map<u32, PooledView>,
) {
    match outcome {
        SendOutcome::Sent => (Ok(()), pool),
        SendOutcome::Full(line) => (
            Ok(()),
            with_queue(pool, pid, pool[pid].input_queue.push(line@)),
        ),
        SendOutcome::Closed(_) => (Err(ProcessError::InputChannelClosed { pid }), pool),
    }
}

/// Puts back in front of `queue` the input that an attempt during a flush
/// could not hand over, and says whether the flush goes on: it goes on after
/// a sent input and stops at the first refused one, which waits first in line
/// again.
pub fn settle_flush_attempt(queue: &mut VecDeque<String>, outcome: SendOutcome) -> (go_on: bool)
    ensures
        match outcome {
            SendOutcome::Sent => go_on && final(queue)@ == old(queue)@,
            SendOutcome::Full(back) => !go_on && final(queue)@ == seq![back] + old(queue)@,
            SendOutcome::Closed(back) => !go_on && final(queue)@ == seq![back] + old(queue)@,
        },
{
    match outcome {
        SendOutcome::Sent => true,
        SendOutcome::Full(back) => {
            queue.push_front(back);
            false
        },
        SendOutcome::Closed(back) => {
            queue.push_front(back);
            false
        },
    }
}

proof fn lemma_view_insert(m: Map<u32, PooledProcess>, k: u32, v: PooledProcess)
    ensures
        pool_view(m.insert(k, v)) == pool_view(m).insert(k, v@),
{
    assert(pool_view(m.insert(k, v)) =~= pool_view(m).insert(k, v@));
}

proof fn lemma_view_remove(m: Map<u32, PooledProcess>, k: u32)
    ensures
        pool_view(m.remove(k)) == pool_view(m).remove(k),
{
    assert(pool_view(m.remove(k)) =~= pool_view(m).remove(k));
}

proof fn lemma_view_reinsert(m: Map<u32, PooledProcess>, k: u32, v: PooledProcess)
    requires
        m.contains_key(k),
    ensures
        pool_view(m.remove(k).insert(k, v)) == pool_view(m).insert(k, v@),
        pool_view(m)[k] == m[k]@,
{
    assert(pool_view(m.remove(k).insert(k, v)) =~= pool_view(m).insert(k, v@));
}

/// The work of `ProcessPool::register`, on the map itself.
fn register_in(
    processes: &mut HashMap<u32, PooledProcess>,
    pid: u32,
    process: &AsynchronousInteractiveProcess,
    sender: Option<tokio::sync::mpsc::Sender<String>>,
    receiver: Option<tokio::sync::mpsc::Receiver<String>>,
)
    ensures
        pool_view(final(processes)@) == pool_view(old(processes)@).insert(
            pid,
            PooledView { process: process@.started(pid), sender, receiver, input_queue: Seq::empty() },
        ),
{
    let entry = PooledProcess {
        process: process.started_copy(pid),
        sender,
        receiver,
        input_queue: VecDeque::new(),
    };
    proof {
        lemma_view_insert(processes@, pid, entry);
        assert(strings_view(entry.input_queue@) =~= Seq::<Seq<char>>::empty());
    }
    processes.insert(pid, entry);
}

/// The work of `ProcessPool::remove_process`, on the map itself.
fn remove_process_in(processes: &mut HashMap<u32, PooledProcess>, pid: u32) -> (r: bool)
    ensures
        pool_view(final(processes)@) == pool_view(old(processes)@).remove(pid),
        r == pool_view(old(processes)@).contains_key(pid),
{
    proof {
        lemma_view_remove(processes@, pid);
    }
    let removed = processes.remove(&pid);
    removed.is_some()
}

/// The work of `ProcessPool::try_receive_message`, on the map itself.
fn try_receive_message_in(processes: &mut HashMap<u32, PooledProcess>, pid: u32) -> (r: Result<
    Option<String>,
    ProcessError,
>)
    ensures
        received_through(pool_view(old(processes)@), pool_view(final(processes)@), pid, r),
{
    let ghost before = processes@;
    let removed = processes.remove(&pid);
    match removed {
        None => {
            assert(processes@ =~= before);
            Err(ProcessError::ProcessNotFound { pid })
        },
        Some(mut entry) => {
            let ghost e0 = entry;
            let taken = entry.receiver.take();
            let r = match taken {
                Some(mut receiver) => {
                    let ghost rx0 = receiver;
                    let outcome = try_receive_line(&mut receiver);
                    let ghost same = outcome !is Line;
                    entry.receiver = Some(receiver);
                    let r = receive_result(outcome, pid);
                    proof {
                        if same {
                            assert(entry@ == e0@);
                        }
                    }
                    r
                },
                None => {
                    entry.receiver = None;
                    Err(ProcessError::ReceiverNotAvailable { pid })
                },
            };
            processes.insert(pid, entry);
            proof {
                lemma_view_reinsert(before, pid, entry);
                let old_view = pool_view(before);
                assert(entry@ == PooledView { receiver: entry@.receiver, ..e0@ });
                if entry@ == e0@ {
                    assert(old_view.insert(pid, entry@) =~= old_view);
                }
            }
            r
        },
    }
}

/// The work of `ProcessPool::record_send_outcome`, on the map itself.
fn record_send_outcome_in(
    processes: &mut HashMap<u32, PooledProcess>,
    pid: u32,
    outcome: SendOutcome,
) -> (r: Result<(), ProcessError>)
    ensures
        !pool_view(old(processes)@).contains_key(pid) ==> r == Err::<(), ProcessError>(
            ProcessError::ProcessNotFound { pid },
        ) && pool_view(final(processes)@) == pool_view(old(processes)@),
        pool_view(old(processes)@).contains_key(pid) ==> (r, pool_view(final(processes)@))
            == after_send(pool_view(old(processes)@), pid, outcome),
{
    let ghost before = processes@;
    let removed = processes.remove(&pid);
    match removed {
        None => {
            assert(processes@ =~= before);
            Err(ProcessError::ProcessNotFound { pid })
        },
        Some(mut entry) => {
            let ghost e0 = entry;
            let r = match outcome {
                SendOutcome::Sent => Ok(()),
                SendOutcome::Full(line) => {
                    let ghost q0 = entry.input_queue@;
                    let ghost line_view = line@;
                    entry.input_queue.push_back(line);
                    proof {
                        assert(strings_view(entry.input_queue@) =~= strings_view(q0).push(
                            line_view,
                        ));
                    }
                    Ok(())
                },
                SendOutcome::Closed(_) => Err(ProcessError::InputChannelClosed { pid }),
            };
            processes.insert(pid, entry);
            proof {
                lemma_view_reinsert(before, pid, entry);
                let old_view = pool_view(before);
                if !(outcome is Full) {
                    assert(old_view.insert(pid, entry@) =~= old_view);
                }
            }
            r
        },
    }
}

/// The work of `ProcessPool::send_input`, on the map itself.
fn send_input_in(processes: &mut HashMap<u32, PooledProcess>, pid: u32, input: String) -> (r: Result<
    (),
    ProcessError,
>)
    ensures
        sent_through(pool_view(old(processes)@), pool_view(final(processes)@), pid, input@, r),
{
    let ghost before = processes@;
    let ghost input_view = input@;
    let removed = processes.remove(&pid);
    match removed {
        None => {
            assert(processes@ =~= before);
            Err(ProcessError::ProcessNotFound { pid })
        },
        Some(mut entry) => {
            let ghost e0 = entry;
            let taken = entry.sender.take();
            match taken {
                None => {
                    entry.sender = None;
                    processes.insert(pid, entry);
                    proof {
                        lemma_view_reinsert(before, pid, entry);
                        assert(entry@ == e0@);
                        assert(pool_view(before).insert(pid, entry@) =~= pool_view(before));
                    }
                    Err(ProcessError::SenderNotAvailable { pid })
                },
                Some(mut sender) => {
                    let outcome = try_send_line(&mut sender, input);
                    entry.sender = Some(sender);
                    let ghost mid_entry = entry;
                    processes.insert(pid, entry);
                    let ghost mid = processes@;
                    proof {
                        lemma_view_reinsert(before, pid, mid_entry);
                        if !(outcome is Sent) {
                            assert(mid_entry@ == e0@);
                            assert(pool_view(before).insert(pid, mid_entry@) =~= pool_view(before));
                        }
                        assert(pool_view(mid).contains_key(pid));
                    }
                    let r = record_send_outcome_in(processes, pid, outcome);
                    proof {
                        let bv = pool_view(before);
                        let av = pool_view(processes@);
                        if outcome is Sent {
                            assert(mid_entry@ == PooledView { sender: mid_entry@.sender, ..e0@ });
                            assert(av == bv.insert(pid, PooledView { sender: av[pid].sender, ..bv[pid] }));
                        }
                    }
                    r
                },
            }
        },
    }
}

/// The work of `ProcessPool::flush_input_queue`, on the map itself.
fn flush_input_queue_in(processes: &mut HashMap<u32, PooledProcess>, pid: u32) -> (found: bool)
    ensures
        flushed(pool_view(old(processes)@), pool_view(final(processes)@), pid, found),
{
    let ghost before = processes@;
    let removed = processes.remove(&pid);
    match removed {
        None => {
            assert(processes@ =~= before);
            false
        },
        Some(mut entry) => {
            let ghost e0 = entry;
            let ghost q0 = strings_view(entry.input_queue@);
            let ghost mut k: int = 0;
            let taken = entry.sender.take();
            match taken {
                Some(mut sender) => {
                    let ghost s0 = sender;
                    assert(q0.skip(0) =~= q0);
                    assert(q0.take(0) =~= Seq::<Seq<char>>::empty());
                    loop
                        invariant
                            0 <= k <= q0.len(),
                            strings_view(entry.input_queue@) == q0.skip(k),
                            sent_lines(sender) == sent_lines(s0) + q0.take(k),
                            entry.process == e0.process,
                            entry.receiver == e0.receiver,
                        decreases q0.len() - k,
                    {
                        let ghost qk = entry.input_queue@;
                        let ghost sk = sender;
                        match entry.input_queue.pop_front() {
                            None => {
                                break ;
                            },
                            Some(line) => {
                                let ghost line_view = line@;
                                let ghost q1 = entry.input_queue@;
                                proof {
                                    assert(strings_view(qk)[0] == line_view);
                                    assert(strings_view(q1) =~= strings_view(qk).subrange(
                                        1,
                                        strings_view(qk).len() as int,
                                    ));
                                    assert(strings_view(q1) =~= q0.skip(k + 1));
                                    assert(q0[k] == line_view);
                                }
                                let outcome = try_send_line(&mut sender, line);
                                let go_on = settle_flush_attempt(&mut entry.input_queue, outcome);
                                if go_on {
                                    proof {
                                        assert(q0.take(k + 1) =~= q0.take(k).push(line_view));
                                        k = k + 1;
                                    }
                                } else {
                                    proof {
                                        assert(strings_view(entry.input_queue@) =~= seq![
                                            line_view,
                                        ] + strings_view(q1));
                                        assert(strings_view(entry.input_queue@) =~= q0.skip(k));
                                    }
                                    break ;
                                }
                            },
                        }
                    }
                    entry.sender = Some(sender);
                },
                None => {
                    proof {
                        k = q0.len() as int;
                    }
                    entry.sender = None;
                    entry.input_queue.clear();
                    proof {
                        assert(strings_view(entry.input_queue@) =~= Seq::<Seq<char>>::empty());
                    }
                },
            }
            processes.insert(pid, entry);
            proof {
                lemma_view_reinsert(before, pid, entry);
                let bv = pool_view(before);
                let av = pool_view(processes@);
                if e0.sender is Some {
                    assert(entry@ =~= PooledView {
                        sender: entry@.sender,
                        input_queue: q0.skip(k),
                        ..e0@
                    });
                    assert(handed_over(bv, av, pid, k));
                } else {
                    assert(entry@ =~= PooledView { input_queue: Seq::empty(), ..e0@ });
                }
            }
            true
        },
    }
}

impl ProcessPool {
    #[verifier::type_invariant]
    spec fn ids_match(self) -> bool {
        entries_carry_their_ids(self@)
    }

    /// An empty pool.
    pub fn new() -> (r: Self)
        ensures
            r@ == Map::<u32, PooledView>::empty(),
            entries_carry_their_ids(r@),
    {
        let processes: HashMap<u32, PooledProcess> = HashMap::new();
        proof {
            assert(pool_view(processes@) =~= Map::<u32, PooledView>::empty());
        }
        ProcessPool { processes }
    }

    /// Whether the pool holds a process under `pid`.
    pub fn contains(&self, pid: u32) -> (r: bool)
        ensures
            r == self@.contains_key(pid),
            entries_carry_their_ids(self@),
    {
        proof {
            use_type_invariant(self);
        }
        self.processes.contains_key(&pid)
    }

    /// Records that `process` runs under `pid`, with the given channels and
    /// no waiting input. A process already recorded under `pid` is replaced:
    /// the pool holds one process per id.
    pub fn register(
        &mut self,
        pid: u32,
        process: &AsynchronousInteractiveProcess,
        sender: Option<tokio::sync::mpsc::Sender<String>>,
        receiver: Option<tokio::sync::mpsc::Receiver<String>>,
    )
        ensures
            final(self)@ == old(self)@.insert(
                pid,
                PooledView { process: process@.started(pid), sender, receiver, input_queue: Seq::empty() },
            ),
            entries_carry_their_ids(final(self)@),
    {
        proof {
            use_type_invariant(&*self);
        }
        let mut processes: HashMap<u32, PooledProcess> = HashMap::new();
        std::mem::swap(&mut processes, &mut self.processes);
        register_in(&mut processes, pid, process, sender, receiver);
        self.processes = processes;
    }

    /// Forgets the process under `pid`; says whether there was one.
    pub fn remove_process(&mut self, pid: u32) -> (r: bool)
        ensures
            final(self)@ == old(self)@.remove(pid),
            r == old(self)@.contains_key(pid),
            entries_carry_their_ids(final(self)@),
    {
        proof {
            use_type_invariant(&*self);
        }
        let mut processes: HashMap<u32, PooledProcess> = HashMap::new();
        std::mem::swap(&mut processes, &mut self.processes);
        let r = remove_process_in(&mut processes, pid);
        self.processes = processes;
        r
    }

    /// The number of inputs that wait for room in the input channel of `pid`.
    pub fn queued_input_count(&self, pid: u32) -> (r: Option<usize>)
        ensures
            r == if self@.contains_key(pid) {
                Some(self@[pid].input_queue.len() as usize)
            } else {
                None::<usize>
            },
    {
        match self.processes.get(&pid) {
            Some(entry) => Some(entry.input_queue.len()),
            None => None,
        }
    }

    /// Takes the next line of output of `pid` without waiting: the line, or
    /// nothing when none is waiting. Fails when the pool has no such process,
    /// when the process has no output channel, and when that channel is
    /// disconnected. A reported line is the one taken from the output channel
    /// of `pid`; nothing else in the pool moves.
    pub fn try_receive_message(&mut self, pid: u32) -> (r: Result<Option<String>, ProcessError>)
        ensures
            received_through(old(self)@, final(self)@, pid, r),
            entries_carry_their_ids(final(self)@),
    {
        proof {
            use_type_invariant(&*self);
        }
        let mut processes: HashMap<u32, PooledProcess> = HashMap::new();
        std::mem::swap(&mut processes, &mut self.processes);
        let ghost start = pool_view(processes@);
        let r = try_receive_message_in(&mut processes, pid);
        proof {
            lemma_received_keeps_ids(start, pool_view(processes@), pid, r);
        }
        self.processes = processes;
        r
    }

    /// Records what the input channel of `pid` did with an input: a sent
    /// input leaves the queue as it is; an input refused by a full channel
    /// waits at the end of the queue, and that is no failure; a closed channel
    /// is a failure. Fails, changing nothing, when the pool has no such
    /// process.
    pub fn record_send_outcome(&mut self, pid: u32, outcome: SendOutcome) -> (r: Result<
        (),
        ProcessError,
    >)
        ensures
            !old(self)@.contains_key(pid) ==> r == Err::<(), ProcessError>(
                ProcessError::ProcessNotFound { pid },
            ) && final(self)@ == old(self)@,
            old(self)@.contains_key(pid) ==> (r, final(self)@) == after_send(
                old(self)@,
                pid,
                outcome,
            ),
            entries_carry_their_ids(final(self)@),
    {
        proof {
            use_type_invariant(&*self);
        }
        let mut processes: HashMap<u32, PooledProcess> = HashMap::new();
        std::mem::swap(&mut processes, &mut self.processes);
        let r = record_send_outcome_in(&mut processes, pid, outcome);
        self.processes = processes;
        r
    }

    /// Hands `input` to the input channel of `pid`, then records what the
    /// channel did with it (see `record_send_outcome`): taken into the
    /// channel, waiting at the end of the queue because the channel is full,
    /// or refused by a closed channel. Fails, before any channel is touched,
    /// when the pool has no such process or the process has no input channel.
    pub fn send_input(&mut self, pid: u32, input: String) -> (r: Result<(), ProcessError>)
        ensures
            sent_through(old(self)@, final(self)@, pid, input@, r),
            entries_carry_their_ids(final(self)@),
    {
        proof {
            use_type_invariant(&*self);
        }
        let ghost input_view = input@;
        let mut processes: HashMap<u32, PooledProcess> = HashMap::new();
        std::mem::swap(&mut processes, &mut self.processes);
        let ghost start = pool_view(processes@);
        let r = send_input_in(&mut processes, pid, input);
        proof {
            lemma_sent_keeps_ids(start, pool_view(processes@), pid, input_view, r);
        }
        self.processes = processes;
        r
    }

    /// Moves the inputs that wait for `pid` into its input channel, first to
    /// last, until the channel refuses one; the refused input waits first in
    /// line again (see `settle_flush_attempt`). What the channel took is
    /// exactly the first inputs of the queue, in order, and the rest wait.
    /// When the process has no input channel its waiting inputs are dropped.
    /// Says whether the pool holds the process.
    pub fn flush_input_queue(&mut self, pid: u32) -> (found: bool)
        ensures
            flushed(old(self)@, final(self)@, pid, found),
            entries_carry_their_ids(final(self)@),
    {
        proof {
            use_type_invariant(&*self);
        }
        let mut processes: HashMap<u32, PooledProcess> = HashMap::new();
        std::mem::swap(&mut processes, &mut self.processes);
        let ghost start = pool_view(processes@);
        let found = flush_input_queue_in(&mut processes, pid);
        proof {
            lemma_flushed_keeps_ids(start, pool_view(processes@), pid, found);
        }
        self.processes = processes;
        found
    }
}

impl AsynchronousInteractiveProcess {
    /// Records that the process this description launched runs under `pid`:
    /// the description takes the id, and the pool holds a copy of it with the
    /// channels to the process and no waiting input.
    pub fn record_launch(
        &mut self,
        pool: &mut ProcessPool,
        pid: u32,
        sender: tokio::sync::mpsc::Sender<String>,
        receiver: tokio::sync::mpsc::Receiver<String>,
    )
        ensures
            final(self)@ == old(self)@.started(pid),
            final(pool)@ == old(pool)@.insert(
                pid,
                PooledView {
                    process: old(self)@.started(pid),
                    sender: Some(sender),
                    receiver: Some(receiver),
                    input_queue: Seq::empty(),
                },
            ),
            entries_carry_their_ids(final(pool)@),
    {
        pool.register(pid, self, Some(sender), Some(receiver));
        self.pid = Some(pid);
    }

    /// A handle to the process running under `pid`, when the pool holds one;
    /// `None` also when no pool exists yet.
    pub fn get_process_by_pid(pool: Option<&ProcessPool>, pid: u32) -> (r: Option<
        crate::handle::ProcessHandle,
    >)
        ensures
            r is Some <==> (pool is Some && pool.unwrap()@.contains_key(pid)),
            r matches Some(h) ==> h@ == pid,
    {
        match pool {
            Some(p) => {
                if p.contains(pid) {
                    Some(crate::handle::ProcessHandle::from_pid(pid))
                } else {
                    None
                }
            },
            None => None,
        }
    }

    /// Whether the process this description launched is still in the pool:
    /// false when it was never launched or no pool exists yet.
    pub fn is_process_running(&self, pool: Option<&ProcessPool>) -> (r: bool)
        ensures
            r == (self.pid is Some && pool is Some && pool.unwrap()@.contains_key(self.pid.unwrap())),
    {
        match self.pid {
            Some(pid) => match pool {
                Some(p) => p.contains(pid),
                None => false,
            },
            None => false,
        }
    }
}

/// Once a process has left the pool, it is not running, its output cannot be
/// read and it takes no input: both fail with `ProcessNotFound`.
pub proof fn lemma_removed_process_refuses_io(pool: Map<u32, PooledView>, pid: u32)
    ensures
        !pool.remove(pid).contains_key(pid),
        receive_failure(pool.remove(pid), pid) == Some(ProcessError::ProcessNotFound { pid }),
        send_failure(pool.remove(pid), pid) == Some(ProcessError::ProcessNotFound { pid }),
{
}

/// A process just recorded is found under its id, with its output and input
/// reachable through the channels it was recorded with.
pub proof fn lemma_registered_process_is_reachable(
    pool: Map<u32, PooledView>,
    pid: u32,
    entry: PooledView,
)
    ensures
        pool.insert(pid, entry).contains_key(pid),
        entry.receiver is Some ==> receive_failure(pool.insert(pid, entry), pid) is None,
        entry.sender is Some ==> send_failure(pool.insert(pid, entry), pid) is None,
{
}

/// The pool holds one process per id: recording a second process under an id
/// replaces the first.
pub proof fn lemma_one_process_per_id(
    pool: Map<u32, PooledView>,
    pid: u32,
    first: PooledView,
    second: PooledView,
)
    ensures
        pool.insert(pid, first).insert(pid, second) == pool.insert(pid, second),
{
    assert(pool.insert(pid, first).insert(pid, second) =~= pool.insert(pid, second));
}

/// What is done to one process leaves every other process's record as it was.
pub proof fn lemma_other_processes_untouched(
    pool: Map<u32, PooledView>,
    pid: u32,
    other: u32,
    entry: PooledView,
    queue: Seq<Seq<char>>,
)
    requires
        pid != other,
    ensures
        pool.insert(pid, entry).contains_key(other) == pool.contains_key(other),
        pool.remove(pid).contains_key(other) == pool.contains_key(other),
        pool.contains_key(pid) ==> with_queue(pool, pid, queue).contains_key(other)
            == pool.contains_key(other),
        pool.contains_key(other) ==> {
            &&& pool.insert(pid, entry)[other] == pool[other]
            &&& pool.remove(pid)[other] == pool[other]
            &&& with_queue(pool, pid, queue)[other] == pool[other]
        },
{
}

/// Input reaches a process in the order it was given: a queued input goes
/// behind those already waiting, and a flush hands over a prefix of the
/// waiting inputs, so what was handed over followed by what still waits is
/// the queue as it stood.
pub proof fn lemma_queued_input_keeps_order(queue: Seq<Seq<char>>, input: Seq<char>, k: int)
    requires
        0 <= k <= queue.len() + 1,
    ensures
        queue.push(input).take(k) + queue.push(input).skip(k) == queue.push(input),
        queue.push(input).skip(k).len() > 0 ==> queue.push(input).skip(k).last() == input,
        k <= queue.len() ==> queue.push(input).skip(k) == queue.skip(k).push(input),
{
    assert(queue.push(input).take(k) + queue.push(input).skip(k) =~= queue.push(input));
    if k <= queue.len() {
        assert(queue.push(input).skip(k) =~= queue.skip(k).push(input));
    }
}

/// Every process stays recorded under the id it runs under: recording a
/// launch, forgetting a process and recording a send keep this.
pub proof fn lemma_entries_keep_their_ids(
    pool: Map<u32, PooledView>,
    pid: u32,
    process: ProcessSpec,
    entry_sender: Option<tokio::sync::mpsc::Sender<String>>,
    entry_receiver: Option<tokio::sync::mpsc::Receiver<String>>,
    queue: Seq<Seq<char>>,
    outcome: SendOutcome,
)
    requires
        entries_carry_their_ids(pool),
    ensures
        entries_carry_their_ids(
            pool.insert(
                pid,
                PooledView {
                    process: process.started(pid),
                    sender: entry_sender,
                    receiver: entry_receiver,
                    input_queue: Seq::empty(),
                },
            ),
        ),
        entries_carry_their_ids(pool.remove(pid)),
        pool.contains_key(pid) ==> entries_carry_their_ids(with_queue(pool, pid, queue)),
        pool.contains_key(pid) ==> entries_carry_their_ids(after_send(pool, pid, outcome).1),
{
}

/// Reading output keeps every process recorded under its own id.
pub proof fn lemma_received_keeps_ids(
    before: Map<u32, PooledView>,
    after: Map<u32, PooledView>,
    pid: u32,
    r: Result<Option<String>, ProcessError>,
)
    requires
        entries_carry_their_ids(before),
        received_through(before, after, pid, r),
    ensures
        entries_carry_their_ids(after),
{
    assert forall|k: u32| #[trigger] after.contains_key(k) implies after[k].process.pid == Some(k) by {
        assert(before.contains_key(k));
    }
}

/// Sending input keeps every process recorded under its own id.
pub proof fn lemma_sent_keeps_ids(
    before: Map<u32, PooledView>,
    after: Map<u32, PooledView>,
    pid: u32,
    input: Seq<char>,
    r: Result<(), ProcessError>,
)
    requires
        entries_carry_their_ids(before),
        sent_through(before, after, pid, input, r),
    ensures
        entries_carry_their_ids(after),
{
    assert forall|k: u32| #[trigger] after.contains_key(k) implies after[k].process.pid == Some(k) by {
        assert(before.contains_key(k));
    }
}

/// Flushing waiting input keeps every process recorded under its own id.
pub proof fn lemma_flushed_keeps_ids(
    before: Map<u32, PooledView>,
    after: Map<u32, PooledView>,
    pid: u32,
    found: bool,
)
    requires
        entries_carry_their_ids(before),
        flushed(before, after, pid, found),
    ensures
        entries_carry_their_ids(after),
{
    assert forall|k: u32| #[trigger] after.contains_key(k) implies after[k].process.pid == Some(k) by {
        assert(before.contains_key(k));
    }
}

/// A flush loses and repeats nothing: what has gone into the input channel
/// followed by what still waits is the same before and after.
pub proof fn lemma_flush_loses_nothing(
    before: Map<u32, PooledView>,
    after: Map<u32, PooledView>,
    pid: u32,
    k: int,
)
    requires
        before.contains_key(pid),
        handed_over(before, after, pid, k),
    ensures
        sent_to(after, pid) + after[pid].input_queue == sent_to(before, pid) + before[pid].input_queue,
{
    let q = before[pid].input_queue;
    assert(q.take(k) + q.skip(k) =~= q);
    assert(sent_to(before, pid) + q.take(k) + q.skip(k) =~= sent_to(before, pid) + (q.take(k)
        + q.skip(k)));
}

/// Sending input loses and repeats nothing: on success the input has gone
/// into the input channel or waits at the end of the queue, exactly once;
/// otherwise neither the channel nor the queue moved.
pub proof fn lemma_send_loses_nothing(
    before: Map<u32, PooledView>,
    after: Map<u32, PooledView>,
    pid: u32,
    input: Seq<char>,
    r: Result<(), ProcessError>,
)
    requires
        before.contains_key(pid),
        before[pid].sender is Some,
        sent_through(before, after, pid, input, r),
    ensures
        r is Ok ==> {
            ||| sent_to(after, pid) == sent_to(before, pid).push(input)
                && after[pid].input_queue == before[pid].input_queue
            ||| sent_to(after, pid) == sent_to(before, pid) && after[pid].input_queue
                == before[pid].input_queue.push(input)
        },
        r is Err ==> after == before,
{
}

/// What a send reports follows what the channel did, and nothing else: it
/// fails with `InputChannelClosed` exactly when the channel was closed, and
/// otherwise succeeds; an input the channel took leaves the queue as it is,
/// and only one the channel refused as full joins the queue, at its end.
pub proof fn lemma_send_report_follows_channel(
    pool: Map<u32, PooledView>,
    pid: u32,
    outcome: SendOutcome,
)
    requires
        pool.contains_key(pid),
    ensures
        (after_send(pool, pid, outcome).0 == Err::<(), ProcessError>(
            ProcessError::InputChannelClosed { pid },
        )) <==> outcome is Closed,
        (after_send(pool, pid, outcome).0 is Ok) <==> !(outcome is Closed),
        outcome is Sent ==> after_send(pool, pid, outcome).1 == pool,
        outcome matches SendOutcome::Full(line) ==> after_send(pool, pid, outcome).1[pid].input_queue
            == pool[pid].input_queue.push(line@),
        outcome is Closed ==> after_send(pool, pid, outcome).1 == pool,
{
}

/// What a read reports follows what the channel did, and nothing else:
/// nothing is reported exactly when no line was waiting, a reported line is
/// the line taken, and the only failure is a disconnected channel.
pub proof fn lemma_receive_report_follows_channel(outcome: ReceiveOutcome, pid: u32)
    ensures
        (receive_result_spec(outcome, pid) == Ok::<Option<String>, ProcessError>(None))
            <==> outcome is Empty,
        outcome matches ReceiveOutcome::Line(line) ==> receive_result_spec(outcome, pid) == Ok::<
            Option<String>,
            ProcessError,
        >(Some(line)),
        (receive_result_spec(outcome, pid) is Err) <==> outcome is Disconnected,
{
}

} // verus!

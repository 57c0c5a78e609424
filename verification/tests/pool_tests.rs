use tokio::sync::mpsc::channel;
use tokio_interactive::{AsynchronousInteractiveProcess, ProcessError, ProcessPool, SendOutcome};

fn launched(pool: &mut ProcessPool, pid: u32, capacity: usize) -> (
    tokio::sync::mpsc::Receiver<String>,
    tokio::sync::mpsc::Sender<String>,
) {
    let (in_tx, in_rx) = channel::<String>(capacity);
    let (out_tx, out_rx) = channel::<String>(capacity);
    let mut process = AsynchronousInteractiveProcess::new("bash");
    process.record_launch(pool, pid, in_tx, out_rx);
    assert_eq!(process.pid, Some(pid));
    (in_rx, out_tx)
}

#[test]
fn lookup_without_pool_finds_nothing() {
    assert!(AsynchronousInteractiveProcess::get_process_by_pid(None, 7).is_none());
    let pool = ProcessPool::new();
    assert!(AsynchronousInteractiveProcess::get_process_by_pid(Some(&pool), 999999).is_none());
}

#[test]
fn launched_process_is_found_and_running() {
    let mut pool = ProcessPool::new();
    let (_in_rx, _out_tx) = launched(&mut pool, 12, 4);
    let handle = AsynchronousInteractiveProcess::get_process_by_pid(Some(&pool), 12).expect("Process not found");
    assert_eq!(handle.pid(), 12);
    assert!(handle.is_process_running(Some(&pool)));
    assert!(!handle.is_process_running(None));
}

#[test]
fn description_running_follows_pool() {
    let mut pool = ProcessPool::new();
    let mut process = AsynchronousInteractiveProcess::new("bash");
    assert!(!process.is_process_running(Some(&pool)));
    let (in_tx, _in_rx) = channel::<String>(1);
    let (_out_tx, out_rx) = channel::<String>(1);
    process.record_launch(&mut pool, 5, in_tx, out_rx);
    assert!(process.is_process_running(Some(&pool)));
    assert!(!process.is_process_running(None));
    assert!(pool.remove_process(5));
    assert!(!process.is_process_running(Some(&pool)));
}

#[test]
fn test_error_handling() {
    let mut pool = ProcessPool::new();
    let non_existent_pid = 999999;
    assert!(
        AsynchronousInteractiveProcess::get_process_by_pid(Some(&pool), non_existent_pid).is_none(),
        "Should not find a non-existent process"
    );
    let (_in_rx, _out_tx) = launched(&mut pool, 30, 4);
    let handle = AsynchronousInteractiveProcess::get_process_by_pid(Some(&pool), 30).unwrap();
    assert!(pool.remove_process(30));
    assert!(!pool.remove_process(30));
    assert!(!handle.is_process_running(Some(&pool)));
    assert_eq!(handle.try_receive_message(Some(&mut pool)), Err(ProcessError::ProcessNotFound { pid: 30 }));
    assert_eq!(handle.send_input(Some(&mut pool), "test"), Err(ProcessError::ProcessNotFound { pid: 30 }));
}

#[test]
fn missing_pool_is_reported() {
    let mut pool = ProcessPool::new();
    let (_in_rx, _out_tx) = launched(&mut pool, 3, 4);
    let handle = AsynchronousInteractiveProcess::get_process_by_pid(Some(&pool), 3).unwrap();
    assert_eq!(handle.try_receive_message(None), Err(ProcessError::PoolNotInitialized));
    assert_eq!(handle.send_input(None, "x"), Err(ProcessError::PoolNotInitialized));
}

#[test]
fn output_lines_are_received_in_order() {
    let mut pool = ProcessPool::new();
    let (_in_rx, out_tx) = launched(&mut pool, 8, 4);
    out_tx.try_send("first".to_string()).unwrap();
    out_tx.try_send("second".to_string()).unwrap();
    let handle = AsynchronousInteractiveProcess::get_process_by_pid(Some(&pool), 8).unwrap();
    assert_eq!(handle.try_receive_message(Some(&mut pool)), Ok(Some("first".to_string())));
    assert_eq!(handle.try_receive_message(Some(&mut pool)), Ok(Some("second".to_string())));
    assert_eq!(handle.try_receive_message(Some(&mut pool)), Ok(None));
    drop(out_tx);
    assert_eq!(handle.try_receive_message(Some(&mut pool)), Err(ProcessError::ChannelDisconnected { pid: 8 }));
    assert!(handle.is_process_running(Some(&pool)));
}

#[test]
fn input_reaches_the_channel() {
    let mut pool = ProcessPool::new();
    let (mut in_rx, _out_tx) = launched(&mut pool, 9, 4);
    let handle = AsynchronousInteractiveProcess::get_process_by_pid(Some(&pool), 9).unwrap();
    assert_eq!(handle.send_input(Some(&mut pool), "status"), Ok(()));
    assert_eq!(in_rx.try_recv().unwrap(), "status");
    assert_eq!(pool.queued_input_count(9), Some(0));
}

#[test]
fn full_channel_queues_input_and_flush_keeps_order() {
    let mut pool = ProcessPool::new();
    let (mut in_rx, _out_tx) = launched(&mut pool, 10, 1);
    let handle = AsynchronousInteractiveProcess::get_process_by_pid(Some(&pool), 10).unwrap();
    assert_eq!(handle.send_input(Some(&mut pool), "a"), Ok(()));
    assert_eq!(handle.send_input(Some(&mut pool), "b"), Ok(()));
    assert_eq!(handle.send_input(Some(&mut pool), "c"), Ok(()));
    assert_eq!(pool.queued_input_count(10), Some(2));

    assert!(pool.flush_input_queue(10));
    assert_eq!(pool.queued_input_count(10), Some(2));

    assert_eq!(in_rx.try_recv().unwrap(), "a");
    assert!(pool.flush_input_queue(10));
    assert_eq!(pool.queued_input_count(10), Some(1));
    assert_eq!(in_rx.try_recv().unwrap(), "b");
    assert!(pool.flush_input_queue(10));
    assert_eq!(pool.queued_input_count(10), Some(0));
    assert_eq!(in_rx.try_recv().unwrap(), "c");

    assert!(!pool.flush_input_queue(11));
    assert_eq!(pool.queued_input_count(11), None);
}

#[test]
fn closed_input_channel_is_reported() {
    let mut pool = ProcessPool::new();
    let (in_rx, _out_tx) = launched(&mut pool, 14, 2);
    drop(in_rx);
    let handle = AsynchronousInteractiveProcess::get_process_by_pid(Some(&pool), 14).unwrap();
    assert_eq!(handle.send_input(Some(&mut pool), "hello"), Err(ProcessError::InputChannelClosed { pid: 14 }));
    assert_eq!(pool.queued_input_count(14), Some(0));
}

#[test]
fn missing_channels_are_reported() {
    let mut pool = ProcessPool::new();
    let process = AsynchronousInteractiveProcess::new("cat");
    pool.register(21, &process, None, None);
    let handle = AsynchronousInteractiveProcess::get_process_by_pid(Some(&pool), 21).unwrap();
    assert_eq!(handle.try_receive_message(Some(&mut pool)), Err(ProcessError::ReceiverNotAvailable { pid: 21 }));
    assert_eq!(handle.send_input(Some(&mut pool), "x"), Err(ProcessError::SenderNotAvailable { pid: 21 }));
    assert!(pool.flush_input_queue(21));
    assert_eq!(pool.queued_input_count(21), Some(0));
}

#[test]
fn one_process_per_id() {
    let mut pool = ProcessPool::new();
    let (_a, _b) = launched(&mut pool, 40, 1);
    let process = AsynchronousInteractiveProcess::new("other");
    pool.register(40, &process, None, None);
    let handle = AsynchronousInteractiveProcess::get_process_by_pid(Some(&pool), 40).unwrap();
    assert_eq!(handle.send_input(Some(&mut pool), "x"), Err(ProcessError::SenderNotAvailable { pid: 40 }));
    assert!(pool.remove_process(40));
    assert!(AsynchronousInteractiveProcess::get_process_by_pid(Some(&pool), 40).is_none());
}

#[test]
fn other_processes_are_untouched() {
    let mut pool = ProcessPool::new();
    let (_a, out_a) = launched(&mut pool, 1, 1);
    let (_b, _out_b) = launched(&mut pool, 2, 1);
    out_a.try_send("from one".to_string()).unwrap();
    assert!(pool.remove_process(2));
    let handle = AsynchronousInteractiveProcess::get_process_by_pid(Some(&pool), 1).unwrap();
    assert_eq!(handle.try_receive_message(Some(&mut pool)), Ok(Some("from one".to_string())));
}

#[test]
fn send_outcomes_are_recorded() {
    let mut pool = ProcessPool::new();
    let (_in_rx, _out_tx) = launched(&mut pool, 50, 1);
    assert_eq!(pool.record_send_outcome(50, SendOutcome::Sent), Ok(()));
    assert_eq!(pool.queued_input_count(50), Some(0));
    assert_eq!(pool.record_send_outcome(50, SendOutcome::Full("later".to_string())), Ok(()));
    assert_eq!(pool.queued_input_count(50), Some(1));
    assert_eq!(
        pool.record_send_outcome(50, SendOutcome::Closed("gone".to_string())),
        Err(ProcessError::InputChannelClosed { pid: 50 })
    );
    assert_eq!(pool.queued_input_count(50), Some(1));
    assert_eq!(
        pool.record_send_outcome(51, SendOutcome::Full("x".to_string())),
        Err(ProcessError::ProcessNotFound { pid: 51 })
    );
    assert_eq!(pool.queued_input_count(51), None);
}

#[test]
fn queued_input_is_delivered_once_in_order() {
    let mut pool = ProcessPool::new();
    let (mut in_rx, _out_tx) = launched(&mut pool, 60, 1);
    let handle = AsynchronousInteractiveProcess::get_process_by_pid(Some(&pool), 60).unwrap();
    for input in ["x1", "x2", "x3"] {
        assert_eq!(handle.send_input(Some(&mut pool), input), Ok(()));
    }
    let mut received = Vec::new();
    for _ in 0..5 {
        if let Ok(line) = in_rx.try_recv() {
            received.push(line);
        }
        assert!(pool.flush_input_queue(60));
    }
    while let Ok(line) = in_rx.try_recv() {
        received.push(line);
    }
    assert_eq!(received, vec!["x1", "x2", "x3"]);
    assert_eq!(pool.queued_input_count(60), Some(0));
}

#[test]
fn opened_channels_connect_the_pool_to_the_process() {
    let mut pool = ProcessPool::new();
    let channels = tokio_interactive::open_process_channels();
    let mut input_receiver = channels.input_receiver;
    let output_sender = channels.output_sender;
    let mut process = AsynchronousInteractiveProcess::new("cat");
    process.record_launch(&mut pool, 70, channels.input_sender, channels.output_receiver);
    let handle = AsynchronousInteractiveProcess::get_process_by_pid(Some(&pool), 70).unwrap();
    assert_eq!(handle.send_input(Some(&mut pool), "ping"), Ok(()));
    assert_eq!(input_receiver.try_recv().unwrap(), "ping");
    output_sender.try_send("pong".to_string()).unwrap();
    assert_eq!(handle.try_receive_message(Some(&mut pool)), Ok(Some("pong".to_string())));
    for i in 0..100 {
        assert_eq!(handle.send_input(Some(&mut pool), &format!("line {}", i)), Ok(()));
    }
    assert_eq!(pool.queued_input_count(70), Some(0));
    assert_eq!(handle.send_input(Some(&mut pool), "overflow"), Ok(()));
    assert_eq!(pool.queued_input_count(70), Some(1));
}

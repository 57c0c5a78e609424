use tokio_interactive::{
    exit_code_of, receive_result, resolve_working_directory, settle_flush_attempt, stderr_message, stdin_line,
    stdout_message, ProcessError, ProcessHandle, ReceiveOutcome, ReceiveStep, SendOutcome, ShutdownAction,
    ShutdownEvent, ShutdownPhase, ShutdownProgress, DEFAULT_RECEIVE_TIMEOUT_MS, RETRY_DELAY_MS,
    SHUTDOWN_POLL_MS,
};

#[test]
fn stdout_lines_lose_trailing_whitespace() {
    assert_eq!(stdout_message("Hello from Linux\n"), "Hello from Linux");
    assert_eq!(stdout_message("Hello from Windows\r\n"), "Hello from Windows");
    assert_eq!(stdout_message("  indented \t \u{3000}"), "  indented");
    assert_eq!(stdout_message(" \n\t"), "");
    assert_eq!(stdout_message(""), "");
    assert_eq!(stdout_message("a\u{a0}b\u{2003}"), "a\u{a0}b");
}

#[test]
fn trimming_twice_is_trimming_once() {
    let once = stdout_message("Data1  \r\n");
    assert_eq!(stdout_message(&once), once);
}

#[test]
fn stderr_lines_are_tagged() {
    assert_eq!(stderr_message("bad thing happened\n"), "STDERR: bad thing happened");
    assert_eq!(stderr_message("\n"), "STDERR: ");
}

#[test]
fn input_is_framed_with_newline() {
    assert_eq!(stdin_line("echo this"), "echo this\n");
    assert_eq!(stdin_line(""), "\n");
    assert_eq!(stdout_message(&stdin_line("exit ")), "exit");
}

#[test]
fn verbatim_prefix_is_removed_on_windows_only() {
    assert_eq!(resolve_working_directory(r"\\?\C:\work", true), r"C:\work");
    assert_eq!(resolve_working_directory(r"\\?\C:\work", false), r"\\?\C:\work");
    assert_eq!(resolve_working_directory(r"C:\work", true), r"C:\work");
    assert_eq!(resolve_working_directory(r"\\?", true), r"\\?");
    assert_eq!(resolve_working_directory("./", true), "./");
}

#[test]
fn exit_code_defaults_to_minus_one() {
    assert_eq!(exit_code_of(Some(Some(0))), 0);
    assert_eq!(exit_code_of(Some(Some(3))), 3);
    assert_eq!(exit_code_of(Some(None)), -1);
    assert_eq!(exit_code_of(None), -1);
}

#[test]
fn receive_results() {
    assert_eq!(receive_result(ReceiveOutcome::Line("x".to_string()), 4), Ok(Some("x".to_string())));
    assert_eq!(receive_result(ReceiveOutcome::Empty, 4), Ok(None));
    assert_eq!(receive_result(ReceiveOutcome::Disconnected, 4), Err(ProcessError::ChannelDisconnected { pid: 4 }));
}

#[test]
fn flush_attempts_settle_the_queue() {
    let mut queue: std::collections::VecDeque<String> = vec!["b".to_string(), "c".to_string()].into();
    assert!(settle_flush_attempt(&mut queue, SendOutcome::Sent));
    assert_eq!(queue, vec!["b", "c"]);
    assert!(!settle_flush_attempt(&mut queue, SendOutcome::Full("a".to_string())));
    assert_eq!(queue, vec!["a", "b", "c"]);
    let mut queue: std::collections::VecDeque<String> = std::collections::VecDeque::new();
    assert!(!settle_flush_attempt(&mut queue, SendOutcome::Closed("z".to_string())));
    assert_eq!(queue, vec!["z"]);
}

#[test]
fn receive_waits_until_timeout() {
    let timeout = 100_000_000u128;
    assert_eq!(DEFAULT_RECEIVE_TIMEOUT_MS, 100);
    assert_eq!(ProcessHandle::receive_step(Ok(None), 0, timeout), ReceiveStep::RetryAfterMillis(RETRY_DELAY_MS));
    assert_eq!(RETRY_DELAY_MS, 10);
    assert_eq!(ProcessHandle::receive_step(Ok(None), timeout - 1, timeout), ReceiveStep::RetryAfterMillis(10));
    assert_eq!(ProcessHandle::receive_step(Ok(None), timeout, timeout), ReceiveStep::Deliver(Ok(None)));
    assert_eq!(
        ProcessHandle::receive_step(Ok(Some("Delayed output".to_string())), timeout * 5, timeout),
        ReceiveStep::Deliver(Ok(Some("Delayed output".to_string())))
    );
    assert_eq!(
        ProcessHandle::receive_step(Err(ProcessError::ProcessNotFound { pid: 1 }), 0, timeout),
        ReceiveStep::Deliver(Err(ProcessError::ProcessNotFound { pid: 1 }))
    );
}

#[test]
fn shutdown_that_exits_in_time() {
    let mut s = ShutdownProgress::new(1_000_000_000);
    assert_eq!(s.phase(), ShutdownPhase::Signalling);
    assert_eq!(s.step(ShutdownEvent::SignalSent), ShutdownAction::Observe);
    assert_eq!(
        s.step(ShutdownEvent::Observed { elapsed_nanos: 10, running: true }),
        ShutdownAction::ObserveAfterMillis(SHUTDOWN_POLL_MS)
    );
    assert_eq!(SHUTDOWN_POLL_MS, 100);
    assert_eq!(s.phase(), ShutdownPhase::Waiting);
    assert_eq!(s.step(ShutdownEvent::Observed { elapsed_nanos: 200_000_000, running: false }), ShutdownAction::Complete);
    assert_eq!(s.phase(), ShutdownPhase::Finished);
    assert_eq!(s.step(ShutdownEvent::SignalFailed), ShutdownAction::Complete);
}

#[test]
fn shutdown_kills_after_timeout() {
    let mut s = ShutdownProgress::new(1_000_000_000);
    assert_eq!(s.step(ShutdownEvent::SignalSent), ShutdownAction::Observe);
    assert_eq!(
        s.step(ShutdownEvent::Observed { elapsed_nanos: 1_000_000_000, running: false }),
        ShutdownAction::Kill
    );
    assert_eq!(s.phase(), ShutdownPhase::Killing);
    assert_eq!(s.step(ShutdownEvent::Observed { elapsed_nanos: 0, running: false }), ShutdownAction::Kill);
}

#[test]
fn shutdown_kills_when_signal_fails() {
    let mut s = ShutdownProgress::new(5);
    assert_eq!(s.step(ShutdownEvent::Observed { elapsed_nanos: 0, running: true }), ShutdownAction::SendSignal);
    assert_eq!(s.step(ShutdownEvent::SignalFailed), ShutdownAction::Kill);
    assert_eq!(s.phase(), ShutdownPhase::Killing);
}

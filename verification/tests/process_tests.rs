use tokio_interactive::AsynchronousInteractiveProcess;

#[test]
fn test_process_creation() {
    let process = AsynchronousInteractiveProcess::new("echo").with_argument("Hello, World!");

    assert_eq!(process.filename, "echo");
    assert_eq!(process.arguments, vec!["Hello, World!"]);
    assert!(process.pid.is_none());
}

#[test]
fn test_with_arguments() {
    let process = AsynchronousInteractiveProcess::new("test").with_arguments(vec!["arg1", "arg2", "arg3"]);

    assert_eq!(process.arguments, vec!["arg1", "arg2", "arg3"]);

    let process = process.with_arguments(vec!["new1", "new2"]);
    assert_eq!(process.arguments, vec!["new1", "new2"]);
}

#[test]
fn test_with_working_directory() {
    let process = AsynchronousInteractiveProcess::new("test").with_working_directory("./some/path");

    assert_eq!(process.working_directory.as_str(), "./some/path");
}

#[test]
fn new_description_runs_in_current_directory() {
    let process = AsynchronousInteractiveProcess::new("bash");
    assert_eq!(process.working_directory, "./");
    assert!(process.arguments.is_empty());
}

#[test]
fn arguments_combine_as_documented() {
    let process = AsynchronousInteractiveProcess::new("my_program")
        .with_arguments(vec!["--mode=normal", "--quiet"])
        .with_argument("--input=data.txt");
    assert_eq!(process.arguments, vec!["--mode=normal", "--quiet", "--input=data.txt"]);

    let process = AsynchronousInteractiveProcess::new("my_program")
        .with_argument("--verbose")
        .with_arguments(vec!["--quiet", "--log=error.log"]);
    assert_eq!(process.arguments, vec!["--quiet", "--log=error.log"]);

    let process = AsynchronousInteractiveProcess::new("my_program")
        .with_argument("--verbose")
        .with_argument("--output=file.txt");
    assert_eq!(process.arguments, vec!["--verbose", "--output=file.txt"]);
    assert_eq!(process.filename, "my_program");
}

#[test]
fn default_description_is_empty() {
    let process = AsynchronousInteractiveProcess::default();
    assert!(process.pid.is_none());
    assert_eq!(process.filename, "");
    assert!(process.arguments.is_empty());
    assert_eq!(process.working_directory, "");
}

#[test]
fn started_copy_keeps_settings() {
    let process = AsynchronousInteractiveProcess::new("bash")
        .with_arguments(vec!["-c", "echo hi"])
        .with_working_directory("/tmp");
    let copy = process.started_copy(42);
    assert_eq!(copy.pid, Some(42));
    assert_eq!(copy.filename, "bash");
    assert_eq!(copy.arguments, vec!["-c", "echo hi"]);
    assert_eq!(copy.working_directory, "/tmp");
    assert!(process.pid.is_none());
}

#[test]
fn debug_lists_the_description() {
    let process = AsynchronousInteractiveProcess::new("echo").with_argument("x");
    assert_eq!(
        format!("{:?}", process),
        "AsynchronousInteractiveProcess { pid: None, filename: \"echo\", arguments: [\"x\"], working_directory: \"./\" }"
    );
}

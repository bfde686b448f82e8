use ki::process_command::{ProcessCommand, Run, RunAction, RunError, RunEvent, SpawnCommandError};
use ki::table::TextTable;

fn strings(list: &[&str]) -> Vec<String> {
    list.iter().map(|text| text.to_string()).collect()
}

fn started(mut run: Run) -> Run {
    assert!(matches!(
        run.next(RunEvent::Spawned),
        RunAction::WriteStdin(_)
    ));
    run
}

#[test]
fn failed_command_includes_exit_code_and_stderr() {
    let command = ProcessCommand::new("bash", &strings(&["-c", "yo"]));
    let mut run = command.run_with_input("hello");
    match run.next(RunEvent::Spawned) {
        RunAction::WriteStdin(input) => assert_eq!(input, "hello"),
        _ => panic!("expected to write the input"),
    }
    assert!(matches!(
        run.next(RunEvent::Done(String::new())),
        RunAction::ReadStdout
    ));
    assert!(matches!(
        run.next(RunEvent::Done(String::new())),
        RunAction::Wait
    ));
    assert!(matches!(
        run.next(RunEvent::Exited(Some(127))),
        RunAction::ReadStderr
    ));
    let error = match run.next(RunEvent::Done(
        "bash: line 1: yo: command not found\n".to_string(),
    )) {
        RunAction::Finish(Err(error)) => error.message(),
        _ => panic!("expected the run to fail"),
    };
    assert!(error.contains("Command failed with exit code: 127"));
    assert!(error.contains("bash: line 1: yo: command not found"));
    assert_eq!(
        error,
        "Command failed with exit code: 127\n\nSTDERR =\n\nbash: line 1: yo: command not found\n\n\nSTDOUT =\n\n"
    );
}

#[test]
fn spawn_in_directory_prefers_workspace_node_modules_bin() {
    let command = ProcessCommand::new("hello-lsp", &[]);
    assert_eq!(
        command.local_candidate(Some("/work")).unwrap(),
        "/work/node_modules/.bin/hello-lsp"
    );
    let plan = command
        .spawn_in_directory("/work", true, Some("/usr/bin/hello-lsp"))
        .unwrap();
    assert_eq!(plan.program, "/work/node_modules/.bin/hello-lsp");
    assert_eq!(plan.directory.unwrap(), "/work");
    assert!(!plan.new_process_group);
    let plan = command
        .spawn_in_directory("/work", false, Some("/usr/bin/hello-lsp"))
        .unwrap();
    assert_eq!(plan.program, "/usr/bin/hello-lsp");
}

#[test]
fn relative_command_is_resolved_from_directory() {
    let command = ProcessCommand::new("scripts/hello-lsp", &[]);
    assert!(command.local_candidate(Some("/work")).is_none());
    let plan = command.spawn_in_directory("/work", false, None).unwrap();
    assert_eq!(plan.program, "/work/scripts/hello-lsp");
    assert!(!plan.new_process_group);
}

#[test]
fn relative_command_is_resolved_in_a_new_process_group() {
    let command = ProcessCommand::new("scripts/hello-lsp", &[]);
    let plan = command
        .spawn_in_directory_in_new_process_group("/work", false, None)
        .unwrap();
    assert_eq!(plan.program, "/work/scripts/hello-lsp");
    assert!(plan.new_process_group);
}

#[test]
fn absolute_command_stays_as_it_is() {
    let command = ProcessCommand::new("/bin/sh", &[]);
    assert_eq!(
        command
            .spawn_in_directory("/work", true, None)
            .unwrap()
            .program,
        "/bin/sh"
    );
    assert_eq!(command.spawn(None).unwrap().program, "/bin/sh");
}

#[test]
fn missing_command_is_named() {
    let command = ProcessCommand::new("nowhere", &[]);
    match command.spawn(None) {
        Err(SpawnCommandError::CommandNotFound { command }) => assert_eq!(command, "nowhere"),
        Ok(_) => panic!("expected an error"),
    }
}

#[test]
fn command_line_joins_arguments_with_spaces() {
    assert_eq!(ProcessCommand::new("ls", &[]).line(), "ls");
    assert_eq!(
        ProcessCommand::new("ls", &strings(&["-l", "a b"])).line(),
        "ls -l a b"
    );
}

#[test]
fn environment_is_kept() {
    let mut environment = TextTable::new();
    environment.insert("A", "1");
    environment.insert("A", "2");
    let plan = ProcessCommand::with_environment("sh", &strings(&["-c"]), &environment)
        .spawn(Some("/bin/sh"))
        .unwrap();
    assert_eq!(plan.environment.get("A"), Some("2"));
    assert_eq!(plan.environment.get("B"), None);
    assert_eq!(plan.args, vec!["-c".to_string()]);
}

#[test]
fn successful_run_gives_its_output() {
    let mut run = started(ProcessCommand::new("cat", &[]).run());
    run.next(RunEvent::Done(String::new()));
    run.next(RunEvent::Done("output".to_string()));
    match run.next(RunEvent::Exited(Some(0))) {
        RunAction::Finish(Ok(output)) => assert_eq!(output, "output"),
        _ => panic!("expected the run to succeed"),
    }
}

#[test]
fn signal_and_missing_stderr_are_told() {
    let mut run = started(ProcessCommand::new("cat", &[]).run());
    run.next(RunEvent::Done(String::new()));
    run.next(RunEvent::Done("out".to_string()));
    run.next(RunEvent::Exited(None));
    match run.next(RunEvent::Missing) {
        RunAction::Finish(Err(error)) => assert_eq!(
            error.message(),
            "Command failed with exit code: [Process terminated by signal]\n\nSTDERR =\n\n[No stderr]\n\nSTDOUT =\n\nout"
        ),
        _ => panic!("expected the run to fail"),
    }
}

#[test]
fn unreadable_stderr_is_told() {
    let mut run = started(ProcessCommand::new("cat", &[]).run());
    run.next(RunEvent::Done(String::new()));
    run.next(RunEvent::Done(String::new()));
    run.next(RunEvent::Exited(Some(-3)));
    match run.next(RunEvent::Broken) {
        RunAction::Finish(Err(error)) => assert_eq!(
            error.message(),
            "Command failed with exit code: -3\n\nSTDERR =\n\n[Failed to obtain stderr]\n\nSTDOUT =\n\n"
        ),
        _ => panic!("expected the run to fail"),
    }
}

fn failure(events: Vec<RunEvent<String>>) -> RunError<String> {
    let mut run = ProcessCommand::new("cat", &[]).run();
    for event in events {
        if let RunAction::Finish(result) = run.next(event) {
            return result.unwrap_err();
        }
    }
    panic!("expected the run to fail");
}

#[test]
fn each_broken_stream_has_its_error() {
    let done = || RunEvent::Done(String::new());
    assert_eq!(
        failure(vec![RunEvent::NotSpawned("no".to_string())]).message(),
        "no"
    );
    assert_eq!(
        failure(vec![RunEvent::Spawned, RunEvent::Missing]).message(),
        "Failed to open stdin"
    );
    assert_eq!(
        failure(vec![RunEvent::Spawned, RunEvent::Broken]).message(),
        "Failed to write to stdin"
    );
    assert_eq!(
        failure(vec![RunEvent::Spawned, done(), RunEvent::Missing]).message(),
        "Failed to open stdout"
    );
    assert_eq!(
        failure(vec![RunEvent::Spawned, done(), RunEvent::Broken]).message(),
        "Failed to read from stdout"
    );
    assert_eq!(
        failure(vec![RunEvent::Spawned, done(), done(), RunEvent::Broken]).message(),
        "Failed to wait on child process"
    );
    assert!(matches!(
        failure(vec![RunEvent::Exited(Some(0))]),
        RunError::OutOfOrder
    ));
}

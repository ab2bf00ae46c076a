use fleet_exec::attempt::{Attempt, ErrorKind};
use fleet_exec::record::ExecutionResult;
use fleet_exec::worker::{effective_budget, HostWorker};

fn texts(items: &[&str]) -> Vec<String> {
    items.iter().map(|s| s.to_string()).collect()
}

fn failure(message: &str) -> Attempt {
    Attempt::Failure { kind: ErrorKind::RemoteCommandFailure, message: message.to_string() }
}

fn success(stdout: &str) -> Attempt {
    Attempt::Success { stdout: stdout.to_string() }
}

/// Runs a worker to its end against `remote`, which is asked once per attempt
/// with the host, the command and the number of the attempt for that command.
fn drive(
    host: &str,
    commands: &[&str],
    retries: u32,
    remote: &dyn Fn(&str, &str, u32) -> Attempt,
) -> (Vec<ExecutionResult>, Vec<(String, u32)>) {
    let commands = texts(commands);
    let mut worker = HostWorker::new(host, &commands, retries);
    let mut calls: Vec<(String, u32)> = Vec::new();
    while let Some(command) = worker.next_command() {
        let attempt_number = worker.attempts() + 1;
        calls.push((command.clone(), attempt_number));
        let attempt = remote(worker.host(), &command, attempt_number);
        worker = worker.record(attempt);
    }
    assert!(worker.is_done());
    (worker.into_results(), calls)
}

#[test]
fn effective_budget_keeps_positive_counts() {
    assert_eq!(effective_budget(1), 1);
    assert_eq!(effective_budget(3), 3);
    assert_eq!(effective_budget(u32::MAX), u32::MAX);
}

#[test]
fn effective_budget_treats_zero_as_one() {
    assert_eq!(effective_budget(0), 1);
}

#[test]
fn new_worker_has_first_command_due() {
    let worker = HostWorker::new("h1", &texts(&["uptime", "whoami"]), 3);
    assert!(!worker.is_done());
    assert_eq!(worker.host(), "h1");
    assert_eq!(worker.attempts(), 0);
    assert_eq!(worker.next_command(), Some("uptime".to_string()));
    assert!(worker.into_results().is_empty());
}

#[test]
fn worker_without_commands_is_done_at_once() {
    let worker = HostWorker::new("h1", &Vec::new(), 3);
    assert!(worker.is_done());
    assert_eq!(worker.next_command(), None);
    assert!(worker.into_results().is_empty());
}

#[test]
fn worker_records_one_success_per_command() {
    let commands = texts(&["echo hi"]);
    let mut worker = HostWorker::new("h1", &commands, 3);
    assert_eq!(worker.next_command(), Some("echo hi".to_string()));
    worker = worker.record(success("hi\n"));
    assert!(worker.is_done());
    let results = worker.into_results();
    assert_eq!(results.len(), 1);
    assert_eq!(results[0], ExecutionResult::succeeded("h1", "echo hi", "hi\n"));
    assert_eq!(results[0].host, "h1");
    assert_eq!(results[0].command, "echo hi");
    assert_eq!(results[0].stdout, "hi\n");
    assert_eq!(results[0].stderr, "");
    assert!(results[0].success);
}

#[test]
fn failure_below_budget_keeps_command_due() {
    let mut worker = HostWorker::new("h1", &texts(&["a", "b"]), 3);
    worker = worker.record(failure("first"));
    assert_eq!(worker.attempts(), 1);
    assert_eq!(worker.next_command(), Some("a".to_string()));
    worker = worker.record(failure("second"));
    assert_eq!(worker.attempts(), 2);
    assert_eq!(worker.next_command(), Some("a".to_string()));
    assert!(!worker.is_done());
    assert!(worker.into_results().is_empty());
}

#[test]
fn success_on_second_attempt_yields_one_success_after_two_calls() {
    let (results, calls) = drive("h1", &["deploy"], 3, &|_, _, n| {
        if n < 2 {
            failure("not yet")
        } else {
            success("done")
        }
    });
    assert_eq!(calls, vec![("deploy".to_string(), 1), ("deploy".to_string(), 2)]);
    assert_eq!(results, vec![ExecutionResult::succeeded("h1", "deploy", "done")]);
}

#[test]
fn success_on_last_allowed_attempt_counts() {
    let (results, calls) = drive("h1", &["deploy"], 3, &|_, _, n| {
        if n < 3 {
            failure("not yet")
        } else {
            success("done")
        }
    });
    assert_eq!(calls.len(), 3);
    assert_eq!(results.len(), 1);
    assert!(results[0].success);
    assert_eq!(results[0].stdout, "done");
}

#[test]
fn exhausted_budget_yields_one_failure_with_last_message() {
    let (results, calls) = drive("h1", &["deploy"], 3, &|_, _, n| failure(&format!("error {}", n)));
    assert_eq!(calls.len(), 3);
    assert_eq!(results, vec![ExecutionResult::failed("h1", "deploy", "error 3")]);
    assert!(!results[0].success);
    assert_eq!(results[0].stdout, "");
}

#[test]
fn always_failing_command_with_two_retries_is_attempted_twice() {
    let boom = "Host: h1\nCommand: false\nStandard Error: boom";
    let (results, calls) = drive("h1", &["false"], 2, &|_, _, _| failure(boom));
    assert_eq!(calls, vec![("false".to_string(), 1), ("false".to_string(), 2)]);
    assert_eq!(results.len(), 1);
    assert!(!results[0].success);
    assert_eq!(results[0].host, "h1");
    assert_eq!(results[0].command, "false");
    assert!(results[0].stderr.contains("boom"));
    assert_eq!(results[0].stderr, boom);
    assert_eq!(
        results[0].render(),
        "Host: h1\nCommand: false\nStandard Error: Host: h1\nCommand: false\nStandard Error: boom"
    );
}

#[test]
fn zero_retries_still_attempts_once() {
    let (results, calls) = drive("h1", &["a", "b"], 0, &|_, _, _| failure("down"));
    assert_eq!(calls, vec![("a".to_string(), 1), ("b".to_string(), 1)]);
    assert_eq!(results.len(), 2);
    assert_eq!(results[0], ExecutionResult::failed("h1", "a", "down"));
    assert_eq!(results[1], ExecutionResult::failed("h1", "b", "down"));
}

#[test]
fn results_follow_command_order() {
    let commands = ["first", "second", "third", "fourth"];
    let (results, _) = drive("h9", &commands, 2, &|_, command, n| {
        if command == "second" {
            failure("never")
        } else if command == "third" && n == 1 {
            failure("once")
        } else {
            success(&format!("out of {}", command))
        }
    });
    assert_eq!(results.len(), commands.len());
    for (i, result) in results.iter().enumerate() {
        assert_eq!(result.host, "h9");
        assert_eq!(result.command, commands[i]);
    }
    assert!(results[0].success);
    assert!(!results[1].success);
    assert!(results[2].success);
    assert!(results[3].success);
}

#[test]
fn next_command_waits_for_the_retry_loop_to_end() {
    let (_, calls) = drive("h1", &["a", "b"], 3, &|_, command, n| {
        if command == "a" && n < 3 {
            failure("again")
        } else {
            success("ok")
        }
    });
    assert_eq!(
        calls,
        vec![
            ("a".to_string(), 1),
            ("a".to_string(), 2),
            ("a".to_string(), 3),
            ("b".to_string(), 1),
        ]
    );
}

#[test]
fn attempts_never_exceed_commands_times_budget() {
    let (results, calls) = drive("h1", &["a", "b", "c"], 4, &|_, _, _| failure("down"));
    assert_eq!(calls.len(), 12);
    assert_eq!(results.len(), 3);
}

#[test]
fn done_worker_ignores_further_attempts() {
    let mut worker = HostWorker::new("h1", &texts(&["a"]), 1);
    worker = worker.record(success("x"));
    assert!(worker.is_done());
    worker = worker.record(success("y"));
    worker = worker.record(failure("z"));
    assert!(worker.is_done());
    assert_eq!(worker.attempts(), 0);
    assert_eq!(worker.into_results(), vec![ExecutionResult::succeeded("h1", "a", "x")]);
}

#[test]
fn same_run_twice_gives_same_records() {
    let remote = |host: &str, command: &str, _: u32| success(&format!("{}:{}", host, command));
    let (first, first_calls) = drive("h1", &["a", "b", "c"], 3, &remote);
    let (second, second_calls) = drive("h1", &["a", "b", "c"], 3, &remote);
    assert_eq!(first, second);
    assert_eq!(first_calls, second_calls);
    assert_eq!(first.len(), 3);
    for result in &first {
        assert!(result.success);
        assert_eq!(result.stderr, "");
        assert_eq!(result.stdout, format!("h1:{}", result.command));
    }
}

#[test]
fn protocol_failures_are_retried_like_remote_failures() {
    let mut worker = HostWorker::new("h1", &texts(&["a"]), 2);
    worker = worker.record(Attempt::Failure {
        kind: ErrorKind::Connection,
        message: "Connection error: refused".to_string(),
    });
    assert_eq!(worker.next_command(), Some("a".to_string()));
    worker = worker.record(Attempt::Failure {
        kind: ErrorKind::Handshake,
        message: "Handshake error: reset".to_string(),
    });
    assert!(worker.is_done());
    assert_eq!(
        worker.into_results(),
        vec![ExecutionResult::failed("h1", "a", "Handshake error: reset")]
    );
}

use fleet_exec::attempt::Attempt;
use fleet_exec::config::Config;
use fleet_exec::orchestrator::{collect_results, plan_workers, WorkerOutcome};
use fleet_exec::record::ExecutionResult;
use fleet_exec::session::{RemoteSession, SessionStep, Stage, StageOutcome};
use fleet_exec::worker::HostWorker;

fn texts(items: &[&str]) -> Vec<String> {
    items.iter().map(|s| s.to_string()).collect()
}

fn config(groups: &[(&str, &[&str])]) -> Config {
    let mut config = Config::new();
    for (name, hosts) in groups {
        config.insert(name.to_string(), texts(hosts));
    }
    config
}

/// One attempt against a remote side that answers every command with the
/// given output, error text and status; counts the connections it opens.
fn attempt(host: &str, command: &str, reply: (&str, &str, i32), connections: &mut usize) -> Attempt {
    let mut session = RemoteSession::new(host, command);
    loop {
        let outcome = match session.stage() {
            Stage::Connect => {
                *connections += 1;
                StageOutcome::Done
            }
            Stage::CheckAuthenticated => StageOutcome::Authenticated(true),
            Stage::ReadStdout => StageOutcome::Output(reply.0.to_string()),
            Stage::ReadStderr => StageOutcome::Output(reply.1.to_string()),
            Stage::ExitStatus => StageOutcome::Status(reply.2),
            _ => StageOutcome::Done,
        };
        match session.advance(outcome) {
            SessionStep::Continue(next) => session = next,
            SessionStep::Finished(attempt) => return attempt,
        }
    }
}

/// A whole run against a remote side that always gives the same reply.
fn run(
    config: &Config,
    group: &str,
    commands: &[&str],
    retries: u32,
    reply: (&str, &str, i32),
) -> (Vec<String>, Vec<Vec<ExecutionResult>>, usize) {
    let commands = texts(commands);
    let mut connections = 0;
    let mut outcomes = Vec::new();
    let mut records = Vec::new();
    for mut worker in plan_workers(config, group, &commands, retries) {
        while let Some(command) = worker.next_command() {
            let a = attempt(worker.host(), &command, reply, &mut connections);
            worker = worker.record(a);
        }
        let results = worker.into_results();
        records.push(results.clone());
        outcomes.push(WorkerOutcome::Completed(results));
    }
    (collect_results(&outcomes), records, connections)
}

#[test]
fn plan_has_one_worker_per_host_in_host_order() {
    let config = config(&[("prod", &["h1", "h2", "h3"])]);
    let workers: Vec<HostWorker> = plan_workers(&config, "prod", &texts(&["a", "b"]), 3);
    assert_eq!(workers.len(), 3);
    assert_eq!(workers[0].host(), "h1");
    assert_eq!(workers[1].host(), "h2");
    assert_eq!(workers[2].host(), "h3");
    for worker in &workers {
        assert_eq!(worker.next_command(), Some("a".to_string()));
        assert_eq!(worker.attempts(), 0);
    }
}

#[test]
fn plan_for_missing_group_is_empty() {
    let config = config(&[("prod", &["h1"])]);
    assert!(plan_workers(&config, "staging", &texts(&["a"]), 3).is_empty());
}

#[test]
fn prod_group_with_two_hosts_gives_two_results() {
    let config = config(&[("prod", &["h1", "h2"])]);
    let (lines, records, connections) = run(&config, "prod", &["echo hi"], 3, ("hi\n", "", 0));
    assert_eq!(lines.len(), 2);
    assert_eq!(lines[0], "Host: h1\nCommand: echo hi\nhi\n");
    assert_eq!(lines[1], "Host: h2\nCommand: echo hi\nhi\n");
    assert_eq!(records.len(), 2);
    for (records, host) in records.iter().zip(["h1", "h2"]) {
        assert_eq!(records.len(), 1);
        assert_eq!(records[0].host, host);
        assert_eq!(records[0].command, "echo hi");
        assert_eq!(records[0].stdout, "hi\n");
        assert_eq!(records[0].stderr, "");
        assert!(records[0].success);
    }
    assert_eq!(connections, 2);
}

#[test]
fn empty_staging_group_gives_no_results_and_no_connections() {
    let config = config(&[("prod", &["h1", "h2"]), ("staging", &[])]);
    let (lines, records, connections) = run(&config, "staging", &["uptime"], 3, ("up", "", 0));
    assert!(lines.is_empty());
    assert!(records.is_empty());
    assert_eq!(connections, 0);
}

#[test]
fn result_count_is_hosts_times_commands() {
    let config = config(&[("g", &["a", "b", "c"])]);
    let (lines, _, connections) = run(&config, "g", &["1", "2", "3", "4"], 2, ("ok", "", 0));
    assert_eq!(lines.len(), 3 * 4);
    assert_eq!(connections, 12);
}

#[test]
fn result_count_is_hosts_times_commands_when_all_fail() {
    let config = config(&[("g", &["a", "b", "c"])]);
    let (lines, _, connections) = run(&config, "g", &["1", "2"], 2, ("", "boom", 1));
    assert_eq!(lines.len(), 3 * 2);
    assert_eq!(connections, 3 * 2 * 2);
    for line in &lines {
        assert!(line.contains("boom"));
    }
}

#[test]
fn single_host_with_failing_command_gives_one_failure_after_two_attempts() {
    let config = config(&[("g", &["h1"])]);
    let (lines, records, connections) = run(&config, "g", &["false"], 2, ("", "boom", 1));
    assert_eq!(connections, 2);
    assert_eq!(lines.len(), 1);
    assert_eq!(records[0].len(), 1);
    assert!(!records[0][0].success);
    assert!(records[0][0].stderr.contains("boom"));
    assert!(lines[0].starts_with("Host: h1\nCommand: false\nStandard Error: "));
    assert!(lines[0].ends_with("boom"));
}

#[test]
fn empty_command_list_gives_no_results() {
    let config = config(&[("g", &["a", "b"])]);
    let (lines, records, connections) = run(&config, "g", &[], 3, ("ok", "", 0));
    assert!(lines.is_empty());
    assert_eq!(records.len(), 2);
    assert_eq!(connections, 0);
}

#[test]
fn two_runs_give_the_same_lines() {
    let config = config(&[("g", &["a", "b"])]);
    let first = run(&config, "g", &["x", "y"], 3, ("out", "", 0));
    let second = run(&config, "g", &["x", "y"], 3, ("out", "", 0));
    assert_eq!(first.0, second.0);
    assert_eq!(first.1, second.1);
}

#[test]
fn collect_keeps_worker_order_and_record_order() {
    let outcomes = vec![
        WorkerOutcome::Completed(vec![
            ExecutionResult::succeeded("b", "1", "x"),
            ExecutionResult::failed("b", "2", "y"),
        ]),
        WorkerOutcome::Completed(vec![ExecutionResult::succeeded("a", "1", "z")]),
    ];
    assert_eq!(
        collect_results(&outcomes),
        texts(&[
            "Host: b\nCommand: 1\nx",
            "Host: b\nCommand: 2\nStandard Error: y",
            "Host: a\nCommand: 1\nz",
        ])
    );
}

#[test]
fn faulted_worker_contributes_one_error_line() {
    let outcomes = vec![
        WorkerOutcome::Completed(vec![ExecutionResult::succeeded("a", "1", "x")]),
        WorkerOutcome::Faulted,
        WorkerOutcome::Completed(Vec::new()),
        WorkerOutcome::Faulted,
    ];
    assert_eq!(collect_results(&outcomes), texts(&["Host: a\nCommand: 1\nx", "Error", "Error"]));
}

#[test]
fn collect_of_nothing_is_empty() {
    assert!(collect_results(&Vec::new()).is_empty());
}

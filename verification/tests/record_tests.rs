use fleet_exec::record::{failure_line, success_line, ExecutionResult};

#[test]
fn success_line_has_host_command_and_output() {
    assert_eq!(success_line("h1", "echo hi", "hi\n"), "Host: h1\nCommand: echo hi\nhi\n");
}

#[test]
fn success_line_with_empty_output_ends_in_line_feed() {
    assert_eq!(success_line("h1", "true", ""), "Host: h1\nCommand: true\n");
}

#[test]
fn failure_line_names_the_error() {
    assert_eq!(
        failure_line("h1", "false", "boom"),
        "Host: h1\nCommand: false\nStandard Error: boom"
    );
}

#[test]
fn succeeded_record_has_empty_error_text() {
    let r = ExecutionResult::succeeded("h1", "uptime", "up 3 days");
    assert_eq!(r.host, "h1");
    assert_eq!(r.command, "uptime");
    assert_eq!(r.stdout, "up 3 days");
    assert_eq!(r.stderr, "");
    assert!(r.success);
    assert!(r.is_success());
}

#[test]
fn failed_record_has_empty_output() {
    let r = ExecutionResult::failed("h1", "uptime", "boom");
    assert_eq!(r.stdout, "");
    assert_eq!(r.stderr, "boom");
    assert!(!r.is_success());
}

#[test]
fn render_follows_the_outcome() {
    assert_eq!(
        ExecutionResult::succeeded("h", "c", "out").render(),
        "Host: h\nCommand: c\nout"
    );
    assert_eq!(
        ExecutionResult::failed("h", "c", "err").render(),
        "Host: h\nCommand: c\nStandard Error: err"
    );
}

#[test]
fn duplicate_is_equal_to_the_record() {
    let r = ExecutionResult::failed("h", "c", "err");
    assert_eq!(r.duplicate(), r);
    let s = ExecutionResult::succeeded("h", "c", "out");
    assert_eq!(s.duplicate(), s);
}

#[test]
fn unicode_text_is_kept() {
    let r = ExecutionResult::succeeded("hôte", "écho ñ", "日本語\n");
    assert_eq!(r.render(), "Host: hôte\nCommand: écho ñ\n日本語\n");
}

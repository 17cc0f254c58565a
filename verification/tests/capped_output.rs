use gen_mcp::error::ExecutionError;
use gen_mcp::executor::{
    conclude_execution, exit_code_from_status, stop_after_applies, CappedOutput, ProcessOutcome,
    MAX_STREAM_BYTES,
};

fn collect(lines: &[&str], head: usize, tail: usize) -> CappedOutput {
    let mut c = CappedOutput::new(head, tail, MAX_STREAM_BYTES);
    for l in lines {
        let raw = format!("{l}\n");
        assert!(c.push_line(&raw, raw.len()));
    }
    c
}

#[test]
fn test_collect_capped_lines_stops_at_byte_ceiling() {
    // Each line is 10 bytes ("xxxxxxxxx\n"); with a 100-byte cap reading must
    // stop after ~10 lines instead of going through the whole input.
    let mut out = CappedOutput::new(1000, 1000, 100);
    let mut total_lines = 0usize;
    for _ in 0..100_000 {
        total_lines += 1;
        if !out.push_line("xxxxxxxxx\n", 10) {
            break;
        }
    }
    assert!(total_lines <= 11, "read too many lines before capping: {}", total_lines);
    assert_eq!(total_lines, 10);
}

#[test]
fn everything_fits_within_the_budget() {
    let c = collect(&["a", "b", "c"], 2, 2);
    assert_eq!(c.render(2, 2), "a\nb\nc");
    let c = collect(&["a", "b", "c", "d"], 2, 2);
    assert_eq!(c.render(2, 2), "a\nb\nc\nd");
}

#[test]
fn the_middle_is_counted_when_omitted() {
    let lines: Vec<String> = (1..=10).map(|i| format!("line {i}")).collect();
    let refs: Vec<&str> = lines.iter().map(|s| s.as_str()).collect();
    let c = collect(&refs, 2, 3);
    assert_eq!(
        c.render(2, 3),
        "line 1\nline 2\n... (5 lines omitted) ...\nline 8\nline 9\nline 10"
    );
}

#[test]
fn single_sided_budgets_keep_one_end() {
    let c = collect(&["1", "2", "3", "4"], 0, 2);
    assert_eq!(c.render(0, 2), "3\n4");
    let c = collect(&["1", "2", "3", "4"], 2, 0);
    assert_eq!(c.render(2, 0), "1\n2");
    let c = collect(&["1", "2", "3", "4"], 0, 0);
    assert_eq!(c.render(0, 0), "1\n2\n3\n4");
}

#[test]
fn line_endings_are_stripped() {
    let mut c = CappedOutput::new(5, 5, MAX_STREAM_BYTES);
    c.push_line("dos\r\n", 5);
    c.push_line("unix\n", 5);
    c.push_line("last", 4);
    assert_eq!(c.render(5, 5), "dos\nunix\nlast");
}

#[test]
fn stderr_keeps_its_last_lines() {
    let c = collect(
        &["error line 1", "error line 2", "error line 3", "error line 4", "error line 5"],
        0,
        2,
    );
    let s = c.render(0, 2);
    assert!(s.contains("error line 4"));
    assert!(s.contains("error line 5"));
    assert!(!s.contains("error line 1"));
}

#[test]
fn exit_codes_and_stop_after() {
    assert_eq!(exit_code_from_status(Some(3)), 3);
    assert_eq!(exit_code_from_status(None), -1);
    assert!(!stop_after_applies(None));
    assert!(!stop_after_applies(Some(0)));
    assert!(stop_after_applies(Some(1)));
}

#[test]
fn outcomes_become_results() {
    let out = collect(&["hello"], 100, 100);
    let err = collect(&[], 0, 50);
    let r = conclude_execution("/bin/echo", 10, ProcessOutcome::Exited { code: Some(0) }, &out, &err, 100, 100, 50)
        .unwrap();
    assert_eq!((r.exit_code, r.stdout.as_str(), r.stderr.as_str(), r.stopped_after), (0, "hello", "", false));

    let r = conclude_execution("/bin/sleep", 10, ProcessOutcome::StoppedKilled, &out, &err, 100, 100, 50).unwrap();
    assert_eq!((r.exit_code, r.stopped_after), (0, true));

    let r = conclude_execution("/bin/sleep", 10, ProcessOutcome::StoppedExited { code: None }, &out, &err, 100, 100, 50)
        .unwrap();
    assert_eq!((r.exit_code, r.stopped_after), (-1, true));

    let r = conclude_execution("/bin/sleep", 1, ProcessOutcome::TimedOutExited { code: Some(143) }, &out, &err, 100, 100, 50)
        .unwrap();
    assert_eq!((r.exit_code, r.stopped_after), (143, false));

    match conclude_execution("/bin/sleep", 1, ProcessOutcome::TimedOutKilled, &out, &err, 100, 100, 50) {
        Err(ExecutionError::Timeout { command, timeout }) => {
            assert_eq!((command.as_str(), timeout), ("/bin/sleep", 1))
        }
        other => panic!("unexpected {other:?}"),
    }
    match conclude_execution(
        "/nonexistent/command",
        10,
        ProcessOutcome::SpawnFailed { reason: "No such file or directory (os error 2)".to_string() },
        &out,
        &err,
        100,
        100,
        50,
    ) {
        Err(ExecutionError::CommandNotFound(m)) => {
            assert_eq!(m, "/nonexistent/command: No such file or directory (os error 2)")
        }
        other => panic!("unexpected {other:?}"),
    }
    match conclude_execution("/bin/x", 10, ProcessOutcome::WaitFailed { reason: "gone".to_string() }, &out, &err, 100, 100, 50) {
        Err(ExecutionError::CommandFailed { command, exit_code, stderr }) => {
            assert_eq!((command.as_str(), exit_code, stderr.as_str()), ("/bin/x", None, "Process wait error: gone"))
        }
        other => panic!("unexpected {other:?}"),
    }
}

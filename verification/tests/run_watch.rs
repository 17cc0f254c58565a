use gen_mcp::config::TerminationSignal;
use gen_mcp::executor::{watch_step, ProcessOutcome, StopReason, Watch, WatchAction, WatchEvent};

#[test]
fn timeout_escalates_to_signal_wait_and_kill() {
    let (w, a) = watch_step(
        Watch::Running,
        WatchEvent::BudgetElapsed(StopReason::Timeout),
        TerminationSignal::Sigint,
        5,
    );
    assert!(matches!(w, Watch::Stopping(StopReason::Timeout)));
    match a {
        WatchAction::Signal { signal, grace, exit_ends_run } => {
            assert_eq!(signal, TerminationSignal::Sigint);
            assert_eq!(grace, 5);
            assert!(!exit_ends_run);
        }
        other => panic!("unexpected {other:?}"),
    }
    let (w, a) = watch_step(w, WatchEvent::SignalDone, TerminationSignal::Sigint, 5);
    assert!(matches!(w, Watch::Settling(StopReason::Timeout)));
    assert!(matches!(a, WatchAction::WaitThenCheck(6)));
    let (w, a) = watch_step(w, WatchEvent::Checked(None), TerminationSignal::Sigint, 5);
    assert!(matches!(w, Watch::Done));
    assert!(matches!(a, WatchAction::KillThenFinish(ProcessOutcome::TimedOutKilled)));
}

#[test]
fn stop_after_exit_after_signal_is_a_stopped_exit() {
    let (w, a) = watch_step(
        Watch::Running,
        WatchEvent::BudgetElapsed(StopReason::StopAfter),
        TerminationSignal::Sigterm,
        2,
    );
    assert!(matches!(a, WatchAction::Signal { exit_ends_run: true, .. }));
    let (w, a) = watch_step(w, WatchEvent::SignalDone, TerminationSignal::Sigterm, 2);
    assert!(matches!(a, WatchAction::WaitThenCheck(3)));
    let (_, a) = watch_step(w, WatchEvent::Checked(Some(Some(143))), TerminationSignal::Sigterm, 2);
    assert!(matches!(a, WatchAction::Finish(ProcessOutcome::StoppedExited { code: Some(143) })));
}

#[test]
fn stop_after_exit_during_the_signal_is_an_ordinary_exit() {
    let (w, _) = watch_step(
        Watch::Running,
        WatchEvent::BudgetElapsed(StopReason::StopAfter),
        TerminationSignal::Sigterm,
        2,
    );
    let (w, a) = watch_step(w, WatchEvent::Exited { code: Some(0) }, TerminationSignal::Sigterm, 2);
    assert!(matches!(w, Watch::Done));
    assert!(matches!(a, WatchAction::Finish(ProcessOutcome::Exited { code: Some(0) })));
}

#[test]
fn exit_within_budget_finishes_the_run() {
    let (w, a) = watch_step(Watch::Running, WatchEvent::Exited { code: None }, TerminationSignal::Sigterm, 5);
    assert!(matches!(w, Watch::Done));
    assert!(matches!(a, WatchAction::Finish(ProcessOutcome::Exited { code: None })));
    let (_, a) = watch_step(
        Watch::Running,
        WatchEvent::WaitFailed { reason: "gone".to_string() },
        TerminationSignal::Sigterm,
        5,
    );
    match a {
        WatchAction::Finish(ProcessOutcome::WaitFailed { reason }) => assert_eq!(reason, "gone"),
        other => panic!("unexpected {other:?}"),
    }
}

#[test]
fn unexpected_event_ends_the_watch_as_a_failed_wait() {
    let (w, a) = watch_step(Watch::Running, WatchEvent::SignalDone, TerminationSignal::Sigterm, 5);
    assert!(matches!(w, Watch::Done));
    match a {
        WatchAction::Finish(ProcessOutcome::WaitFailed { reason }) => {
            assert_eq!(reason, "unexpected event while watching the run")
        }
        other => panic!("unexpected {other:?}"),
    }
    // A timed-out process is only checked after the grace period, not raced.
    let (_, a) = watch_step(
        Watch::Stopping(StopReason::Timeout),
        WatchEvent::Exited { code: Some(0) },
        TerminationSignal::Sigterm,
        5,
    );
    assert!(matches!(a, WatchAction::Finish(ProcessOutcome::WaitFailed { .. })));
}

#[test]
fn largest_grace_period_waits_the_largest_time() {
    let (_, a) = watch_step(
        Watch::Stopping(StopReason::Timeout),
        WatchEvent::SignalDone,
        TerminationSignal::Sigterm,
        u64::MAX,
    );
    assert!(matches!(a, WatchAction::WaitThenCheck(u64::MAX)));
}

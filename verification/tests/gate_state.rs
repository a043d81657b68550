use winfr_core::dedup::DedupGate;
use winfr_core::events::EventKind;
use winfr_core::lifecycle::{initial_events, terminal_events, ExitOutcome};
use winfr_core::state::{RunState, SyncError};

#[test]
fn same_line_fifteen_times_accepted_once() {
    let mut gate = DedupGate::new();
    let line = "the same line".to_string();
    let mut accepted = 0;
    for _ in 0..15 {
        if gate.offer(&line) {
            accepted += 1;
        }
    }
    assert_eq!(accepted, 1);
}

#[test]
fn eleventh_distinct_line_evicts_oldest() {
    let mut gate = DedupGate::new();
    for i in 0..10 {
        assert!(gate.offer(&format!("line {i}")));
    }
    // still remembered
    assert!(!gate.offer(&"line 0".to_string()));
    assert!(gate.offer(&"line 10".to_string()));
    // "line 0" was evicted by the line above and is accepted again
    assert!(gate.offer(&"line 0".to_string()));
}

#[test]
fn second_start_conflicts_and_leaves_state() {
    let mut s = RunState::new();
    assert_eq!(s.try_start(), Ok(()));
    assert_eq!(s.try_start(), Err(SyncError::Conflict));
    // the failed second start left the run active
    assert!(s.active());
    assert_eq!(s.cancel(), Ok(()));
}

#[test]
fn cancel_without_run_is_not_running() {
    let mut s = RunState::new();
    assert_eq!(s.cancel(), Err(SyncError::NotRunning));
    assert!(!s.active());
}

#[test]
fn cancelled_run_reports_abort_regardless_of_exit() {
    let mut s = RunState::new();
    s.try_start().unwrap();
    s.cancel().unwrap();
    let was_active = s.finish();
    assert!(!was_active);
    for outcome in [
        ExitOutcome::Exited { success: true, code: 0 },
        ExitOutcome::Exited { success: false, code: -1 },
        ExitOutcome::WaitFailed { error: "gone".to_string() },
    ] {
        let evs = terminal_events(was_active, &outcome);
        assert_eq!(evs.len(), 2);
        assert_eq!(evs[0].event_type, EventKind::Status);
        assert_eq!(evs[0].message, "aborted");
        assert_eq!(evs[1].message, "! OPERATION ABORTED BY USER !");
    }
}

#[test]
fn natural_finish_reports_completion() {
    let mut s = RunState::new();
    s.try_start().unwrap();
    let was_active = s.finish();
    assert!(was_active);
    assert!(!s.active());
    let evs = terminal_events(was_active, &ExitOutcome::Exited { success: true, code: 0 });
    assert_eq!(evs[0].message, "completed");
    assert_eq!(evs[0].progress, Some(1000));
    assert_eq!(evs[1].message, "\u{2713} Recovery operation completed successfully.");
}

#[test]
fn access_violation_gets_diagnostic() {
    let evs = terminal_events(true, &ExitOutcome::Exited { success: false, code: -1073741819 });
    assert_eq!(evs.len(), 7);
    assert_eq!(evs[0].message, "error");
    assert_eq!(
        evs[1].message,
        "CRASH DETECTED: winfr.exe encountered an Access Violation (0xC0000005)."
    );
    assert_eq!(evs[3].message, "--- TROUBLESHOOTING ---");
}

#[test]
fn other_exit_codes_get_generic_message() {
    let evs = terminal_events(true, &ExitOutcome::Exited { success: false, code: 5 });
    assert_eq!(evs.len(), 2);
    assert_eq!(evs[1].message, "Recovery process exited with code: 5");
    let evs2 = terminal_events(true, &ExitOutcome::Exited { success: false, code: -1 });
    assert_eq!(evs2[1].message, "Recovery process exited with code: -1");
    let evs3 = terminal_events(
        true,
        &ExitOutcome::Exited { success: false, code: i32::MIN },
    );
    assert_eq!(evs3[1].message, "Recovery process exited with code: -2147483648");
}

#[test]
fn wait_failure_reported() {
    let evs = terminal_events(
        true,
        &ExitOutcome::WaitFailed { error: "interrupted".to_string() },
    );
    assert_eq!(evs[0].message, "error");
    assert_eq!(evs[1].message, "Failed to wait for process: interrupted");
}

#[test]
fn initial_events_announce_command() {
    let args = vec!["E:".to_string(), "D:\\out\\".to_string(), "/regular".to_string()];
    let evs = initial_events(&args);
    assert_eq!(evs.len(), 4);
    assert_eq!(evs[0].event_type, EventKind::Status);
    assert_eq!(evs[0].message, "scanning");
    assert_eq!(evs[0].progress, Some(0));
    assert_eq!(evs[1].message, "Windows File Recovery (Winfr Pro)");
    assert_eq!(evs[2].message, "Command: winfr E: D:\\out\\ /regular");
    assert_eq!(evs[3].message, "Starting recovery process...");
}

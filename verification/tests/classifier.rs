use winfr_core::classify::{process_stdout_line, process_stderr_line, scale_progress, split_lines};
use winfr_core::dedup::DedupGate;
use winfr_core::events::{EventKind, Phase};
use winfr_core::patterns::{extract_percent, detect_phase, extract_folder};

#[test]
fn percent_cue_leftmost_digit_run() {
    assert_eq!(extract_percent("Progress: 47% done"), Some(47));
    assert_eq!(extract_percent("12a34% then 56%"), Some(34));
    assert_eq!(extract_percent("no percentage here"), None);
    assert_eq!(extract_percent("stray % sign"), None);
    assert_eq!(extract_percent("0%"), Some(0));
}

#[test]
fn percent_cue_huge_value_saturates() {
    // far beyond the scale's clamp; the cap keeps it that way
    assert_eq!(extract_percent("999999999999999999999999% x"), Some(10000));
}

#[test]
fn pass_cue_variants() {
    assert_eq!(detect_phase("Pass 1: scanning"), Some(Phase::Scanning));
    assert_eq!(detect_phase("PASS 2"), Some(Phase::Recovering));
    assert_eq!(detect_phase("pass scanning"), Some(Phase::Scanning));
    assert_eq!(detect_phase("Pass   Recovering files"), Some(Phase::Recovering));
    assert_eq!(detect_phase("passing by"), None);
    assert_eq!(detect_phase("compass 3"), None);
}

#[test]
fn folder_cue_exact_shape() {
    assert_eq!(
        extract_folder("Saved to Recovery_20240131_093000 on disk"),
        Some("Recovery_20240131_093000".to_string())
    );
    assert_eq!(extract_folder("Recovery_2024_093000"), None);
    assert_eq!(
        extract_folder("xRecovery_123456789_123456 Recovery_12345678_123456"),
        Some("Recovery_12345678_123456".to_string())
    );
}

#[test]
fn scaling_matches_phase_weights() {
    assert_eq!(scale_progress(Phase::Scanning, 40), 200);
    assert_eq!(scale_progress(Phase::Recovering, 40), 700);
    assert_eq!(scale_progress(Phase::Scanning, 100), 500);
    assert_eq!(scale_progress(Phase::Recovering, 100), 1000);
    assert_eq!(scale_progress(Phase::Recovering, 150), 1000);
    assert_eq!(scale_progress(Phase::Scanning, 0), 0);
}

#[test]
fn progress_line_emits_progress_and_status() {
    let mut gate = DedupGate::new();
    let (ph, evs) = process_stdout_line(Phase::Scanning, "Pass 1: 40% scanned", &mut gate);
    assert_eq!(ph, Phase::Scanning);
    assert_eq!(evs.len(), 2);
    assert_eq!(evs[0].event_type, EventKind::Progress);
    assert_eq!(evs[0].message, "Pass 1: 40% scanned");
    assert_eq!(evs[0].progress, Some(200));
    assert_eq!(evs[1].event_type, EventKind::Status);
    assert_eq!(evs[1].message, "scanning");
    assert_eq!(evs[1].progress, Some(200));
}

#[test]
fn phase_switch_applies_to_same_line() {
    let mut gate = DedupGate::new();
    let (ph, evs) = process_stdout_line(Phase::Scanning, "Pass 2: 40%", &mut gate);
    assert_eq!(ph, Phase::Recovering);
    assert_eq!(evs[0].progress, Some(700));
    assert_eq!(evs[1].message, "recovering");
}

#[test]
fn plain_line_logged_once() {
    let mut gate = DedupGate::new();
    let (_, evs) = process_stdout_line(Phase::Scanning, "  hello world  ", &mut gate);
    assert_eq!(evs.len(), 1);
    assert_eq!(evs[0].event_type, EventKind::Log);
    assert_eq!(evs[0].message, "hello world");
    let (_, evs2) = process_stdout_line(Phase::Scanning, "hello world", &mut gate);
    assert_eq!(evs2.len(), 0);
}

#[test]
fn progress_line_never_logged() {
    let mut gate = DedupGate::new();
    let (_, evs) = process_stdout_line(Phase::Scanning, "47% done", &mut gate);
    assert!(evs.iter().all(|e| e.event_type != EventKind::Log));
}

#[test]
fn folder_line_emits_path_event() {
    let mut gate = DedupGate::new();
    let (_, evs) = process_stdout_line(Phase::Scanning, "Recovery_20240101_121212", &mut gate);
    assert_eq!(evs[0].event_type, EventKind::Path);
    assert_eq!(evs[0].message, "Recovery_20240101_121212");
    assert_eq!(evs[0].path.as_deref(), Some("Recovery_20240101_121212"));
}

#[test]
fn empty_line_produces_nothing() {
    let mut gate = DedupGate::new();
    let (ph, evs) = process_stdout_line(Phase::Recovering, "   \r ", &mut gate);
    assert_eq!(ph, Phase::Recovering);
    assert!(evs.is_empty());
}

#[test]
fn stderr_lines_prefixed_and_shared_with_stdout_gate() {
    let mut gate = DedupGate::new();
    let evs = process_stderr_line(" disk error ", &mut gate);
    assert_eq!(evs.len(), 1);
    assert_eq!(evs[0].event_type, EventKind::Log);
    assert_eq!(evs[0].message, "[stderr] disk error");
    // same text on stdout is now suppressed by the shared gate
    let (_, evs2) = process_stdout_line(Phase::Scanning, "disk error", &mut gate);
    assert!(evs2.is_empty());
}

#[test]
fn split_lines_matches_line_semantics() {
    let lines = split_lines("a\r\nb\nc");
    assert_eq!(lines, vec!["a", "b", "c"]);
    let lines2 = split_lines("one\n");
    assert_eq!(lines2, vec!["one"]);
    let lines3 = split_lines("");
    assert!(lines3.is_empty());
    let lines4 = split_lines("\n\n");
    assert_eq!(lines4, vec!["", ""]);
}

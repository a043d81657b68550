//! The events that frame one run: the fixed announcements at start, and
//! the single terminal status decided from the run flag and the process's
//! exit.  A cleared run flag means the user cancelled, and wins over the
//! exit code; a known access-violation exit code gets a targeted
//! diagnostic; every other non-zero exit gets a generic message.

use vstd::prelude::*;
use vstd::string::*;
use crate::events::{EventKind, RecoveryEvent, ev_view, evs_view};
use crate::strutil::{strs, join_with, join_strings, int_dec_seq, i32_to_string};

verus! {

/// The known access-violation exit code of the external tool.
pub open spec fn access_violation_code() -> int {
    -1073741819
}

/// How the wait for the external process ended: an exit status with its
/// code, or a failure of the wait itself.
pub enum ExitOutcome {
    Exited { success: bool, code: i32 },
    WaitFailed { error: String },
}

/// The events announced when a run starts: an initial scanning status at
/// zero progress, a banner, the full command line, and a start notice.
pub open spec fn initial_events_spec(args: Seq<Seq<char>>) -> Seq<
    (EventKind, Seq<char>, Option<u64>, Option<Seq<char>>),
> {
    seq![
        (EventKind::Status, "scanning"@, Option::Some(0u64), Option::<Seq<char>>::None),
        (EventKind::Log, "Windows File Recovery (Winfr Pro)"@, Option::<u64>::None, Option::<
            Seq<char>,
        >::None),
        (EventKind::Log, "Command: winfr "@ + join_with(args, " "@), Option::<u64>::None, Option::<
            Seq<char>,
        >::None),
        (EventKind::Log, "Starting recovery process..."@, Option::<u64>::None, Option::<
            Seq<char>,
        >::None),
    ]
}

/// Build the start-of-run events for the given command tokens.
pub fn initial_events(args: &Vec<String>) -> (r: Vec<RecoveryEvent>)
    ensures
        evs_view(r@) == initial_events_spec(strs(args@)),
{
    let mut cmd: String = String::from_str("Command: winfr ");
    cmd.append(join_strings(args, " ").as_str());
    let mut r: Vec<RecoveryEvent> = Vec::new();
    r.push(
        RecoveryEvent {
            event_type: EventKind::Status,
            message: String::from_str("scanning"),
            progress: Some(0u64),
            path: None,
        },
    );
    r.push(
        RecoveryEvent {
            event_type: EventKind::Log,
            message: String::from_str("Windows File Recovery (Winfr Pro)"),
            progress: None,
            path: None,
        },
    );
    r.push(
        RecoveryEvent { event_type: EventKind::Log, message: cmd, progress: None, path: None },
    );
    r.push(
        RecoveryEvent {
            event_type: EventKind::Log,
            message: String::from_str("Starting recovery process..."),
            progress: None,
            path: None,
        },
    );
    proof {
        assert(evs_view(r@) =~= initial_events_spec(strs(args@)));
    }
    r
}

/// The terminal events of a run.  A cleared run flag reports a user abort
/// whatever the exit looked like; a successful exit reports completion at
/// full progress; the known access-violation code reports the targeted
/// diagnostic; any other code reports a generic failure; a failed wait
/// reports the wait error.
pub open spec fn terminal_events_spec(was_active: bool, outcome: ExitOutcome) -> Seq<
    (EventKind, Seq<char>, Option<u64>, Option<Seq<char>>),
> {
    if !was_active {
        seq![
            (EventKind::Status, "aborted"@, Option::<u64>::None, Option::<Seq<char>>::None),
            (EventKind::Log, "! OPERATION ABORTED BY USER !"@, Option::<u64>::None, Option::<
                Seq<char>,
            >::None),
        ]
    } else {
        match outcome {
            ExitOutcome::Exited { success: true, .. } => seq![
                (EventKind::Status, "completed"@, Option::Some(1000u64), Option::<
                    Seq<char>,
                >::None),
                (EventKind::Log, "\u{2713} Recovery operation completed successfully."@, Option::<
                    u64,
                >::None, Option::<Seq<char>>::None),
            ],
            ExitOutcome::Exited { success: false, code } => {
                if code == access_violation_code() {
                    seq![
                        (EventKind::Status, "error"@, Option::<u64>::None, Option::<
                            Seq<char>,
                        >::None),
                        (EventKind::Log,
                        "CRASH DETECTED: winfr.exe encountered an Access Violation (0xC0000005)."@,
                        Option::<u64>::None, Option::<Seq<char>>::None),
                        (EventKind::Log,
                        "This is a known bug in winfr.exe when scanning exFAT drives in Extensive mode."@,
                        Option::<u64>::None, Option::<Seq<char>>::None),
                        (EventKind::Log, "--- TROUBLESHOOTING ---"@, Option::<u64>::None, Option::<
                            Seq<char>,
                        >::None),
                        (EventKind::Log, "1. Run health check on source drive: chkdsk E: /f"@,
                        Option::<u64>::None, Option::<Seq<char>>::None),
                        (EventKind::Log,
                        "2. Check Microsoft Store for 'Windows File Recovery' updates."@, Option::<
                            u64,
                        >::None, Option::<Seq<char>>::None),
                        (EventKind::Log,
                        "3. Try 'Advanced Options' -> Disable 'Keep Both' to reduce file conflicts."@,
                        Option::<u64>::None, Option::<Seq<char>>::None),
                    ]
                } else {
                    seq![
                        (EventKind::Status, "error"@, Option::<u64>::None, Option::<
                            Seq<char>,
                        >::None),
                        (EventKind::Log, "Recovery process exited with code: "@ + int_dec_seq(
                            code as int,
                        ), Option::<u64>::None, Option::<Seq<char>>::None),
                    ]
                }
            },
            ExitOutcome::WaitFailed { error } => seq![
                (EventKind::Status, "error"@, Option::<u64>::None, Option::<Seq<char>>::None),
                (EventKind::Log, "Failed to wait for process: "@ + error@, Option::<u64>::None,
                Option::<Seq<char>>::None),
            ],
        }
    }
}

fn status_ev(msg: &str, progress: Option<u64>) -> (r: RecoveryEvent)
    ensures
        ev_view(r) == (EventKind::Status, msg@, progress, Option::<Seq<char>>::None),
{
    RecoveryEvent {
        event_type: EventKind::Status,
        message: msg.to_owned(),
        progress,
        path: None,
    }
}

fn log_ev(msg: String) -> (r: RecoveryEvent)
    ensures
        ev_view(r) == (EventKind::Log, msg@, Option::<u64>::None, Option::<Seq<char>>::None),
{
    RecoveryEvent { event_type: EventKind::Log, message: msg, progress: None, path: None }
}

/// Build the terminal events from the run flag observed at wait time and
/// the process's exit outcome.
pub fn terminal_events(was_active: bool, outcome: &ExitOutcome) -> (r: Vec<RecoveryEvent>)
    ensures
        evs_view(r@) == terminal_events_spec(was_active, *outcome),
{
    let mut r: Vec<RecoveryEvent> = Vec::new();
    if !was_active {
        r.push(status_ev("aborted", None));
        r.push(log_ev(String::from_str("! OPERATION ABORTED BY USER !")));
    } else {
        match outcome {
            ExitOutcome::Exited { success, code } => {
                if *success {
                    r.push(status_ev("completed", Some(1000u64)));
                    r.push(
                        log_ev(
                            String::from_str("\u{2713} Recovery operation completed successfully."),
                        ),
                    );
                } else if *code == -1073741819i32 {
                    r.push(status_ev("error", None));
                    r.push(
                        log_ev(
                            String::from_str(
                                "CRASH DETECTED: winfr.exe encountered an Access Violation (0xC0000005).",
                            ),
                        ),
                    );
                    r.push(
                        log_ev(
                            String::from_str(
                                "This is a known bug in winfr.exe when scanning exFAT drives in Extensive mode.",
                            ),
                        ),
                    );
                    r.push(log_ev(String::from_str("--- TROUBLESHOOTING ---")));
                    r.push(
                        log_ev(
                            String::from_str("1. Run health check on source drive: chkdsk E: /f"),
                        ),
                    );
                    r.push(
                        log_ev(
                            String::from_str(
                                "2. Check Microsoft Store for 'Windows File Recovery' updates.",
                            ),
                        ),
                    );
                    r.push(
                        log_ev(
                            String::from_str(
                                "3. Try 'Advanced Options' -> Disable 'Keep Both' to reduce file conflicts.",
                            ),
                        ),
                    );
                } else {
                    r.push(status_ev("error", None));
                    let mut msg: String = String::from_str("Recovery process exited with code: ");
                    msg.append(i32_to_string(*code).as_str());
                    r.push(log_ev(msg));
                }
            },
            ExitOutcome::WaitFailed { error } => {
                r.push(status_ev("error", None));
                let mut msg: String = String::from_str("Failed to wait for process: ");
                msg.append(error.as_str());
                r.push(log_ev(msg));
            },
        }
    }
    proof {
        assert(evs_view(r@) =~= terminal_events_spec(was_active, *outcome));
    }
    r
}

/// The abort report wins over the exit code: whenever the run flag was
/// already cleared at wait time — that is, after a successful cancel — the
/// terminal events report a user abort, whatever the process's own exit
/// outcome was.
pub proof fn lemma_cancel_wins(o1: ExitOutcome, o2: ExitOutcome)
    ensures
        terminal_events_spec(false, o1) == terminal_events_spec(false, o2),
        terminal_events_spec(false, o1)[0].0 == EventKind::Status,
        terminal_events_spec(false, o1)[0].1 == "aborted"@,
{
}

} // verus!

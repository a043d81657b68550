//! The structured events the supervisor emits toward the presentation
//! layer, and the two-stage progress phase inferred from the tool's output.

use vstd::prelude::*;
use vstd::string::*;

verus! {

/// The inferred progress phase: the tool scans first, then recovers.
#[derive(Clone, Copy, PartialEq, Eq, Structural, Debug)]
pub enum Phase {
    Scanning,
    Recovering,
}

/// The four event channels.
#[derive(Clone, Copy, PartialEq, Eq, Structural, Debug)]
pub enum EventKind {
    Status,
    Log,
    Progress,
    Path,
}

/// One event: its channel, a message, an optional progress value in tenths
/// of a percent (0 to 1000), and an optional path string.
#[derive(Clone, Debug)]
pub struct RecoveryEvent {
    pub event_type: EventKind,
    pub message: String,
    pub progress: Option<u64>,
    pub path: Option<String>,
}

/// The view of an event: channel, message text, progress, path text.
pub open spec fn ev_view(e: RecoveryEvent) -> (EventKind, Seq<char>, Option<u64>, Option<
    Seq<char>,
>) {
    (
        e.event_type,
        e.message@,
        e.progress,
        match e.path {
            Option::Some(p) => Option::Some(p@),
            Option::None => Option::None,
        },
    )
}

/// The views of a sequence of events.
pub open spec fn evs_view(es: Seq<RecoveryEvent>) -> Seq<
    (EventKind, Seq<char>, Option<u64>, Option<Seq<char>>),
> {
    es.map_values(|e: RecoveryEvent| ev_view(e))
}

/// The phase's name, as carried by status events.
pub open spec fn phase_name(ph: Phase) -> Seq<char> {
    match ph {
        Phase::Scanning => "scanning"@,
        Phase::Recovering => "recovering"@,
    }
}

/// Render the phase's name.
pub fn phase_label(ph: Phase) -> (r: String)
    ensures
        r@ == phase_name(ph),
{
    match ph {
        Phase::Scanning => String::from_str("scanning"),
        Phase::Recovering => String::from_str("recovering"),
    }
}

} // verus!

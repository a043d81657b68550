//! The line classifier: split decoded text into lines, trim each, read the
//! cues, rescale the raw percentage through the phase-weighted scale, and
//! decide which events one line produces.

use vstd::prelude::*;
use vstd::string::*;
use crate::events::{Phase, EventKind, RecoveryEvent, ev_view, evs_view, phase_name, phase_label};
use crate::patterns::{percent_raw, phase_cue, folder_capture, extract_percent, detect_phase,
    extract_folder};
use crate::dedup::{DedupGate, gate_accepts, gate_after};
use crate::strutil::{trimmed, trim_str};

verus! {

/// The phase-weighted progress scale, in tenths of a percent: the scanning
/// phase maps raw 0-100 onto 0-50 percent, the recovering phase onto
/// 51-100 percent; the result never exceeds 100 percent.
pub open spec fn scaled_tenths(ph: Phase, raw: int) -> int {
    if ph == Phase::Scanning {
        if 5 * raw > 1000 {
            1000
        } else {
            5 * raw
        }
    } else {
        if 500 + 5 * raw > 1000 {
            1000
        } else {
            500 + 5 * raw
        }
    }
}

/// Rescale a raw percent value through the phase-weighted scale.
pub fn scale_progress(ph: Phase, raw: u64) -> (r: u64)
    requires
        raw <= 10000,
    ensures
        r as int == scaled_tenths(ph, raw as int),
{
    match ph {
        Phase::Scanning => {
            let t: u64 = 5 * raw;
            if t > 1000 {
                1000
            } else {
                t
            }
        },
        Phase::Recovering => {
            let t: u64 = 500 + 5 * raw;
            if t > 1000 {
                1000
            } else {
                t
            }
        },
    }
}

/// The progress scale is monotone in the raw value within a phase, stays
/// between 0 and 100 percent, and maps raw 40 to 20 percent while
/// scanning and to 70 percent while recovering.
pub proof fn lemma_progress_scaling(ph: Phase, r1: int, r2: int)
    requires
        0 <= r1 <= r2,
    ensures
        scaled_tenths(ph, r1) <= scaled_tenths(ph, r2),
        0 <= scaled_tenths(ph, r1) <= 1000,
        scaled_tenths(Phase::Scanning, 40) == 200,
        scaled_tenths(Phase::Recovering, 40) == 700,
{
}

/// The phase after a line: updated by the line's pass cue, otherwise kept.
pub open spec fn phase_update(ph: Phase, t: Seq<char>) -> Phase {
    match phase_cue(t) {
        Option::Some(p) => p,
        Option::None => ph,
    }
}

/// The events one trimmed, non-empty stdout line produces, given the phase
/// after its pass cue and the dedup history before it: a progress and a
/// status event when it carries a percentage; a path event when it names
/// the output folder; and, only when it carries no percentage, a log event
/// if the dedup history admits it.
pub open spec fn stdout_line_events(ph1: Phase, t: Seq<char>, gate: Seq<Seq<char>>) -> Seq<
    (EventKind, Seq<char>, Option<u64>, Option<Seq<char>>),
> {
    (match percent_raw(t) {
        Option::Some(raw) => seq![
            (EventKind::Progress, t, Option::Some(scaled_tenths(ph1, raw) as u64), Option::<
                Seq<char>,
            >::None),
            (EventKind::Status, phase_name(ph1), Option::Some(scaled_tenths(ph1, raw) as u64),
            Option::<Seq<char>>::None),
        ],
        Option::None => Seq::empty(),
    }) + (match folder_capture(t) {
        Option::Some(f) => seq![
            (EventKind::Path, f, Option::<u64>::None, Option::Some(f)),
        ],
        Option::None => Seq::empty(),
    }) + (if percent_raw(t) is None && gate_accepts(gate, t) {
        seq![(EventKind::Log, t, Option::<u64>::None, Option::<Seq<char>>::None)]
    } else {
        Seq::empty()
    })
}

proof fn lemma_evs_push(es: Seq<RecoveryEvent>, e: RecoveryEvent)
    ensures
        evs_view(es.push(e)) == evs_view(es).push(ev_view(e)),
{
    assert(evs_view(es.push(e)) =~= evs_view(es).push(ev_view(e)));
}

/// Classify one raw stdout line: trim it, update the phase, and produce
/// the line's events, consulting and updating the shared dedup gate.
/// Empty lines produce nothing and leave everything unchanged.
pub fn process_stdout_line(ph: Phase, line: &str, gate: &mut DedupGate) -> (r: (
    Phase,
    Vec<RecoveryEvent>,
))
    requires
        old(gate).wf(),
    ensures
        final(gate).wf(),
        ({
            let t = trimmed(line@);
            if t.len() == 0 {
                r.0 == ph && r.1@.len() == 0 && final(gate).view() == old(gate).view()
            } else {
                &&& r.0 == phase_update(ph, t)
                &&& evs_view(r.1@) == stdout_line_events(r.0, t, old(gate).view())
                &&& final(gate).view() == (if percent_raw(t) is None {
                    gate_after(old(gate).view(), t)
                } else {
                    old(gate).view()
                })
            }
        }),
{
    let t: String = trim_str(line);
    if t.as_str().is_empty() {
        return (ph, Vec::new());
    }
    let ph1: Phase = match detect_phase(t.as_str()) {
        Some(p) => p,
        None => ph,
    };
    let mut evs: Vec<RecoveryEvent> = Vec::new();
    let pr: Option<u64> = extract_percent(t.as_str());
    match pr {
        Some(raw) => {
            let scaled: u64 = scale_progress(ph1, raw);
            let ghost pre: Seq<RecoveryEvent> = evs@;
            evs.push(
                RecoveryEvent {
                    event_type: EventKind::Progress,
                    message: t.clone(),
                    progress: Some(scaled),
                    path: None,
                },
            );
            proof {
                lemma_evs_push(pre, evs@.last());
            }
            let ghost pre2: Seq<RecoveryEvent> = evs@;
            evs.push(
                RecoveryEvent {
                    event_type: EventKind::Status,
                    message: phase_label(ph1),
                    progress: Some(scaled),
                    path: None,
                },
            );
            proof {
                lemma_evs_push(pre2, evs@.last());
            }
        },
        None => {},
    }
    match extract_folder(t.as_str()) {
        Some(f) => {
            let ghost pre3: Seq<RecoveryEvent> = evs@;
            let msg: String = f.clone();
            evs.push(
                RecoveryEvent {
                    event_type: EventKind::Path,
                    message: msg,
                    progress: None,
                    path: Some(f),
                },
            );
            proof {
                lemma_evs_push(pre3, evs@.last());
            }
        },
        None => {},
    }
    if pr.is_none() {
        let accepted: bool = gate.offer(&t);
        if accepted {
            let ghost pre4: Seq<RecoveryEvent> = evs@;
            evs.push(
                RecoveryEvent {
                    event_type: EventKind::Log,
                    message: t,
                    progress: None,
                    path: None,
                },
            );
            proof {
                lemma_evs_push(pre4, evs@.last());
            }
        }
    }
    proof {
        assert(evs_view(evs@) =~= stdout_line_events(ph1, trimmed(line@), old(gate).view()));
    }
    (ph1, evs)
}

/// The events one trimmed stderr line produces: a log event with the
/// distinct stderr prefix, if the line is non-empty and the dedup history
/// admits it.
pub open spec fn stderr_line_events(t: Seq<char>, gate: Seq<Seq<char>>) -> Seq<
    (EventKind, Seq<char>, Option<u64>, Option<Seq<char>>),
> {
    if t.len() > 0 && gate_accepts(gate, t) {
        seq![
            (EventKind::Log, "[stderr] "@ + t, Option::<u64>::None, Option::<Seq<char>>::None),
        ]
    } else {
        Seq::empty()
    }
}

/// Classify one raw stderr line: trim it and produce its log event if the
/// shared dedup history admits it.  It remembers the trimmed line
/// without the prefix, so the same text arriving on either stream is
/// emitted only once.
pub fn process_stderr_line(line: &str, gate: &mut DedupGate) -> (r: Vec<RecoveryEvent>)
    requires
        old(gate).wf(),
    ensures
        final(gate).wf(),
        ({
            let t = trimmed(line@);
            &&& evs_view(r@) == stderr_line_events(t, old(gate).view())
            &&& final(gate).view() == (if t.len() > 0 {
                gate_after(old(gate).view(), t)
            } else {
                old(gate).view()
            })
        }),
{
    let t: String = trim_str(line);
    let mut evs: Vec<RecoveryEvent> = Vec::new();
    if !t.as_str().is_empty() {
        let accepted: bool = gate.offer(&t);
        if accepted {
            let mut msg: String = String::from_str("[stderr] ");
            msg.append(t.as_str());
            let ghost pre: Seq<RecoveryEvent> = evs@;
            evs.push(
                RecoveryEvent { event_type: EventKind::Log, message: msg, progress: None, path: None },
            );
            proof {
                lemma_evs_push(pre, evs@.last());
            }
        }
    }
    proof {
        assert(evs_view(evs@) =~= stderr_line_events(trimmed(line@), old(gate).view()));
    }
    evs
}

/// The position of the first newline at or after `i`.
pub open spec fn find_nl_from(s: Seq<char>, i: int) -> int
    decreases s.len() - i,
{
    if i >= s.len() {
        s.len() as int
    } else if s[i] == '\n' {
        i
    } else {
        find_nl_from(s, i + 1)
    }
}

/// A line segment with one trailing carriage return removed.
pub open spec fn strip_cr(x: Seq<char>) -> Seq<char> {
    if x.len() > 0 && x[x.len() - 1] == '\r' {
        x.drop_last()
    } else {
        x
    }
}

/// The text split into lines: segments separated by newlines, each without
/// a trailing carriage return, and with no final empty segment after a
/// trailing newline.
pub open spec fn split_lines_spec(s: Seq<char>) -> Seq<Seq<char>>
    decreases s.len(),
    via split_lines_spec_dec
{
    if s.len() == 0 {
        Seq::empty()
    } else {
        let k = find_nl_from(s, 0);
        if k == s.len() {
            seq![strip_cr(s)]
        } else {
            seq![strip_cr(s.take(k))] + split_lines_spec(s.skip(k + 1))
        }
    }
}

proof fn lemma_find_nl_bounds(s: Seq<char>, i: int)
    requires
        0 <= i <= s.len(),
    ensures
        i <= find_nl_from(s, i) <= s.len(),
    decreases s.len() - i,
{
    if i < s.len() && s[i] != '\n' {
        lemma_find_nl_bounds(s, i + 1);
    }
}

#[via_fn]
proof fn split_lines_spec_dec(s: Seq<char>) {
    if s.len() > 0 {
        lemma_find_nl_bounds(s, 0);
    }
}

fn find_nl(s: &str, from: usize) -> (r: usize)
    requires
        from <= s@.len(),
    ensures
        r == find_nl_from(s@, from as int),
        from <= r <= s@.len(),
{
    let len: usize = s.unicode_len();
    let mut p: usize = from;
    while p < len && s.get_char(p) != '\n'
        invariant
            from <= p <= len,
            len == s@.len(),
            find_nl_from(s@, from as int) == find_nl_from(s@, p as int),
        decreases len - p,
    {
        p = p + 1;
    }
    p
}

/// Split decoded text into lines for the classifier.
pub fn split_lines(s: &str) -> (r: Vec<String>)
    ensures
        crate::strutil::strs(r@) == split_lines_spec(s@),
{
    let len: usize = s.unicode_len();
    let mut out: Vec<String> = Vec::new();
    let mut pos: usize = 0;
    proof {
        assert(s@.skip(0) =~= s@);
    }
    while pos < len
        invariant
            0 <= pos <= len,
            len == s@.len(),
            crate::strutil::strs(out@) + split_lines_spec(s@.skip(pos as int)) =~= split_lines_spec(
                s@,
            ),
        decreases len - pos,
    {
        let ghost rest: Seq<char> = s@.skip(pos as int);
        let k: usize = find_nl(s, pos);
        proof {
            lemma_find_nl_shift(s@, pos as int);
        }
        let segment_end: usize = if k > pos && s.get_char(k - 1) == '\r' {
            k - 1
        } else {
            k
        };
        proof {
            if k == len {
                assert(rest.take(find_nl_from(rest, 0)) =~= rest);
            }
            assert(s@.subrange(pos as int, segment_end as int) =~= strip_cr(
                rest.take(find_nl_from(rest, 0)),
            ));
        }
        let piece: &str = s.substring_char(pos, segment_end);
        let ghost pre: Seq<String> = out@;
        out.push(piece.to_owned());
        proof {
            assert(crate::strutil::strs(out@) =~= crate::strutil::strs(pre).push(
                strip_cr(rest.take(find_nl_from(rest, 0))),
            ));
            if k < len {
                assert(s@.skip(k + 1) =~= rest.skip(find_nl_from(rest, 0) + 1));
            }
        }
        if k < len {
            pos = k + 1;
        } else {
            pos = len;
        }
        proof {
            assert(crate::strutil::strs(out@) + split_lines_spec(s@.skip(pos as int))
                =~= split_lines_spec(s@));
        }
    }
    proof {
        assert(s@.skip(len as int) =~= Seq::<char>::empty());
    }
    out
}

proof fn lemma_find_nl_shift(s: Seq<char>, pos: int)
    requires
        0 <= pos <= s.len(),
    ensures
        find_nl_from(s, pos) == pos + find_nl_from(s.skip(pos), 0),
    decreases s.len() - pos,
{
    let rest = s.skip(pos);
    lemma_find_nl_sub(s, pos, pos);
}

proof fn lemma_find_nl_sub(s: Seq<char>, base: int, i: int)
    requires
        0 <= base <= i <= s.len(),
    ensures
        find_nl_from(s, i) == base + find_nl_from(s.skip(base), i - base),
    decreases s.len() - i,
{
    let rest = s.skip(base);
    if i >= s.len() {
        assert(find_nl_from(rest, i - base) == rest.len());
    } else if s[i] == '\n' {
        assert(rest[i - base] == s[i]);
    } else {
        assert(rest[i - base] == s[i]);
        lemma_find_nl_sub(s, base, i + 1);
    }
}

} // verus!

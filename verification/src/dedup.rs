//! The dedup log gate: one bounded recent-line history, shared by both
//! stream readers, suppressing repeated lines wherever they arrived from.
//! A line is accepted when it is not in the history; acceptance records it,
//! evicting the oldest entry once the history holds ten lines.

use vstd::prelude::*;
use std::collections::VecDeque;
use crate::strutil::strs;

verus! {

/// How many recent lines are remembered.
pub open spec fn gate_capacity() -> int {
    10
}

/// Whether history `h` admits line `l`: exactly when the
/// line is not in the history.
pub open spec fn gate_accepts(h: Seq<Seq<char>>, l: Seq<char>) -> bool {
    !h.contains(l)
}

/// The history after offering line `l`: unchanged on rejection; on
/// acceptance the line is appended, evicting the oldest entry when the
/// history is full.
pub open spec fn gate_after(h: Seq<Seq<char>>, l: Seq<char>) -> Seq<Seq<char>> {
    if !gate_accepts(h, l) {
        h
    } else if h.len() >= gate_capacity() {
        h.drop_first().push(l)
    } else {
        h.push(l)
    }
}

/// The shared recent-line history.
pub struct DedupGate {
    recent: VecDeque<String>,
}

impl DedupGate {
    /// The lines currently remembered, oldest first.
    pub closed spec fn view(self) -> Seq<Seq<char>> {
        strs(self.recent@)
    }

    /// The history never exceeds the capacity.
    pub open spec fn wf(self) -> bool {
        self.view().len() <= gate_capacity()
    }

    /// A fresh, empty gate.
    pub fn new() -> (g: DedupGate)
        ensures
            g.wf(),
            g.view().len() == 0,
    {
        DedupGate { recent: VecDeque::new() }
    }

    /// Offer a line: report whether it is accepted for emission, and record
    /// it if so.
    pub fn offer(&mut self, line: &String) -> (accepted: bool)
        requires
            old(self).wf(),
        ensures
            final(self).wf(),
            accepted == gate_accepts(old(self).view(), line@),
            final(self).view() == gate_after(old(self).view(), line@),
    {
        let ghost h: Seq<Seq<char>> = self.view();
        let n: usize = self.recent.len();
        let mut i: usize = 0;
        while i < n
            invariant
                i <= n,
                n == self.recent@.len(),
                *self == *old(self),
                old(self).wf(),
                h == strs(self.recent@),
                forall|j: int| 0 <= j < i ==> h[j] != line@,
            decreases n - i,
        {
            if self.recent[i] == *line {
                assert(h[i as int] == line@);
                assert(h.contains(line@));
                return false;
            }
            i = i + 1;
        }
        assert(forall|j: int| 0 <= j < h.len() ==> h[j] != line@);
        assert(!h.contains(line@));
        if self.recent.len() >= 10 {
            let ghost pre: Seq<String> = self.recent@;
            let _ = self.recent.pop_front();
            proof {
                assert(self.recent@ =~= pre.subrange(1, pre.len() as int));
                assert(strs(self.recent@) =~= h.drop_first());
            }
        }
        let ghost mid: Seq<String> = self.recent@;
        self.recent.push_back(line.clone());
        proof {
            assert(strs(self.recent@) =~= strs(mid).push(line@));
        }
        true
    }
}

proof fn lemma_push_contains(h: Seq<Seq<char>>, l: Seq<char>)
    ensures
        h.push(l).contains(l),
{
    assert(h.push(l)[h.len() as int] == l);
}

/// Offering a line right after it was offered is always rejected: one
/// acceptance suppresses immediate repeats, however often they arrive.
pub proof fn lemma_repeat_suppressed(h: Seq<Seq<char>>, l: Seq<char>)
    ensures
        !gate_accepts(gate_after(h, l), l),
{
    if gate_accepts(h, l) {
        if h.len() >= gate_capacity() {
            lemma_push_contains(h.drop_first(), l);
        } else {
            lemma_push_contains(h, l);
        }
    }
}

/// Eviction: accepting a line into a full history drops the oldest entry,
/// and a line equal to that evicted entry (and to nothing else remembered)
/// is accepted again afterwards.
pub proof fn lemma_eviction(h: Seq<Seq<char>>, l: Seq<char>)
    requires
        h.len() == gate_capacity(),
        gate_accepts(h, l),
    ensures
        gate_after(h, l) == h.drop_first().push(l),
        (!h.drop_first().contains(h[0]) && h[0] != l) ==> gate_accepts(gate_after(h, l), h[0]),
{
    if !h.drop_first().contains(h[0]) && h[0] != l {
        let a = h.drop_first().push(l);
        assert forall|j: int| 0 <= j < a.len() implies a[j] != h[0] by {
            if j < h.len() - 1 {
                assert(a[j] == h.drop_first()[j]);
                if a[j] == h[0] {
                    assert(h.drop_first().contains(h[0]));
                }
            }
        }
        assert(!a.contains(h[0]));
    }
}

} // verus!

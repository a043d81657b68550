//! The textual cues the classifier reads from the tool's output lines:
//! a percentage ("NN%"), a pass/phase announcement ("Pass 1", "pass
//! recovering", ...), and the name of the output folder the tool creates
//! ("Recovery_" followed by an 8-digit date and a 6-digit time).  Each cue
//! is found at its leftmost occurrence, as the original free-text patterns
//! match.

use vstd::prelude::*;
use vstd::string::*;
use crate::events::Phase;
use crate::strutil::{is_space, eq_ci, char_is_space, char_eq_ci};

verus! {

/// An ASCII decimal digit.
pub open spec fn is_digit(c: char) -> bool {
    48 <= c as u32 && c as u32 <= 57
}

/// The value of an ASCII decimal digit.
pub open spec fn digit_val(c: char) -> int {
    c as u32 - 48
}

fn char_is_digit(c: char) -> (b: bool)
    ensures
        b == is_digit(c),
{
    let u: u32 = c as u32;
    48 <= u && u <= 57
}

/// The value of a digit run, most significant digit first.
pub open spec fn dec_val(ds: Seq<char>) -> int
    decreases ds.len(),
{
    if ds.len() == 0 {
        0
    } else {
        dec_val(ds.drop_last()) * 10 + digit_val(ds.last())
    }
}

/// Raw percent values are capped here; the cap is far above the range
/// where the phase-weighted scale already clamps to its maximum.
pub open spec fn raw_cap() -> int {
    10000
}

/// A value capped at `raw_cap`.
pub open spec fn capped(v: int) -> int {
    if v > raw_cap() {
        raw_cap()
    } else {
        v
    }
}

/// A percent cue ends at `e`: a percent sign directly preceded by a digit.
pub open spec fn percent_at(s: Seq<char>, e: int) -> bool {
    1 <= e < s.len() && s[e] == '%' && is_digit(s[e - 1])
}

/// The leftmost percent cue at or after `i`.
pub open spec fn find_percent_from(s: Seq<char>, i: int) -> Option<int>
    decreases s.len() - i,
{
    if i >= s.len() {
        Option::None
    } else if percent_at(s, i) {
        Option::Some(i)
    } else {
        find_percent_from(s, i + 1)
    }
}

/// The start of the digit run that ends right before position `p`.
pub open spec fn digits_start(s: Seq<char>, p: int) -> int
    decreases p,
{
    if p > 0 && is_digit(s[p - 1]) {
        digits_start(s, p - 1)
    } else {
        p
    }
}

/// The digits captured by the leftmost percent cue of the line, if any:
/// the maximal digit run directly before the leftmost qualifying percent
/// sign.
pub open spec fn percent_capture(s: Seq<char>) -> Option<Seq<char>> {
    match find_percent_from(s, 0) {
        Option::Some(e) => Option::Some(s.subrange(digits_start(s, e), e)),
        Option::None => Option::None,
    }
}

/// The raw percent value of the line, capped.
pub open spec fn percent_raw(s: Seq<char>) -> Option<int> {
    match percent_capture(s) {
        Option::Some(ds) => Option::Some(capped(dec_val(ds))),
        Option::None => Option::None,
    }
}

/// Extract the raw percent value of the line's leftmost percent cue.
pub fn extract_percent(s: &str) -> (r: Option<u64>)
    ensures
        match r {
            Option::Some(v) => percent_raw(s@) == Option::Some(v as int),
            Option::None => percent_raw(s@) == Option::<int>::None,
        },
{
    let len: usize = s.unicode_len();
    let mut e: usize = 0;
    loop
        invariant
            0 <= e <= len,
            len == s@.len(),
            find_percent_from(s@, 0) == find_percent_from(s@, e as int),
        decreases len - e,
    {
        if e >= len {
            return None;
        }
        let hit: bool = if e >= 1 {
            s.get_char(e) == '%' && char_is_digit(s.get_char(e - 1))
        } else {
            false
        };
        if hit {
            // walk back over the digit run
            let mut b: usize = e;
            while b > 0 && char_is_digit(s.get_char(b - 1))
                invariant
                    0 <= b <= e,
                    e < len,
                    len == s@.len(),
                    digits_start(s@, e as int) == digits_start(s@, b as int),
                    forall|k: int| b <= k < e ==> is_digit(s@[k]),
                decreases b,
            {
                b = b - 1;
            }
            // parse with saturation
            let ghost ds: Seq<char> = s@.subrange(b as int, e as int);
            let mut val: u64 = 0;
            let mut k: usize = b;
            proof {
                assert(s@.subrange(b as int, b as int) =~= Seq::<char>::empty());
            }
            while k < e
                invariant
                    b <= k <= e,
                    e < len,
                    len == s@.len(),
                    forall|j: int| b <= j < e ==> is_digit(s@[j]),
                    val == capped(dec_val(s@.subrange(b as int, k as int))),
                    val <= 10000,
                decreases e - k,
            {
                let d: u64 = (s.get_char(k) as u32 as u64) - 48;
                proof {
                    assert(s@.subrange(b as int, k + 1).drop_last() =~= s@.subrange(
                        b as int,
                        k as int,
                    ));
                    assert(s@.subrange(b as int, k + 1).last() == s@[k as int]);
                }
                let t: u64 = val * 10 + d;
                val = if t > 10000 {
                    10000
                } else {
                    t
                };
                k = k + 1;
            }
            proof {
                assert(find_percent_from(s@, e as int) == Option::Some(e as int));
            }
            return Some(val);
        }
        proof {
            assert(!percent_at(s@, e as int));
        }
        e = e + 1;
    }
}

/// The characters at `i` match the pattern, up to ASCII case.
pub open spec fn matches_ci_at(s: Seq<char>, i: int, pat: Seq<char>) -> bool {
    0 <= i && i + pat.len() <= s.len() && forall|k: int|
        0 <= k < pat.len() ==> eq_ci(s[i + k], #[trigger] pat[k])
}

fn match_ci_at(s: &str, i: usize, pat: &str) -> (r: bool)
    requires
        i <= s@.len(),
    ensures
        r == matches_ci_at(s@, i as int, pat@),
{
    let slen: usize = s.unicode_len();
    let plen: usize = pat.unicode_len();
    if plen > slen - i {
        return false;
    }
    let mut k: usize = 0;
    while k < plen
        invariant
            0 <= k <= plen,
            i + plen <= slen,
            slen == s@.len(),
            plen == pat@.len(),
            forall|j: int| 0 <= j < k ==> eq_ci(s@[i + j], #[trigger] pat@[j]),
        decreases plen - k,
    {
        if !char_eq_ci(s.get_char(i + k), pat.get_char(k)) {
            return false;
        }
        k = k + 1;
    }
    true
}

/// The end of the whitespace run starting at `j`.
pub open spec fn ws_end(s: Seq<char>, j: int) -> int
    decreases s.len() - j,
{
    if 0 <= j < s.len() && is_space(s[j]) {
        ws_end(s, j + 1)
    } else {
        j
    }
}

fn skip_ws(s: &str, j: usize) -> (r: usize)
    requires
        j <= s@.len(),
    ensures
        r == ws_end(s@, j as int),
        j <= r <= s@.len(),
{
    let len: usize = s.unicode_len();
    let mut p: usize = j;
    while p < len && char_is_space(s.get_char(p))
        invariant
            j <= p <= len,
            len == s@.len(),
            ws_end(s@, j as int) == ws_end(s@, p as int),
        decreases len - p,
    {
        p = p + 1;
    }
    p
}

/// The phase named by the pass cue's alternative starting at `j`: "1" or
/// "scanning" mean scanning, "2" or "recovering" mean recovering.
pub open spec fn pass_alt_at(s: Seq<char>, j: int) -> Option<Phase> {
    if 0 <= j < s.len() && s[j] == '1' {
        Option::Some(Phase::Scanning)
    } else if 0 <= j < s.len() && s[j] == '2' {
        Option::Some(Phase::Recovering)
    } else if matches_ci_at(s, j, "scanning"@) {
        Option::Some(Phase::Scanning)
    } else if matches_ci_at(s, j, "recovering"@) {
        Option::Some(Phase::Recovering)
    } else {
        Option::None
    }
}

/// The pass cue at position `i`: the word "pass" (any case), optional
/// whitespace, then one of the phase alternatives.
pub open spec fn pass_cue_at(s: Seq<char>, i: int) -> Option<Phase> {
    if matches_ci_at(s, i, "pass"@) {
        pass_alt_at(s, ws_end(s, i + 4))
    } else {
        Option::None
    }
}

/// The position of the leftmost pass cue at or after `i`.
pub open spec fn find_pass_from(s: Seq<char>, i: int) -> Option<int>
    decreases s.len() - i,
{
    if i >= s.len() {
        Option::None
    } else if pass_cue_at(s, i) is Some {
        Option::Some(i)
    } else {
        find_pass_from(s, i + 1)
    }
}

/// The phase announced by the line's leftmost pass cue, if any.
pub open spec fn phase_cue(s: Seq<char>) -> Option<Phase> {
    match find_pass_from(s, 0) {
        Option::Some(i) => pass_cue_at(s, i),
        Option::None => Option::None,
    }
}

fn pass_alt_check(s: &str, j: usize) -> (r: Option<Phase>)
    requires
        j <= s@.len(),
    ensures
        r == pass_alt_at(s@, j as int),
{
    let len: usize = s.unicode_len();
    if j < len && s.get_char(j) == '1' {
        Some(Phase::Scanning)
    } else if j < len && s.get_char(j) == '2' {
        Some(Phase::Recovering)
    } else if match_ci_at(s, j, "scanning") {
        Some(Phase::Scanning)
    } else if match_ci_at(s, j, "recovering") {
        Some(Phase::Recovering)
    } else {
        None
    }
}

/// Detect the line's leftmost pass cue and the phase it announces.
pub fn detect_phase(s: &str) -> (r: Option<Phase>)
    ensures
        r == phase_cue(s@),
{
    let len: usize = s.unicode_len();
    let mut i: usize = 0;
    loop
        invariant
            0 <= i <= len,
            len == s@.len(),
            find_pass_from(s@, 0) == find_pass_from(s@, i as int),
        decreases len - i,
    {
        if i >= len {
            return None;
        }
        if match_ci_at(s, i, "pass") {
            proof {
                reveal_strlit("pass");
                assert("pass"@.len() == 4);
            }
            let j: usize = skip_ws(s, i + 4);
            let alt: Option<Phase> = pass_alt_check(s, j);
            if let Some(ph) = alt {
                proof {
                    assert(pass_cue_at(s@, i as int) == Option::Some(ph));
                    assert(find_pass_from(s@, i as int) == Option::Some(i as int));
                }
                return Some(ph);
            }
        }
        proof {
            assert(pass_cue_at(s@, i as int) is None);
        }
        i = i + 1;
    }
}

/// The characters at `i` match the pattern exactly.
pub open spec fn matches_at(s: Seq<char>, i: int, pat: Seq<char>) -> bool {
    0 <= i && i + pat.len() <= s.len() && s.subrange(i, i + pat.len()) == pat
}

fn match_at(s: &str, i: usize, pat: &str) -> (r: bool)
    requires
        i <= s@.len(),
    ensures
        r == matches_at(s@, i as int, pat@),
{
    let slen: usize = s.unicode_len();
    let plen: usize = pat.unicode_len();
    if plen > slen - i {
        return false;
    }
    let mut k: usize = 0;
    while k < plen
        invariant
            0 <= k <= plen,
            i + plen <= slen,
            slen == s@.len(),
            plen == pat@.len(),
            forall|j: int| 0 <= j < k ==> s@[i + j] == #[trigger] pat@[j],
        decreases plen - k,
    {
        if s.get_char(i + k) != pat.get_char(k) {
            proof {
                assert(s@.subrange(i as int, i + pat@.len())[k as int] != pat@[k as int]);
            }
            return false;
        }
        k = k + 1;
    }
    proof {
        assert(s@.subrange(i as int, i + pat@.len()) =~= pat@);
    }
    true
}

/// An output-folder name starts at `i`: the fixed prefix, an 8-digit date,
/// an underscore, and a 6-digit time.
pub open spec fn folder_at(s: Seq<char>, i: int) -> bool {
    &&& 0 <= i
    &&& i + 24 <= s.len()
    &&& matches_at(s, i, "Recovery_"@)
    &&& forall|k: int| i + 9 <= k < i + 17 ==> is_digit(#[trigger] s[k])
    &&& s[i + 17] == '_'
    &&& forall|k: int| i + 18 <= k < i + 24 ==> is_digit(#[trigger] s[k])
}

/// The position of the leftmost output-folder name at or after `i`.
pub open spec fn find_folder_from(s: Seq<char>, i: int) -> Option<int>
    decreases s.len() - i,
{
    if i >= s.len() {
        Option::None
    } else if folder_at(s, i) {
        Option::Some(i)
    } else {
        find_folder_from(s, i + 1)
    }
}

/// The line's leftmost output-folder name, if any: 24 characters.
pub open spec fn folder_capture(s: Seq<char>) -> Option<Seq<char>> {
    match find_folder_from(s, 0) {
        Option::Some(i) => Option::Some(s.subrange(i, i + 24)),
        Option::None => Option::None,
    }
}

fn folder_check_at(s: &str, i: usize) -> (r: bool)
    requires
        i <= s@.len(),
    ensures
        r == folder_at(s@, i as int),
{
    let len: usize = s.unicode_len();
    if len - i < 24 {
        return false;
    }
    if !match_at(s, i, "Recovery_") {
        proof {
            reveal_strlit("Recovery_");
        }
        return false;
    }
    proof {
        reveal_strlit("Recovery_");
    }
    let mut k: usize = i + 9;
    while k < i + 17
        invariant
            i + 9 <= k <= i + 17,
            i + 24 <= s@.len() <= usize::MAX,
            forall|j: int| i + 9 <= j < k ==> is_digit(#[trigger] s@[j]),
        decreases i + 17 - k,
    {
        if !char_is_digit(s.get_char(k)) {
            return false;
        }
        k = k + 1;
    }
    if s.get_char(i + 17) != '_' {
        return false;
    }
    let mut k2: usize = i + 18;
    while k2 < i + 24
        invariant
            i + 18 <= k2 <= i + 24,
            i + 24 <= s@.len() <= usize::MAX,
            forall|j: int| i + 18 <= j < k2 ==> is_digit(#[trigger] s@[j]),
        decreases i + 24 - k2,
    {
        if !char_is_digit(s.get_char(k2)) {
            return false;
        }
        k2 = k2 + 1;
    }
    true
}

/// Extract the line's leftmost output-folder name.
pub fn extract_folder(s: &str) -> (r: Option<String>)
    ensures
        match r {
            Option::Some(f) => folder_capture(s@) == Option::Some(f@),
            Option::None => folder_capture(s@) == Option::<Seq<char>>::None,
        },
{
    let len: usize = s.unicode_len();
    let mut i: usize = 0;
    loop
        invariant
            0 <= i <= len,
            len == s@.len(),
            find_folder_from(s@, 0) == find_folder_from(s@, i as int),
        decreases len - i,
    {
        if i >= len {
            return None;
        }
        if folder_check_at(s, i) {
            proof {
                assert(find_folder_from(s@, i as int) == Option::Some(i as int));
            }
            let piece: &str = s.substring_char(i, i + 24);
            return Some(piece.to_owned());
        }
        i = i + 1;
    }
}

} // verus!

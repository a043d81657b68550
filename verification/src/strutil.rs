//! Character and string helpers shared by the command builder, the line
//! classifier and the catalogue: whitespace trimming, ASCII case folding,
//! lexicographic comparison, and decimal rendering of integers.

use vstd::prelude::*;
use vstd::string::*;

verus! {

/// The characters with the Unicode `White_Space` property, the set that both
/// line trimming and the whitespace run in the phase cue accept.
pub open spec fn is_space(c: char) -> bool {
    let u = c as u32;
    (9 <= u && u <= 13) || u == 32 || u == 0x85 || u == 0xA0 || u == 0x1680 || (0x2000 <= u
        && u <= 0x200A) || u == 0x2028 || u == 0x2029 || u == 0x202F || u == 0x205F || u == 0x3000
}

/// Runtime test for `is_space`.
pub fn char_is_space(c: char) -> (b: bool)
    ensures
        b == is_space(c),
{
    let u: u32 = c as u32;
    (9 <= u && u <= 13) || u == 32 || u == 0x85 || u == 0xA0 || u == 0x1680 || (0x2000 <= u
        && u <= 0x200A) || u == 0x2028 || u == 0x2029 || u == 0x202F || u == 0x205F || u == 0x3000
}

/// ASCII case folding on a single character, as a code point.
pub open spec fn fold_u32(c: char) -> u32 {
    let u = c as u32;
    if 65 <= u && u <= 90 {
        (u + 32) as u32
    } else {
        u
    }
}

/// Two characters are equal up to ASCII case.
pub open spec fn eq_ci(a: char, b: char) -> bool {
    fold_u32(a) == fold_u32(b)
}

/// Runtime test for `eq_ci`.
pub fn char_eq_ci(a: char, b: char) -> (r: bool)
    ensures
        r == eq_ci(a, b),
{
    let ua: u32 = a as u32;
    let ub: u32 = b as u32;
    let fa: u32 = if 65 <= ua && ua <= 90 {
        ua + 32
    } else {
        ua
    };
    let fb: u32 = if 65 <= ub && ub <= 90 {
        ub + 32
    } else {
        ub
    };
    fa == fb
}

/// Two character sequences are equal up to ASCII case.
pub open spec fn seq_eq_ci(a: Seq<char>, b: Seq<char>) -> bool {
    a.len() == b.len() && forall|i: int| 0 <= i < a.len() ==> eq_ci(a[i], b[i])
}

/// Runtime test for `seq_eq_ci`.
pub fn str_eq_ci(a: &str, b: &str) -> (r: bool)
    ensures
        r == seq_eq_ci(a@, b@),
{
    let alen: usize = a.unicode_len();
    let blen: usize = b.unicode_len();
    if alen != blen {
        return false;
    }
    let mut i: usize = 0;
    while i < alen
        invariant
            i <= alen,
            alen == a@.len(),
            alen == b@.len(),
            forall|j: int| 0 <= j < i ==> eq_ci(a@[j], b@[j]),
        decreases alen - i,
    {
        if !char_eq_ci(a.get_char(i), b.get_char(i)) {
            return false;
        }
        i = i + 1;
    }
    true
}

/// Exact string equality, decided character by character.
pub fn str_eq(a: &str, b: &str) -> (r: bool)
    ensures
        r == (a@ == b@),
{
    let alen: usize = a.unicode_len();
    let blen: usize = b.unicode_len();
    if alen != blen {
        return false;
    }
    let mut i: usize = 0;
    while i < alen
        invariant
            i <= alen,
            alen == a@.len(),
            alen == b@.len(),
            forall|j: int| 0 <= j < i ==> a@[j] == b@[j],
        decreases alen - i,
    {
        if a.get_char(i) != b.get_char(i) {
            return false;
        }
        i = i + 1;
    }
    proof {
        assert(a@ =~= b@);
    }
    true
}

/// Whether `p` is a prefix of `s`.
pub open spec fn has_prefix(s: Seq<char>, p: Seq<char>) -> bool {
    p.len() <= s.len() && s.take(p.len() as int) == p
}

/// Decide `has_prefix` on string slices.
pub fn str_has_prefix(s: &str, p: &str) -> (r: bool)
    ensures
        r == has_prefix(s@, p@),
{
    let slen: usize = s.unicode_len();
    let plen: usize = p.unicode_len();
    if plen > slen {
        return false;
    }
    let mut i: usize = 0;
    while i < plen
        invariant
            0 <= i <= plen,
            plen <= slen,
            slen == s@.len(),
            plen == p@.len(),
            forall|j: int| 0 <= j < i ==> s@[j] == p@[j],
        decreases plen - i,
    {
        if s.get_char(i) != p.get_char(i) {
            proof {
                assert(s@.take(plen as int)[i as int] != p@[i as int]);
            }
            return false;
        }
        i = i + 1;
    }
    proof {
        assert(s@.take(plen as int) =~= p@);
    }
    true
}

/// Drop the leading whitespace of a character sequence.
pub open spec fn trim_start(s: Seq<char>) -> Seq<char>
    decreases s.len(),
{
    if s.len() > 0 && is_space(s[0]) {
        trim_start(s.drop_first())
    } else {
        s
    }
}

/// Drop the trailing whitespace of a character sequence.
pub open spec fn trim_end(s: Seq<char>) -> Seq<char>
    decreases s.len(),
{
    if s.len() > 0 && is_space(s[s.len() - 1]) {
        trim_end(s.drop_last())
    } else {
        s
    }
}

/// Drop whitespace at both ends, as the classifier trims each decoded line.
pub open spec fn trimmed(s: Seq<char>) -> Seq<char> {
    trim_end(trim_start(s))
}

proof fn lemma_trim_start_skip(s: Seq<char>, i: int)
    requires
        0 <= i <= s.len(),
        forall|k: int| 0 <= k < i ==> is_space(s[k]),
        i < s.len() ==> !is_space(s[i]),
    ensures
        trim_start(s) == s.skip(i),
    decreases i,
{
    if i == 0 {
        if s.len() > 0 {
            assert(!is_space(s[0]));
        }
        assert(s.skip(0) =~= s);
    } else {
        assert(is_space(s[0]));
        lemma_trim_start_skip(s.drop_first(), i - 1);
        assert(s.drop_first().skip(i - 1) =~= s.skip(i));
    }
}

proof fn lemma_trim_end_take(s: Seq<char>, j: int)
    requires
        0 <= j <= s.len(),
        forall|k: int| j <= k < s.len() ==> is_space(s[k]),
        j > 0 ==> !is_space(s[j - 1]),
    ensures
        trim_end(s) == s.take(j),
    decreases s.len() - j,
{
    if j == s.len() {
        if s.len() > 0 {
            assert(!is_space(s[s.len() - 1]));
        }
        assert(s.take(j) =~= s);
    } else {
        assert(is_space(s[s.len() - 1]));
        lemma_trim_end_take(s.drop_last(), j);
        assert(s.drop_last().take(j) =~= s.take(j));
    }
}

/// Trim whitespace from both ends of a line.
pub fn trim_str(s: &str) -> (r: String)
    ensures
        r@ == trimmed(s@),
{
    let len: usize = s.unicode_len();
    let mut i: usize = 0;
    while i < len && char_is_space(s.get_char(i))
        invariant
            i <= len,
            len == s@.len(),
            forall|k: int| 0 <= k < i ==> is_space(s@[k]),
        decreases len - i,
    {
        i = i + 1;
    }
    let mut j: usize = len;
    while j > i && char_is_space(s.get_char(j - 1))
        invariant
            i <= j <= len,
            len == s@.len(),
            forall|k: int| 0 <= k < i ==> is_space(s@[k]),
            forall|k: int| j <= k < len ==> is_space(s@[k]),
        decreases j,
    {
        j = j - 1;
    }
    proof {
        lemma_trim_start_skip(s@, i as int);
        if j == i {
            lemma_trim_end_take(s@.skip(i as int), 0);
        } else {
            lemma_trim_end_take(s@.skip(i as int), j - i);
        }
        assert(s@.skip(i as int).take(j - i) =~= s@.subrange(i as int, j as int));
    }
    let piece: &str = s.substring_char(i, j);
    piece.to_owned()
}

/// The view of each string in a sequence of strings.
pub open spec fn strs(v: Seq<String>) -> Seq<Seq<char>> {
    v.map_values(|s: String| s@)
}

/// The decimal digit `d` as a character.
pub open spec fn digit_char(d: nat) -> char {
    if d == 0 {
        '0'
    } else if d == 1 {
        '1'
    } else if d == 2 {
        '2'
    } else if d == 3 {
        '3'
    } else if d == 4 {
        '4'
    } else if d == 5 {
        '5'
    } else if d == 6 {
        '6'
    } else if d == 7 {
        '7'
    } else if d == 8 {
        '8'
    } else {
        '9'
    }
}

/// The decimal rendering of a natural number, most significant digit first.
pub open spec fn dec_seq(n: nat) -> Seq<char>
    decreases n,
{
    if n < 10 {
        seq![digit_char(n)]
    } else {
        dec_seq(n / 10).push(digit_char(n % 10))
    }
}

/// The decimal rendering of an integer, with a leading minus sign when
/// negative.
pub open spec fn int_dec_seq(n: int) -> Seq<char> {
    if n >= 0 {
        dec_seq(n as nat)
    } else {
        seq!['-'] + dec_seq((-n) as nat)
    }
}

fn digit_str(d: u64) -> (r: &'static str)
    requires
        d < 10,
    ensures
        r@ == seq![digit_char(d as nat)],
{
    if d == 0 {
        proof {
            reveal_strlit("0");
        }
        "0"
    } else if d == 1 {
        proof {
            reveal_strlit("1");
        }
        "1"
    } else if d == 2 {
        proof {
            reveal_strlit("2");
        }
        "2"
    } else if d == 3 {
        proof {
            reveal_strlit("3");
        }
        "3"
    } else if d == 4 {
        proof {
            reveal_strlit("4");
        }
        "4"
    } else if d == 5 {
        proof {
            reveal_strlit("5");
        }
        "5"
    } else if d == 6 {
        proof {
            reveal_strlit("6");
        }
        "6"
    } else if d == 7 {
        proof {
            reveal_strlit("7");
        }
        "7"
    } else if d == 8 {
        proof {
            reveal_strlit("8");
        }
        "8"
    } else {
        proof {
            reveal_strlit("9");
        }
        "9"
    }
}

/// Render a natural number in decimal.
pub fn u64_to_string(n: u64) -> (s: String)
    ensures
        s@ == dec_seq(n as nat),
    decreases n,
{
    if n < 10 {
        digit_str(n).to_owned()
    } else {
        let mut s: String = u64_to_string(n / 10);
        s.append(digit_str(n % 10));
        s
    }
}

/// Render a signed 32-bit integer in decimal, as exit codes are reported.
pub fn i32_to_string(n: i32) -> (s: String)
    ensures
        s@ == int_dec_seq(n as int),
{
    if n >= 0 {
        u64_to_string(n as u64)
    } else {
        let m: u64 = (-(n as i64)) as u64;
        let mut s: String = String::from_str("-");
        proof {
            reveal_strlit("-");
        }
        s.append(u64_to_string(m).as_str());
        s
    }
}

/// Lexicographic order on character sequences by code point, the order in
/// which the catalogue is sorted.
pub open spec fn lex_le(a: Seq<char>, b: Seq<char>) -> bool
    decreases a.len(),
{
    if a.len() == 0 {
        true
    } else if b.len() == 0 {
        false
    } else if (a[0] as u32) < (b[0] as u32) {
        true
    } else if (a[0] as u32) > (b[0] as u32) {
        false
    } else {
        lex_le(a.drop_first(), b.drop_first())
    }
}

proof fn lemma_lex_le_step(a: Seq<char>, b: Seq<char>, i: int)
    requires
        0 <= i < a.len(),
        0 <= i < b.len(),
        a[i] == b[i],
    ensures
        lex_le(a.skip(i), b.skip(i)) == lex_le(a.skip(i + 1), b.skip(i + 1)),
{
    assert(a.skip(i)[0] == a[i]);
    assert(b.skip(i)[0] == b[i]);
    assert(a.skip(i).drop_first() =~= a.skip(i + 1));
    assert(b.skip(i).drop_first() =~= b.skip(i + 1));
}

/// Decide `lex_le` on string slices.
pub fn str_lex_le(a: &str, b: &str) -> (r: bool)
    ensures
        r == lex_le(a@, b@),
{
    let alen: usize = a.unicode_len();
    let blen: usize = b.unicode_len();
    let mut i: usize = 0;
    proof {
        assert(a@.skip(0) =~= a@);
        assert(b@.skip(0) =~= b@);
    }
    loop
        invariant
            i <= alen,
            i <= blen,
            alen == a@.len(),
            blen == b@.len(),
            lex_le(a@, b@) == lex_le(a@.skip(i as int), b@.skip(i as int)),
        decreases alen - i,
    {
        if i == alen {
            return true;
        }
        if i == blen {
            return false;
        }
        let ca: char = a.get_char(i);
        let cb: char = b.get_char(i);
        if (ca as u32) < (cb as u32) {
            return true;
        }
        if (ca as u32) > (cb as u32) {
            return false;
        }
        proof {
            lemma_lex_le_step(a@, b@, i as int);
        }
        i = i + 1;
    }
}

/// Characters with the same code point are the same character.
proof fn lemma_char_eq_from_u32(c1: char, c2: char)
    requires
        c1 as u32 == c2 as u32,
    ensures
        c1 == c2,
{
}

/// Strict lexicographic order by code point.
pub open spec fn lex_lt(a: Seq<char>, b: Seq<char>) -> bool {
    lex_le(a, b) && a != b
}

/// `lex_le` is total: two sequences always compare one way or the other.
pub proof fn lemma_lex_le_total(a: Seq<char>, b: Seq<char>)
    ensures
        lex_le(a, b) || lex_le(b, a),
    decreases a.len(),
{
    if a.len() > 0 && b.len() > 0 {
        if !((a[0] as u32) < (b[0] as u32)) && !((a[0] as u32) > (b[0] as u32)) {
            assert((a[0] as u32) == (b[0] as u32));
            lemma_char_eq_from_u32(a[0], b[0]);
            lemma_lex_le_total(a.drop_first(), b.drop_first());
        }
    }
}

/// `lex_le` is antisymmetric: sequences comparing both ways are equal.
pub proof fn lemma_lex_le_antisym(a: Seq<char>, b: Seq<char>)
    requires
        lex_le(a, b),
        lex_le(b, a),
    ensures
        a == b,
    decreases a.len(),
{
    if a.len() == 0 {
        assert(b.len() == 0);
        assert(a =~= b);
    } else {
        assert(b.len() > 0);
        assert(!((a[0] as u32) > (b[0] as u32)));
        assert(!((b[0] as u32) > (a[0] as u32)));
        assert((a[0] as u32) == (b[0] as u32));
        lemma_char_eq_from_u32(a[0], b[0]);
        lemma_lex_le_antisym(a.drop_first(), b.drop_first());
        assert forall|i: int| 0 <= i < a.len() implies a[i] == b[i] by {
            if i > 0 {
                assert(a.drop_first()[i - 1] == b.drop_first()[i - 1]);
            }
        }
        assert(a =~= b);
    }
}

/// `lex_le` is transitive.
pub proof fn lemma_lex_le_trans(a: Seq<char>, b: Seq<char>, c: Seq<char>)
    requires
        lex_le(a, b),
        lex_le(b, c),
    ensures
        lex_le(a, c),
    decreases a.len(),
{
    if a.len() > 0 && b.len() > 0 && c.len() > 0 {
        if (a[0] as u32) == (b[0] as u32) && (b[0] as u32) == (c[0] as u32) {
            lemma_char_eq_from_u32(a[0], b[0]);
            lemma_char_eq_from_u32(b[0], c[0]);
            lemma_lex_le_trans(a.drop_first(), b.drop_first(), c.drop_first());
        }
    }
}

/// The parts joined with the separator between consecutive parts.
pub open spec fn join_with(parts: Seq<Seq<char>>, sep: Seq<char>) -> Seq<char>
    decreases parts.len(),
{
    if parts.len() == 0 {
        Seq::empty()
    } else if parts.len() == 1 {
        parts[0]
    } else {
        parts[0] + sep + join_with(parts.drop_first(), sep)
    }
}

proof fn lemma_join_push(parts: Seq<Seq<char>>, sep: Seq<char>, x: Seq<char>)
    ensures
        parts.len() == 0 ==> join_with(parts.push(x), sep) == x,
        parts.len() > 0 ==> join_with(parts.push(x), sep) == join_with(parts, sep) + sep + x,
    decreases parts.len(),
{
    if parts.len() == 0 {
        assert(parts.push(x)[0] == x);
    } else if parts.len() == 1 {
        assert(parts.push(x).drop_first() =~= seq![x]);
        assert(parts.push(x)[0] == parts[0]);
        assert(join_with(seq![x], sep) == x);
        assert(join_with(parts.push(x), sep) == parts[0] + sep + x);
    } else {
        lemma_join_push(parts.drop_first(), sep, x);
        assert(parts.push(x).drop_first() =~= parts.drop_first().push(x));
    }
}

/// Join the strings with the separator.
pub fn join_strings(v: &Vec<String>, sep: &str) -> (r: String)
    ensures
        r@ == join_with(strs(v@), sep@),
{
    let mut acc: String = String::new();
    let mut i: usize = 0;
    proof {
        assert(strs(v@).take(0) =~= Seq::<Seq<char>>::empty());
    }
    while i < v.len()
        invariant
            i <= v@.len(),
            acc@ == join_with(strs(v@).take(i as int), sep@),
        decreases v@.len() - i,
    {
        proof {
            lemma_join_push(strs(v@).take(i as int), sep@, strs(v@)[i as int]);
            assert(strs(v@).take(i as int).push(strs(v@)[i as int]) =~= strs(v@).take(i + 1));
        }
        if i > 0 {
            acc.append(sep);
        }
        acc.append(v[i].as_str());
        i = i + 1;
    }
    proof {
        assert(strs(v@).take(v@.len() as int) =~= strs(v@));
    }
    acc
}

} // verus!

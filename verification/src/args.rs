//! The command builder: a pure function from a recovery configuration to the
//! ordered token list handed to the external recovery tool.  Modes are
//! mutually exclusive and resolve by precedence signature > segment >
//! extensive > regular; two switches are withheld in known-incompatible
//! combinations; filters expand per mode.

use vstd::prelude::*;
use vstd::string::*;
use crate::config::RecoveryConfig;
use crate::strutil::{strs, seq_eq_ci, str_eq, str_eq_ci, join_with, join_strings};

verus! {

/// The destination with a trailing path separator enforced.
pub open spec fn dest_with_sep(d: Seq<char>) -> Seq<char> {
    if d.len() > 0 && (d[d.len() - 1] == '\\' || d[d.len() - 1] == '/') {
        d
    } else {
        d + "\\"@
    }
}

/// Whether the declared source filesystem is "exfat", up to ASCII case.
pub open spec fn exfat_declared(c: RecoveryConfig) -> bool {
    match c.source_fs {
        Option::Some(fs) => seq_eq_ci(fs@, "exfat"@),
        Option::None => false,
    }
}

/// The mode flag combination, by precedence: signature and segment are deep
/// scans layered on the extensive scan; otherwise the base selector decides.
pub open spec fn mode_tokens(c: RecoveryConfig) -> Seq<Seq<char>> {
    if c.signature_mode {
        seq!["/extensive"@, "/x"@]
    } else if c.segment_mode {
        seq!["/extensive"@, "/r"@]
    } else if c.mode@ == "extensive"@ {
        seq!["/extensive"@]
    } else {
        seq!["/regular"@]
    }
}

/// The independent boolean switches, in emission order.  Keep-both is
/// withheld under the signature scan and on a declared exfat source (a crash
/// workaround); verbose is withheld under the signature scan.
pub open spec fn flag_tokens(c: RecoveryConfig) -> Seq<Seq<char>> {
    (if c.auto_accept {
        seq!["/a"@]
    } else {
        Seq::<Seq<char>>::empty()
    }) + (if c.keep_both && !c.signature_mode && !exfat_declared(c) {
        seq!["/o:b"@]
    } else {
        Seq::<Seq<char>>::empty()
    }) + (if c.recover_non_deleted {
        seq!["/u"@]
    } else {
        Seq::<Seq<char>>::empty()
    }) + (if c.recover_system_files {
        seq!["/k"@]
    } else {
        Seq::<Seq<char>>::empty()
    }) + (if c.keep_all_extensions {
        seq!["/e"@]
    } else {
        Seq::<Seq<char>>::empty()
    }) + (if c.verbose_mode && !c.signature_mode {
        seq!["/v"@]
    } else {
        Seq::<Seq<char>>::empty()
    })
}

/// The signature-scan format groups, indexed in the lexicographic order of
/// their names: ASF, JPEG, MP3, MPEG, PDF, PNG, ZIP.
pub open spec fn group_name(g: int) -> Seq<char> {
    if g == 0 {
        "ASF"@
    } else if g == 1 {
        "JPEG"@
    } else if g == 2 {
        "MP3"@
    } else if g == 3 {
        "MPEG"@
    } else if g == 4 {
        "PDF"@
    } else if g == 5 {
        "PNG"@
    } else {
        "ZIP"@
    }
}

/// Whether one filter names group `g` under the signature scan;
/// unrecognized names map to no group and are silently dropped.
pub open spec fn filter_has_group(f: Seq<char>, g: int) -> bool {
    if f == "Images"@ {
        g == 1 || g == 5
    } else if f == "Documents"@ {
        g == 4 || g == 6
    } else if f == "Videos"@ {
        g == 3
    } else if f == "Audio"@ {
        g == 2 || g == 0
    } else if f == "Archives"@ {
        g == 6
    } else {
        false
    }
}

/// Whether group `g` is named by any of the filters.
pub open spec fn group_present(filters: Seq<Seq<char>>, g: int) -> bool
    decreases filters.len(),
{
    if filters.len() == 0 {
        false
    } else {
        filter_has_group(filters[0], g) || group_present(filters.drop_first(), g)
    }
}

/// The names of the present groups, in sorted order and without duplicates.
pub open spec fn present_group_names(filters: Seq<Seq<char>>) -> Seq<Seq<char>> {
    (if group_present(filters, 0) {
        seq![group_name(0)]
    } else {
        Seq::<Seq<char>>::empty()
    }) + (if group_present(filters, 1) {
        seq![group_name(1)]
    } else {
        Seq::<Seq<char>>::empty()
    }) + (if group_present(filters, 2) {
        seq![group_name(2)]
    } else {
        Seq::<Seq<char>>::empty()
    }) + (if group_present(filters, 3) {
        seq![group_name(3)]
    } else {
        Seq::<Seq<char>>::empty()
    }) + (if group_present(filters, 4) {
        seq![group_name(4)]
    } else {
        Seq::<Seq<char>>::empty()
    }) + (if group_present(filters, 5) {
        seq![group_name(5)]
    } else {
        Seq::<Seq<char>>::empty()
    }) + (if group_present(filters, 6) {
        seq![group_name(6)]
    } else {
        Seq::<Seq<char>>::empty()
    })
}

/// The filter tokens under the signature scan: one group-filter token with
/// the sorted, deduplicated group names joined by commas, or nothing when no
/// known category was named.
pub open spec fn sig_filter_tokens(filters: Seq<Seq<char>>) -> Seq<Seq<char>> {
    if present_group_names(filters).len() == 0 {
        Seq::<Seq<char>>::empty()
    } else {
        seq!["/y:"@ + join_with(present_group_names(filters), ","@)]
    }
}

/// The glob-extension tokens of the Images category.
pub open spec fn images_tokens() -> Seq<Seq<char>> {
    seq![
        "/n"@,
        "*.jpg"@,
        "/n"@,
        "*.jpeg"@,
        "/n"@,
        "*.png"@,
        "/n"@,
        "*.gif"@,
        "/n"@,
        "*.bmp"@,
        "/n"@,
        "*.webp"@,
        "/n"@,
        "*.heic"@,
        "/n"@,
        "*.raw"@,
    ]
}

/// The glob-extension tokens of the Documents category.
pub open spec fn documents_tokens() -> Seq<Seq<char>> {
    seq![
        "/n"@,
        "*.pdf"@,
        "/n"@,
        "*.doc"@,
        "/n"@,
        "*.docx"@,
        "/n"@,
        "*.xls"@,
        "/n"@,
        "*.xlsx"@,
        "/n"@,
        "*.ppt"@,
        "/n"@,
        "*.pptx"@,
        "/n"@,
        "*.txt"@,
        "/n"@,
        "*.rtf"@,
        "/n"@,
        "*.odt"@,
        "/n"@,
        "*.csv"@,
    ]
}

/// The glob-extension tokens of the Videos category.
pub open spec fn videos_tokens() -> Seq<Seq<char>> {
    seq![
        "/n"@,
        "*.mp4"@,
        "/n"@,
        "*.avi"@,
        "/n"@,
        "*.mkv"@,
        "/n"@,
        "*.mov"@,
        "/n"@,
        "*.wmv"@,
        "/n"@,
        "*.flv"@,
        "/n"@,
        "*.webm"@,
        "/n"@,
        "*.m4v"@,
    ]
}

/// The glob-extension tokens of the Audio category.
pub open spec fn audio_tokens() -> Seq<Seq<char>> {
    seq![
        "/n"@,
        "*.mp3"@,
        "/n"@,
        "*.wav"@,
        "/n"@,
        "*.flac"@,
        "/n"@,
        "*.aac"@,
        "/n"@,
        "*.ogg"@,
        "/n"@,
        "*.wma"@,
        "/n"@,
        "*.m4a"@,
    ]
}

/// The glob-extension tokens of the Archives category.
pub open spec fn archives_tokens() -> Seq<Seq<char>> {
    seq![
        "/n"@,
        "*.zip"@,
        "/n"@,
        "*.rar"@,
        "/n"@,
        "*.7z"@,
        "/n"@,
        "*.tar"@,
        "/n"@,
        "*.gz"@,
        "/n"@,
        "*.bz2"@,
        "/n"@,
        "*.iso"@,
    ]
}

/// The tokens one filter expands to outside the signature scan: a known
/// category becomes its table of filter-flag/glob pairs, anything else
/// passes through verbatim as a single custom filter.
pub open spec fn nonsig_one(f: Seq<char>) -> Seq<Seq<char>> {
    if f == "Images"@ {
        images_tokens()
    } else if f == "Documents"@ {
        documents_tokens()
    } else if f == "Videos"@ {
        videos_tokens()
    } else if f == "Audio"@ {
        audio_tokens()
    } else if f == "Archives"@ {
        archives_tokens()
    } else {
        seq!["/n"@, f]
    }
}

/// The filter tokens outside the signature scan, in filter order.
pub open spec fn nonsig_tokens(filters: Seq<Seq<char>>) -> Seq<Seq<char>>
    decreases filters.len(),
{
    if filters.len() == 0 {
        Seq::<Seq<char>>::empty()
    } else {
        nonsig_one(filters[0]) + nonsig_tokens(filters.drop_first())
    }
}

/// The filter tokens of a configuration, per its mode.
pub open spec fn filter_tokens(c: RecoveryConfig) -> Seq<Seq<char>> {
    if c.signature_mode {
        sig_filter_tokens(strs(c.filters@))
    } else {
        nonsig_tokens(strs(c.filters@))
    }
}

/// The whole token list: source, destination with separator, mode flags,
/// boolean switches, filter tokens.
pub open spec fn winfr_args_spec(c: RecoveryConfig) -> Seq<Seq<char>> {
    seq![c.source@, dest_with_sep(c.destination@)] + mode_tokens(c) + flag_tokens(c)
        + filter_tokens(c)
}

/// The position of a group name in the fixed sorted order of the group
/// names; unknown strings sort last.
pub open spec fn group_order(n: Seq<char>) -> int {
    if n == "ASF"@ {
        0
    } else if n == "JPEG"@ {
        1
    } else if n == "MP3"@ {
        2
    } else if n == "MPEG"@ {
        3
    } else if n == "PDF"@ {
        4
    } else if n == "PNG"@ {
        5
    } else if n == "ZIP"@ {
        6
    } else {
        7
    }
}

proof fn lemma_group_names_distinct()
    ensures
        forall|g: int, h: int| 0 <= g < 7 && 0 <= h < 7 && g != h ==> group_name(g) != group_name(h),
        forall|g: int| 0 <= g < 7 ==> group_order(#[trigger] group_name(g)) == g,
{
    reveal_strlit("ASF");
    reveal_strlit("JPEG");
    reveal_strlit("MP3");
    reveal_strlit("MPEG");
    reveal_strlit("PDF");
    reveal_strlit("PNG");
    reveal_strlit("ZIP");
    assert(group_name(0).len() == 3);
    assert(group_name(1).len() == 4);
    assert(group_name(2).len() == 3);
    assert(group_name(3).len() == 4);
    assert(group_name(4).len() == 3);
    assert(group_name(5).len() == 3);
    assert(group_name(6).len() == 3);
    assert(group_name(0)[0] == 'A');
    assert(group_name(2)[0] == 'M');
    assert(group_name(4)[0] == 'P');
    assert(group_name(5)[0] == 'P');
    assert(group_name(6)[0] == 'Z');
    assert(group_name(4)[1] == 'D');
    assert(group_name(5)[1] == 'N');
    assert(group_name(1)[1] == 'P');
    assert(group_name(3)[1] == 'P');
    assert(group_name(1)[0] == 'J');
    assert(group_name(3)[0] == 'M');
}

/// Exactly one mode flag combination is emitted, by precedence signature >
/// segment > extensive > regular, and the four combinations are pairwise
/// distinct token lists.
pub proof fn lemma_mode_precedence(c: RecoveryConfig)
    ensures
        c.signature_mode ==> mode_tokens(c) == seq!["/extensive"@, "/x"@],
        !c.signature_mode && c.segment_mode ==> mode_tokens(c) == seq!["/extensive"@, "/r"@],
        !c.signature_mode && !c.segment_mode && c.mode@ == "extensive"@ ==> mode_tokens(c)
            == seq!["/extensive"@],
        !c.signature_mode && !c.segment_mode && c.mode@ != "extensive"@ ==> mode_tokens(c)
            == seq!["/regular"@],
        seq!["/extensive"@, "/x"@] != seq!["/extensive"@, "/r"@],
        seq!["/extensive"@] != seq!["/regular"@],
        seq!["/extensive"@, "/x"@].len() != seq!["/extensive"@].len(),
{
    reveal_strlit("/x");
    reveal_strlit("/r");
    reveal_strlit("/extensive");
    reveal_strlit("/regular");
    assert("/x"@[1] == 'x');
    assert("/r"@[1] == 'r');
    assert("/extensive"@.len() == 10);
    assert("/regular"@.len() == 8);
    assert(seq!["/extensive"@, "/x"@][1] == "/x"@);
    assert(seq!["/extensive"@, "/r"@][1] == "/r"@);
    assert(seq!["/extensive"@][0] == "/extensive"@);
    assert(seq!["/regular"@][0] == "/regular"@);
}

/// The keep-both switch is never emitted when the signature scan is set or
/// the declared source filesystem is exfat: neither among the mode flags nor
/// among the boolean switches, and under the signature scan not among the
/// filter tokens either.  (Source, destination and custom filter values pass
/// through verbatim and are the caller's text, not switches the builder
/// emits.)
pub proof fn lemma_keep_both_withheld(c: RecoveryConfig)
    requires
        c.signature_mode || exfat_declared(c),
    ensures
        !mode_tokens(c).contains("/o:b"@),
        !flag_tokens(c).contains("/o:b"@),
        c.signature_mode ==> !filter_tokens(c).contains("/o:b"@),
{
    reveal_strlit("/o:b");
    reveal_strlit("/extensive");
    reveal_strlit("/x");
    reveal_strlit("/r");
    reveal_strlit("/regular");
    reveal_strlit("/a");
    reveal_strlit("/u");
    reveal_strlit("/k");
    reveal_strlit("/e");
    reveal_strlit("/v");
    reveal_strlit("/y:");
    assert("/o:b"@.len() == 4);
    assert("/extensive"@.len() == 10);
    assert("/x"@.len() == 2);
    assert("/r"@.len() == 2);
    assert("/regular"@.len() == 8);
    assert("/a"@.len() == 2);
    assert("/u"@.len() == 2);
    assert("/k"@.len() == 2);
    assert("/e"@.len() == 2);
    assert("/v"@.len() == 2);
    assert forall|i: int| 0 <= i < mode_tokens(c).len() implies mode_tokens(c)[i]
        != "/o:b"@ by {
        assert(mode_tokens(c)[i].len() != 4);
    }
    assert forall|i: int| 0 <= i < flag_tokens(c).len() implies flag_tokens(c)[i]
        != "/o:b"@ by {
        assert(flag_tokens(c)[i].len() == 2);
    }
    if c.signature_mode {
        let names = present_group_names(strs(c.filters@));
        if names.len() > 0 {
            assert(filter_tokens(c)[0] == "/y:"@ + join_with(names, ","@));
            assert(("/y:"@ + join_with(names, ","@))[1] == 'y');
            assert("/o:b"@[1] == 'o');
        }
    }
}

/// The verbose switch is never emitted when the signature scan is set:
/// neither among the mode flags, nor the boolean switches, nor the filter
/// tokens.
pub proof fn lemma_verbose_withheld(c: RecoveryConfig)
    requires
        c.signature_mode,
    ensures
        !mode_tokens(c).contains("/v"@),
        !flag_tokens(c).contains("/v"@),
        !filter_tokens(c).contains("/v"@),
{
    reveal_strlit("/v");
    reveal_strlit("/extensive");
    reveal_strlit("/x");
    reveal_strlit("/a");
    reveal_strlit("/o:b");
    reveal_strlit("/u");
    reveal_strlit("/k");
    reveal_strlit("/e");
    reveal_strlit("/y:");
    assert("/v"@.len() == 2);
    assert("/v"@[1] == 'v');
    assert("/extensive"@.len() == 10);
    assert("/x"@[1] == 'x');
    assert("/a"@[1] == 'a');
    assert("/o:b"@.len() == 4);
    assert("/u"@[1] == 'u');
    assert("/k"@[1] == 'k');
    assert("/e"@[1] == 'e');
    assert forall|i: int| 0 <= i < mode_tokens(c).len() implies mode_tokens(c)[i] != "/v"@ by {
        if mode_tokens(c)[i].len() == 2 {
            assert(mode_tokens(c)[i][1] == 'x');
        }
    }
    assert forall|i: int| 0 <= i < flag_tokens(c).len() implies flag_tokens(c)[i] != "/v"@ by {
        if flag_tokens(c)[i].len() == 2 {
            assert(flag_tokens(c)[i][1] != 'v');
        }
    }
    let names = present_group_names(strs(c.filters@));
    if names.len() > 0 {
        assert(filter_tokens(c)[0] == "/y:"@ + join_with(names, ","@));
        assert(("/y:"@ + join_with(names, ","@))[1] == 'y');
    }
}

/// Under the signature scan the filter output is a single group token (or
/// none, when no known category was named), holding the present group
/// names joined by commas, each name exactly once and in the fixed sorted
/// order of the names.
pub proof fn lemma_signature_filter_shape(c: RecoveryConfig)
    requires
        c.signature_mode,
    ensures
        filter_tokens(c).len() <= 1,
        filter_tokens(c).len() == 1 <==> present_group_names(strs(c.filters@)).len() > 0,
        filter_tokens(c).len() == 1 ==> filter_tokens(c)[0] == "/y:"@ + join_with(
            present_group_names(strs(c.filters@)),
            ","@,
        ),
        forall|i: int, j: int|
            0 <= i < j < present_group_names(strs(c.filters@)).len() ==> group_order(
                present_group_names(strs(c.filters@))[i],
            ) < group_order(present_group_names(strs(c.filters@))[j]),
{
    lemma_group_names_distinct();
}

/// Outside the signature scan each known category expands to one
/// filter-flag/glob pair per extension of its fixed table: the token list
/// has twice the table's length, with the filter flag at every even index.
pub proof fn lemma_category_filter_counts()
    ensures
        images_tokens().len() == 16,
        documents_tokens().len() == 22,
        videos_tokens().len() == 16,
        audio_tokens().len() == 14,
        archives_tokens().len() == 14,
        forall|i: int| 0 <= i < 16 && i % 2 == 0 ==> #[trigger] images_tokens()[i] == "/n"@,
        forall|i: int| 0 <= i < 22 && i % 2 == 0 ==> #[trigger] documents_tokens()[i] == "/n"@,
        forall|i: int| 0 <= i < 16 && i % 2 == 0 ==> #[trigger] videos_tokens()[i] == "/n"@,
        forall|i: int| 0 <= i < 14 && i % 2 == 0 ==> #[trigger] audio_tokens()[i] == "/n"@,
        forall|i: int| 0 <= i < 14 && i % 2 == 0 ==> #[trigger] archives_tokens()[i] == "/n"@,
{
}

/// The group names stand in strictly increasing lexicographic order under
/// their fixed indexing, so the signature filter token's names are sorted
/// by name, not merely by index.
pub proof fn lemma_group_names_lex_sorted()
    ensures
        forall|g: int, h: int|
            0 <= g < h < 7 ==> crate::strutil::lex_lt(group_name(g), group_name(h)),
{
    reveal_strlit("ASF");
    reveal_strlit("JPEG");
    reveal_strlit("MP3");
    reveal_strlit("MPEG");
    reveal_strlit("PDF");
    reveal_strlit("PNG");
    reveal_strlit("ZIP");
    reveal_with_fuel(crate::strutil::lex_le, 6);
    assert forall|g: int, h: int|
        0 <= g < h < 7 implies crate::strutil::lex_lt(group_name(g), group_name(h)) by {
        assert(crate::strutil::lex_lt("ASF"@, "JPEG"@));
        assert(crate::strutil::lex_lt("JPEG"@, "MP3"@));
        assert(crate::strutil::lex_lt("MP3"@, "MPEG"@));
        assert(crate::strutil::lex_lt("MPEG"@, "PDF"@));
        assert(crate::strutil::lex_lt("PDF"@, "PNG"@));
        assert(crate::strutil::lex_lt("PNG"@, "ZIP"@));
        assert(crate::strutil::lex_lt("ASF"@, "MP3"@));
        assert(crate::strutil::lex_lt("ASF"@, "MPEG"@));
        assert(crate::strutil::lex_lt("ASF"@, "PDF"@));
        assert(crate::strutil::lex_lt("ASF"@, "PNG"@));
        assert(crate::strutil::lex_lt("ASF"@, "ZIP"@));
        assert(crate::strutil::lex_lt("JPEG"@, "MPEG"@));
        assert(crate::strutil::lex_lt("JPEG"@, "PDF"@));
        assert(crate::strutil::lex_lt("JPEG"@, "PNG"@));
        assert(crate::strutil::lex_lt("JPEG"@, "ZIP"@));
        assert(crate::strutil::lex_lt("MP3"@, "PDF"@));
        assert(crate::strutil::lex_lt("MP3"@, "PNG"@));
        assert(crate::strutil::lex_lt("MP3"@, "ZIP"@));
        assert(crate::strutil::lex_lt("MPEG"@, "PNG"@));
        assert(crate::strutil::lex_lt("MPEG"@, "ZIP"@));
        assert(crate::strutil::lex_lt("PDF"@, "ZIP"@));
    }
}

proof fn lemma_strs_push(v: Seq<String>, s: String)
    ensures
        strs(v.push(s)) == strs(v).push(s@),
{
    assert(strs(v.push(s)) =~= strs(v).push(s@));
}

proof fn lemma_strs_concat(a: Seq<String>, b: Seq<String>)
    ensures
        strs(a + b) == strs(a) + strs(b),
{
    assert(strs(a + b) =~= strs(a) + strs(b));
}

proof fn lemma_group_present_push(fs: Seq<Seq<char>>, x: Seq<char>, g: int)
    ensures
        group_present(fs.push(x), g) == (group_present(fs, g) || filter_has_group(x, g)),
    decreases fs.len(),
{
    if fs.len() == 0 {
        assert(fs.push(x)[0] == x);
        assert(fs.push(x).drop_first() =~= Seq::<Seq<char>>::empty());
        assert(group_present(Seq::<Seq<char>>::empty(), g) == false);
    } else {
        assert(fs.push(x)[0] == fs[0]);
        assert(fs.push(x).drop_first() =~= fs.drop_first().push(x));
        lemma_group_present_push(fs.drop_first(), x, g);
    }
}

proof fn lemma_nonsig_push(fs: Seq<Seq<char>>, x: Seq<char>)
    ensures
        nonsig_tokens(fs.push(x)) == nonsig_tokens(fs) + nonsig_one(x),
    decreases fs.len(),
{
    if fs.len() == 0 {
        assert(fs.push(x)[0] == x);
        assert(fs.push(x).drop_first() =~= Seq::<Seq<char>>::empty());
        assert(nonsig_tokens(Seq::<Seq<char>>::empty()) =~= Seq::<Seq<char>>::empty());
        assert(nonsig_tokens(fs.push(x)) =~= nonsig_tokens(fs) + nonsig_one(x));
    } else {
        assert(fs.push(x)[0] == fs[0]);
        assert(fs.push(x).drop_first() =~= fs.drop_first().push(x));
        lemma_nonsig_push(fs.drop_first(), x);
        assert(nonsig_tokens(fs.push(x)) =~= nonsig_tokens(fs) + nonsig_one(x));
    }
}

fn push_string(args: &mut Vec<String>, s: String)
    ensures
        strs(final(args)@) == strs(old(args)@).push(s@),
{
    let ghost pre: Seq<String> = args@;
    args.push(s);
    proof {
        lemma_strs_push(pre, final(args)@[pre.len() as int]);
    }
}

fn push_tok(args: &mut Vec<String>, t: &str)
    ensures
        strs(final(args)@) == strs(old(args)@).push(t@),
{
    push_string(args, t.to_owned());
}

/// The destination argument: the destination with a trailing separator.
fn dest_arg(destination: &String) -> (r: String)
    ensures
        r@ == dest_with_sep(destination@),
{
    let len: usize = destination.as_str().unicode_len();
    if len > 0 {
        let last: char = destination.as_str().get_char(len - 1);
        if last == '\\' || last == '/' {
            return destination.clone();
        }
    }
    let mut d: String = destination.clone();
    d.append("\\");
    d
}

fn exfat_check(config: &RecoveryConfig) -> (r: bool)
    ensures
        r == exfat_declared(*config),
{
    match &config.source_fs {
        Option::Some(fs) => str_eq_ci(fs.as_str(), "exfat"),
        Option::None => false,
    }
}

fn push_images(args: &mut Vec<String>)
    ensures
        strs(final(args)@) == strs(old(args)@) + images_tokens(),
{
    push_tok(args, "/n");
    push_tok(args, "*.jpg");
    push_tok(args, "/n");
    push_tok(args, "*.jpeg");
    push_tok(args, "/n");
    push_tok(args, "*.png");
    push_tok(args, "/n");
    push_tok(args, "*.gif");
    push_tok(args, "/n");
    push_tok(args, "*.bmp");
    push_tok(args, "/n");
    push_tok(args, "*.webp");
    push_tok(args, "/n");
    push_tok(args, "*.heic");
    push_tok(args, "/n");
    push_tok(args, "*.raw");
    proof {
        assert(strs(final(args)@) =~= strs(old(args)@) + images_tokens());
    }
}

fn push_documents(args: &mut Vec<String>)
    ensures
        strs(final(args)@) == strs(old(args)@) + documents_tokens(),
{
    push_tok(args, "/n");
    push_tok(args, "*.pdf");
    push_tok(args, "/n");
    push_tok(args, "*.doc");
    push_tok(args, "/n");
    push_tok(args, "*.docx");
    push_tok(args, "/n");
    push_tok(args, "*.xls");
    push_tok(args, "/n");
    push_tok(args, "*.xlsx");
    push_tok(args, "/n");
    push_tok(args, "*.ppt");
    push_tok(args, "/n");
    push_tok(args, "*.pptx");
    push_tok(args, "/n");
    push_tok(args, "*.txt");
    push_tok(args, "/n");
    push_tok(args, "*.rtf");
    push_tok(args, "/n");
    push_tok(args, "*.odt");
    push_tok(args, "/n");
    push_tok(args, "*.csv");
    proof {
        assert(strs(final(args)@) =~= strs(old(args)@) + documents_tokens());
    }
}

fn push_videos(args: &mut Vec<String>)
    ensures
        strs(final(args)@) == strs(old(args)@) + videos_tokens(),
{
    push_tok(args, "/n");
    push_tok(args, "*.mp4");
    push_tok(args, "/n");
    push_tok(args, "*.avi");
    push_tok(args, "/n");
    push_tok(args, "*.mkv");
    push_tok(args, "/n");
    push_tok(args, "*.mov");
    push_tok(args, "/n");
    push_tok(args, "*.wmv");
    push_tok(args, "/n");
    push_tok(args, "*.flv");
    push_tok(args, "/n");
    push_tok(args, "*.webm");
    push_tok(args, "/n");
    push_tok(args, "*.m4v");
    proof {
        assert(strs(final(args)@) =~= strs(old(args)@) + videos_tokens());
    }
}

fn push_audio(args: &mut Vec<String>)
    ensures
        strs(final(args)@) == strs(old(args)@) + audio_tokens(),
{
    push_tok(args, "/n");
    push_tok(args, "*.mp3");
    push_tok(args, "/n");
    push_tok(args, "*.wav");
    push_tok(args, "/n");
    push_tok(args, "*.flac");
    push_tok(args, "/n");
    push_tok(args, "*.aac");
    push_tok(args, "/n");
    push_tok(args, "*.ogg");
    push_tok(args, "/n");
    push_tok(args, "*.wma");
    push_tok(args, "/n");
    push_tok(args, "*.m4a");
    proof {
        assert(strs(final(args)@) =~= strs(old(args)@) + audio_tokens());
    }
}

fn push_archives(args: &mut Vec<String>)
    ensures
        strs(final(args)@) == strs(old(args)@) + archives_tokens(),
{
    push_tok(args, "/n");
    push_tok(args, "*.zip");
    push_tok(args, "/n");
    push_tok(args, "*.rar");
    push_tok(args, "/n");
    push_tok(args, "*.7z");
    push_tok(args, "/n");
    push_tok(args, "*.tar");
    push_tok(args, "/n");
    push_tok(args, "*.gz");
    push_tok(args, "/n");
    push_tok(args, "*.bz2");
    push_tok(args, "/n");
    push_tok(args, "*.iso");
    proof {
        assert(strs(final(args)@) =~= strs(old(args)@) + archives_tokens());
    }
}

fn sig_filter_args(config: &RecoveryConfig) -> (r: Vec<String>)
    ensures
        strs(r@) == sig_filter_tokens(strs(config.filters@)),
{
    let ghost fv: Seq<Seq<char>> = strs(config.filters@);
    let mut p0: bool = false;
    let mut p1: bool = false;
    let mut p2: bool = false;
    let mut p3: bool = false;
    let mut p4: bool = false;
    let mut p5: bool = false;
    let mut p6: bool = false;
    let mut i: usize = 0;
    proof {
        assert(fv.take(0) =~= Seq::<Seq<char>>::empty());
    }
    while i < config.filters.len()
        invariant
            i <= config.filters@.len(),
            fv == strs(config.filters@),
            p0 == group_present(fv.take(i as int), 0),
            p1 == group_present(fv.take(i as int), 1),
            p2 == group_present(fv.take(i as int), 2),
            p3 == group_present(fv.take(i as int), 3),
            p4 == group_present(fv.take(i as int), 4),
            p5 == group_present(fv.take(i as int), 5),
            p6 == group_present(fv.take(i as int), 6),
        decreases config.filters@.len() - i,
    {
        let f: &String = &config.filters[i];
        proof {
            assert(fv[i as int] == f@);
            assert(fv.take(i as int).push(fv[i as int]) =~= fv.take(i + 1));
            lemma_group_present_push(fv.take(i as int), fv[i as int], 0);
            lemma_group_present_push(fv.take(i as int), fv[i as int], 1);
            lemma_group_present_push(fv.take(i as int), fv[i as int], 2);
            lemma_group_present_push(fv.take(i as int), fv[i as int], 3);
            lemma_group_present_push(fv.take(i as int), fv[i as int], 4);
            lemma_group_present_push(fv.take(i as int), fv[i as int], 5);
            lemma_group_present_push(fv.take(i as int), fv[i as int], 6);
        }
        if str_eq(f.as_str(), "Images") {
            p1 = true;
            p5 = true;
        } else if str_eq(f.as_str(), "Documents") {
            p4 = true;
            p6 = true;
        } else if str_eq(f.as_str(), "Videos") {
            p3 = true;
        } else if str_eq(f.as_str(), "Audio") {
            p2 = true;
            p0 = true;
        } else if str_eq(f.as_str(), "Archives") {
            p6 = true;
        }
        i = i + 1;
    }
    proof {
        assert(fv.take(fv.len() as int) =~= fv);
    }
    let mut names: Vec<String> = Vec::new();
    if p0 {
        names.push("ASF".to_owned());
    }
    if p1 {
        names.push("JPEG".to_owned());
    }
    if p2 {
        names.push("MP3".to_owned());
    }
    if p3 {
        names.push("MPEG".to_owned());
    }
    if p4 {
        names.push("PDF".to_owned());
    }
    if p5 {
        names.push("PNG".to_owned());
    }
    if p6 {
        names.push("ZIP".to_owned());
    }
    proof {
        assert(strs(names@) =~= present_group_names(fv));
    }
    let mut r: Vec<String> = Vec::new();
    if names.len() > 0 {
        let joined: String = join_strings(&names, ",");
        let mut tok: String = String::from_str("/y:");
        tok.append(joined.as_str());
        r.push(tok);
        proof {
            lemma_strs_push(Seq::<String>::empty(), r@[0]);
            assert(strs(r@) =~= sig_filter_tokens(fv));
        }
    } else {
        proof {
            assert(strs(r@) =~= sig_filter_tokens(fv));
        }
    }
    r
}

fn nonsig_filter_args(config: &RecoveryConfig) -> (r: Vec<String>)
    ensures
        strs(r@) == nonsig_tokens(strs(config.filters@)),
{
    let ghost fv: Seq<Seq<char>> = strs(config.filters@);
    let mut args: Vec<String> = Vec::new();
    let mut i: usize = 0;
    proof {
        assert(fv.take(0) =~= Seq::<Seq<char>>::empty());
        assert(strs(args@) =~= nonsig_tokens(fv.take(0)));
    }
    while i < config.filters.len()
        invariant
            i <= config.filters@.len(),
            fv == strs(config.filters@),
            strs(args@) == nonsig_tokens(fv.take(i as int)),
        decreases config.filters@.len() - i,
    {
        let f: &String = &config.filters[i];
        proof {
            assert(fv[i as int] == f@);
            assert(fv.take(i as int).push(fv[i as int]) =~= fv.take(i + 1));
            lemma_nonsig_push(fv.take(i as int), fv[i as int]);
        }
        if str_eq(f.as_str(), "Images") {
            push_images(&mut args);
        } else if str_eq(f.as_str(), "Documents") {
            push_documents(&mut args);
        } else if str_eq(f.as_str(), "Videos") {
            push_videos(&mut args);
        } else if str_eq(f.as_str(), "Audio") {
            push_audio(&mut args);
        } else if str_eq(f.as_str(), "Archives") {
            push_archives(&mut args);
        } else {
            push_tok(&mut args, "/n");
            push_string(&mut args, f.clone());
            proof {
                assert(strs(args@) =~= nonsig_tokens(fv.take(i + 1)));
            }
        }
        i = i + 1;
    }
    proof {
        assert(fv.take(fv.len() as int) =~= fv);
    }
    args
}

fn mode_args(config: &RecoveryConfig) -> (r: Vec<String>)
    ensures
        strs(r@) == mode_tokens(*config),
{
    let mut args: Vec<String> = Vec::new();
    if config.signature_mode {
        push_tok(&mut args, "/extensive");
        push_tok(&mut args, "/x");
        proof {
            assert(strs(args@) =~= mode_tokens(*config));
        }
    } else if config.segment_mode {
        push_tok(&mut args, "/extensive");
        push_tok(&mut args, "/r");
        proof {
            assert(strs(args@) =~= mode_tokens(*config));
        }
    } else if str_eq(config.mode.as_str(), "extensive") {
        push_tok(&mut args, "/extensive");
        proof {
            assert(strs(args@) =~= mode_tokens(*config));
        }
    } else {
        push_tok(&mut args, "/regular");
        proof {
            assert(strs(args@) =~= mode_tokens(*config));
        }
    }
    args
}

#[verifier::rlimit(60)]
fn flag_args(config: &RecoveryConfig) -> (r: Vec<String>)
    ensures
        strs(r@) == flag_tokens(*config),
{
    let mut args: Vec<String> = Vec::new();
    if config.auto_accept {
        push_tok(&mut args, "/a");
    }
    let keep_both_active: bool = config.keep_both && !config.signature_mode && !exfat_check(
        config,
    );
    if keep_both_active {
        push_tok(&mut args, "/o:b");
    }
    if config.recover_non_deleted {
        push_tok(&mut args, "/u");
    }
    if config.recover_system_files {
        push_tok(&mut args, "/k");
    }
    if config.keep_all_extensions {
        push_tok(&mut args, "/e");
    }
    if config.verbose_mode && !config.signature_mode {
        push_tok(&mut args, "/v");
    }
    proof {
        assert(strs(args@) =~= flag_tokens(*config));
    }
    args
}

/// Build the ordered token list for the external recovery tool.
pub fn build_winfr_args(config: &RecoveryConfig) -> (r: Vec<String>)
    ensures
        strs(r@) == winfr_args_spec(*config),
{
    let mut args: Vec<String> = Vec::new();
    push_string(&mut args, config.source.clone());
    push_string(&mut args, dest_arg(&config.destination));
    proof {
        assert(strs(args@) =~= seq![config.source@, dest_with_sep(config.destination@)]);
    }

    let mut modes: Vec<String> = mode_args(config);
    proof {
        lemma_strs_concat(args@, modes@);
    }
    args.append(&mut modes);

    let mut flags: Vec<String> = flag_args(config);
    proof {
        lemma_strs_concat(args@, flags@);
    }
    args.append(&mut flags);

    let mut filt: Vec<String> = if config.signature_mode {
        sig_filter_args(config)
    } else {
        nonsig_filter_args(config)
    };
    proof {
        lemma_strs_concat(args@, filt@);
    }
    args.append(&mut filt);
    proof {
        assert(strs(args@) =~= winfr_args_spec(*config));
    }
    args
}

} // verus!


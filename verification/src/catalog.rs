//! The post-run catalogue: classify each recovered file by its extension,
//! build catalogue entries from the walked destination tree, sort them by
//! category then name, and pick the newest output directory.

use vstd::prelude::*;
use vstd::string::*;
use crate::strutil::{seq_eq_ci, str_eq_ci, dec_seq, u64_to_string, lex_le, str_lex_le,
    lemma_lex_le_total, lemma_lex_le_antisym, lemma_lex_le_trans, has_prefix, str_has_prefix,
    str_eq};

verus! {

/// The category a file extension falls into, compared up to ASCII case.
pub open spec fn category_of(ext: Seq<char>) -> Seq<char> {
    if seq_eq_ci(ext, "jpg"@) || seq_eq_ci(ext, "jpeg"@) || seq_eq_ci(ext, "png"@) || seq_eq_ci(
        ext,
        "gif"@,
    ) || seq_eq_ci(ext, "bmp"@) || seq_eq_ci(ext, "svg"@) || seq_eq_ci(ext, "webp"@) || seq_eq_ci(
        ext,
        "ico"@,
    ) || seq_eq_ci(ext, "tiff"@) || seq_eq_ci(ext, "tif"@) || seq_eq_ci(ext, "heic"@) || seq_eq_ci(
        ext,
        "heif"@,
    ) || seq_eq_ci(ext, "raw"@) || seq_eq_ci(ext, "cr2"@) || seq_eq_ci(ext, "nef"@) || seq_eq_ci(
        ext,
        "arw"@,
    ) {
        "Images"@
    } else if seq_eq_ci(ext, "pdf"@) || seq_eq_ci(ext, "doc"@) || seq_eq_ci(ext, "docx"@)
        || seq_eq_ci(ext, "xls"@) || seq_eq_ci(ext, "xlsx"@) || seq_eq_ci(ext, "ppt"@) || seq_eq_ci(
        ext,
        "pptx"@,
    ) || seq_eq_ci(ext, "txt"@) || seq_eq_ci(ext, "rtf"@) || seq_eq_ci(ext, "odt"@) || seq_eq_ci(
        ext,
        "ods"@,
    ) || seq_eq_ci(ext, "odp"@) || seq_eq_ci(ext, "csv"@) || seq_eq_ci(ext, "md"@) {
        "Documents"@
    } else if seq_eq_ci(ext, "mp4"@) || seq_eq_ci(ext, "avi"@) || seq_eq_ci(ext, "mkv"@)
        || seq_eq_ci(ext, "mov"@) || seq_eq_ci(ext, "wmv"@) || seq_eq_ci(ext, "flv"@) || seq_eq_ci(
        ext,
        "webm"@,
    ) || seq_eq_ci(ext, "m4v"@) || seq_eq_ci(ext, "3gp"@) || seq_eq_ci(ext, "mpg"@) || seq_eq_ci(
        ext,
        "mpeg"@,
    ) {
        "Videos"@
    } else if seq_eq_ci(ext, "mp3"@) || seq_eq_ci(ext, "wav"@) || seq_eq_ci(ext, "flac"@)
        || seq_eq_ci(ext, "aac"@) || seq_eq_ci(ext, "ogg"@) || seq_eq_ci(ext, "wma"@) || seq_eq_ci(
        ext,
        "m4a"@,
    ) || seq_eq_ci(ext, "opus"@) || seq_eq_ci(ext, "aiff"@) {
        "Audio"@
    } else if seq_eq_ci(ext, "zip"@) || seq_eq_ci(ext, "rar"@) || seq_eq_ci(ext, "7z"@)
        || seq_eq_ci(ext, "tar"@) || seq_eq_ci(ext, "gz"@) || seq_eq_ci(ext, "bz2"@) || seq_eq_ci(
        ext,
        "xz"@,
    ) || seq_eq_ci(ext, "iso"@) || seq_eq_ci(ext, "cab"@) {
        "Archives"@
    } else {
        "Other"@
    }
}

/// Classify a file extension into its category name.
pub fn categorize_file(ext: &str) -> (r: String)
    ensures
        r@ == category_of(ext@),
{
    if str_eq_ci(ext, "jpg") || str_eq_ci(ext, "jpeg") || str_eq_ci(ext, "png") || str_eq_ci(
        ext,
        "gif",
    ) || str_eq_ci(ext, "bmp") || str_eq_ci(ext, "svg") || str_eq_ci(ext, "webp") || str_eq_ci(
        ext,
        "ico",
    ) || str_eq_ci(ext, "tiff") || str_eq_ci(ext, "tif") || str_eq_ci(ext, "heic") || str_eq_ci(
        ext,
        "heif",
    ) || str_eq_ci(ext, "raw") || str_eq_ci(ext, "cr2") || str_eq_ci(ext, "nef") || str_eq_ci(
        ext,
        "arw",
    ) {
        String::from_str("Images")
    } else if str_eq_ci(ext, "pdf") || str_eq_ci(ext, "doc") || str_eq_ci(ext, "docx")
        || str_eq_ci(ext, "xls") || str_eq_ci(ext, "xlsx") || str_eq_ci(ext, "ppt") || str_eq_ci(
        ext,
        "pptx",
    ) || str_eq_ci(ext, "txt") || str_eq_ci(ext, "rtf") || str_eq_ci(ext, "odt") || str_eq_ci(
        ext,
        "ods",
    ) || str_eq_ci(ext, "odp") || str_eq_ci(ext, "csv") || str_eq_ci(ext, "md") {
        String::from_str("Documents")
    } else if str_eq_ci(ext, "mp4") || str_eq_ci(ext, "avi") || str_eq_ci(ext, "mkv")
        || str_eq_ci(ext, "mov") || str_eq_ci(ext, "wmv") || str_eq_ci(ext, "flv") || str_eq_ci(
        ext,
        "webm",
    ) || str_eq_ci(ext, "m4v") || str_eq_ci(ext, "3gp") || str_eq_ci(ext, "mpg") || str_eq_ci(
        ext,
        "mpeg",
    ) {
        String::from_str("Videos")
    } else if str_eq_ci(ext, "mp3") || str_eq_ci(ext, "wav") || str_eq_ci(ext, "flac")
        || str_eq_ci(ext, "aac") || str_eq_ci(ext, "ogg") || str_eq_ci(ext, "wma") || str_eq_ci(
        ext,
        "m4a",
    ) || str_eq_ci(ext, "opus") || str_eq_ci(ext, "aiff") {
        String::from_str("Audio")
    } else if str_eq_ci(ext, "zip") || str_eq_ci(ext, "rar") || str_eq_ci(ext, "7z")
        || str_eq_ci(ext, "tar") || str_eq_ci(ext, "gz") || str_eq_ci(ext, "bz2") || str_eq_ci(
        ext,
        "xz",
    ) || str_eq_ci(ext, "iso") || str_eq_ci(ext, "cab") {
        String::from_str("Archives")
    } else {
        String::from_str("Other")
    }
}

/// One catalogue entry for a recovered file.
#[derive(Clone, Debug)]
pub struct RecoveredFile {
    pub id: String,
    pub name: String,
    pub path: String,
    pub size: u64,
    pub category: String,
}

/// The view of a catalogue entry: id, name, path, size, category.
pub open spec fn file_view(f: RecoveredFile) -> (Seq<char>, Seq<char>, Seq<char>, u64, Seq<char>) {
    (f.id@, f.name@, f.path@, f.size, f.category@)
}

/// The views of a sequence of catalogue entries.
pub open spec fn files_view(fs: Seq<RecoveredFile>) -> Seq<
    (Seq<char>, Seq<char>, Seq<char>, u64, Seq<char>),
> {
    fs.map_values(|f: RecoveredFile| file_view(f))
}

/// Forward slashes replaced by backslashes.
pub open spec fn backslashed(s: Seq<char>) -> Seq<char> {
    s.map_values(
        |c: char|
            if c == '/' {
                '\\'
            } else {
                c
            },
    )
}

fn backslashify(s: &str) -> (r: String)
    ensures
        r@ == backslashed(s@),
{
    let len: usize = s.unicode_len();
    let mut acc: String = String::new();
    let mut i: usize = 0;
    proof {
        assert(acc@ =~= backslashed(s@.take(0)));
    }
    while i < len
        invariant
            0 <= i <= len,
            len == s@.len(),
            acc@ == backslashed(s@.take(i as int)),
        decreases len - i,
    {
        if s.get_char(i) == '/' {
            acc.append("\\");
            proof {
                reveal_strlit("\\");
            }
        } else {
            let piece: &str = s.substring_char(i, i + 1);
            acc.append(piece);
        }
        proof {
            assert(acc@ =~= backslashed(s@.take(i + 1)));
        }
        i = i + 1;
    }
    proof {
        assert(s@.take(len as int) =~= s@);
    }
    acc
}

/// What app-level walking hands the catalogue for one file: its bare name,
/// its extension (empty when none), its path relative to the output
/// directory (with forward or backward slashes), and its size.
pub struct ScannedEntry {
    pub name: String,
    pub ext: String,
    pub rel_path: String,
    pub size: u64,
}

/// Build one catalogue entry: a 1-based decimal id, the name, the relative
/// path normalized to backslashes behind a leading backslash, the size,
/// and the extension's category.
pub fn make_recovered_file(index: u64, entry: &ScannedEntry) -> (r: RecoveredFile)
    ensures
        file_view(r) == (
            dec_seq(index as nat),
            entry.name@,
            "\\"@ + backslashed(entry.rel_path@),
            entry.size,
            category_of(entry.ext@),
        ),
{
    let mut path: String = String::from_str("\\");
    path.append(backslashify(entry.rel_path.as_str()).as_str());
    RecoveredFile {
        id: u64_to_string(index),
        name: entry.name.clone(),
        path,
        size: entry.size,
        category: categorize_file(entry.ext.as_str()),
    }
}

/// Build the unsorted catalogue: entry `i` gets id `i + 1`.
pub fn build_catalog(entries: &Vec<ScannedEntry>) -> (r: Vec<RecoveredFile>)
    requires
        entries@.len() < u64::MAX,
    ensures
        r@.len() == entries@.len(),
        forall|i: int|
            0 <= i < r@.len() ==> file_view(#[trigger] r@[i]) == (
                dec_seq((i + 1) as nat),
                entries@[i].name@,
                "\\"@ + backslashed(entries@[i].rel_path@),
                entries@[i].size,
                category_of(entries@[i].ext@),
            ),
{
    let mut r: Vec<RecoveredFile> = Vec::new();
    let mut i: usize = 0;
    while i < entries.len()
        invariant
            0 <= i <= entries@.len(),
            entries@.len() < u64::MAX,
            r@.len() == i,
            forall|j: int|
                0 <= j < i ==> file_view(#[trigger] r@[j]) == (
                    dec_seq((j + 1) as nat),
                    entries@[j].name@,
                    "\\"@ + backslashed(entries@[j].rel_path@),
                    entries@[j].size,
                    category_of(entries@[j].ext@),
                ),
        decreases entries@.len() - i,
    {
        let f: RecoveredFile = make_recovered_file((i as u64) + 1, &entries[i]);
        r.push(f);
        i = i + 1;
    }
    r
}

/// The catalogue order: by category, then by name, both lexicographically
/// by code point.
pub open spec fn file_le(a: RecoveredFile, b: RecoveredFile) -> bool {
    if a.category@ == b.category@ {
        lex_le(a.name@, b.name@)
    } else {
        lex_le(a.category@, b.category@)
    }
}

fn file_le_exec(a: &RecoveredFile, b: &RecoveredFile) -> (r: bool)
    ensures
        r == file_le(*a, *b),
{
    if str_eq(a.category.as_str(), b.category.as_str()) {
        str_lex_le(a.name.as_str(), b.name.as_str())
    } else {
        str_lex_le(a.category.as_str(), b.category.as_str())
    }
}

proof fn lemma_file_le_total(a: RecoveredFile, b: RecoveredFile)
    ensures
        file_le(a, b) || file_le(b, a),
{
    lemma_lex_le_total(a.category@, b.category@);
    if a.category@ == b.category@ {
        lemma_lex_le_total(a.name@, b.name@);
    }
}

proof fn lemma_file_le_trans(a: RecoveredFile, b: RecoveredFile, c: RecoveredFile)
    ensures
        file_le(a, b) && file_le(b, c) ==> file_le(a, c),
{
    if file_le(a, b) && file_le(b, c) {
        if a.category@ == b.category@ && b.category@ == c.category@ {
            lemma_lex_le_trans(a.name@, b.name@, c.name@);
        } else if a.category@ == b.category@ {
            // order decided by categories b vs c
        } else if b.category@ == c.category@ {
            // order decided by categories a vs b
        } else {
            lemma_lex_le_trans(a.category@, b.category@, c.category@);
            if a.category@ == c.category@ {
                lemma_lex_le_antisym(a.category@, b.category@);
            }
        }
    }
}

/// Sort the catalogue by category then name.  The result is a permutation
/// of the input: same entries, same multiplicities.
pub fn sort_catalog(files: Vec<RecoveredFile>) -> (r: Vec<RecoveredFile>)
    ensures
        forall|i: int, j: int| 0 <= i < j < r@.len() ==> file_le(#[trigger] r@[i], #[trigger] r@[j]),
        files_view(r@).to_multiset() == files_view(files@).to_multiset(),
{
    broadcast use vstd::seq_lib::group_to_multiset_ensures;

    let mut rest: Vec<RecoveredFile> = files;
    let mut out: Vec<RecoveredFile> = Vec::new();
    proof {
        assert(files_view(out@).to_multiset().add(files_view(rest@).to_multiset()) =~= files_view(
            files@,
        ).to_multiset());
    }
    while rest.len() > 0
        invariant
            files_view(out@).to_multiset().add(files_view(rest@).to_multiset()) == files_view(
                files@,
            ).to_multiset(),
            forall|i: int, j: int|
                0 <= i < j < out@.len() ==> file_le(#[trigger] out@[i], #[trigger] out@[j]),
            forall|i: int, j: int|
                0 <= i < out@.len() && 0 <= j < rest@.len() ==> file_le(
                    #[trigger] out@[i],
                    #[trigger] rest@[j],
                ),
        decreases rest@.len(),
    {
        // find the least remaining entry, earliest on ties
        let mut m: usize = 0;
        let mut k: usize = 1;
        proof {
            lemma_file_le_total(rest@[0], rest@[0]);
        }
        while k < rest.len()
            invariant
                0 <= m < k <= rest@.len(),
                rest@.len() > 0,
                forall|j: int| 0 <= j < k ==> file_le(rest@[m as int], #[trigger] rest@[j]),
            decreases rest@.len() - k,
        {
            proof {
                lemma_file_le_total(rest@[m as int], rest@[k as int]);
            }
            if file_le_exec(&rest[k], &rest[m]) {
                proof {
                    assert forall|j: int| 0 <= j < k + 1 implies file_le(
                        rest@[k as int],
                        #[trigger] rest@[j],
                    ) by {
                        if j == k {
                            lemma_file_le_total(rest@[k as int], rest@[k as int]);
                        } else {
                            lemma_file_le_trans(rest@[k as int], rest@[m as int], rest@[j]);
                        }
                    }
                }
                m = k;
            }
            k = k + 1;
        }
        let ghost pre_rest: Seq<RecoveredFile> = rest@;
        let ghost pre_out: Seq<RecoveredFile> = out@;
        let chosen: RecoveredFile = rest.remove(m);
        out.push(chosen);
        proof {
            broadcast use vstd::seq_lib::group_to_multiset_ensures;

            let fv_rest = files_view(pre_rest);
            let fv_out = files_view(pre_out);
            let x = file_view(chosen);
            assert forall|j: int| 0 <= j < fv_rest.len() - 1 implies files_view(
                pre_rest.remove(m as int),
            )[j] == fv_rest.remove(m as int)[j] by {
                if j < m {
                    assert(pre_rest.remove(m as int)[j] == pre_rest[j]);
                } else {
                    assert(pre_rest.remove(m as int)[j] == pre_rest[j + 1]);
                }
            }
            assert(files_view(pre_rest.remove(m as int)) =~= fv_rest.remove(m as int));
            assert(fv_rest.remove(m as int).to_multiset() =~= fv_rest.to_multiset().remove(
                fv_rest[m as int],
            ));
            assert(files_view(pre_out.push(chosen)) =~= fv_out.push(x));
            assert(fv_out.push(x).to_multiset() =~= fv_out.to_multiset().insert(x));
            assert(fv_rest.contains(x));
            assert(fv_rest.to_multiset().count(x) > 0);
            assert(fv_out.to_multiset().insert(x).add(fv_rest.to_multiset().remove(x))
                =~= fv_out.to_multiset().add(fv_rest.to_multiset()));
        }
    }
    out
}

/// What app-level directory listing hands the picker for one entry: the
/// entry's bare name, whether it is a directory, and its modification time
/// as nanoseconds since the epoch.
pub struct DirEntryInfo {
    pub name: String,
    pub is_dir: bool,
    pub modified: u64,
}

/// A directory entry that can hold a run's output: a directory whose name
/// starts with the output-folder prefix.
pub open spec fn qualifies(e: DirEntryInfo) -> bool {
    e.is_dir && has_prefix(e.name@, "Recovery_"@)
}

/// Pick the most recently modified qualifying subdirectory: the earliest
/// one on ties; `None` when none qualifies.
pub fn pick_latest_recovery_dir(entries: &Vec<DirEntryInfo>) -> (r: Option<usize>)
    ensures
        match r {
            Option::None => forall|k: int| 0 <= k < entries@.len() ==> !qualifies(#[trigger] entries@[k]),
            Option::Some(i) => {
                &&& 0 <= i < entries@.len()
                &&& qualifies(entries@[i as int])
                &&& forall|k: int|
                    0 <= k < entries@.len() && qualifies(#[trigger] entries@[k])
                        ==> entries@[k].modified <= entries@[i as int].modified
                &&& forall|k: int|
                    0 <= k < i && qualifies(#[trigger] entries@[k]) ==> entries@[k].modified
                        < entries@[i as int].modified
            },
        },
{
    let mut best: Option<usize> = None;
    let mut k: usize = 0;
    while k < entries.len()
        invariant
            0 <= k <= entries@.len(),
            match best {
                Option::None => forall|j: int| 0 <= j < k ==> !qualifies(#[trigger] entries@[j]),
                Option::Some(i) => {
                    &&& 0 <= i < k
                    &&& qualifies(entries@[i as int])
                    &&& forall|j: int|
                        0 <= j < k && qualifies(#[trigger] entries@[j]) ==> entries@[j].modified
                            <= entries@[i as int].modified
                    &&& forall|j: int|
                        0 <= j < i && qualifies(#[trigger] entries@[j]) ==> entries@[j].modified
                            < entries@[i as int].modified
                },
            },
        decreases entries@.len() - k,
    {
        let e: &DirEntryInfo = &entries[k];
        if e.is_dir && str_has_prefix(e.name.as_str(), "Recovery_") {
            match best {
                Some(i) => {
                    if entries[i].modified < e.modified {
                        best = Some(k);
                    }
                },
                None => {
                    best = Some(k);
                },
            }
        }
        k = k + 1;
    }
    best
}

} // verus!

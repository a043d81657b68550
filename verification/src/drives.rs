//! Drive enumeration support: the plain-value description of one drive,
//! human-readable size rendering, and the listing order (system drive
//! first, then by letter).  The operating-system query itself is done by
//! the caller, which hands the raw values in.

use vstd::prelude::*;
use vstd::string::*;
use crate::strutil::{dec_seq, digit_char, u64_to_string, lex_le, str_lex_le,
    lemma_lex_le_total, lemma_lex_le_trans};

verus! {

/// One listed drive, as the presentation layer expects it.
#[derive(Clone, Debug)]
pub struct DriveInfo {
    /// Drive letter with a colon, upper case.
    pub id: String,
    /// Volume label, or a default when the volume has none.
    pub label: String,
    /// Kind of drive: "SSD", "HDD" or a generic "Drive".
    pub drive_type: String,
    /// Filesystem name as reported.
    pub fs: String,
    /// Total size, rendered human-readable.
    pub size: String,
    /// Used space, rendered human-readable.
    pub used: String,
    /// Used space as a truncated percentage, 0 to 100.
    pub percent: u8,
    /// Whether this is the system drive (drive letter C).
    pub is_system: bool,
}

/// The drive kind as the caller's drive query reports it.
#[derive(Clone, Copy, PartialEq, Eq, Structural, Debug)]
pub enum DiskKindCode {
    Ssd,
    Hdd,
    Other,
}

/// The label of a drive kind.
pub open spec fn kind_name(k: DiskKindCode) -> Seq<char> {
    match k {
        DiskKindCode::Ssd => "SSD"@,
        DiskKindCode::Hdd => "HDD"@,
        DiskKindCode::Other => "Drive"@,
    }
}

/// An ASCII letter.
pub open spec fn is_ascii_alpha(c: char) -> bool {
    (65 <= c as u32 && c as u32 <= 90) || (97 <= c as u32 && c as u32 <= 122)
}

/// An ASCII letter folded to upper case.
pub open spec fn upper_ascii(c: char) -> char {
    if c as u32 == 65 || c as u32 == 97 {
        'A'
    } else if c as u32 == 66 || c as u32 == 98 {
        'B'
    } else if c as u32 == 67 || c as u32 == 99 {
        'C'
    } else if c as u32 == 68 || c as u32 == 100 {
        'D'
    } else if c as u32 == 69 || c as u32 == 101 {
        'E'
    } else if c as u32 == 70 || c as u32 == 102 {
        'F'
    } else if c as u32 == 71 || c as u32 == 103 {
        'G'
    } else if c as u32 == 72 || c as u32 == 104 {
        'H'
    } else if c as u32 == 73 || c as u32 == 105 {
        'I'
    } else if c as u32 == 74 || c as u32 == 106 {
        'J'
    } else if c as u32 == 75 || c as u32 == 107 {
        'K'
    } else if c as u32 == 76 || c as u32 == 108 {
        'L'
    } else if c as u32 == 77 || c as u32 == 109 {
        'M'
    } else if c as u32 == 78 || c as u32 == 110 {
        'N'
    } else if c as u32 == 79 || c as u32 == 111 {
        'O'
    } else if c as u32 == 80 || c as u32 == 112 {
        'P'
    } else if c as u32 == 81 || c as u32 == 113 {
        'Q'
    } else if c as u32 == 82 || c as u32 == 114 {
        'R'
    } else if c as u32 == 83 || c as u32 == 115 {
        'S'
    } else if c as u32 == 84 || c as u32 == 116 {
        'T'
    } else if c as u32 == 85 || c as u32 == 117 {
        'U'
    } else if c as u32 == 86 || c as u32 == 118 {
        'V'
    } else if c as u32 == 87 || c as u32 == 119 {
        'W'
    } else if c as u32 == 88 || c as u32 == 120 {
        'X'
    } else if c as u32 == 89 || c as u32 == 121 {
        'Y'
    } else if c as u32 == 90 || c as u32 == 122 {
        'Z'
    } else {
        c
    }
}

fn drive_id_str(c: char) -> (r: &'static str)
    requires
        is_ascii_alpha(c),
    ensures
        r@ == seq![upper_ascii(c), ':'],
{
    let u: u32 = c as u32;
    let uc: u32 = if u >= 97 {
        u - 32
    } else {
        u
    };
    if uc == 65 {
        proof {
            reveal_strlit("A:");
        }
        "A:"
    } else if uc == 66 {
        proof {
            reveal_strlit("B:");
        }
        "B:"
    } else if uc == 67 {
        proof {
            reveal_strlit("C:");
        }
        "C:"
    } else if uc == 68 {
        proof {
            reveal_strlit("D:");
        }
        "D:"
    } else if uc == 69 {
        proof {
            reveal_strlit("E:");
        }
        "E:"
    } else if uc == 70 {
        proof {
            reveal_strlit("F:");
        }
        "F:"
    } else if uc == 71 {
        proof {
            reveal_strlit("G:");
        }
        "G:"
    } else if uc == 72 {
        proof {
            reveal_strlit("H:");
        }
        "H:"
    } else if uc == 73 {
        proof {
            reveal_strlit("I:");
        }
        "I:"
    } else if uc == 74 {
        proof {
            reveal_strlit("J:");
        }
        "J:"
    } else if uc == 75 {
        proof {
            reveal_strlit("K:");
        }
        "K:"
    } else if uc == 76 {
        proof {
            reveal_strlit("L:");
        }
        "L:"
    } else if uc == 77 {
        proof {
            reveal_strlit("M:");
        }
        "M:"
    } else if uc == 78 {
        proof {
            reveal_strlit("N:");
        }
        "N:"
    } else if uc == 79 {
        proof {
            reveal_strlit("O:");
        }
        "O:"
    } else if uc == 80 {
        proof {
            reveal_strlit("P:");
        }
        "P:"
    } else if uc == 81 {
        proof {
            reveal_strlit("Q:");
        }
        "Q:"
    } else if uc == 82 {
        proof {
            reveal_strlit("R:");
        }
        "R:"
    } else if uc == 83 {
        proof {
            reveal_strlit("S:");
        }
        "S:"
    } else if uc == 84 {
        proof {
            reveal_strlit("T:");
        }
        "T:"
    } else if uc == 85 {
        proof {
            reveal_strlit("U:");
        }
        "U:"
    } else if uc == 86 {
        proof {
            reveal_strlit("V:");
        }
        "V:"
    } else if uc == 87 {
        proof {
            reveal_strlit("W:");
        }
        "W:"
    } else if uc == 88 {
        proof {
            reveal_strlit("X:");
        }
        "X:"
    } else if uc == 89 {
        proof {
            reveal_strlit("Y:");
        }
        "Y:"
    } else {
        proof {
            reveal_strlit("Z:");
        }
        "Z:"
    }
}

/// One terabyte.
pub const TB: u64 = 0x10000000000;

/// One gigabyte.
pub const GB: u64 = 0x40000000;

/// One megabyte.
pub const MB: u64 = 0x100000;

/// Rounded size rendering: terabytes with one decimal for a terabyte or
/// more, else whole gigabytes for a gigabyte or more, else whole
/// megabytes; rounding is half-up.
pub open spec fn format_bytes_spec(b: int) -> Seq<char> {
    if b >= 0x10000000000 {
        let t = (b * 10 + 0x8000000000) / 0x10000000000;
        dec_seq((t / 10) as nat) + "."@ + seq![digit_char((t % 10) as nat)] + " TB"@
    } else if b >= 0x40000000 {
        dec_seq((((b + 0x20000000) / 0x40000000)) as nat) + " GB"@
    } else {
        dec_seq((((b + 0x80000) / 0x100000)) as nat) + " MB"@
    }
}

/// Render a byte count human-readable.
pub fn format_bytes(bytes: u64) -> (r: String)
    ensures
        r@ == format_bytes_spec(bytes as int),
{
    if bytes >= TB {
        let tenths: u64 = (((bytes as u128) * 10 + 0x8000000000u128) / (TB as u128)) as u64;
        let mut s: String = u64_to_string(tenths / 10);
        s.append(".");
        proof {
            reveal_strlit(".");
        }
        let d: u64 = tenths % 10;
        if d == 0 {
            s.append("0");
            proof {
                reveal_strlit("0");
            }
        } else if d == 1 {
            s.append("1");
            proof {
                reveal_strlit("1");
            }
        } else if d == 2 {
            s.append("2");
            proof {
                reveal_strlit("2");
            }
        } else if d == 3 {
            s.append("3");
            proof {
                reveal_strlit("3");
            }
        } else if d == 4 {
            s.append("4");
            proof {
                reveal_strlit("4");
            }
        } else if d == 5 {
            s.append("5");
            proof {
                reveal_strlit("5");
            }
        } else if d == 6 {
            s.append("6");
            proof {
                reveal_strlit("6");
            }
        } else if d == 7 {
            s.append("7");
            proof {
                reveal_strlit("7");
            }
        } else if d == 8 {
            s.append("8");
            proof {
                reveal_strlit("8");
            }
        } else {
            s.append("9");
            proof {
                reveal_strlit("9");
            }
        }
        s.append(" TB");
        proof {
            reveal_strlit(" TB");
        }
        s
    } else if bytes >= GB {
        let whole: u64 = (bytes + GB / 2) / GB;
        let mut s: String = u64_to_string(whole);
        s.append(" GB");
        proof {
            reveal_strlit(" GB");
        }
        s
    } else {
        let whole: u64 = (bytes + MB / 2) / MB;
        let mut s: String = u64_to_string(whole);
        s.append(" MB");
        proof {
            reveal_strlit(" MB");
        }
        s
    }
}

/// The used space: total minus available, never negative.
pub open spec fn used_of(total: u64, available: u64) -> int {
    if available > total {
        0
    } else {
        total - available
    }
}

/// The used percentage, truncated; zero on an empty drive.
pub open spec fn percent_of(total: u64, available: u64) -> int {
    if total > 0 {
        used_of(total, available) * 100 / (total as int)
    } else {
        0
    }
}

/// Describe one drive from the raw values of the drive query.  Mounts
/// that are not a drive letter (shorter than two characters or not
/// starting with an ASCII letter) are skipped.
pub fn make_drive_info(
    mount: &String,
    volume_name: &String,
    kind: DiskKindCode,
    fs: String,
    total: u64,
    available: u64,
) -> (r: Option<DriveInfo>)
    ensures
        match r {
            Option::None => mount@.len() < 2 || !is_ascii_alpha(mount@[0]),
            Option::Some(d) => {
                &&& mount@.len() >= 2
                &&& is_ascii_alpha(mount@[0])
                &&& d.id@ == seq![upper_ascii(mount@[0]), ':']
                &&& d.label@ == (if volume_name@.len() == 0 {
                    "Local Disk"@
                } else {
                    volume_name@
                })
                &&& d.drive_type@ == kind_name(kind)
                &&& d.fs@ == fs@
                &&& d.size@ == format_bytes_spec(total as int)
                &&& d.used@ == format_bytes_spec(used_of(total, available))
                &&& d.percent as int == percent_of(total, available)
                &&& d.is_system == (upper_ascii(mount@[0]) == 'C')
            },
        },
{
    let mlen: usize = mount.as_str().unicode_len();
    if mlen < 2 {
        return None;
    }
    let c0: char = mount.as_str().get_char(0);
    let alpha: bool = (65 <= c0 as u32 && c0 as u32 <= 90) || (97 <= c0 as u32 && c0 as u32
        <= 122);
    if !alpha {
        return None;
    }
    let id: String = drive_id_str(c0).to_owned();
    let used: u64 = if available > total {
        0
    } else {
        total - available
    };
    let percent: u8 = if total > 0 {
        let p: u64 = (((used as u128) * 100) / (total as u128)) as u64;
        proof {
            assert((used as int) * 100 <= (total as int) * 100) by (nonlinear_arith)
                requires
                    used <= total,
            ;
            assert((used as int) * 100 / (total as int) <= (total as int) * 100 / (total as int))
                by (nonlinear_arith)
                requires
                    (used as int) * 100 <= (total as int) * 100 && total > 0,
            ;
            assert((total as int) * 100 / (total as int) == 100) by (nonlinear_arith)
                requires
                    total > 0,
            ;
        }
        p as u8
    } else {
        0
    };
    let label: String = if volume_name.as_str().is_empty() {
        String::from_str("Local Disk")
    } else {
        volume_name.clone()
    };
    let drive_type: String = match kind {
        DiskKindCode::Ssd => String::from_str("SSD"),
        DiskKindCode::Hdd => String::from_str("HDD"),
        DiskKindCode::Other => String::from_str("Drive"),
    };
    let is_system: bool = drive_id_str(c0).get_char(0) == 'C';
    Some(
        DriveInfo {
            id,
            label,
            drive_type,
            fs,
            size: format_bytes(total),
            used: format_bytes(used),
            percent,
            is_system,
        },
    )
}

/// The listing order: the system drive first, then ascending by id.
pub open spec fn drive_le(a: DriveInfo, b: DriveInfo) -> bool {
    if a.is_system != b.is_system {
        a.is_system
    } else {
        lex_le(a.id@, b.id@)
    }
}

fn drive_le_exec(a: &DriveInfo, b: &DriveInfo) -> (r: bool)
    ensures
        r == drive_le(*a, *b),
{
    if a.is_system != b.is_system {
        a.is_system
    } else {
        str_lex_le(a.id.as_str(), b.id.as_str())
    }
}

proof fn lemma_drive_le_total(a: DriveInfo, b: DriveInfo)
    ensures
        drive_le(a, b) || drive_le(b, a),
{
    if a.is_system == b.is_system {
        lemma_lex_le_total(a.id@, b.id@);
    }
}

proof fn lemma_drive_le_trans(a: DriveInfo, b: DriveInfo, c: DriveInfo)
    ensures
        drive_le(a, b) && drive_le(b, c) ==> drive_le(a, c),
{
    if drive_le(a, b) && drive_le(b, c) {
        if a.is_system == b.is_system && b.is_system == c.is_system {
            lemma_lex_le_trans(a.id@, b.id@, c.id@);
        }
    }
}

/// The view of a drive description.
pub open spec fn drive_view(d: DriveInfo) -> (
    Seq<char>,
    Seq<char>,
    Seq<char>,
    Seq<char>,
    Seq<char>,
    Seq<char>,
    u8,
    bool,
) {
    (d.id@, d.label@, d.drive_type@, d.fs@, d.size@, d.used@, d.percent, d.is_system)
}

/// The views of a sequence of drive descriptions.
pub open spec fn drives_view(ds: Seq<DriveInfo>) -> Seq<
    (Seq<char>, Seq<char>, Seq<char>, Seq<char>, Seq<char>, Seq<char>, u8, bool),
> {
    ds.map_values(|d: DriveInfo| drive_view(d))
}

/// Sort the drive list: system drive first, then by letter.  The result
/// is a permutation of the input.
pub fn sort_drives(drives: Vec<DriveInfo>) -> (r: Vec<DriveInfo>)
    ensures
        forall|i: int, j: int|
            0 <= i < j < r@.len() ==> drive_le(#[trigger] r@[i], #[trigger] r@[j]),
        drives_view(r@).to_multiset() == drives_view(drives@).to_multiset(),
{
    broadcast use vstd::seq_lib::group_to_multiset_ensures;

    let mut rest: Vec<DriveInfo> = drives;
    let mut out: Vec<DriveInfo> = Vec::new();
    proof {
        assert(drives_view(out@).to_multiset().add(drives_view(rest@).to_multiset())
            =~= drives_view(drives@).to_multiset());
    }
    while rest.len() > 0
        invariant
            drives_view(out@).to_multiset().add(drives_view(rest@).to_multiset()) == drives_view(
                drives@,
            ).to_multiset(),
            forall|i: int, j: int|
                0 <= i < j < out@.len() ==> drive_le(#[trigger] out@[i], #[trigger] out@[j]),
            forall|i: int, j: int|
                0 <= i < out@.len() && 0 <= j < rest@.len() ==> drive_le(
                    #[trigger] out@[i],
                    #[trigger] rest@[j],
                ),
        decreases rest@.len(),
    {
        let mut m: usize = 0;
        let mut k: usize = 1;
        proof {
            lemma_drive_le_total(rest@[0], rest@[0]);
        }
        while k < rest.len()
            invariant
                0 <= m < k <= rest@.len(),
                rest@.len() > 0,
                forall|j: int| 0 <= j < k ==> drive_le(rest@[m as int], #[trigger] rest@[j]),
            decreases rest@.len() - k,
        {
            proof {
                lemma_drive_le_total(rest@[m as int], rest@[k as int]);
            }
            if drive_le_exec(&rest[k], &rest[m]) {
                proof {
                    assert forall|j: int| 0 <= j < k + 1 implies drive_le(
                        rest@[k as int],
                        #[trigger] rest@[j],
                    ) by {
                        if j == k {
                            lemma_drive_le_total(rest@[k as int], rest@[k as int]);
                        } else {
                            lemma_drive_le_trans(rest@[k as int], rest@[m as int], rest@[j]);
                        }
                    }
                }
                m = k;
            }
            k = k + 1;
        }
        let ghost pre_rest: Seq<DriveInfo> = rest@;
        let ghost pre_out: Seq<DriveInfo> = out@;
        let chosen: DriveInfo = rest.remove(m);
        out.push(chosen);
        proof {
            broadcast use vstd::seq_lib::group_to_multiset_ensures;

            let dv_rest = drives_view(pre_rest);
            let dv_out = drives_view(pre_out);
            let x = drive_view(chosen);
            assert forall|j: int| 0 <= j < dv_rest.len() - 1 implies drives_view(
                pre_rest.remove(m as int),
            )[j] == dv_rest.remove(m as int)[j] by {
                if j < m {
                    assert(pre_rest.remove(m as int)[j] == pre_rest[j]);
                } else {
                    assert(pre_rest.remove(m as int)[j] == pre_rest[j + 1]);
                }
            }
            assert(drives_view(pre_rest.remove(m as int)) =~= dv_rest.remove(m as int));
            assert(dv_rest.remove(m as int).to_multiset() =~= dv_rest.to_multiset().remove(
                dv_rest[m as int],
            ));
            assert(drives_view(pre_out.push(chosen)) =~= dv_out.push(x));
            assert(dv_out.push(x).to_multiset() =~= dv_out.to_multiset().insert(x));
            assert(dv_rest.contains(x));
            assert(dv_rest.to_multiset().count(x) > 0);
            assert(dv_out.to_multiset().insert(x).add(dv_rest.to_multiset().remove(x))
                =~= dv_out.to_multiset().add(dv_rest.to_multiset()));
        }
    }
    out
}

} // verus!

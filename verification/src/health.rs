//! Disk-health support: normalize a drive argument for the disk checker
//! and classify the checker's captured output.  Running the checker is the
//! caller's job; only the decisions live here.

use vstd::prelude::*;
use vstd::string::*;

verus! {

/// The drive with a trailing colon enforced.
pub open spec fn drive_with_colon(d: Seq<char>) -> Seq<char> {
    if d.len() > 0 && d[d.len() - 1] == ':' {
        d
    } else {
        d + ":"@
    }
}

/// Append a colon to the drive name unless it already ends with one.
pub fn normalize_drive(drive: &String) -> (r: String)
    ensures
        r@ == drive_with_colon(drive@),
{
    let len: usize = drive.as_str().unicode_len();
    if len > 0 {
        let last: char = drive.as_str().get_char(len - 1);
        if last == ':' {
            return drive.clone();
        }
    }
    let mut d: String = drive.clone();
    d.append(":");
    proof {
        reveal_strlit(":");
    }
    d
}

/// Classify the disk checker's captured output: its standard error is the
/// failure report exactly when it is non-empty and the exit code was not
/// zero; otherwise its standard output is the result.
pub fn classify_check_output(out_text: String, err_text: String, code: Option<i32>) -> (r: Result<
    String,
    String,
>)
    ensures
        ({
            let failed = err_text@.len() > 0 && code != Option::Some(0i32);
            match r {
                Result::Ok(s) => !failed && s@ == out_text@,
                Result::Err(e) => failed && e@ == err_text@,
            }
        }),
{
    let err_empty: bool = err_text.as_str().is_empty();
    let code_zero: bool = match code {
        Option::Some(c) => c == 0,
        Option::None => false,
    };
    if !err_empty && !code_zero {
        Err(err_text)
    } else {
        Ok(out_text)
    }
}

} // verus!

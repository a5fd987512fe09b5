//! File metadata: what the library computes of a spreadsheet file's facts.
use vstd::prelude::*;
use crate::calendar::{civil_from_days, format_iso_datetime, date_of_day, iso_text};
use crate::error::IoError;
use crate::format_detect::{detect_format, format_name, detected_format, has_extension};

verus! {

/// Summary information about a spreadsheet file on disk.
#[derive(Debug, Clone)]
pub struct FileInfo {
    /// Absolute path to the file.
    pub path: String,
    /// File name (basename) without the directory.
    pub name: String,
    /// Size of the file in bytes.
    pub size_bytes: u64,
    /// Creation timestamp in ISO 8601 format, if available.
    pub created: Option<String>,
    /// Last-modified timestamp in ISO 8601 format, if available.
    pub modified: Option<String>,
    /// Detected file format.
    pub format: String,
    /// Number of sheets in the workbook.
    pub sheet_count: usize,
    /// Total number of non-empty cells across all sheets.
    pub cell_count: usize,
}

/// The UTC text `YYYY-MM-DDThh:mm:ssZ` of the instant `secs` seconds after
/// 1970-01-01T00:00:00Z.
pub open spec fn unix_iso_text(secs: u64) -> Seq<char> {
    let date = date_of_day((secs / 86400) as int);
    iso_text(date.0, date.1, date.2, (secs % 86400) as int)
}

/// Formats the instant `secs` seconds after the epoch as
/// `YYYY-MM-DDThh:mm:ssZ` (UTC).
pub fn iso_from_unix_secs(secs: u64) -> (s: String)
    ensures
        s@ == unix_iso_text(secs),
{
    let days = secs / 86400;
    let time_of_day = secs % 86400;
    let (year, month, day) = civil_from_days(days as i64);
    format_iso_datetime(year, month, day, time_of_day)
}

/// Converts a file time, given as its whole seconds since the epoch (`None`
/// for a time before the epoch), to an ISO 8601 string (UTC): `None` for a
/// time before the epoch.
pub fn system_time_to_iso(secs: Option<u64>) -> (r: Option<String>)
    ensures
        match secs {
            Some(n) => r matches Some(s) && s@ == unix_iso_text(n),
            None => r is None,
        },
{
    match secs {
        Some(secs) => {
            let s = iso_from_unix_secs(secs);
            assert(s@ == unix_iso_text(secs));
            Some(s)
        },
        None => None,
    }
}

/// The format label a file's summary shows for `path` with `contents` (`None`
/// where the file is missing): the detected format's name, or `"unknown"`
/// where detection fails.
pub open spec fn format_label_text(path: Seq<char>, contents: Option<Seq<u8>>) -> Seq<char> {
    match contents {
        Some(c) => if has_extension(path, seq!['n', 'u', 'm', 'b', 'e', 'r', 's']) {
            "unknown"@
        } else {
            match detected_format(path, c) {
                Some(f) => format_name(f),
                None => "unknown"@,
            }
        },
        None => "unknown"@,
    }
}

/// The format label a file's summary shows: the detected format's name, or
/// `"unknown"` where detection fails.
pub fn format_label(path: &str, contents: Option<&[u8]>) -> (s: String)
    ensures
        s@ == format_label_text(path@, match contents { Some(c) => Some(c@), None => None }),
{
    proof { reveal_strlit("unknown"); }
    match detect_format(path, contents) {
        Ok(f) => f.to_string(),
        Err(_) => String::from_str("unknown"),
    }
}

} // verus!

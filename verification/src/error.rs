//! The errors of the library's file operations.
use vstd::prelude::*;

verus! {

/// Errors produced by file operations. Errors that come from elsewhere (the
/// operating system, a parser) are carried as their message text.
#[derive(Debug)]
pub enum IoError {
    /// An I/O error, with its message.
    Io(String),
    /// Error reading a spreadsheet.
    XlsxRead(String),
    /// Error writing a spreadsheet.
    XlsxWrite(String),
    /// CSV/TSV parsing or writing error.
    Csv(String),
    /// JSON serialization error, with its message.
    Json(String),
    /// Unsupported or unrecognised file format.
    UnsupportedFormat(String),
    /// The file does not exist.
    FileNotFound(String),
    /// Permission denied when accessing a file.
    PermissionDenied(String),
    /// The file appears to be corrupt or invalid.
    CorruptFile(String),
    /// The file was modified externally since it was last read or saved.
    ConflictDetected,
    /// Cloud provider is not authenticated or not configured.
    CloudNotConfigured(String),
    /// Core engine error (e.g. sheet not found), with its message.
    Core(String),
}

} // verus!

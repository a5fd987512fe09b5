//! File format detection by magic bytes, file extension and content sniffing.
use vstd::prelude::*;
use vstd::utf8::{valid_utf8, decode_utf8};
use crate::error::IoError;
use crate::xlsx_chart::split_spec;
use crate::text::{chars_of, is_white_space, leading_ws, trim_start_spec, is_whitespace};

verus! {

/// Supported file formats.
#[derive(Debug, Clone, Copy, PartialEq, Eq, Structural)]
pub enum FileFormat {
    /// Excel 2007+ (.xlsx), a ZIP archive with XML inside.
    Xlsx,
    /// Legacy Excel (.xls), a BIFF / Compound Document file.
    Xls,
    /// Comma-separated values.
    Csv,
    /// Tab-separated values.
    Tsv,
    /// OpenDocument Spreadsheet (.ods), also a ZIP archive.
    Ods,
    /// JSON.
    Json,
}

/// The short lowercase name of a format.
pub open spec fn format_name(f: FileFormat) -> Seq<char> {
    match f {
        FileFormat::Xlsx => seq!['x', 'l', 's', 'x'],
        FileFormat::Xls => seq!['x', 'l', 's'],
        FileFormat::Csv => seq!['c', 's', 'v'],
        FileFormat::Tsv => seq!['t', 's', 'v'],
        FileFormat::Ods => seq!['o', 'd', 's'],
        FileFormat::Json => seq!['j', 's', 'o', 'n'],
    }
}

impl FileFormat {
    /// The short lowercase name of the format (`"xlsx"`, `"csv"`, ...).
    pub fn to_string(&self) -> (s: String)
        ensures
            s@ == format_name(*self),
    {
        let v: Vec<char> = match self {
            FileFormat::Xlsx => vec!['x', 'l', 's', 'x'],
            FileFormat::Xls => vec!['x', 'l', 's'],
            FileFormat::Csv => vec!['c', 's', 'v'],
            FileFormat::Tsv => vec!['t', 's', 'v'],
            FileFormat::Ods => vec!['o', 'd', 's'],
            FileFormat::Json => vec!['j', 's', 'o', 'n'],
        };
        crate::text::string_from_chars(v)
    }
}

/// The part of `name` after its last `.`, when something stands before that
/// `.`; none otherwise.
pub open spec fn after_last_dot(name: Seq<char>) -> Option<Seq<char>>
    decreases name.len(),
{
    if name.len() == 0 {
        None
    } else if name.last() == '.' {
        if name.len() == 1 { None } else { Some(seq![]) }
    } else {
        match after_last_dot(name.drop_last()) {
            Some(x) => Some(x.push(name.last())),
            None => None,
        }
    }
}

/// The extension that std's documentation gives a file name: the part after
/// its last `.`; none when it has no `.`, when its only `.` is its first
/// character, or for `..`.
pub open spec fn name_extension(name: Seq<char>) -> Option<Seq<char>> {
    if name == ".."@ { None } else { after_last_dot(name) }
}

/// The components of a Unix path that name something: the pieces between
/// `/`s, without the empty ones (repeated or trailing separators) and without
/// `.`, which std's path parsing leaves out.
pub open spec fn path_segments(path: Seq<char>) -> Seq<Seq<char>> {
    split_spec(path, '/').filter(|seg: Seq<char>| seg.len() > 0 && seg != seq!['.'])
}

/// The file name of a Unix path, as std's `Path::file_name` documents it:
/// its final component; none when it has none (`/`, `.`, the empty path) or
/// when it ends in `..`.
pub open spec fn path_file_name(path: Seq<char>) -> Option<Seq<char>> {
    let segs = path_segments(path);
    if segs.len() == 0 || segs.last() == ".."@ { None } else { Some(segs.last()) }
}

/// The extension of `path`, as std's `Path::extension` documents it: that
/// of its file name (see [`name_extension`]); none without a file name.
pub open spec fn path_extension(path: Seq<char>) -> Option<Seq<char>> {
    match path_file_name(path) {
        Some(n) => name_extension(n),
        None => None,
    }
}

/// Calls std's `Path::extension` on `path` (with `OsStr::to_string_lossy`,
/// which keeps text that was UTF-8 as it is). The contract claims the rule
/// of std's documentation for a Unix path, [`path_extension`].
#[verifier::external_body]
pub(crate) fn extension_of(path: &str) -> (e: Option<String>)
    ensures
        match e {
            Some(x) => path_extension(path@) == Some(x@),
            None => path_extension(path@) is None,
        },
{
    std::path::Path::new(path).extension().map(|x| x.to_string_lossy().into_owned())
}

/// Whether `c` lowercases (as `char::to_lowercase` does) to the ASCII lowercase letter `t`.
pub open spec fn lowers_to(c: char, t: char) -> bool {
    ||| c == t
    ||| ('A' <= c && c <= 'Z' && (c as u32) + 32 == t as u32)
    ||| (c == '\u{212a}' && t == 'k')
}

/// Whether `s.to_lowercase()` equals `t`, for `t` made of ASCII lowercase letters.
pub open spec fn lowercases_to(s: Seq<char>, t: Seq<char>) -> bool {
    s.len() == t.len() && forall|i: int| 0 <= i < s.len() ==> lowers_to(#[trigger] s[i], t[i])
}

/// Whether `s` lowercases to the ASCII lowercase word `t`.
pub fn lowercase_equals(s: &Vec<char>, t: &Vec<char>) -> (b: bool)
    ensures
        b == lowercases_to(s@, t@),
{
    if s.len() != t.len() {
        return false;
    }
    let mut i: usize = 0;
    while i < s.len()
        invariant
            s@.len() == t@.len(),
            i <= s@.len(),
            forall|j: int| 0 <= j < i ==> lowers_to(#[trigger] s@[j], t@[j]),
        decreases s.len() - i,
    {
        let c = s[i];
        let d = t[i];
        let ok = c == d || ('A' <= c && c <= 'Z' && (c as u32) + 32 == d as u32) || (c == '\u{212a}' && d == 'k');
        if !ok {
            return false;
        }
        i += 1;
    }
    true
}

/// Whether the path's extension lowercases to `word`.
pub open spec fn has_extension(path: Seq<char>, word: Seq<char>) -> bool {
    match path_extension(path) {
        Some(e) => lowercases_to(e, word),
        None => false,
    }
}

/// Whether the path's extension lowercases to `word`.
pub fn extension_is(path: &str, word: &Vec<char>) -> (b: bool)
    ensures
        b == has_extension(path@, word@),
{
    match extension_of(path) {
        Some(e) => {
            let ev = chars_of(e.as_str());
            lowercase_equals(&ev, word)
        },
        None => false,
    }
}

/// The format named by a path's extension alone (`.txt` counts as CSV).
pub open spec fn format_by_extension(path: Seq<char>) -> Option<FileFormat> {
    if has_extension(path, seq!['x', 'l', 's', 'x']) { Some(FileFormat::Xlsx) }
    else if has_extension(path, seq!['x', 'l', 's']) { Some(FileFormat::Xls) }
    else if has_extension(path, seq!['c', 's', 'v']) { Some(FileFormat::Csv) }
    else if has_extension(path, seq!['t', 's', 'v']) || has_extension(path, seq!['t', 'a', 'b']) { Some(FileFormat::Tsv) }
    else if has_extension(path, seq!['o', 'd', 's']) { Some(FileFormat::Ods) }
    else if has_extension(path, seq!['j', 's', 'o', 'n']) { Some(FileFormat::Json) }
    else if has_extension(path, seq!['t', 'x', 't']) { Some(FileFormat::Csv) }
    else { None }
}

/// Detects the format from the file extension alone.
pub fn detect_by_extension(path: &str) -> (f: Option<FileFormat>)
    ensures
        f == format_by_extension(path@),
{
    if extension_is(path, &vec!['x', 'l', 's', 'x']) { return Some(FileFormat::Xlsx); }
    if extension_is(path, &vec!['x', 'l', 's']) { return Some(FileFormat::Xls); }
    if extension_is(path, &vec!['c', 's', 'v']) { return Some(FileFormat::Csv); }
    if extension_is(path, &vec!['t', 's', 'v']) || extension_is(path, &vec!['t', 'a', 'b']) { return Some(FileFormat::Tsv); }
    if extension_is(path, &vec!['o', 'd', 's']) { return Some(FileFormat::Ods); }
    if extension_is(path, &vec!['j', 's', 'o', 'n']) { return Some(FileFormat::Json); }
    if extension_is(path, &vec!['t', 'x', 't']) { return Some(FileFormat::Csv); }
    None
}

/// The format that the first bytes of a file (`head`, at most 8 of them)
/// reveal, with the extension telling a ZIP-based ODS from XLSX and confirming JSON.
pub open spec fn format_by_magic(path: Seq<char>, head: Seq<u8>) -> Option<FileFormat> {
    if head.len() < 4 {
        None
    } else if head[0] == 0x50 && head[1] == 0x4B && head[2] == 0x03 && head[3] == 0x04 {
        if has_extension(path, seq!['o', 'd', 's']) { Some(FileFormat::Ods) } else { Some(FileFormat::Xlsx) }
    } else if head.len() >= 8 && head[0] == 0xD0 && head[1] == 0xCF && head[2] == 0x11 && head[3] == 0xE0
        && head[4] == 0xA1 && head[5] == 0xB1 && head[6] == 0x1A && head[7] == 0xE1 {
        Some(FileFormat::Xls)
    } else if (head[0] == 0x7B || head[0] == 0x5B) && has_extension(path, seq!['j', 's', 'o', 'n']) {
        Some(FileFormat::Json)
    } else {
        None
    }
}

/// Detects the format from the first bytes of the file (`head`, at most 8).
pub fn detect_by_magic_bytes(path: &str, head: &[u8]) -> (f: Option<FileFormat>)
    ensures
        f == format_by_magic(path@, head@),
{
    if head.len() < 4 {
        return None;
    }
    if head[0] == 0x50 && head[1] == 0x4B && head[2] == 0x03 && head[3] == 0x04 {
        if extension_is(path, &vec!['o', 'd', 's']) {
            return Some(FileFormat::Ods);
        } else {
            return Some(FileFormat::Xlsx);
        }
    }
    if head.len() >= 8 && head[0] == 0xD0 && head[1] == 0xCF && head[2] == 0x11 && head[3] == 0xE0
        && head[4] == 0xA1 && head[5] == 0xB1 && head[6] == 0x1A && head[7] == 0xE1 {
        return Some(FileFormat::Xls);
    }
    if (head[0] == 0x7B || head[0] == 0x5B) && extension_is(path, &vec!['j', 's', 'o', 'n']) {
        return Some(FileFormat::Json);
    }
    None
}


/// Decodes `bytes` as UTF-8 with std's `str::from_utf8`. The contract claims
/// what its documentation states: it succeeds exactly on valid UTF-8, and the
/// text holds the characters that the bytes encode.
#[verifier::external_body]
pub(crate) fn str_from_utf8(bytes: &[u8]) -> (r: Option<&str>)
    ensures
        r is Some <==> valid_utf8(bytes@),
        r matches Some(s) ==> s@ == decode_utf8(bytes@),
{
    std::str::from_utf8(bytes).ok()
}

/// Number of occurrences of `target` in the first `lines` lines of `s`.
pub open spec fn count_in_first_lines(s: Seq<char>, lines: nat, target: char) -> nat
    decreases s.len(),
{
    if s.len() == 0 || lines == 0 {
        0
    } else if s[0] == '\n' {
        count_in_first_lines(s.drop_first(), (lines - 1) as nat, target)
    } else {
        (if s[0] == target { 1nat } else { 0nat }) + count_in_first_lines(s.drop_first(), lines, target)
    }
}

/// Number of line feeds in `s`.
pub open spec fn newline_count(s: Seq<char>) -> nat
    decreases s.len(),
{
    if s.len() == 0 {
        0
    } else {
        (if s[0] == '\n' { 1nat } else { 0nat }) + newline_count(s.drop_first())
    }
}

/// Number of lines of `s`, as `str::lines` counts them (a final line feed ends
/// the last line rather than starting another).
pub open spec fn line_count(s: Seq<char>) -> nat {
    newline_count(s) + (if s.len() > 0 && s.last() != '\n' { 1nat } else { 0nat })
}

/// The format that the text of a file suggests: JSON when it starts with `{`
/// or `[` after white space; TSV when its first 20 lines hold tabs, at least as
/// many as commas; CSV when they hold commas, or when it has several lines.
pub open spec fn format_by_text(t: Seq<char>) -> Option<FileFormat> {
    let trimmed = trim_start_spec(t);
    let tabs = count_in_first_lines(t, 20, '\t');
    let commas = count_in_first_lines(t, 20, ',');
    if trimmed.len() > 0 && (trimmed[0] == '{' || trimmed[0] == '[') {
        Some(FileFormat::Json)
    } else if tabs > 0 && tabs >= commas {
        Some(FileFormat::Tsv)
    } else if commas > 0 {
        Some(FileFormat::Csv)
    } else if line_count(t) > 1 {
        Some(FileFormat::Csv)
    } else {
        None
    }
}

/// The format that the start of a file (`sample`) suggests; none for an empty
/// sample, for binary data (a NUL byte) and for invalid UTF-8.
pub open spec fn format_by_content(sample: Seq<u8>) -> Option<FileFormat> {
    if sample.len() == 0 || sample.contains(0u8) || !valid_utf8(sample) {
        None
    } else {
        format_by_text(decode_utf8(sample))
    }
}

/// Counts, in one pass, the tabs and the commas in the first `lines` lines of
/// `v` and the line feeds in all of it.
fn count_text(v: &Vec<char>, lines: u64) -> (r: (u64, u64, u64))
    ensures
        r.0 == count_in_first_lines(v@, lines as nat, '\t'),
        r.1 == count_in_first_lines(v@, lines as nat, ','),
        r.2 == newline_count(v@),
{
    let mut tabs: u64 = 0;
    let mut commas: u64 = 0;
    let mut newlines: u64 = 0;
    let mut left: u64 = lines;
    let mut i: usize = 0;
    assert(v@.skip(0) == v@);
    while i < v.len()
        invariant
            i <= v@.len(),
            tabs <= i,
            commas <= i,
            newlines <= i,
            tabs + count_in_first_lines(v@.skip(i as int), left as nat, '\t') == count_in_first_lines(v@, lines as nat, '\t'),
            commas + count_in_first_lines(v@.skip(i as int), left as nat, ',') == count_in_first_lines(v@, lines as nat, ','),
            newlines + newline_count(v@.skip(i as int)) == newline_count(v@),
        decreases v.len() - i,
    {
        let ghost rest = v@.skip(i as int);
        assert(rest[0] == v@[i as int]);
        assert(rest.drop_first() == v@.skip(i + 1));
        let c = v[i];
        if c == '\n' {
            newlines += 1;
            if left > 0 {
                left -= 1;
            }
        } else if left > 0 {
            if c == '\t' {
                tabs += 1;
            } else if c == ',' {
                commas += 1;
            }
        }
        i += 1;
    }
    assert(v@.skip(v@.len() as int) == Seq::<char>::empty());
    (tabs, commas, newlines)
}

/// Detects the format of text content: JSON, TSV or CSV.
pub fn sniff_text(v: &Vec<char>) -> (f: Option<FileFormat>)
    ensures
        f == format_by_text(v@),
{
    let mut i: usize = 0;
    while i < v.len() && is_whitespace(v[i])
        invariant
            i <= v@.len(),
            forall|j: int| 0 <= j < i ==> is_white_space(#[trigger] v@[j]),
        decreases v.len() - i,
    {
        i += 1;
    }
    proof {
        crate::text::lemma_leading_ws_exact(v@, i as int);
    }
    if i < v.len() && (v[i] == '{' || v[i] == '[') {
        return Some(FileFormat::Json);
    }
    let (tabs, commas, newlines) = count_text(v, 20);
    if tabs > 0 && tabs >= commas {
        return Some(FileFormat::Tsv);
    }
    if commas > 0 {
        return Some(FileFormat::Csv);
    }
    let last_open: u64 = if v.len() > 0 && v[v.len() - 1] != '\n' { 1 } else { 0 };
    if newlines > 1 || (newlines == 1 && last_open == 1) {
        return Some(FileFormat::Csv);
    }
    None
}

/// Detects the format from the start of a file's content (`sample`).
pub fn sniff_content(sample: &[u8]) -> (f: Option<FileFormat>)
    ensures
        f == format_by_content(sample@),
{
    if sample.len() == 0 {
        return None;
    }
    let mut i: usize = 0;
    while i < sample.len()
        invariant
            i <= sample@.len(),
            forall|j: int| 0 <= j < i ==> sample@[j] != 0u8,
        decreases sample.len() - i,
    {
        if sample[i] == 0 {
            assert(sample@.contains(0u8)) by {
                assert(sample@[i as int] == 0u8);
            }
            return None;
        }
        i += 1;
    }
    assert(!sample@.contains(0u8));
    match str_from_utf8(sample) {
        None => None,
        Some(text) => {
            let v = chars_of(text);
            sniff_text(&v)
        },
    }
}


/// The format found for a file whose content starts with `contents`: by its
/// first 8 bytes, else by its extension, else by its first 8192 bytes.
pub open spec fn detected_format(path: Seq<char>, contents: Seq<u8>) -> Option<FileFormat> {
    let head = if contents.len() > 8 { contents.take(8) } else { contents };
    let sample = if contents.len() > 8192 { contents.take(8192) } else { contents };
    match format_by_magic(path, head) {
        Some(f) => Some(f),
        None => match format_by_extension(path) {
            Some(f) => Some(f),
            None => format_by_content(sample),
        },
    }
}

/// The message given for an Apple Numbers file.
pub open spec fn numbers_message() -> Seq<char> {
    "Apple Numbers (.numbers) files are not supported. Export as .xlsx from Numbers first."@
}

/// The message given when no format is found for `path`.
pub open spec fn undetermined_message(path: Seq<char>) -> Seq<char> {
    "could not determine format of '"@ + path + "'"@
}

/// Detects the format of the file at `path`, given its content (`None` when
/// the file does not exist): Apple Numbers files are refused; otherwise the
/// first bytes decide, then the extension, then the text.
pub fn detect_format(path: &str, contents: Option<&[u8]>) -> (r: Result<FileFormat, IoError>)
    ensures
        contents is None ==> (r matches Err(IoError::FileNotFound(p)) && p@ == path@),
        contents matches Some(c) ==> {
            if has_extension(path@, seq!['n', 'u', 'm', 'b', 'e', 'r', 's']) {
                r matches Err(IoError::UnsupportedFormat(m)) && m@ == numbers_message()
            } else {
                match detected_format(path@, c@) {
                    Some(f) => r == Ok::<FileFormat, IoError>(f),
                    None => r matches Err(IoError::UnsupportedFormat(m)) && m@ == undetermined_message(path@),
                }
            }
        },
{
    let contents = match contents {
        None => return Err(IoError::FileNotFound(path.to_owned())),
        Some(c) => c,
    };
    if extension_is(path, &vec!['n', 'u', 'm', 'b', 'e', 'r', 's']) {
        let m = String::from_str("Apple Numbers (.numbers) files are not supported. Export as .xlsx from Numbers first.");
        return Err(IoError::UnsupportedFormat(m));
    }
    let head_len = if contents.len() > 8 { 8 } else { contents.len() };
    let head = vstd::slice::slice_subrange(contents, 0, head_len);
    assert(head@ == (if contents@.len() > 8 { contents@.take(8) } else { contents@ }));
    if let Some(f) = detect_by_magic_bytes(path, head) {
        return Ok(f);
    }
    if let Some(f) = detect_by_extension(path) {
        return Ok(f);
    }
    let sample_len = if contents.len() > 8192 { 8192 } else { contents.len() };
    let sample = vstd::slice::slice_subrange(contents, 0, sample_len);
    assert(sample@ == (if contents@.len() > 8192 { contents@.take(8192) } else { contents@ }));
    if let Some(f) = sniff_content(sample) {
        return Ok(f);
    }
    let mut m = String::from_str("could not determine format of '");
    m.append(path);
    m.append("'");
    Err(IoError::UnsupportedFormat(m))
}

} // verus!

//! Conflict detection for the open file: remembers the SHA-256 digest of the
//! file's content when it was last read or saved, and compares it with the
//! content found on disk before the next save.
use vstd::prelude::*;
use sha2::Digest;

verus! {

/// The lowercase hexadecimal SHA-256 digest of `bytes`, as sha2 computes it.
pub uninterp spec fn sha256_hex(bytes: Seq<u8>) -> Seq<char>;

/// Whether `c` is a lowercase hexadecimal digit.
pub open spec fn is_lower_hex_digit(c: char) -> bool {
    ('0' <= c && c <= '9') || ('a' <= c && c <= 'f')
}

/// Whether `s` has the shape of a SHA-256 digest in lowercase hexadecimal:
/// 64 digits, two for each of the digest's 32 bytes.
pub open spec fn is_digest_text(s: Seq<char>) -> bool {
    s.len() == 64 && forall|i: int| 0 <= i < s.len() ==> #[trigger] is_lower_hex_digit(s[i])
}

/// Computes the SHA-256 digest of `bytes` with sha2's `Sha256::digest` and
/// formats it as lowercase hexadecimal (`{:x}`). The contract claims that the
/// text is a function of the bytes, and that it is 64 lowercase hexadecimal
/// digits (generic-array's `LowerHex` writes two digits per byte of the
/// 32-byte digest); which digits, the digest itself, is not stated.
#[verifier::external_body]
fn sha256_hex_digest(bytes: &[u8]) -> (s: String)
    ensures
        s@ == sha256_hex(bytes@),
        is_digest_text(s@),
{
    format!("{:x}", sha2::Sha256::digest(bytes))
}

/// The SHA-256 digest of a file's content, as lowercase hexadecimal text.
pub fn hash_contents(contents: &[u8]) -> (s: String)
    ensures
        s@ == sha256_hex(contents@),
        is_digest_text(s@),
{
    sha256_hex_digest(contents)
}

/// Whether the file found on disk (`current`: its content, or `None` when it
/// no longer exists) conflicts with the remembered state: only when a file is
/// watched and a digest is remembered, and then when the file is gone or its
/// digest differs.
pub open spec fn conflict(path: Option<Seq<char>>, hash: Option<Seq<char>>, current: Option<Seq<u8>>) -> bool {
    match (path, hash) {
        (Some(_), Some(h)) => match current {
            None => true,
            Some(bytes) => sha256_hex(bytes) != h,
        },
        _ => false,
    }
}

/// Tracks the state of the currently open file for conflict detection.
///
/// Usage: call [`set_file`](FileWatcher::set_file) when a file is opened,
/// [`check_conflict`](FileWatcher::check_conflict) before saving and
/// [`update_hash`](FileWatcher::update_hash) after a successful save, each
/// with the content of the file as it is on disk (`None` when it does not exist).
pub struct FileWatcher {
    path: Option<String>,
    last_hash: Option<String>,
}

impl FileWatcher {
    /// The watched path, if any.
    pub closed spec fn path_view(&self) -> Option<Seq<char>> {
        match self.path {
            Some(p) => Some(p@),
            None => None,
        }
    }

    /// The remembered digest, if any.
    pub closed spec fn hash_view(&self) -> Option<Seq<char>> {
        match self.last_hash {
            Some(h) => Some(h@),
            None => None,
        }
    }

    /// Creates a watcher with no file tracked.
    pub fn new() -> (w: Self)
        ensures
            w.path_view() is None,
            w.hash_view() is None,
    {
        FileWatcher { path: None, last_hash: None }
    }

    /// Starts watching the file at `path`, whose content is `contents` (`None`
    /// when the file does not exist yet, in which case no digest is remembered).
    pub fn set_file(&mut self, path: &str, contents: Option<&[u8]>)
        ensures
            final(self).path_view() == Some(path@),
            final(self).hash_view() == (match contents {
                Some(bytes) => Some(sha256_hex(bytes@)),
                None => None::<Seq<char>>,
            }),
    {
        self.path = Some(path.to_owned());
        self.last_hash = match contents {
            Some(bytes) => Some(hash_contents(bytes)),
            None => None,
        };
    }

    /// Whether the watched file was modified or deleted since its digest was
    /// remembered, given its `current` content on disk (`None` when it no
    /// longer exists).
    pub fn check_conflict(&self, current: Option<&[u8]>) -> (c: bool)
        ensures
            c == conflict(self.path_view(), self.hash_view(), match current {
                Some(bytes) => Some(bytes@),
                None => None,
            }),
    {
        if self.path.is_none() {
            return false;
        }
        match &self.last_hash {
            None => false,
            Some(stored) => match current {
                None => true,
                Some(bytes) => {
                    let now = hash_contents(bytes);
                    now != *stored
                },
            },
        }
    }

    /// Remembers the digest of the watched file's `current` content (after a
    /// save); nothing changes when no file is watched or it does not exist.
    pub fn update_hash(&mut self, current: Option<&[u8]>)
        ensures
            final(self).path_view() == old(self).path_view(),
            final(self).hash_view() == (match (old(self).path_view(), current) {
                (Some(_), Some(bytes)) => Some(sha256_hex(bytes@)),
                _ => old(self).hash_view(),
            }),
    {
        if self.path.is_none() {
            return;
        }
        if let Some(bytes) = current {
            self.last_hash = Some(hash_contents(bytes));
        }
    }

    /// The path of the watched file, if any.
    pub fn watched_path(&self) -> (p: Option<&str>)
        ensures
            match p {
                Some(s) => self.path_view() == Some(s@),
                None => self.path_view() is None,
            },
    {
        match &self.path {
            Some(p) => Some(p.as_str()),
            None => None,
        }
    }

    /// The remembered digest, if any.
    pub fn last_hash(&self) -> (h: Option<&str>)
        ensures
            match h {
                Some(s) => self.hash_view() == Some(s@),
                None => self.hash_view() is None,
            },
    {
        match &self.last_hash {
            Some(h) => Some(h.as_str()),
            None => None,
        }
    }

    /// Stops watching any file.
    pub fn clear(&mut self)
        ensures
            final(self).path_view() is None,
            final(self).hash_view() is None,
    {
        self.path = None;
        self.last_hash = None;
    }
}

/// A file just opened, or just saved, is not in conflict with itself on disk.
pub proof fn law_no_conflict_with_remembered_content(path: Seq<char>, contents: Seq<u8>)
    ensures
        !conflict(Some(path), Some(sha256_hex(contents)), Some(contents)),
{
}

/// A watched file with a remembered digest conflicts once it is deleted, and
/// conflicts after a change exactly when the digest of the new content differs.
pub proof fn law_conflict_on_change(path: Seq<char>, remembered: Seq<u8>, current: Option<Seq<u8>>)
    ensures
        conflict(Some(path), Some(sha256_hex(remembered)), current) == match current {
            None => true,
            Some(bytes) => sha256_hex(bytes) != sha256_hex(remembered),
        },
{
}

/// Without a watched file, or without a remembered digest, nothing conflicts.
pub proof fn law_nothing_remembered_no_conflict(path: Option<Seq<char>>, current: Option<Seq<u8>>)
    ensures
        !conflict(path, None, current),
        !conflict(None, None, current),
{
}

impl Default for FileWatcher {
    /// A watcher with no file tracked.
    fn default() -> (w: Self)
        ensures
            w.path_view() is None,
            w.hash_view() is None,
    {
        Self::new()
    }
}

} // verus!

//! The list of recently opened files.
use vstd::prelude::*;
use crate::calendar::{days_to_ymd, format_iso_datetime, date_of_day, iso_text};
use crate::cloud::{join_path, join_relative};
use crate::clock::{system_now, duration_since_epoch, whole_seconds};

verus! {

/// Metadata for a recently opened file.
#[derive(Debug, Clone)]
pub struct RecentFile {
    /// Full path to the file.
    pub path: String,
    /// Display name (typically the file name without directory).
    pub name: String,
    /// ISO 8601 timestamp of when the file was last opened.
    pub last_opened: String,
}

/// `files` without the entries whose path is `path`, in their original order.
pub open spec fn without_path(files: Seq<RecentFile>, path: Seq<char>) -> Seq<RecentFile>
    decreases files.len(),
{
    if files.len() == 0 {
        seq![]
    } else {
        let rest = without_path(files.drop_last(), path);
        if files.last().path@ == path {
            rest
        } else {
            rest.push(files.last())
        }
    }
}

/// Keeps the entries of `files` whose path is not `path`, in order.
pub fn retain_other_paths(files: Vec<RecentFile>, path: &String) -> (kept: Vec<RecentFile>)
    ensures
        kept@ == without_path(files@, path@),
{
    let ghost all = files@;
    let mut kept: Vec<RecentFile> = Vec::new();
    for f in it: files
        invariant
            it.seq() == all,
            kept@ == without_path(all.take(it.index() as int), path@),
    {
        let ghost i = it.index();
        assert(all.take(i + 1).drop_last() == all.take(i as int));
        if f.path != *path {
            kept.push(f);
        }
    }
    assert(all.take(all.len() as int) == all);
    kept
}


/// The default number of entries a store keeps.
pub const DEFAULT_MAX_RECENT: usize = 10;

/// Manages a list of recently opened files, most recent first, holding at most
/// a fixed number of entries.
pub struct RecentFileStore {
    files: Vec<RecentFile>,
    max_entries: usize,
}

/// Whether some entry of `files` has the path `path`.
pub open spec fn has_path(files: Seq<RecentFile>, path: Seq<char>) -> bool {
    exists|i: int| 0 <= i < files.len() && #[trigger] files[i].path@ == path
}

/// The list after opening `entry`: the entry first, then the earlier entries
/// with another path, cut to `max` entries.
pub open spec fn after_add(files: Seq<RecentFile>, entry: RecentFile, max: nat) -> Seq<RecentFile> {
    let list = seq![entry] + without_path(files, entry.path@);
    if list.len() > max { list.take(max as int) } else { list }
}

impl RecentFileStore {
    /// The entries, most recently opened first.
    pub closed spec fn entries(&self) -> Seq<RecentFile> {
        self.files@
    }

    /// The most entries the store keeps.
    pub closed spec fn capacity(&self) -> nat {
        self.max_entries as nat
    }

    #[verifier::type_invariant]
    closed spec fn wf(&self) -> bool {
        1 <= self.max_entries && self.files@.len() <= self.max_entries
    }

    /// Creates an empty store with the default capacity.
    pub fn new() -> (s: Self)
        ensures
            s.entries() == Seq::<RecentFile>::empty(),
            s.capacity() == DEFAULT_MAX_RECENT,
    {
        RecentFileStore { files: Vec::new(), max_entries: DEFAULT_MAX_RECENT }
    }

    /// The file the list is kept in: `Library/Application Support/Lattice/recent_files.json`
    /// under the home directory `home`, or under `/tmp` where no home is known.
    pub fn persist_path(home: Option<&str>) -> (p: String)
        ensures
            p@ == join_relative(
                match home { Some(h) => h@, None => "/tmp"@ },
                "Library/Application Support/Lattice/recent_files.json"@,
            ),
    {
        let base = match home {
            Some(h) => h,
            None => "/tmp",
        };
        join_path(base, "Library/Application Support/Lattice/recent_files.json")
    }

    /// Creates an empty store that keeps at most `max_entries` entries (at least one).
    pub fn with_max_entries(max_entries: usize) -> (s: Self)
        ensures
            s.entries() == Seq::<RecentFile>::empty(),
            s.capacity() == (if max_entries >= 1 { max_entries } else { 1 }),
    {
        let max = if max_entries >= 1 { max_entries } else { 1 };
        RecentFileStore { files: Vec::new(), max_entries: max }
    }

    /// Creates a store with the default capacity from a saved list, keeping its
    /// first entries up to the capacity.
    pub fn from_saved(files: Vec<RecentFile>) -> (s: Self)
        ensures
            s.capacity() == DEFAULT_MAX_RECENT,
            s.entries() == (if files@.len() > DEFAULT_MAX_RECENT { files@.take(DEFAULT_MAX_RECENT as int) } else { files@ }),
    {
        let mut files = files;
        files.truncate(DEFAULT_MAX_RECENT);
        RecentFileStore { files, max_entries: DEFAULT_MAX_RECENT }
    }

    /// Adds (or moves to the front) the file at `path`, recording `last_opened`
    /// as the time it was opened; the oldest entries past the capacity drop off.
    pub fn add_opened_at(&mut self, path: &str, name: &str, last_opened: String)
        ensures
            final(self).capacity() == old(self).capacity(),
            final(self).entries() == after_add(
                old(self).entries(),
                RecentFile { path: final(self).entries()[0].path, name: final(self).entries()[0].name, last_opened },
                old(self).capacity(),
            ),
            final(self).entries()[0].path@ == path@,
            final(self).entries()[0].name@ == name@,
            final(self).entries()[0].last_opened == last_opened,
    {
        proof {
            use_type_invariant(&*self);
        }
        let path_s = path.to_owned();
        let entry = RecentFile { path: path.to_owned(), name: name.to_owned(), last_opened };
        let mut old_files: Vec<RecentFile> = Vec::new();
        std::mem::swap(&mut old_files, &mut self.files);
        let mut kept = retain_other_paths(old_files, &path_s);
        kept.insert(0, entry);
        if kept.len() > self.max_entries {
            kept.truncate(self.max_entries);
        }
        self.files = kept;
    }

    /// Adds (or moves to the front) the file at `path`, stamped with the current time.
    pub fn add(&mut self, path: &str, name: &str)
        ensures
            final(self).capacity() == old(self).capacity(),
            final(self).entries() == after_add(
                old(self).entries(),
                RecentFile { path: final(self).entries()[0].path, name: final(self).entries()[0].name, last_opened: final(self).entries()[0].last_opened },
                old(self).capacity(),
            ),
            final(self).entries()[0].path@ == path@,
            final(self).entries()[0].name@ == name@,
            exists|secs: u64| final(self).entries()[0].last_opened@ == #[trigger] recent_timestamp_text(secs),
    {
        let stamp = current_iso_timestamp();
        self.add_opened_at(path, name, stamp);
    }

    /// The entries, most recently opened first.
    pub fn list(&self) -> (files: &[RecentFile])
        ensures
            files@ == self.entries(),
    {
        self.files.as_slice()
    }

    /// Removes the entries for `path`; returns whether there was one.
    pub fn remove(&mut self, path: &str) -> (removed: bool)
        ensures
            removed == has_path(old(self).entries(), path@),
            final(self).entries() == without_path(old(self).entries(), path@),
            final(self).capacity() == old(self).capacity(),
    {
        proof {
            use_type_invariant(&*self);
        }
        let path_s = path.to_owned();
        let before = self.files.len();
        let mut old_files: Vec<RecentFile> = Vec::new();
        std::mem::swap(&mut old_files, &mut self.files);
        let ghost old_seq = old_files@;
        let kept = retain_other_paths(old_files, &path_s);
        proof {
            lemma_without_path_len(old_seq, path@);
        }
        self.files = kept;
        self.files.len() < before
    }

    /// Removes every entry.
    pub fn clear(&mut self)
        ensures
            final(self).entries() == Seq::<RecentFile>::empty(),
            final(self).capacity() == old(self).capacity(),
    {
        proof {
            use_type_invariant(&*self);
        }
        self.files = Vec::new();
    }
}

/// Dropping the entries of a path shortens the list exactly when the path is in it.
pub proof fn lemma_without_path_len(files: Seq<RecentFile>, path: Seq<char>)
    ensures
        without_path(files, path).len() <= files.len(),
        without_path(files, path).len() < files.len() <==> has_path(files, path),
        !has_path(without_path(files, path), path),
    decreases files.len(),
{
    if files.len() > 0 {
        let init = files.drop_last();
        lemma_without_path_len(init, path);
        let rest = without_path(init, path);
        if has_path(init, path) {
            let i = choose|i: int| 0 <= i < init.len() && #[trigger] init[i].path@ == path;
            assert(files[i].path@ == path);
        }
        if has_path(files, path) && !has_path(init, path) {
            let i = choose|i: int| 0 <= i < files.len() && #[trigger] files[i].path@ == path;
            if i < init.len() {
                assert(init[i].path@ == path);
            }
        }
        if files.last().path@ != path {
            if has_path(rest.push(files.last()), path) {
                let i = choose|i: int| 0 <= i < rest.len() + 1 && #[trigger] rest.push(files.last())[i].path@ == path;
                assert(rest[i].path@ == path);
            }
        }
    }
}

/// Dropping a path from two lists joined is joining the lists with it dropped.
pub proof fn lemma_without_path_concat(a: Seq<RecentFile>, b: Seq<RecentFile>, path: Seq<char>)
    ensures
        without_path(a + b, path) == without_path(a, path) + without_path(b, path),
    decreases b.len(),
{
    if b.len() == 0 {
        assert(a + b == a);
        assert(without_path(a, path) + without_path(b, path) == without_path(a, path));
    } else {
        assert((a + b).drop_last() == a + b.drop_last());
        assert((a + b).last() == b.last());
        lemma_without_path_concat(a, b.drop_last(), path);
    }
}

/// Dropping a path that is not in a list leaves the list as it is.
pub proof fn lemma_without_path_absent(files: Seq<RecentFile>, path: Seq<char>)
    requires
        !has_path(files, path),
    ensures
        without_path(files, path) == files,
    decreases files.len(),
{
    if files.len() > 0 {
        let init = files.drop_last();
        if has_path(init, path) {
            let i = choose|i: int| 0 <= i < init.len() && #[trigger] init[i].path@ == path;
            assert(files[i].path@ == path);
        }
        lemma_without_path_absent(init, path);
        assert(files.last().path@ != path) by {
            assert(files[files.len() - 1].path@ == files.last().path@);
        }
        assert(init.push(files.last()) == files);
    }
}

/// A part of a list without a path is still without it.
proof fn lemma_take_absent(files: Seq<RecentFile>, n: int, path: Seq<char>)
    requires
        !has_path(files, path),
        0 <= n <= files.len(),
    ensures
        !has_path(files.take(n), path),
{
    if has_path(files.take(n), path) {
        let i = choose|i: int| 0 <= i < files.take(n).len() && #[trigger] files.take(n)[i].path@ == path;
        assert(files[i].path@ == path);
    }
}

/// After opening a file, it heads the list and appears nowhere else in it,
/// and the list holds at most `max` entries.
pub proof fn law_add_puts_entry_first_once(files: Seq<RecentFile>, entry: RecentFile, max: nat)
    requires
        max >= 1,
    ensures
        after_add(files, entry, max)[0] == entry,
        !has_path(after_add(files, entry, max).skip(1), entry.path@),
        after_add(files, entry, max).len() <= max,
        after_add(files, entry, max).len() >= 1,
{
    let w = without_path(files, entry.path@);
    lemma_without_path_len(files, entry.path@);
    let list = seq![entry] + w;
    let res = after_add(files, entry, max);
    assert(res.skip(1) == (if list.len() > max { w.take(max - 1) } else { w }));
    if list.len() > max {
        lemma_take_absent(w, max - 1, entry.path@);
    }
}

/// Removing a file right after opening it leaves the earlier list without that
/// file, cut to one entry fewer than the capacity.
pub proof fn law_remove_after_add(files: Seq<RecentFile>, entry: RecentFile, max: nat)
    requires
        max >= 1,
    ensures
        without_path(after_add(files, entry, max), entry.path@) == ({
            let w = without_path(files, entry.path@);
            if w.len() + 1 > max { w.take(max - 1) } else { w }
        }),
{
    let p = entry.path@;
    let w = without_path(files, p);
    lemma_without_path_len(files, p);
    let rest = if w.len() + 1 > max { w.take(max - 1) } else { w };
    if w.len() + 1 > max {
        lemma_take_absent(w, max - 1, p);
    }
    assert(after_add(files, entry, max) == seq![entry] + rest);
    lemma_without_path_concat(seq![entry], rest, p);
    assert(seq![entry].drop_last() == Seq::<RecentFile>::empty());
    assert(seq![entry].last() == entry);
    assert(without_path(seq![entry], p) == Seq::<RecentFile>::empty()) by {
        reveal_with_fuel(without_path, 2);
    }
    lemma_without_path_absent(rest, p);
    assert(Seq::<RecentFile>::empty() + rest == rest);
}

/// Opening the same file twice in a row gives the same list as opening it once.
pub proof fn law_add_idempotent(files: Seq<RecentFile>, entry: RecentFile, max: nat)
    requires
        max >= 1,
    ensures
        after_add(after_add(files, entry, max), entry, max) == after_add(files, entry, max),
{
    let p = entry.path@;
    let w = without_path(files, p);
    lemma_without_path_len(files, p);
    law_remove_after_add(files, entry, max);
    let rest = if w.len() + 1 > max { w.take(max - 1) } else { w };
    assert(after_add(files, entry, max) == seq![entry] + rest);
}

/// The timestamp text recorded for opening a file `secs` seconds after the epoch.
pub open spec fn recent_timestamp_text(secs: u64) -> Seq<char> {
    let date = date_of_day((secs / 86400) as int);
    iso_text((date.0 as i32) as int, date.1, date.2, (secs % 86400) as int)
}

/// Formats `secs` seconds since the epoch as `YYYY-MM-DDThh:mm:ssZ`, with the
/// year narrowed to an `i32`.
pub fn timestamp_text(secs: u64) -> (s: String)
    ensures
        s@ == recent_timestamp_text(secs),
{
    let days = secs / 86400;
    let day_secs = secs % 86400;
    let (year, month, day) = days_to_ymd(days as i64);
    format_iso_datetime(year as i64, month, day, day_secs)
}

/// The current time as an ISO 8601 string (UTC, second precision).
pub fn current_iso_timestamp() -> (s: String)
    ensures
        exists|secs: u64| s@ == #[trigger] recent_timestamp_text(secs),
{
    let now = system_now();
    let secs = match duration_since_epoch(&now) {
        Ok(d) => whole_seconds(&d),
        Err(_) => 0,
    };
    let s = timestamp_text(secs);
    assert(s@ == recent_timestamp_text(secs));
    s
}

impl Default for RecentFileStore {
    /// An empty store with the default capacity.
    fn default() -> (s: Self)
        ensures
            s.entries() == Seq::<RecentFile>::empty(),
            s.capacity() == DEFAULT_MAX_RECENT,
    {
        Self::new()
    }
}

} // verus!

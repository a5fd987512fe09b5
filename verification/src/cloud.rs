//! Cloud storage providers: Google Drive and Dropbox (not yet connected: every
//! operation reports that they are not configured) and iCloud Drive, which is
//! a folder on the local disk.
use vstd::prelude::*;
use crate::error::IoError;
use crate::format_detect::{extension_is, has_extension};
use crate::text::{chars_of, chars_le, chars_le_exec, decimal, lemma_chars_le_total, lemma_chars_le_transitive, push_decimal, string_from_chars};

verus! {

/// Metadata for a file stored in a cloud provider.
#[derive(Debug, Clone)]
pub struct CloudFile {
    /// Provider-specific identifier (for iCloud, the absolute path).
    pub id: String,
    /// Human-readable file name (e.g. `"Budget 2026.xlsx"`).
    pub name: String,
    /// Last-modified timestamp.
    pub modified: String,
    /// File size in bytes.
    pub size_bytes: u64,
    /// Name of the provider this file belongs to (e.g. `"Google Drive"`).
    pub provider: String,
}

/// Summary information about a cloud provider's status.
#[derive(Debug, Clone)]
pub struct ProviderInfo {
    /// Machine-readable provider key (e.g. `"google_drive"`).
    pub key: String,
    /// Display name (e.g. `"Google Drive"`).
    pub name: String,
    /// Whether the provider is authenticated and ready.
    pub authenticated: bool,
}

/// What every cloud storage provider offers.
pub trait CloudProvider {
    /// Display name (e.g. `"Google Drive"`).
    fn name(&self) -> &str;

    /// Machine-readable key (e.g. `"google_drive"`).
    fn key(&self) -> &str;

    /// Whether the provider is configured and authenticated.
    fn is_authenticated(&self) -> bool;

    /// The local path of the file `file_id`, downloading it first when needed.
    fn download(&self, file_id: &str) -> Result<String, IoError>;

    /// A URL to start OAuth authentication in a browser; `None` for providers
    /// that need none.
    fn auth_url(&self) -> Option<String>;
}

/// The message of a provider whose authentication is not set up.
pub open spec fn not_configured_message(provider: Seq<char>) -> Seq<char> {
    provider + " authentication not configured. See docs/CLOUD_SYNC.md for setup instructions."@
}

fn not_configured(provider: &str) -> (e: IoError)
    ensures
        e matches IoError::CloudNotConfigured(m) && m@ == not_configured_message(provider@),
{
    let mut m = String::from_str(provider);
    m.append(" authentication not configured. See docs/CLOUD_SYNC.md for setup instructions.");
    IoError::CloudNotConfigured(m)
}

/// Dropbox cloud storage provider. Not yet connected: every operation reports
/// that Dropbox is not configured.
pub struct DropboxProvider {
    authenticated: bool,
}

impl DropboxProvider {
    /// Whether the provider holds valid credentials.
    pub closed spec fn is_signed_in(&self) -> bool {
        self.authenticated
    }

    /// Creates an unauthenticated Dropbox provider.
    pub fn new() -> (p: Self)
        ensures
            !p.is_signed_in(),
    {
        DropboxProvider { authenticated: false }
    }

    /// Takes an OAuth token; tokens are not checked yet, so the provider stays
    /// unauthenticated.
    pub fn authenticate(&mut self, _token: &str)
        ensures
            !final(self).is_signed_in(),
    {
        self.authenticated = false;
    }

    /// Lists the spreadsheet files: not configured.
    pub fn list_files(&self) -> (r: Result<Vec<CloudFile>, IoError>)
        ensures
            r matches Err(IoError::CloudNotConfigured(m)) && m@ == not_configured_message("Dropbox"@),
    {
        Err(not_configured("Dropbox"))
    }

    /// Uploads a local file: not configured.
    pub fn upload(&self, _local_path: &str, _name: &str) -> (r: Result<CloudFile, IoError>)
        ensures
            r matches Err(IoError::CloudNotConfigured(m)) && m@ == not_configured_message("Dropbox"@),
    {
        Err(not_configured("Dropbox"))
    }
}

impl CloudProvider for DropboxProvider {
    fn name(&self) -> (s: &str)
        ensures
            s@ == "Dropbox"@,
    {
        "Dropbox"
    }

    fn key(&self) -> (s: &str)
        ensures
            s@ == "dropbox"@,
    {
        "dropbox"
    }

    fn is_authenticated(&self) -> (b: bool)
        ensures
            b == self.is_signed_in(),
    {
        self.authenticated
    }

    fn download(&self, _file_id: &str) -> (r: Result<String, IoError>)
        ensures
            r matches Err(IoError::CloudNotConfigured(m)) && m@ == not_configured_message("Dropbox"@),
    {
        Err(not_configured("Dropbox"))
    }

    fn auth_url(&self) -> (u: Option<String>)
        ensures
            u is None,
    {
        None
    }
}

/// Google Drive cloud storage provider. Not yet connected: every operation
/// reports that Google Drive is not configured.
pub struct GoogleDriveProvider {
    authenticated: bool,
}

impl GoogleDriveProvider {
    /// Whether the provider holds valid credentials.
    pub closed spec fn is_signed_in(&self) -> bool {
        self.authenticated
    }

    /// Creates an unauthenticated Google Drive provider.
    pub fn new() -> (p: Self)
        ensures
            !p.is_signed_in(),
    {
        GoogleDriveProvider { authenticated: false }
    }

    /// Takes an OAuth token; tokens are not checked yet, so the provider stays
    /// unauthenticated.
    pub fn authenticate(&mut self, _token: &str)
        ensures
            !final(self).is_signed_in(),
    {
        self.authenticated = false;
    }

    /// Lists the spreadsheet files: not configured.
    pub fn list_files(&self) -> (r: Result<Vec<CloudFile>, IoError>)
        ensures
            r matches Err(IoError::CloudNotConfigured(m)) && m@ == not_configured_message("Google Drive"@),
    {
        Err(not_configured("Google Drive"))
    }

    /// Uploads a local file: not configured.
    pub fn upload(&self, _local_path: &str, _name: &str) -> (r: Result<CloudFile, IoError>)
        ensures
            r matches Err(IoError::CloudNotConfigured(m)) && m@ == not_configured_message("Google Drive"@),
    {
        Err(not_configured("Google Drive"))
    }
}

impl CloudProvider for GoogleDriveProvider {
    fn name(&self) -> (s: &str)
        ensures
            s@ == "Google Drive"@,
    {
        "Google Drive"
    }

    fn key(&self) -> (s: &str)
        ensures
            s@ == "google_drive"@,
    {
        "google_drive"
    }

    fn is_authenticated(&self) -> (b: bool)
        ensures
            b == self.is_signed_in(),
    {
        self.authenticated
    }

    fn download(&self, _file_id: &str) -> (r: Result<String, IoError>)
        ensures
            r matches Err(IoError::CloudNotConfigured(m)) && m@ == not_configured_message("Google Drive"@),
    {
        Err(not_configured("Google Drive"))
    }

    fn auth_url(&self) -> (u: Option<String>)
        ensures
            u is None,
    {
        None
    }
}


/// Whether a directory exists at `path`, asked with std's `Path::is_dir`.
/// Nothing is claimed of the answer: it depends on the disk.
#[verifier::external_body]
pub(crate) fn path_is_dir(path: &str) -> bool {
    std::path::Path::new(path).is_dir()
}

/// Whether anything exists at `path`, asked with std's `Path::exists`.
/// Nothing is claimed of the answer: it depends on the disk.
#[verifier::external_body]
pub(crate) fn path_exists(path: &str) -> bool {
    std::path::Path::new(path).exists()
}

/// `base` with the relative path `rel` appended, as std's `Path::join` does:
/// a `/` is put between them unless `base` is empty or already ends with one.
pub open spec fn join_relative(base: Seq<char>, rel: Seq<char>) -> Seq<char> {
    if base.len() == 0 || base.last() == '/' { base + rel } else { base + seq!['/'] + rel }
}

/// Appends the relative path `rel` to `base` (see [`join_relative`]).
pub fn join_path(base: &str, rel: &str) -> (p: String)
    ensures
        p@ == join_relative(base@, rel@),
{
    let b = crate::text::chars_of(base);
    let mut p = String::from_str(base);
    if b.len() > 0 && b[b.len() - 1] != '/' {
        proof {
            reveal_strlit("/");
        }
        p.append("/");
    }
    p.append(rel);
    p
}

/// The folder of iCloud Drive inside a home directory.
pub open spec fn icloud_subpath() -> Seq<char> {
    "Library/Mobile Documents/com~apple~CloudDocs"@
}

/// The message given when the iCloud Drive folder is missing.
pub open spec fn icloud_missing_message() -> Seq<char> {
    "iCloud Drive folder not found. Sign in to iCloud in System Settings and enable iCloud Drive."@
}

/// iCloud Drive cloud storage provider: a folder on the local disk, kept in
/// sync by the operating system, so no authentication is needed.
pub struct ICloudProvider {
    root: String,
}

impl ICloudProvider {
    /// The root folder of the provider.
    pub closed spec fn root_path(&self) -> Seq<char> {
        self.root@
    }

    /// Creates a provider for the iCloud Drive folder of the home directory `home`.
    pub fn new(home: &str) -> (p: Self)
        ensures
            p.root_path() == join_relative(home@, icloud_subpath()),
    {
        ICloudProvider { root: join_path(home, "Library/Mobile Documents/com~apple~CloudDocs") }
    }

    /// The root folder of the provider.
    pub fn root(&self) -> (r: &str)
        ensures
            r@ == self.root_path(),
    {
        self.root.as_str()
    }

    /// Creates a provider whose root folder is `root`.
    pub fn with_root(root: &str) -> (p: Self)
        ensures
            p.root_path() == root@,
    {
        ICloudProvider { root: root.to_owned() }
    }

    /// Checks that a file can be uploaded and returns where it goes: the
    /// iCloud Drive folder must exist (`root_is_dir`) and so must the local
    /// file (`local_exists`); the copy is made at `name` inside the folder.
    pub fn upload_target(&self, local_path: &str, name: &str, root_is_dir: bool, local_exists: bool) -> (r: Result<String, IoError>)
        ensures
            !root_is_dir ==> (r matches Err(IoError::CloudNotConfigured(m)) && m@ == icloud_missing_message()),
            root_is_dir && !local_exists ==> (r matches Err(IoError::FileNotFound(p)) && p@ == local_path@),
            root_is_dir && local_exists ==> (r matches Ok(dest) && dest@ == join_relative(self.root_path(), name@)),
    {
        if !root_is_dir {
            return Err(IoError::CloudNotConfigured(String::from_str(
                "iCloud Drive folder not found. Sign in to iCloud in System Settings and enable iCloud Drive.",
            )));
        }
        if !local_exists {
            return Err(IoError::FileNotFound(local_path.to_owned()));
        }
        Ok(join_path(self.root.as_str(), name))
    }

    /// Checks that a file can be uploaded and returns where it goes inside the
    /// iCloud Drive folder (see [`upload_target`](Self::upload_target)); the
    /// folder and the local file are looked up on disk.
    pub fn upload(&self, local_path: &str, name: &str) -> (r: Result<String, IoError>)
        ensures
            r matches Err(IoError::CloudNotConfigured(m)) ==> m@ == icloud_missing_message(),
            r matches Err(IoError::FileNotFound(p)) ==> p@ == local_path@,
            r matches Ok(dest) ==> dest@ == join_relative(self.root_path(), name@),
            r is Ok || r matches Err(IoError::CloudNotConfigured(_)) || r matches Err(IoError::FileNotFound(_)),
    {
        let root_is_dir = path_is_dir(self.root.as_str());
        let local_exists = if root_is_dir { path_exists(local_path) } else { false };
        self.upload_target(local_path, name, root_is_dir, local_exists)
    }

    /// The folder must exist to list files; returns the folder to scan.
    pub fn listing_root(&self, root_is_dir: bool) -> (r: Result<String, IoError>)
        ensures
            !root_is_dir ==> (r matches Err(IoError::CloudNotConfigured(m)) && m@ == icloud_missing_message()),
            root_is_dir ==> (r matches Ok(p) && p@ == self.root_path()),
    {
        if !root_is_dir {
            return Err(IoError::CloudNotConfigured(String::from_str(
                "iCloud Drive folder not found. Sign in to iCloud in System Settings and enable iCloud Drive.",
            )));
        }
        Ok(self.root.clone())
    }
}

/// For iCloud the file id is its local path: the path itself, when a file is there.
pub open spec fn icloud_download_result(file_id: Seq<char>, exists: bool, r: Result<String, IoError>) -> bool {
    if exists {
        r matches Ok(p) && p@ == file_id
    } else {
        r matches Err(IoError::FileNotFound(p)) && p@ == file_id
    }
}

/// Resolves an iCloud file id (its local path) given whether a file is there.
pub fn resolve_icloud_download(file_id: &str, exists: bool) -> (r: Result<String, IoError>)
    ensures
        icloud_download_result(file_id@, exists, r),
{
    if !exists {
        return Err(IoError::FileNotFound(file_id.to_owned()));
    }
    Ok(file_id.to_owned())
}

impl CloudProvider for ICloudProvider {
    fn name(&self) -> (s: &str)
        ensures
            s@ == "iCloud Drive"@,
    {
        "iCloud Drive"
    }

    fn key(&self) -> (s: &str)
        ensures
            s@ == "icloud"@,
    {
        "icloud"
    }

    /// iCloud counts as authenticated when its folder exists on disk.
    fn is_authenticated(&self) -> (b: bool) {
        path_is_dir(self.root.as_str())
    }

    fn download(&self, file_id: &str) -> (r: Result<String, IoError>)
        ensures
            icloud_download_result(file_id@, true, r) || icloud_download_result(file_id@, false, r),
    {
        let exists = path_exists(file_id);
        resolve_icloud_download(file_id, exists)
    }

    fn auth_url(&self) -> (u: Option<String>)
        ensures
            u is None,
    {
        None
    }
}

/// The extensions of the spreadsheet files that iCloud Drive lists.
pub open spec fn spreadsheet_path(path: Seq<char>) -> bool {
    ||| has_extension(path, seq!['x', 'l', 's', 'x'])
    ||| has_extension(path, seq!['c', 's', 'v'])
    ||| has_extension(path, seq!['t', 's', 'v'])
    ||| has_extension(path, seq!['x', 'l', 's'])
    ||| has_extension(path, seq!['o', 'd', 's'])
}

/// Whether a path has a spreadsheet file extension (any case).
pub fn is_spreadsheet(path: &str) -> (b: bool)
    ensures
        b == spreadsheet_path(path@),
{
    extension_is(path, &vec!['x', 'l', 's', 'x']) || extension_is(path, &vec!['c', 's', 'v'])
        || extension_is(path, &vec!['t', 's', 'v']) || extension_is(path, &vec!['x', 'l', 's'])
        || extension_is(path, &vec!['o', 'd', 's'])
}

/// Whether a directory entry is hidden (its name starts with a dot); hidden
/// files and folders are skipped when listing.
pub fn is_hidden_name(name: &str) -> (b: bool)
    ensures
        b == (name@.len() > 0 && name@[0] == '.'),
{
    let v = crate::text::chars_of(name);
    v.len() > 0 && v[0] == '.'
}

/// The modification stamp an iCloud listing shows: the whole seconds since
/// the epoch followed by `Z` (`0Z` where the time is unknown).
pub open spec fn modified_stamp(secs: Option<u64>) -> Seq<char> {
    decimal(match secs { Some(n) => n as nat, None => 0 }) + seq!['Z']
}

/// The listing entry of the iCloud file at `path`, named `file_name` (its
/// last component, `None` where it has none), last modified `modified_secs`
/// seconds after the epoch (`None` where unknown) and `size_bytes` long.
pub fn icloud_cloud_file(path: &str, file_name: Option<&str>, modified_secs: Option<u64>, size_bytes: u64) -> (f: CloudFile)
    ensures
        f.id@ == path@,
        f.name@ == match file_name { Some(n) => n@, None => "unknown"@ },
        f.modified@ == modified_stamp(modified_secs),
        f.size_bytes == size_bytes,
        f.provider@ == "iCloud Drive"@,
{
    let name = match file_name {
        Some(n) => n.to_owned(),
        None => String::from_str("unknown"),
    };
    let mut stamp: Vec<char> = Vec::new();
    let secs = match modified_secs {
        Some(n) => n,
        None => 0,
    };
    push_decimal(&mut stamp, secs);
    stamp.push('Z');
    CloudFile {
        id: path.to_owned(),
        name,
        modified: string_from_chars(stamp),
        size_bytes,
        provider: String::from_str("iCloud Drive"),
    }
}

/// Whether the files come in the order of their names.
pub open spec fn sorted_by_name(files: Seq<CloudFile>) -> bool {
    forall|i: int, j: int| 0 <= i < j < files.len() ==> chars_le(#[trigger] files[i].name@, #[trigger] files[j].name@)
}

/// The files of `files` named `n`, in order.
pub open spec fn with_name(files: Seq<CloudFile>, n: Seq<char>) -> Seq<CloudFile>
    decreases files.len(),
{
    if files.len() == 0 {
        seq![]
    } else {
        let r = with_name(files.drop_last(), n);
        if files.last().name@ == n { r.push(files.last()) } else { r }
    }
}

/// Picking the files with a name distributes over concatenation.
pub proof fn lemma_with_name_concat(a: Seq<CloudFile>, b: Seq<CloudFile>, n: Seq<char>)
    ensures
        with_name(a + b, n) == with_name(a, n) + with_name(b, n),
    decreases b.len(),
{
    if b.len() == 0 {
        assert(a + b =~= a);
        assert(with_name(a, n) + seq![] =~= with_name(a, n));
    } else {
        lemma_with_name_concat(a, b.drop_last(), n);
        assert((a + b).drop_last() =~= a + b.drop_last());
        assert((a + b).last() == b.last());
        if b.last().name@ == n {
            assert(with_name(a, n) + with_name(b.drop_last(), n).push(b.last()) =~= (with_name(a, n) + with_name(b.drop_last(), n)).push(b.last()));
        }
    }
}

/// No file is picked from files with other names.
pub proof fn lemma_with_name_none(a: Seq<CloudFile>, n: Seq<char>)
    requires
        forall|k: int| 0 <= k < a.len() ==> (#[trigger] a[k]).name@ != n,
    ensures
        with_name(a, n) == Seq::<CloudFile>::empty(),
    decreases a.len(),
{
    if a.len() > 0 {
        lemma_with_name_none(a.drop_last(), n);
        assert(a.last() == a[a.len() - 1]);
    }
}

/// A name comes no later than itself.
pub proof fn lemma_chars_le_reflexive(a: Seq<char>)
    ensures
        chars_le(a, a),
    decreases a.len(),
{
    if a.len() > 0 {
        lemma_chars_le_reflexive(a.drop_first());
    }
}

/// Sorts a listing by file name, keeping every file; files with the same
/// name keep their order (the sort is stable).
pub fn sort_by_name(files: Vec<CloudFile>) -> (sorted: Vec<CloudFile>)
    ensures
        sorted_by_name(sorted@),
        sorted@.to_multiset() == files@.to_multiset(),
        forall|n: Seq<char>| #[trigger] with_name(sorted@, n) == with_name(files@, n),
{
    broadcast use vstd::seq_lib::group_to_multiset_ensures;
    let ghost original = files@;
    let mut rest = files;
    let mut sorted: Vec<CloudFile> = Vec::new();
    let ghost mut done: Seq<CloudFile> = seq![];
    assert(rest@ + done =~= original);
    while rest.len() > 0
        invariant
            sorted_by_name(sorted@),
            sorted@.to_multiset().add(rest@.to_multiset()) == original.to_multiset(),
            rest@ + done == original,
            forall|n: Seq<char>| #[trigger] with_name(sorted@, n) == with_name(done, n),
        decreases rest.len(),
    {
        let ghost before = rest@;
        let x = rest.pop().unwrap();
        assert(before == rest@.push(x));
        let xname = chars_of(x.name.as_str());
        let mut p: usize = 0;
        while p < sorted.len()
            invariant
                p <= sorted@.len(),
                xname@ == x.name@,
                forall|k: int| 0 <= k < p ==> chars_le(#[trigger] sorted@[k].name@, x.name@),
                forall|k: int| 0 <= k < p ==> (#[trigger] sorted@[k]).name@ != x.name@,
            ensures
                p <= sorted@.len(),
                forall|k: int| 0 <= k < p ==> chars_le(#[trigger] sorted@[k].name@, x.name@),
                forall|k: int| 0 <= k < p ==> (#[trigger] sorted@[k]).name@ != x.name@,
                p < sorted@.len() ==> chars_le(x.name@, sorted@[p as int].name@),
            decreases sorted.len() - p,
        {
            let here = chars_of(sorted[p].name.as_str());
            if chars_le_exec(&xname, &here) {
                break;
            }
            proof {
                lemma_chars_le_total(x.name@, sorted@[p as int].name@);
                if sorted@[p as int].name@ == x.name@ {
                    lemma_chars_le_reflexive(x.name@);
                }
            }
            p += 1;
        }
        let ghost old_sorted = sorted@;
        proof {
            // every entry from position p on comes no earlier than x
            assert forall|k: int| p <= k < old_sorted.len() implies chars_le(x.name@, #[trigger] old_sorted[k].name@) by {
                if k > p {
                    lemma_chars_le_transitive(x.name@, old_sorted[p as int].name@, old_sorted[k].name@);
                }
            }
            let s = old_sorted.insert(p as int, x);
            assert forall|i: int, j: int| 0 <= i < j < s.len() implies
                chars_le(#[trigger] s[i].name@, #[trigger] s[j].name@) by {
                if j < p {
                    assert(chars_le(old_sorted[i].name@, old_sorted[j].name@));
                } else if j == p {
                    assert(chars_le(old_sorted[i].name@, x.name@));
                } else if i < p {
                    assert(chars_le(old_sorted[i].name@, x.name@));
                    assert(chars_le(x.name@, old_sorted[j - 1].name@));
                    lemma_chars_le_transitive(old_sorted[i].name@, x.name@, old_sorted[j - 1].name@);
                } else if i == p {
                    assert(chars_le(x.name@, old_sorted[j - 1].name@));
                } else {
                    assert(chars_le(old_sorted[i - 1].name@, old_sorted[j - 1].name@));
                }
            }
        }
        let ghost xv = x;
        sorted.insert(p, x);
        assert(sorted@ == old_sorted.insert(p as int, xv));
        proof {
            broadcast use vstd::multiset::group_multiset_axioms;
            vstd::seq_lib::to_multiset_insert(old_sorted, p as int, xv);
            vstd::seq_lib::to_multiset_build(rest@, xv);
            assert(sorted@.to_multiset().add(rest@.to_multiset()) =~= old_sorted.to_multiset().add(before.to_multiset()));
        }
        proof {
            let head = old_sorted.take(p as int);
            let tail = old_sorted.skip(p as int);
            assert(old_sorted =~= head + tail);
            assert(sorted@ =~= head + (seq![xv] + tail));
            assert(seq![xv] + done =~= seq![xv] + done);
            assert forall|n: Seq<char>| #[trigger] with_name(sorted@, n) == with_name(seq![xv] + done, n) by {
                lemma_with_name_concat(head, seq![xv] + tail, n);
                lemma_with_name_concat(seq![xv], tail, n);
                lemma_with_name_concat(head, tail, n);
                lemma_with_name_concat(seq![xv], done, n);
                assert(seq![xv].drop_last() =~= Seq::<CloudFile>::empty());
                assert(seq![xv].last() == xv);
                assert(with_name(old_sorted, n) == with_name(done, n));
                let one = with_name(seq![xv], n);
                assert(with_name(seq![xv].drop_last(), n) =~= Seq::<CloudFile>::empty());
                if n == xv.name@ {
                    assert(one =~= seq![xv]);
                    assert forall|k: int| 0 <= k < head.len() implies (#[trigger] head[k]).name@ != n by {
                        assert(head[k] == old_sorted[k]);
                    }
                    lemma_with_name_none(head, n);
                    assert(with_name(sorted@, n) =~= Seq::<CloudFile>::empty() + (one + with_name(tail, n)));
                    assert(with_name(old_sorted, n) =~= Seq::<CloudFile>::empty() + with_name(tail, n));
                    assert(with_name(sorted@, n) =~= one + with_name(done, n));
                } else {
                    assert(one =~= Seq::<CloudFile>::empty());
                    assert(with_name(sorted@, n) =~= with_name(head, n) + (one + with_name(tail, n)));
                    assert(with_name(sorted@, n) =~= with_name(head, n) + with_name(tail, n));
                    assert(with_name(seq![xv] + done, n) =~= one + with_name(done, n));
                    assert(with_name(seq![xv] + done, n) =~= with_name(done, n));
                }
            }
            assert(rest@ + (seq![xv] + done) =~= before + done);
        }
        proof {
            done = seq![xv] + done;
        }
    }
    assert(rest@ =~= Seq::<CloudFile>::empty());
    assert(done =~= original);
    sorted
}

impl Default for DropboxProvider {
    /// An unauthenticated Dropbox provider.
    fn default() -> (p: Self)
        ensures
            !p.is_signed_in(),
    {
        Self::new()
    }
}

impl Default for GoogleDriveProvider {
    /// An unauthenticated Google Drive provider.
    fn default() -> (p: Self)
        ensures
            !p.is_signed_in(),
    {
        Self::new()
    }
}

} // verus!

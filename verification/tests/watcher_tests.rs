use lattice::watcher::{hash_contents, FileWatcher};

#[test]
fn test_new_watcher_no_conflict() {
    let watcher = FileWatcher::new();
    assert!(!watcher.check_conflict(None));
    assert!(watcher.watched_path().is_none());
    assert!(watcher.last_hash().is_none());
}

#[test]
fn test_set_file_nonexistent() {
    let mut watcher = FileWatcher::new();
    watcher.set_file("/tmp/lattice_nonexistent_file.txt", None);
    assert!(watcher.last_hash().is_none());
    assert!(!watcher.check_conflict(None));
}

#[test]
fn test_set_file_and_hash() {
    let mut watcher = FileWatcher::new();
    watcher.set_file("/tmp/test.txt", Some(b"hello world"));
    assert_eq!(watcher.watched_path(), Some("/tmp/test.txt"));
    assert!(watcher.last_hash().is_some());
    assert!(!watcher.check_conflict(Some(b"hello world")));
}

#[test]
fn test_detect_external_modification() {
    let mut watcher = FileWatcher::new();
    watcher.set_file("/tmp/data.txt", Some(b"original content"));
    assert!(watcher.check_conflict(Some(b"modified content")));
}

#[test]
fn test_no_conflict_after_update_hash() {
    let mut watcher = FileWatcher::new();
    watcher.set_file("/tmp/data.txt", Some(b"original"));
    assert!(watcher.check_conflict(Some(b"changed")));
    watcher.update_hash(Some(b"changed"));
    assert!(!watcher.check_conflict(Some(b"changed")));
}

#[test]
fn test_conflict_when_file_deleted() {
    let mut watcher = FileWatcher::new();
    watcher.set_file("/tmp/data.txt", Some(b"content"));
    assert!(watcher.check_conflict(None));
}

#[test]
fn test_compute_hash_deterministic() {
    let h1 = hash_contents(b"deterministic content");
    let h2 = hash_contents(b"deterministic content");
    assert_eq!(h1, h2);
    assert_eq!(h1.len(), 64);
}

#[test]
fn test_clear_watcher() {
    let mut watcher = FileWatcher::new();
    watcher.set_file("/tmp/data.txt", Some(b"content"));
    assert!(watcher.watched_path().is_some());

    watcher.clear();
    assert!(watcher.watched_path().is_none());
    assert!(watcher.last_hash().is_none());
    assert!(!watcher.check_conflict(Some(b"content")));
}

#[test]
fn sha256_known_digests() {
    assert_eq!(hash_contents(b""), "e3b0c44298fc1c149afbf4c8996fb92427ae41e4649b934ca495991b7852b855");
    assert_eq!(hash_contents(b"abc"), "ba7816bf8f01cfea414140de5dae2223b00361a396177a9cb410ff61f20015ad");
}

#[test]
fn remembered_hash_is_sha256_of_contents() {
    let mut watcher = FileWatcher::default();
    watcher.set_file("/tmp/a", Some(b"abc"));
    assert_eq!(watcher.last_hash(), Some("ba7816bf8f01cfea414140de5dae2223b00361a396177a9cb410ff61f20015ad"));
}

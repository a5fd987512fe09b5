use lattice::recent_files::{timestamp_text, RecentFile, RecentFileStore};

#[test]
fn test_new_store_is_empty() {
    let store = RecentFileStore::new();
    assert!(store.list().is_empty());
}

#[test]
fn test_add_file() {
    let mut store = RecentFileStore::new();
    store.add("/path/to/file.xlsx", "file.xlsx");
    assert_eq!(store.list().len(), 1);
    assert_eq!(store.list()[0].path, "/path/to/file.xlsx");
    assert_eq!(store.list()[0].name, "file.xlsx");
    assert!(!store.list()[0].last_opened.is_empty());
}

#[test]
fn test_add_duplicate_moves_to_front() {
    let mut store = RecentFileStore::new();
    store.add("/path/a.xlsx", "a.xlsx");
    store.add("/path/b.xlsx", "b.xlsx");
    store.add("/path/a.xlsx", "a.xlsx");
    assert_eq!(store.list().len(), 2);
    assert_eq!(store.list()[0].path, "/path/a.xlsx");
    assert_eq!(store.list()[1].path, "/path/b.xlsx");
}

#[test]
fn test_max_entries_enforced() {
    let mut store = RecentFileStore::with_max_entries(3);
    store.add("/a", "a");
    store.add("/b", "b");
    store.add("/c", "c");
    store.add("/d", "d");
    assert_eq!(store.list().len(), 3);
    assert_eq!(store.list()[0].path, "/d");
    assert_eq!(store.list()[2].path, "/b");
}

#[test]
fn test_remove_file() {
    let mut store = RecentFileStore::new();
    store.add("/a", "a");
    store.add("/b", "b");
    assert!(store.remove("/a"));
    assert_eq!(store.list().len(), 1);
    assert_eq!(store.list()[0].path, "/b");
}

#[test]
fn test_remove_nonexistent() {
    let mut store = RecentFileStore::new();
    store.add("/a", "a");
    assert!(!store.remove("/nonexistent"));
    assert_eq!(store.list().len(), 1);
}

#[test]
fn test_clear() {
    let mut store = RecentFileStore::new();
    store.add("/a", "a");
    store.add("/b", "b");
    store.clear();
    assert!(store.list().is_empty());
}

#[test]
fn test_timestamp_format() {
    let mut store = RecentFileStore::new();
    store.add("/a", "a");
    let ts = &store.list()[0].last_opened;
    assert!(ts.ends_with('Z'));
    assert!(ts.contains('T'));
    assert_eq!(ts.len(), 20);
}

#[test]
fn timestamp_text_values() {
    assert_eq!(timestamp_text(0), "1970-01-01T00:00:00Z");
    assert_eq!(timestamp_text(1_705_314_600), "2024-01-15T10:30:00Z");
}

#[test]
fn add_opened_at_records_the_stamp() {
    let mut store = RecentFileStore::new();
    store.add_opened_at("/p/x.csv", "x.csv", "2024-01-15T10:30:00Z".to_string());
    assert_eq!(store.list()[0].last_opened, "2024-01-15T10:30:00Z");
    store.add_opened_at("/p/x.csv", "x.csv", "2024-02-01T00:00:00Z".to_string());
    assert_eq!(store.list().len(), 1);
    assert_eq!(store.list()[0].last_opened, "2024-02-01T00:00:00Z");
}

#[test]
fn remove_after_add_forgets_path() {
    let mut store = RecentFileStore::new();
    store.add("/a", "a");
    store.add("/b", "b");
    store.add("/a", "a");
    assert!(store.remove("/a"));
    assert_eq!(store.list().len(), 1);
    assert_eq!(store.list()[0].path, "/b");
    assert!(!store.remove("/a"));
}

#[test]
fn zero_capacity_keeps_one() {
    let mut store = RecentFileStore::with_max_entries(0);
    store.add("/a", "a");
    store.add("/b", "b");
    assert_eq!(store.list().len(), 1);
    assert_eq!(store.list()[0].path, "/b");
}

#[test]
fn default_capacity_is_ten() {
    let mut store = RecentFileStore::default();
    for i in 0..15 {
        store.add(&format!("/f{}", i), "f");
    }
    assert_eq!(store.list().len(), 10);
    assert_eq!(store.list()[0].path, "/f14");
    assert_eq!(store.list()[9].path, "/f5");
}

fn saved(path: &str) -> RecentFile {
    RecentFile { path: path.to_string(), name: path.to_string(), last_opened: "2024-01-01T00:00:00Z".to_string() }
}

#[test]
fn from_saved_trims_to_capacity() {
    let files: Vec<RecentFile> = (0..12).map(|i| saved(&format!("/s{}", i))).collect();
    let store = RecentFileStore::from_saved(files);
    assert_eq!(store.list().len(), 10);
    assert_eq!(store.list()[0].path, "/s0");
    assert_eq!(store.list()[9].path, "/s9");
}

#[test]
fn persist_path_under_home() {
    assert_eq!(
        RecentFileStore::persist_path(Some("/Users/me")),
        "/Users/me/Library/Application Support/Lattice/recent_files.json"
    );
    assert_eq!(RecentFileStore::persist_path(None), "/tmp/Library/Application Support/Lattice/recent_files.json");
}

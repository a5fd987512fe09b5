use lattice::cloud::{
    icloud_cloud_file, is_hidden_name, is_spreadsheet, resolve_icloud_download, sort_by_name, CloudFile,
    CloudProvider, DropboxProvider, GoogleDriveProvider, ICloudProvider,
};
use lattice::error::IoError;

#[test]
fn test_dropbox_not_authenticated_by_default() {
    let provider = DropboxProvider::new();
    assert!(!provider.is_authenticated());
    assert_eq!(provider.name(), "Dropbox");
    assert_eq!(provider.key(), "dropbox");
}

#[test]
fn test_dropbox_list_files_returns_error() {
    let provider = DropboxProvider::new();
    let result = provider.list_files();
    assert!(result.is_err());
    match result.unwrap_err() {
        IoError::CloudNotConfigured(msg) => {
            assert!(msg.contains("Dropbox"));
        }
        other => panic!("expected CloudNotConfigured, got {:?}", other),
    }
}

#[test]
fn test_dropbox_download_returns_error() {
    let provider = DropboxProvider::new();
    let result = provider.download("some-file-id");
    assert!(result.is_err());
}

#[test]
fn test_dropbox_upload_returns_error() {
    let provider = DropboxProvider::new();
    let result = provider.upload("/tmp/test.xlsx", "test.xlsx");
    assert!(result.is_err());
}

#[test]
fn test_dropbox_auth_url_is_none() {
    let provider = DropboxProvider::new();
    assert!(provider.auth_url().is_none());
}

#[test]
fn test_google_drive_not_authenticated_by_default() {
    let provider = GoogleDriveProvider::new();
    assert!(!provider.is_authenticated());
    assert_eq!(provider.name(), "Google Drive");
    assert_eq!(provider.key(), "google_drive");
}

#[test]
fn test_google_drive_list_files_returns_error() {
    let provider = GoogleDriveProvider::new();
    let result = provider.list_files();
    assert!(result.is_err());
    match result.unwrap_err() {
        IoError::CloudNotConfigured(msg) => {
            assert!(msg.contains("Google Drive"));
        }
        other => panic!("expected CloudNotConfigured, got {:?}", other),
    }
}

#[test]
fn test_google_drive_download_returns_error() {
    let provider = GoogleDriveProvider::new();
    let result = provider.download("some-file-id");
    assert!(result.is_err());
}

#[test]
fn test_google_drive_upload_returns_error() {
    let provider = GoogleDriveProvider::new();
    let result = provider.upload("/tmp/test.xlsx", "test.xlsx");
    assert!(result.is_err());
}

#[test]
fn test_google_drive_auth_url_is_none() {
    let provider = GoogleDriveProvider::new();
    assert!(provider.auth_url().is_none());
}

#[test]
fn test_icloud_provider_with_nonexistent_root() {
    let provider = ICloudProvider::with_root("/nonexistent_icloud_test_dir");
    assert!(!provider.is_authenticated());
    assert_eq!(provider.name(), "iCloud Drive");
    assert_eq!(provider.key(), "icloud");
}

#[test]
fn test_icloud_list_files_no_root() {
    let provider = ICloudProvider::with_root("/nonexistent_icloud_test_dir");
    let result = provider.listing_root(false);
    assert!(result.is_err());
    match result.unwrap_err() {
        IoError::CloudNotConfigured(msg) => {
            assert!(msg.contains("iCloud Drive"));
        }
        other => panic!("expected CloudNotConfigured, got {:?}", other),
    }
}

#[test]
fn test_icloud_download_file_not_found() {
    let provider = ICloudProvider::with_root("/tmp");
    let result = provider.download("/nonexistent/file.xlsx");
    assert!(result.is_err());
}

#[test]
fn test_icloud_upload_no_root() {
    let provider = ICloudProvider::with_root("/nonexistent_icloud_test_dir");
    let result = provider.upload("/tmp/test.xlsx", "test.xlsx");
    assert!(result.is_err());
}

#[test]
fn test_icloud_auth_url_is_none() {
    let provider = ICloudProvider::new("/Users/someone");
    assert!(provider.auth_url().is_none());
}

#[test]
fn test_is_spreadsheet() {
    assert!(is_spreadsheet("test.xlsx"));
    assert!(is_spreadsheet("test.csv"));
    assert!(is_spreadsheet("test.tsv"));
    assert!(is_spreadsheet("test.xls"));
    assert!(is_spreadsheet("test.ods"));
    assert!(is_spreadsheet("test.XLSX"));
    assert!(!is_spreadsheet("test.txt"));
    assert!(!is_spreadsheet("test.pdf"));
    assert!(!is_spreadsheet("noext"));
}

#[test]
fn icloud_new_points_into_home() {
    let provider = ICloudProvider::new("/Users/someone");
    let dest = provider.upload_target("/tmp/a.xlsx", "a.xlsx", true, true).unwrap();
    assert_eq!(dest, "/Users/someone/Library/Mobile Documents/com~apple~CloudDocs/a.xlsx");
}

#[test]
fn icloud_upload_target_errors() {
    let provider = ICloudProvider::with_root("/root/dir/");
    match provider.upload_target("/tmp/a.xlsx", "a.xlsx", false, true) {
        Err(IoError::CloudNotConfigured(msg)) => assert!(msg.contains("iCloud Drive folder not found")),
        other => panic!("unexpected {:?}", other),
    }
    match provider.upload_target("/tmp/missing.xlsx", "a.xlsx", true, false) {
        Err(IoError::FileNotFound(p)) => assert_eq!(p, "/tmp/missing.xlsx"),
        other => panic!("unexpected {:?}", other),
    }
    assert_eq!(provider.upload_target("/tmp/a.xlsx", "b.xlsx", true, true).unwrap(), "/root/dir/b.xlsx");
}

#[test]
fn icloud_listing_root_when_present() {
    let provider = ICloudProvider::with_root("/data/icloud");
    assert_eq!(provider.listing_root(true).unwrap(), "/data/icloud");
}

#[test]
fn icloud_download_resolution() {
    assert_eq!(resolve_icloud_download("/x/y.xlsx", true).unwrap(), "/x/y.xlsx");
    match resolve_icloud_download("/x/y.xlsx", false) {
        Err(IoError::FileNotFound(p)) => assert_eq!(p, "/x/y.xlsx"),
        other => panic!("unexpected {:?}", other),
    }
}

#[test]
fn hidden_names() {
    assert!(is_hidden_name(".DS_Store"));
    assert!(!is_hidden_name("Budget.xlsx"));
    assert!(!is_hidden_name(""));
}

#[test]
fn icloud_entry_fields() {
    let f = icloud_cloud_file("/r/Budget.xlsx", Some("Budget.xlsx"), Some(1700000000), 42);
    assert_eq!(f.id, "/r/Budget.xlsx");
    assert_eq!(f.name, "Budget.xlsx");
    assert_eq!(f.modified, "1700000000Z");
    assert_eq!(f.size_bytes, 42);
    assert_eq!(f.provider, "iCloud Drive");
    let g = icloud_cloud_file("/", None, None, 0);
    assert_eq!(g.name, "unknown");
    assert_eq!(g.modified, "0Z");
}

fn entry(name: &str) -> CloudFile {
    icloud_cloud_file(&format!("/r/{}", name), Some(name), Some(0), 1)
}

#[test]
fn listing_sorted_by_name() {
    let files = vec![entry("b.xlsx"), entry("a.csv"), entry("C.ods"), entry("a.csv"), entry("ab.xlsx")];
    let sorted = sort_by_name(files);
    let names: Vec<&str> = sorted.iter().map(|f| f.name.as_str()).collect();
    assert_eq!(names, vec!["C.ods", "a.csv", "a.csv", "ab.xlsx", "b.xlsx"]);
}

#[test]
fn equal_names_keep_their_order() {
    let a1 = icloud_cloud_file("/x/Book.xlsx", Some("Book.xlsx"), Some(1), 1);
    let z = icloud_cloud_file("/x/A.csv", Some("A.csv"), Some(1), 1);
    let a2 = icloud_cloud_file("/y/Book.xlsx", Some("Book.xlsx"), Some(1), 1);
    let sorted = sort_by_name(vec![a1, z, a2]);
    let ids: Vec<&str> = sorted.iter().map(|f| f.id.as_str()).collect();
    assert_eq!(ids, vec!["/x/A.csv", "/x/Book.xlsx", "/y/Book.xlsx"]);
}

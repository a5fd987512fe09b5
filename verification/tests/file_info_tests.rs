use lattice::calendar::civil_from_days;
use lattice::file_info::{format_label, iso_from_unix_secs, system_time_to_iso};

/// The whole seconds of a time since the epoch, `None` before it.
fn epoch_seconds(t: std::time::SystemTime) -> Option<u64> {
    t.duration_since(std::time::UNIX_EPOCH).ok().map(|d| d.as_secs())
}

#[test]
fn test_system_time_to_iso() {
    let epoch = std::time::UNIX_EPOCH;
    assert_eq!(system_time_to_iso(epoch_seconds(epoch)), Some("1970-01-01T00:00:00Z".to_string()));
}

#[test]
fn test_civil_from_days() {
    assert_eq!(civil_from_days(0), (1970, 1, 1));
    assert_eq!(civil_from_days(1), (1970, 1, 2));
    assert_eq!(civil_from_days(10957), (2000, 1, 1));
}

#[test]
fn civil_from_days_before_epoch_and_leap_days() {
    assert_eq!(civil_from_days(-1), (1969, 12, 31));
    assert_eq!(civil_from_days(11016), (2000, 2, 29));
    assert_eq!(civil_from_days(-719468), (0, 3, 1));
}

#[test]
fn system_time_before_epoch_is_none() {
    let before = std::time::UNIX_EPOCH - std::time::Duration::from_secs(10);
    assert_eq!(system_time_to_iso(epoch_seconds(before)), None);
}

#[test]
fn iso_from_seconds() {
    assert_eq!(iso_from_unix_secs(0), "1970-01-01T00:00:00Z");
    assert_eq!(iso_from_unix_secs(951782400 + 3661), "2000-02-29T01:01:01Z");
    let t = std::time::UNIX_EPOCH + std::time::Duration::from_secs(1_700_000_000);
    assert_eq!(system_time_to_iso(epoch_seconds(t)), Some("2023-11-14T22:13:20Z".to_string()));
}

#[test]
fn format_labels() {
    assert_eq!(format_label("a.xlsx", Some(b"hello")), "xlsx");
    assert_eq!(format_label("a.csv", None), "unknown");
    assert_eq!(format_label("a.numbers", Some(b"data")), "unknown");
    assert_eq!(format_label("a.unknown", Some(b"a\tb\n1\t2\n")), "tsv");
}

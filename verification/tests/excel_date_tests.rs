use lattice::calendar::in_timestamp_range;
use lattice::numeric_text::{parse_i32, parse_u32};
use lattice::xlsx_reader::{excel_serial_to_iso, iso_to_unix_timestamp};

/// An Excel serial date as the library takes it: whole days and the seconds
/// of the fraction, split as the reader splits a serial number.
fn serial_parts(serial: f64) -> (i64, i64) {
    let days = serial as i64;
    let fraction = serial - days as f64;
    (days, (fraction * 86400.0) as i64)
}

/// The Excel serial number of an ISO date, as the writer computes it.
fn iso_to_excel_serial(iso: &str) -> Option<f64> {
    iso_to_unix_timestamp(iso).map(|ts| ts as f64 / 86400.0 + 25569.0)
}

#[test]
fn test_excel_serial_date() {
    let (d, f) = serial_parts(44197.0);
    assert_eq!(excel_serial_to_iso(d, f).unwrap(), "2021-01-01");
}

#[test]
fn test_excel_serial_datetime() {
    let (d, f) = serial_parts(44197.5);
    assert_eq!(excel_serial_to_iso(d, f).unwrap(), "2021-01-01T12:00:00");
}

#[test]
fn test_iso_to_excel_serial_date() {
    let serial = iso_to_excel_serial("2021-01-01").unwrap();
    assert!((serial - 44197.0).abs() < 0.001);
}

#[test]
fn test_iso_to_excel_serial_datetime() {
    let serial = iso_to_excel_serial("2021-01-01T12:00:00").unwrap();
    assert!((serial - 44197.5).abs() < 0.001);
}

#[test]
fn test_iso_to_excel_serial_invalid() {
    assert!(iso_to_excel_serial("not-a-date").is_none());
    assert!(iso_to_excel_serial("").is_none());
}

#[test]
fn iso_timestamps() {
    assert_eq!(iso_to_unix_timestamp("1970-01-01"), Some(0));
    assert_eq!(iso_to_unix_timestamp("2024-01-15T10:30"), Some(1_705_314_600));
    assert_eq!(iso_to_unix_timestamp("2024-01-15T10:30:00T99"), Some(1_705_314_600));
    assert_eq!(iso_to_unix_timestamp("2024-01-15Tx:30:zz"), Some(1_705_276_800 + 30 * 60));
    assert_eq!(iso_to_unix_timestamp("+2024-01-15"), Some(1_705_276_800));
    assert_eq!(iso_to_unix_timestamp("1969-12-31T23:59:59"), Some(-1));
    assert_eq!(iso_to_unix_timestamp("2024-13-01"), None);
    assert_eq!(iso_to_unix_timestamp("2024-02-32"), None);
    assert_eq!(iso_to_unix_timestamp("2024-00-10"), None);
    assert_eq!(iso_to_unix_timestamp("2024-1-1-1"), None);
    assert_eq!(iso_to_unix_timestamp("-2024-01-01"), None);
}

#[test]
fn serial_dates_before_and_after() {
    assert_eq!(excel_serial_to_iso(25569, 0).unwrap(), "1970-01-01");
    assert_eq!(excel_serial_to_iso(25569, 3661).unwrap(), "1970-01-01T01:01:01");
    assert_eq!(excel_serial_to_iso(45306, 0).unwrap(), "2024-01-15");
    assert_eq!(excel_serial_to_iso(25568, 0).unwrap(), "1969-12-31");
    assert_eq!(excel_serial_to_iso(1, 0).unwrap(), "1899-12-31");
    assert_eq!(excel_serial_to_iso(25567, 86399).unwrap(), "1969-12-30T23:59:59");
    assert_eq!(excel_serial_to_iso(i64::MIN, 0), None);
    assert_eq!(excel_serial_to_iso(i64::MAX / 2, 0), None);
}

#[test]
fn timestamp_range_bounds() {
    assert!(in_timestamp_range(0));
    assert!(in_timestamp_range(-1));
    assert!(in_timestamp_range(-86401));
    assert!(in_timestamp_range(-784_353_015_833 * 86400));
    assert!(!in_timestamp_range(-784_353_015_833 * 86400 - 1));
    assert!(in_timestamp_range(784_351_576_776 * 86400));
    assert!(!in_timestamp_range(784_351_576_777 * 86400));
}

#[test]
fn integer_texts() {
    assert_eq!(parse_u32("4294967295"), Some(u32::MAX));
    assert_eq!(parse_u32("4294967296"), None);
    assert_eq!(parse_u32("+7"), Some(7));
    assert_eq!(parse_u32("-7"), None);
    assert_eq!(parse_i32("-2147483648"), Some(i32::MIN));
    assert_eq!(parse_i32("2147483648"), None);
    assert_eq!(parse_i32("-0"), Some(0));
    assert_eq!(parse_i32("+12"), Some(12));
    assert_eq!(parse_i32("-"), None);
    assert_eq!(parse_i32("1a"), None);
}

#[test]
fn iso_text_round_trips_through_serial() {
    for iso in ["2021-01-01", "2024-02-29T23:59:59", "1970-01-01T00:00:01"] {
        let ts = iso_to_unix_timestamp(iso).unwrap();
        let days = ts.div_euclid(86400) + 25569;
        let secs = ts.rem_euclid(86400);
        assert_eq!(excel_serial_to_iso(days, secs).unwrap(), iso);
    }
}

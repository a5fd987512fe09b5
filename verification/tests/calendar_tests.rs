use lattice::calendar::{date_to_unix_timestamp, days_in_month, days_to_ymd, is_leap_year, unix_timestamp_to_date};

#[test]
fn leap_years() {
    assert!(is_leap_year(2000));
    assert!(is_leap_year(2024));
    assert!(!is_leap_year(1900));
    assert!(!is_leap_year(2023));
}

#[test]
fn month_lengths() {
    assert_eq!(days_in_month(2024, 2), 29);
    assert_eq!(days_in_month(2023, 2), 28);
    assert_eq!(days_in_month(2023, 4), 30);
    assert_eq!(days_in_month(2023, 12), 31);
}

#[test]
fn timestamps_of_dates() {
    assert_eq!(date_to_unix_timestamp(1970, 1, 1, 0, 0, 0), 0);
    assert_eq!(date_to_unix_timestamp(2024, 1, 15, 10, 30, 0), 1_705_314_600);
    assert_eq!(date_to_unix_timestamp(1969, 12, 31, 23, 59, 59), -1);
    assert_eq!(date_to_unix_timestamp(2000, 3, 1, 0, 0, 0), 951_868_800);
}

#[test]
fn dates_of_timestamps() {
    assert_eq!(unix_timestamp_to_date(0), (1970, 1, 1, 0, 0, 0));
    assert_eq!(unix_timestamp_to_date(1_705_314_600), (2024, 1, 15, 10, 30, 0));
    assert_eq!(unix_timestamp_to_date(951_782_400), (2000, 2, 29, 0, 0, 0));
    assert_eq!(unix_timestamp_to_date(-1), (1969, 12, 31, 23, 59, 59));
    assert_eq!(unix_timestamp_to_date(-172_800), (1969, 12, 30, 0, 0, 0));
    assert_eq!(unix_timestamp_to_date(-2_208_988_800), (1900, 1, 1, 0, 0, 0));
    assert_eq!(unix_timestamp_to_date(-62_167_219_200), (0, 1, 1, 0, 0, 0));
    for ts in [-1i64, -86_400, -86_401, -2_208_988_800, -62_167_219_201] {
        let (y, mo, d, h, mi, s) = unix_timestamp_to_date(ts);
        assert_eq!(date_to_unix_timestamp(y, mo, d, h, mi, s), ts);
    }
}

#[test]
fn timestamp_round_trip() {
    for &ts in &[0i64, 86_399, 86_400, 1_000_000_000, 1_705_314_600, 4_102_444_800] {
        let (y, mo, d, h, mi, s) = unix_timestamp_to_date(ts);
        assert_eq!(date_to_unix_timestamp(y, mo, d, h, mi, s), ts);
    }
}

#[test]
fn days_to_ymd_values() {
    assert_eq!(days_to_ymd(0), (1970, 1, 1));
    assert_eq!(days_to_ymd(19737), (2024, 1, 15));
    assert_eq!(days_to_ymd(-1), (1969, 12, 31));
}

//! Proleptic Gregorian calendar arithmetic on integer day and second counts.
use vstd::prelude::*;
use crate::text::{signed_padded, zero_padded, push_signed_padded, push_zero_padded, string_from_chars};

verus! {

/// Whether `y` is a leap year.
pub open spec fn is_leap(y: int) -> bool {
    (y % 4 == 0 && y % 100 != 0) || y % 400 == 0
}

/// Number of days in year `y`.
pub open spec fn year_length(y: int) -> int {
    if is_leap(y) { 366 } else { 365 }
}

/// Number of days from 1970-01-01 to January 1 of year `y` (negative before 1970).
pub open spec fn days_before_year(y: int) -> int
    decreases (if y >= 1970 { y - 1970 } else { 1970 - y }),
{
    if y > 1970 {
        days_before_year(y - 1) + year_length(y - 1)
    } else if y < 1970 {
        days_before_year(y + 1) - year_length(y)
    } else {
        0
    }
}

/// Number of days in month `m` (1 = January) of year `y`.
pub open spec fn month_length(y: int, m: int) -> int {
    if m == 2 {
        if is_leap(y) { 29 } else { 28 }
    } else if m == 4 || m == 6 || m == 9 || m == 11 {
        30
    } else {
        31
    }
}

/// Number of days from January 1 of year `y` to the first day of month `m`;
/// months past December count as the whole year.
pub open spec fn days_before_month(y: int, m: nat) -> int
    decreases m,
{
    if m <= 1 {
        0
    } else if m > 13 {
        days_before_month(y, 13)
    } else {
        days_before_month(y, (m - 1) as nat) + month_length(y, m - 1)
    }
}

/// Whether `(y, m, d)` names a real calendar day.
pub open spec fn valid_date(y: int, m: int, d: int) -> bool {
    1 <= m <= 12 && 1 <= d <= month_length(y, m)
}

/// Days from 1970-01-01 to the date `(y, m, d)`.
pub open spec fn epoch_day(y: int, m: nat, d: int) -> int {
    days_before_year(y) + days_before_month(y, m) + d - 1
}

/// Seconds from 1970-01-01T00:00:00 to the given date and time of day.
pub open spec fn date_timestamp(y: int, m: nat, d: int, h: int, mi: int, s: int) -> int {
    epoch_day(y, m, d) * 86400 + h * 3600 + mi * 60 + s
}

/// Successive years are `year_length` days apart.
pub proof fn lemma_days_before_year_step(y: int)
    ensures
        days_before_year(y + 1) == days_before_year(y) + year_length(y),
{
}

/// The twelve months make up the year.
pub proof fn lemma_months_fill_year(y: int)
    ensures
        days_before_month(y, 13) == year_length(y),
{
    reveal_with_fuel(days_before_month, 13);
}

/// Returns whether a year is a leap year in the proleptic Gregorian calendar.
pub fn is_leap_year(year: i32) -> (b: bool)
    ensures
        b == is_leap(year as int),
{
    (year % 4 == 0 && year % 100 != 0) || (year % 400 == 0)
}

/// Number of days in month `month` (1 = January) of `year`.
pub fn days_in_month(year: i32, month: u32) -> (n: u32)
    ensures
        n == month_length(year as int, month as int),
{
    if month == 2 {
        if is_leap_year(year) { 29 } else { 28 }
    } else if month == 4 || month == 6 || month == 9 || month == 11 {
        30
    } else {
        31
    }
}

/// Converts a calendar date and time of day to seconds since 1970-01-01T00:00:00.
pub fn date_to_unix_timestamp(year: i32, month: u32, day: u32, hour: u32, min: u32, sec: u32) -> (ts: i64)
    requires
        month >= 1,
        day >= 1,
    ensures
        ts == date_timestamp(year as int, month as nat, day as int, hour as int, min as int, sec as int),
{
    let seconds_per_day: i64 = 86400;
    let mut total_days: i64 = 0;
    if year >= 1970 {
        let mut y: i32 = 1970;
        while y < year
            invariant
                1970 <= y <= year,
                total_days == days_before_year(y as int),
                0 <= total_days <= 366 * (y - 1970),
            decreases year - y,
        {
            proof {
                lemma_days_before_year_step(y as int);
            }
            total_days += if is_leap_year(y) { 366 } else { 365 };
            y += 1;
        }
    } else {
        let mut y: i32 = year;
        while y < 1970
            invariant
                year <= y <= 1970,
                total_days == days_before_year(year as int) - days_before_year(y as int),
                -366 * (y - year) <= total_days <= 0,
            decreases 1970 - y,
        {
            proof {
                lemma_days_before_year_step(y as int);
            }
            total_days -= if is_leap_year(y) { 366 } else { 365 };
            y += 1;
        }
    }
    let ghost base = total_days as int;
    let mut m: u32 = 1;
    while m < month && m <= 12
        invariant
            1 <= m <= 13,
            m <= month,
            total_days == base + days_before_month(year as int, m as nat),
            base == days_before_year(year as int),
            0 <= days_before_month(year as int, m as nat) <= 31 * (m - 1),
            -366 * 0x1_0000_0000 <= base <= 366 * 0x1_0000_0000,
        decreases month - m,
    {
        total_days += days_in_month(year, m) as i64;
        m += 1;
    }
    assert(total_days == base + days_before_month(year as int, month as nat)) by {
        if m < month {
            assert(m == 13);
            reveal_with_fuel(days_before_month, 2);
        }
    }
    total_days += (day - 1) as i64;
    total_days * seconds_per_day + (hour as i64) * 3600 + (min as i64) * 60 + sec as i64
}


/// The result of splitting `ts` seconds since the epoch into a date and a time of
/// day: the proleptic Gregorian date of its day (days before 1970-01-01 count
/// back from it) and the time within that day.
pub open spec fn timestamp_date_relation(ts: int, r: (i32, u32, u32, u32, u32, u32)) -> bool {
    let days = ts / 86400;
    let secs = ts % 86400;
    &&& r.3 == secs / 3600
    &&& r.4 == (secs % 3600) / 60
    &&& r.5 == secs % 60
    &&& valid_date(r.0 as int, r.1 as int, r.2 as int)
    &&& epoch_day(r.0 as int, r.1 as nat, r.2 as int) == days
}

/// Whether the date of `ts` lies in a year that an `i32` holds.
pub open spec fn timestamp_in_range(ts: int) -> bool {
    let days = ts / 86400;
    days_before_year(i32::MIN as int) <= days < days_before_year(i32::MAX + 1)
}

/// Converts seconds since 1970-01-01T00:00:00 to `(year, month, day, hour, minute, second)`,
/// in the proleptic Gregorian calendar (UTC).
pub fn unix_timestamp_to_date(timestamp: i64) -> (r: (i32, u32, u32, u32, u32, u32))
    requires
        timestamp_in_range(timestamp as int),
    ensures
        timestamp_date_relation(timestamp as int, r),
{
    let mut days: i64;
    let mut remaining_seconds: u32;
    if timestamp >= 0 {
        days = timestamp / 86400;
        remaining_seconds = (timestamp % 86400) as u32;
    } else {
        // Round the day count towards negative infinity so that the time of
        // day stays within 0..86400.
        let back: i64 = -(timestamp + 1);
        days = -(back / 86400) - 1;
        remaining_seconds = (86399 - back % 86400) as u32;
    }
    assert(days == timestamp as int / 86400 && remaining_seconds == timestamp as int % 86400)
        by (nonlinear_arith)
        requires
            timestamp >= 0 ==> days == timestamp / 86400 && remaining_seconds == timestamp % 86400,
            timestamp < 0 ==> days == -((-(timestamp + 1)) / 86400) - 1
                && remaining_seconds == 86399 - (-(timestamp + 1)) % 86400,
    ;
    let ghost total = days as int;
    let hour = remaining_seconds / 3600;
    remaining_seconds %= 3600;
    let minute = remaining_seconds / 60;
    let second = remaining_seconds % 60;

    let mut year = 1970i32;
    while days < 0
        invariant
            year <= 1970,
            days == total - days_before_year(year as int),
            days_before_year(i32::MIN as int) <= total,
            total >= 0 ==> days >= 0,
            days < 0 ==> days >= total,
        decreases year - i32::MIN,
    {
        if year == i32::MIN {
            assert(false);
        }
        proof {
            lemma_days_before_year_step(year - 1);
            if year - 1 > i32::MIN {
                lemma_days_before_year_increasing(i32::MIN as int, year - 1);
            }
        }
        year -= 1;
        days += if is_leap_year(year) { 366 } else { 365 };
    }
    loop
        invariant
            i32::MIN <= year,
            days == total - days_before_year(year as int),
            days >= 0,
            total < days_before_year(i32::MAX + 1),
        ensures
            days == total - days_before_year(year as int),
            0 <= days < year_length(year as int),
        decreases days,
    {
        let days_in_year: i64 = if is_leap_year(year) { 366 } else { 365 };
        if days < days_in_year {
            break;
        }
        proof {
            lemma_days_before_year_step(year as int);
            if year as int + 1 < i32::MAX + 1 {
                lemma_days_before_year_increasing(year as int + 1, i32::MAX + 1);
            }
        }
        days -= days_in_year;
        year += 1;
    }
    proof {
        lemma_months_fill_year(year as int);
    }
    let ghost year_start = days as int;
    let mut month = 0u32;
    let mut i: u32 = 0;
    while i < 12
        invariant_except_break
            month == 0,
        invariant
            i <= 12,
            days == year_start - days_before_month(year as int, (i + 1) as nat) && days >= 0,
            0 <= year_start < year_length(year as int),
            days == total - days_before_year(year as int) - days_before_month(year as int, (i + 1) as nat),
        ensures
            month == 0 ==> i == 12,
            month != 0 ==> 1 <= month <= 12 && days < month_length(year as int, month as int)
                && days == total - days_before_year(year as int) - days_before_month(year as int, month as nat),
            days >= 0,
        decreases 12 - i,
    {
        let md = days_in_month(year, i + 1) as i64;
        if days < md {
            month = i + 1;
            break;
        }
        days -= md;
        i += 1;
        assert(days_before_month(year as int, (i + 1) as nat) == days_before_month(year as int, i as nat)
            + month_length(year as int, i as int));
    }
    if month == 0 {
        assert(false);
        month = 12;
    }
    let day = (days as u32) + 1;
    (year, month, day, hour, minute, second)
}


/// Years on or after 1970 start on or after the epoch.
pub proof fn lemma_days_before_year_nonneg(y: int)
    requires
        y >= 1970,
    ensures
        days_before_year(y) >= 0,
    decreases y - 1970,
{
    if y > 1970 {
        lemma_days_before_year_nonneg(y - 1);
    }
}

/// A later year starts at least a whole year after an earlier one.
pub proof fn lemma_days_before_year_increasing(y1: int, y2: int)
    requires
        y1 < y2,
    ensures
        days_before_year(y1) + year_length(y1) <= days_before_year(y2),
    decreases y2 - y1,
{
    lemma_days_before_year_step(y1);
    if y1 + 1 < y2 {
        lemma_days_before_year_increasing(y1 + 1, y2);
    }
}

/// A valid day of a month lies between the start of the month and the start of the next.
pub proof fn lemma_day_within_month(y: int, m: int, d: int)
    requires
        valid_date(y, m, d),
    ensures
        days_before_month(y, m as nat) <= days_before_month(y, m as nat) + d - 1 < days_before_month(y, (m + 1) as nat),
        days_before_month(y, (m + 1) as nat) <= year_length(y),
        days_before_month(y, m as nat) >= 0,
{
    reveal_with_fuel(days_before_month, 13);
}

/// Two valid dates with the same offset from the start of the same year are equal.
pub proof fn lemma_day_of_year_injective(y: int, m1: int, d1: int, m2: int, d2: int)
    requires
        valid_date(y, m1, d1),
        valid_date(y, m2, d2),
        days_before_month(y, m1 as nat) + d1 == days_before_month(y, m2 as nat) + d2,
    ensures
        m1 == m2 && d1 == d2,
{
    reveal_with_fuel(days_before_month, 13);
}

/// Distinct valid dates fall on distinct days.
pub proof fn lemma_epoch_day_injective(y1: int, m1: int, d1: int, y2: int, m2: int, d2: int)
    requires
        valid_date(y1, m1, d1),
        valid_date(y2, m2, d2),
        epoch_day(y1, m1 as nat, d1) == epoch_day(y2, m2 as nat, d2),
    ensures
        y1 == y2 && m1 == m2 && d1 == d2,
{
    lemma_day_within_month(y1, m1, d1);
    lemma_day_within_month(y2, m2, d2);
    if y1 < y2 {
        lemma_days_before_year_increasing(y1, y2);
    } else if y2 < y1 {
        lemma_days_before_year_increasing(y2, y1);
    }
    lemma_day_of_year_injective(y1, m1, d1, m2, d2);
}

/// Splitting the seconds of a day into hours, minutes and seconds and joining
/// them again gives back the same count.
proof fn lemma_time_of_day(secs: int)
    requires
        0 <= secs < 86400,
    ensures
        (secs / 3600) * 3600 + ((secs % 3600) / 60) * 60 + secs % 60 == secs,
{
}

/// A time of day joined into seconds splits back into the same parts.
proof fn lemma_time_of_day_split(h: int, mi: int, s: int)
    requires
        0 <= h < 24,
        0 <= mi < 60,
        0 <= s < 60,
    ensures
        (h * 3600 + mi * 60 + s) / 3600 == h,
        ((h * 3600 + mi * 60 + s) % 3600) / 60 == mi,
        (h * 3600 + mi * 60 + s) % 60 == s,
{
    assert((h * 3600 + mi * 60 + s) / 3600 == h) by (nonlinear_arith)
        requires 0 <= h < 24, 0 <= mi < 60, 0 <= s < 60;
    assert((h * 3600 + mi * 60 + s) % 3600 == mi * 60 + s) by (nonlinear_arith)
        requires 0 <= h < 24, 0 <= mi < 60, 0 <= s < 60;
    assert((mi * 60 + s) / 60 == mi) by (nonlinear_arith)
        requires 0 <= mi < 60, 0 <= s < 60;
    assert((h * 3600 + mi * 60 + s) % 60 == s) by (nonlinear_arith)
        requires 0 <= h < 24, 0 <= mi < 60, 0 <= s < 60;
}

/// Splitting a timestamp into a date and time and joining them again gives
/// back the same timestamp.
pub proof fn law_timestamp_roundtrip(ts: int, r: (i32, u32, u32, u32, u32, u32))
    requires
        timestamp_date_relation(ts, r),
    ensures
        date_timestamp(r.0 as int, r.1 as nat, r.2 as int, r.3 as int, r.4 as int, r.5 as int) == ts,
{
    lemma_time_of_day(ts % 86400);
    assert(ts == (ts / 86400) * 86400 + ts % 86400) by (nonlinear_arith);
}

/// Joining a date and a time of day into a timestamp and splitting it again
/// gives back the same date and time.
pub proof fn law_date_roundtrip(y: i32, m: u32, d: u32, h: u32, mi: u32, s: u32, r: (i32, u32, u32, u32, u32, u32))
    requires
        valid_date(y as int, m as int, d as int),
        h < 24,
        mi < 60,
        s < 60,
        timestamp_date_relation(date_timestamp(y as int, m as nat, d as int, h as int, mi as int, s as int), r),
    ensures
        r == (y, m, d, h, mi, s),
{
    let day = epoch_day(y as int, m as nat, d as int);
    let secs = h * 3600 + mi * 60 + s;
    let ts = date_timestamp(y as int, m as nat, d as int, h as int, mi as int, s as int);
    lemma_day_within_month(y as int, m as int, d as int);
    assert(ts / 86400 == day && ts % 86400 == secs) by (nonlinear_arith)
        requires ts == day * 86400 + secs, 0 <= secs < 86400;
    lemma_time_of_day_split(h as int, mi as int, s as int);
    lemma_epoch_day_injective(y as int, m as int, d as int, r.0 as int, r.1 as int, r.2 as int);
}


/// Days from 0000-03-01 to March 1 of year `y`.
pub open spec fn march_day(y: int) -> int {
    365 * y + y / 4 - y / 100 + y / 400
}

/// 1 for a leap year, 0 otherwise.
pub open spec fn leap_bit(y: int) -> int {
    if is_leap(y) { 1 } else { 0 }
}

proof fn lemma_march_day_step(y: int)
    ensures
        march_day(y + 1) == march_day(y) + 365 + leap_bit(y + 1),
{
    lemma_div_step(y, 4);
    lemma_div_step(y, 100);
    lemma_div_step(y, 400);
    assert((y + 1) % 400 == 0 ==> (y + 1) % 100 == 0) by (nonlinear_arith);
    assert((y + 1) % 100 == 0 ==> (y + 1) % 4 == 0) by (nonlinear_arith);
}

proof fn lemma_div_step(y: int, k: int)
    requires
        k > 0,
    ensures
        (y + 1) / k - y / k == (if (y + 1) % k == 0 { 1int } else { 0 }),
{
    let q = y / k;
    let r = y % k;
    assert(y == q * k + r && 0 <= r < k) by (nonlinear_arith) requires k > 0, q == y / k, r == y % k;
    if r == k - 1 {
        assert((y + 1) / k == q + 1 && (y + 1) % k == 0) by (nonlinear_arith)
            requires y == q * k + r, r == k - 1, k > 0;
    } else {
        assert((y + 1) / k == q && (y + 1) % k == r + 1) by (nonlinear_arith)
            requires y == q * k + r, 0 <= r < k - 1, k > 0;
    }
}

/// March 1 of year `y`, counted from 0000-03-01, against January 1 counted from 1970-01-01.
proof fn lemma_march_day_epoch(y: int)
    ensures
        days_before_year(y) + 59 + leap_bit(y) + 719468 == march_day(y),
    decreases (if y >= 1970 { y - 1970 } else { 1970 - y }),
{
    if y > 1970 {
        lemma_march_day_epoch(y - 1);
        lemma_march_day_step(y - 1);
        lemma_days_before_year_step(y - 1);
    } else if y < 1970 {
        lemma_march_day_epoch(y + 1);
        lemma_march_day_step(y);
        lemma_days_before_year_step(y);
    }
}

/// Four hundred years always hold 146097 days.
proof fn lemma_march_day_era(yoe: int, era: int)
    requires
        0 <= yoe < 400,
    ensures
        march_day(yoe + 400 * era) == march_day(yoe) + 146097 * era,
        is_leap(yoe + 1 + 400 * era) == is_leap(yoe + 1),
{
    lemma_div_shift(yoe, 4, 100 * era);
    lemma_div_shift(yoe, 100, 4 * era);
    lemma_div_shift(yoe, 400, era);
    lemma_div_shift(yoe + 1, 4, 100 * era);
    lemma_div_shift(yoe + 1, 100, 4 * era);
    lemma_div_shift(yoe + 1, 400, era);
    assert(yoe / 400 == 0);
}

/// Adding a multiple of `k` shifts the quotient and keeps the remainder.
proof fn lemma_div_shift(x: int, k: int, n: int)
    requires
        k > 0,
    ensures
        (x + k * n) / k == x / k + n,
        (x + k * n) % k == x % k,
{
    let q = x / k;
    let r = x % k;
    assert(x == q * k + r && 0 <= r < k) by (nonlinear_arith) requires k > 0, q == x / k, r == x % k;
    assert(x + k * n == (q + n) * k + r) by (nonlinear_arith) requires x == q * k + r;
    assert((x + k * n) / k == q + n && (x + k * n) % k == r) by (nonlinear_arith)
        requires x + k * n == (q + n) * k + r, 0 <= r < k;
}

/// Splitting a day of a 400-year era into a year of the era and a day of that
/// (March-based) year.
proof fn lemma_year_of_era(doe: u32)
    by (bit_vector)
    requires
        doe < 146097,
    ensures
        ({
            let yoe = (doe - doe / 1460 + doe / 36524 - doe / 146096) / 365;
            let base = 365 * yoe + yoe / 4 - yoe / 100;
            &&& yoe <= 399
            &&& base <= doe
            &&& doe - base < 365 + (if ((yoe + 1) % 4 == 0 && (yoe + 1) % 100 != 0) || (yoe + 1) % 400 == 0 { 1u32 } else { 0u32 })
        }),
{
}

/// Splitting a day of a March-based year into a month and a day of that month.
proof fn lemma_month_of_year(doy: u32)
    by (bit_vector)
    requires
        doy <= 365,
    ensures
        ({
            let mp = (5 * doy + 2) / 153;
            let start = (153 * mp + 2) / 5;
            &&& mp <= 11
            &&& start <= doy
            &&& doy - start < (if mp == 1 || mp == 3 || mp == 6 || mp == 8 { 30u32 } else if mp == 11 { 29u32 } else { 31u32 })
            &&& (mp == 11 && doy - start == 28 ==> doy == 365)
            &&& start == (if mp == 0 { 0u32 } else if mp == 1 { 31u32 } else if mp == 2 { 61u32 } else if mp == 3 { 92u32 }
                else if mp == 4 { 122u32 } else if mp == 5 { 153u32 } else if mp == 6 { 184u32 } else if mp == 7 { 214u32 }
                else if mp == 8 { 245u32 } else if mp == 9 { 275u32 } else if mp == 10 { 306u32 } else { 337u32 })
        }),
{
}

/// The date that the era/year/month decomposition of a day count names.
pub open spec fn civil_of(days: int) -> (int, int, int) {
    let z = days + 719468;
    let era = z / 146097;
    let doe = z - era * 146097;
    let yoe = (doe - doe / 1460 + doe / 36524 - doe / 146096) / 365;
    let doy = doe - (365 * yoe + yoe / 4 - yoe / 100);
    let mp = (5 * doy + 2) / 153;
    let d = doy - (153 * mp + 2) / 5 + 1;
    let m = if mp < 10 { mp + 3 } else { mp - 9 };
    let y = yoe + era * 400 + (if m <= 2 { 1int } else { 0 });
    (y, m, d)
}

/// The era/year/month decomposition of a day count names the real calendar date
/// of that day.
pub proof fn lemma_civil_of(days: int)
    ensures
        valid_date(civil_of(days).0, civil_of(days).1, civil_of(days).2),
        epoch_day(civil_of(days).0, civil_of(days).1 as nat, civil_of(days).2) == days,
{
    let z = days + 719468;
    let era = z / 146097;
    let doe = z - era * 146097;
    assert(0 <= doe < 146097);
    lemma_year_of_era(doe as u32);
    let yoe = (doe - doe / 1460 + doe / 36524 - doe / 146096) / 365;
    let doy = doe - (365 * yoe + yoe / 4 - yoe / 100);
    assert(0 <= doy <= 365);
    lemma_month_of_year(doy as u32);
    let mp = (5 * doy + 2) / 153;
    let start = (153 * mp + 2) / 5;
    let d = doy - start + 1;
    let year = yoe + era * 400;
    lemma_march_day_era(yoe, era);
    assert(march_day(yoe) == 365 * yoe + yoe / 4 - yoe / 100);
    assert(z == march_day(year) + doy);
    lemma_march_day_epoch(year);
    lemma_march_day_epoch(year + 1);
    lemma_march_day_step(year);
    reveal_with_fuel(days_before_month, 13);
    if mp < 10 {
        assert(epoch_day(year, (mp + 3) as nat, d) == days);
    } else {
        assert(epoch_day(year + 1, (mp - 9) as nat, d) == days);
    }
}

/// The calendar date that lies `days` days after 1970-01-01.
pub open spec fn date_of_day(days: int) -> (int, int, int) {
    choose|date: (int, int, int)| valid_date(date.0, date.1, date.2) && epoch_day(date.0, date.1 as nat, date.2) == days
}

/// Every day count names exactly one calendar date.
pub proof fn lemma_date_of_day(days: int)
    ensures
        valid_date(date_of_day(days).0, date_of_day(days).1, date_of_day(days).2),
        epoch_day(date_of_day(days).0, date_of_day(days).1 as nat, date_of_day(days).2) == days,
        date_of_day(days) == civil_of(days),
{
    lemma_civil_of(days);
    let c = civil_of(days);
    assert(valid_date(c.0, c.1, c.2) && epoch_day(c.0, c.1 as nat, c.2) == days);
    let w = date_of_day(days);
    lemma_epoch_day_injective(w.0, w.1, w.2, c.0, c.1, c.2);
}

/// Converts a count of days since 1970-01-01 to `(year, month, day)`.
#[verifier::rlimit(40)]
#[verifier::spinoff_prover]
pub fn civil_from_days(days: i64) -> (r: (i64, u32, u32))
    requires
        days <= i64::MAX - 719468,
    ensures
        (r.0 as int, r.1 as int, r.2 as int) == date_of_day(days as int),
{
    let z = days + 719468;
    let era = if z >= 0 { z } else { z - 146096 } / 146097;
    assert(era == z as int / 146097) by (nonlinear_arith)
        requires
            z >= 0 ==> era == z / 146097,
            z < 0 ==> era == -((146096 - z) / 146097),
    ;
    let doe = (z - era * 146097) as u32;
    let yoe = (doe - doe / 1460 + doe / 36524 - doe / 146096) / 365;
    let y = yoe as i64 + era * 400;
    let doy = doe - (365 * yoe + yoe / 4 - yoe / 100);
    let mp = (5 * doy + 2) / 153;
    let d = doy - (153 * mp + 2) / 5 + 1;
    let m = if mp < 10 { mp + 3 } else { mp - 9 };
    let y = if m <= 2 { y + 1 } else { y };
    proof {
        lemma_date_of_day(days as int);
    }
    (y, m, d)
}


/// Converts a count of days since 1970-01-01 to `(year, month, day)`, with the
/// year narrowed to an `i32` (taking it modulo 2^32).
pub fn days_to_ymd(days: i64) -> (r: (i32, u32, u32))
    requires
        days <= i64::MAX - 719468,
    ensures
        r.0 == date_of_day(days as int).0 as i32,
        r.1 == date_of_day(days as int).1,
        r.2 == date_of_day(days as int).2,
{
    let z = days + 719468;
    let era = if z >= 0 { z } else { z - 146096 } / 146097;
    assert(era == z as int / 146097) by (nonlinear_arith)
        requires
            z >= 0 ==> era == z / 146097,
            z < 0 ==> era == -((146096 - z) / 146097),
    ;
    let doe = z - era * 146097;
    proof {
        lemma_year_of_era(doe as u32);
    }
    let yoe = (doe - doe / 1460 + doe / 36524 - doe / 146096) / 365;
    let y = yoe + era * 400;
    let doy = doe - (365 * yoe + yoe / 4 - yoe / 100);
    proof {
        lemma_month_of_year(doy as u32);
    }
    let mp = (5 * doy + 2) / 153;
    let d = doy - (153 * mp + 2) / 5 + 1;
    let m = if mp < 10 { mp + 3 } else { mp - 9 };
    let y = if m <= 2 { y + 1 } else { y };
    proof {
        lemma_date_of_day(days as int);
    }
    (#[verifier::truncate] (y as i32), m as u32, d as u32)
}

/// The text `YYYY-MM-DDThh:mm:ssZ` for a date and a second of that day, each
/// field zero-padded as `{:04}` and `{:02}` pad it.
pub open spec fn iso_text(y: int, mo: int, d: int, secs: int) -> Seq<char> {
    signed_padded(y, 4) + seq!['-'] + zero_padded(mo as nat, 2) + seq!['-'] + zero_padded(d as nat, 2)
        + seq!['T'] + zero_padded((secs / 3600) as nat, 2) + seq![':'] + zero_padded(((secs % 3600) / 60) as nat, 2)
        + seq![':'] + zero_padded((secs % 60) as nat, 2) + seq!['Z']
}

/// Formats a date and a second of that day as `YYYY-MM-DDThh:mm:ssZ`.
pub fn format_iso_datetime(y: i64, mo: u32, d: u32, secs: u64) -> (s: String)
    requires
        secs < 86400,
    ensures
        s@ == iso_text(y as int, mo as int, d as int, secs as int),
{
    let mut out: Vec<char> = Vec::new();
    push_signed_padded(&mut out, y, 4);
    out.push('-');
    push_zero_padded(&mut out, mo as u64, 2);
    out.push('-');
    push_zero_padded(&mut out, d as u64, 2);
    out.push('T');
    push_zero_padded(&mut out, secs / 3600, 2);
    out.push(':');
    push_zero_padded(&mut out, (secs % 3600) / 60, 2);
    out.push(':');
    push_zero_padded(&mut out, secs % 60, 2);
    out.push('Z');
    string_from_chars(out)
}

/// The day of a timestamp, converted by
/// `civil_from_days`, is the date that `unix_timestamp_to_date` gives for it.
pub proof fn law_civil_matches_timestamp(ts: int, r: (i32, u32, u32, u32, u32, u32))
    requires
        timestamp_date_relation(ts, r),
    ensures
        date_of_day(ts / 86400) == (r.0 as int, r.1 as int, r.2 as int),
{
    lemma_date_of_day(ts / 86400);
    let w = date_of_day(ts / 86400);
    lemma_epoch_day_injective(w.0, w.1, w.2, r.0 as int, r.1 as int, r.2 as int);
}

/// Days from 1970-01-01 to the first day of the first year an `i32` holds
/// (negative: that day lies before the epoch).
pub proof fn lemma_days_before_year_floor()
    ensures
        days_before_year(i32::MIN as int) == -784353015833,
{
    lemma_march_day_epoch(i32::MIN as int);
    assert((-2147483648int) / 4 == -536870912);
    assert((-2147483648int) / 100 == -21474837);
    assert((-2147483648int) / 400 == -5368710);
    assert((-2147483648int) % 4 == 0 && (-2147483648int) % 100 == 52);
    assert(march_day(i32::MIN as int) == -784352296305);
}

/// Days from 1970-01-01 to the first day after the last year an `i32` holds.
pub proof fn lemma_days_before_year_limit()
    ensures
        days_before_year(i32::MAX + 1) == 784351576777,
{
    lemma_march_day_epoch(i32::MAX + 1);
    assert(2147483648int / 4 == 536870912);
    assert(2147483648int / 100 == 21474836);
    assert(2147483648int / 400 == 5368709);
    assert(2147483648int % 4 == 0 && 2147483648int % 100 == 48);
    assert(march_day(i32::MAX + 1) == 784352296305);
}

/// Whether splitting `ts` stays within the range the conversion handles (see
/// [`timestamp_in_range`]).
pub fn in_timestamp_range(ts: i64) -> (b: bool)
    ensures
        b == timestamp_in_range(ts as int),
{
    let days: i64 = if ts >= 0 {
        ts / 86400
    } else {
        let back: i64 = -(ts + 1);
        -(back / 86400) - 1
    };
    assert(days == ts as int / 86400) by (nonlinear_arith)
        requires
            ts >= 0 ==> days == ts / 86400,
            ts < 0 ==> days == -((-(ts + 1)) / 86400) - 1,
    ;
    proof {
        lemma_days_before_year_limit();
        lemma_days_before_year_floor();
    }
    -784353015833 <= days && days < 784351576777
}

} // verus!

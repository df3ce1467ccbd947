use v3s_monitor::system_info::{days_to_ymd, read_local_time};
use v3s_monitor::time_sync::{
    count_days_before_year, is_leap, parse_http_date, sync_time, LOCAL_OFFSET_SECS,
};

#[test]
fn leap_years() {
    assert!(is_leap(2000));
    assert!(is_leap(2024));
    assert!(is_leap(1972));
    assert!(!is_leap(1900));
    assert!(!is_leap(2100));
    assert!(!is_leap(2023));
    assert!(!is_leap(1970));
    assert!(is_leap(0));
}

#[test]
fn days_before_years_and_months() {
    assert_eq!(count_days_before_year(0), 0);
    assert_eq!(count_days_before_year(1970), 0);
    assert_eq!(count_days_before_year(1971), 365);
    assert_eq!(count_days_before_year(1972), 730);
    assert_eq!(count_days_before_year(1973), 1096);
    assert_eq!(count_days_before_year(2000), 10957);
    assert_eq!(count_days_before_year(2026), 20454);
    let mut sum = 0u128;
    for y in 1970..2500u64 {
        assert_eq!(count_days_before_year(y), sum);
        sum += if is_leap(y) { 366 } else { 365 };
    }
    let names =
        ["Jan", "Feb", "Mar", "Apr", "May", "Jun", "Jul", "Aug", "Sep", "Oct", "Nov", "Dec"];
    let table = [0u64, 31, 59, 90, 120, 151, 181, 212, 243, 273, 304, 334];
    for m in 0..12 {
        let date = format!("x 1 {} 1970 0:0:0", names[m]);
        assert_eq!(parse_http_date(&date), Some(table[m] * 86400));
        let date = format!("x 1 {} 1972 0:0:0", names[m]);
        let leap = if m >= 2 { 1 } else { 0 };
        assert_eq!(parse_http_date(&date), Some((730 + table[m] + leap) * 86400));
    }
}

#[test]
fn http_dates() {
    assert_eq!(parse_http_date("Thu, 01 Jan 1970 00:00:00 GMT"), Some(0));
    assert_eq!(parse_http_date("Thu, 01 Jan 1970 00:00:01 GMT"), Some(1));
    assert_eq!(parse_http_date("Fri, 06 Feb 2026 11:30:00 GMT"), Some(1770377400));
    assert_eq!(parse_http_date("Tue, 29 Feb 2000 23:59:59 GMT"), Some(951868799));
    assert_eq!(parse_http_date("Wed, 01 Mar 2000 00:00:00 GMT"), Some(951868800));
    assert_eq!(parse_http_date("Sun, 31 Dec 2023 23:59:59 GMT"), Some(1704067199));
    assert_eq!(parse_http_date("Mon, 01 Jan 2024 00:00:00 GMT"), Some(1704067200));
    assert_eq!(parse_http_date("Fri, 01 Mar 2024 00:00:00 GMT"), Some(1709251200));
    // five words are enough, and the first is not looked at
    assert_eq!(parse_http_date("Thu, 01 Jan 1970 00:00:00"), Some(0));
    assert_eq!(parse_http_date("x 1 Jan 1971 0:0:0"), Some(31536000));
    assert_eq!(parse_http_date("  x   2 Jan 1970   1:2:3   y z "), Some(86400 + 3723));
}

#[test]
fn http_dates_that_do_not_read() {
    assert_eq!(parse_http_date(""), None);
    assert_eq!(parse_http_date("Thu, 01 Jan 1970"), None);
    assert_eq!(parse_http_date("01 Jan 1970 00:00:00 GMT"), None);
    assert_eq!(parse_http_date("Thu, xx Jan 1970 00:00:00 GMT"), None);
    assert_eq!(parse_http_date("Thu, 01 jan 1970 00:00:00 GMT"), None);
    assert_eq!(parse_http_date("Thu, 01 January 1970 00:00:00 GMT"), None);
    assert_eq!(parse_http_date("Thu, 01 Jan year 00:00:00 GMT"), None);
    assert_eq!(parse_http_date("Thu, 01 Jan 1970 00:00 GMT"), None);
    assert_eq!(parse_http_date("Thu, 01 Jan 1970 00:00:00:00 GMT"), None);
    assert_eq!(parse_http_date("Thu, 01 Jan 1970 00:xx:00 GMT"), None);
    assert_eq!(parse_http_date("Thu, 00 Jan 1970 00:00:00 GMT"), None);
    assert_eq!(parse_http_date("Thu, 01 Jan 18446744073709551615 00:00:00 GMT"), None);
    assert_eq!(parse_http_date("Thu, 01 Jan 99999999999999999999 00:00:00 GMT"), None);
}

#[test]
fn http_dates_with_odd_numbers() {
    // a part of the time that does not read is passed over
    assert_eq!(parse_http_date("x 1 Jan 1970 1:x:2:3 y"), Some(3600 + 120 + 3));
    // days and times are taken as they come
    assert_eq!(parse_http_date("x 32 Jan 1970 0:0:0 y"), Some(31 * 86400));
    assert_eq!(parse_http_date("x 1 Jan 1970 24:60:60 y"), Some(86400 + 3600 + 60));
    // years before 1970 count as 1970
    assert_eq!(parse_http_date("x 1 Feb 1969 0:0:0 y"), Some(31 * 86400));
    assert_eq!(
        parse_http_date("x 1 Jan 1970 0:0:18446744073709551615 y"),
        Some(u64::MAX)
    );
    assert_eq!(parse_http_date("x 1 Jan 1970 0:1:18446744073709551615 y"), None);
}

#[test]
fn clock_setting_is_seven_hours_ahead() {
    assert_eq!(LOCAL_OFFSET_SECS, 25200);
    assert_eq!(sync_time("Thu, 01 Jan 1970 00:00:00 GMT"), Some(25200));
    assert_eq!(sync_time("Fri, 06 Feb 2026 11:30:00 GMT"), Some(1770377400 + 25200));
    assert_eq!(sync_time("no date"), None);
    assert_eq!(sync_time("x 1 Jan 1970 0:0:18446744073709551615 y"), None);
    assert_eq!(
        sync_time("x 1 Jan 1970 0:0:18446744073709526415 y"),
        Some(u64::MAX)
    );
}

#[test]
fn days_to_dates() {
    assert_eq!(days_to_ymd(0), (1970, 1, 1));
    assert_eq!(days_to_ymd(30), (1970, 1, 31));
    assert_eq!(days_to_ymd(31), (1970, 2, 1));
    assert_eq!(days_to_ymd(58), (1970, 2, 28));
    assert_eq!(days_to_ymd(59), (1970, 3, 1));
    assert_eq!(days_to_ymd(364), (1970, 12, 31));
    assert_eq!(days_to_ymd(365), (1971, 1, 1));
    assert_eq!(days_to_ymd(789), (1972, 2, 29));
    assert_eq!(days_to_ymd(790), (1972, 3, 1));
    assert_eq!(days_to_ymd(11016), (2000, 2, 29));
    assert_eq!(days_to_ymd(19722), (2023, 12, 31));
    assert_eq!(days_to_ymd(19723), (2024, 1, 1));
    assert_eq!(days_to_ymd(20490), (2026, 2, 6));
}

#[test]
fn days_and_dates_round_trip() {
    let table = [0u64, 31, 59, 90, 120, 151, 181, 212, 243, 273, 304, 334];
    for days in 0..40000u64 {
        let (y, m, d) = days_to_ymd(days);
        assert!(y >= 1970 && (1..=12).contains(&m) && d >= 1 && d <= 31);
        let leap = if m > 2 && is_leap(y) { 1 } else { 0 };
        let back = count_days_before_year(y) as u64 + table[(m - 1) as usize] + leap + d - 1;
        assert_eq!(back, days);
    }
}

#[test]
fn local_time_is_formatted_with_padding() {
    assert_eq!(read_local_time(0), "1970-01-01 07:00:00");
    assert_eq!(read_local_time(61199), "1970-01-01 23:59:59");
    assert_eq!(read_local_time(61200), "1970-01-02 00:00:00");
    assert_eq!(read_local_time(1770377400), "2026-02-06 18:30:00");
    assert_eq!(read_local_time(1709251200 - 25200 - 1), "2024-02-29 23:59:59");
    assert_eq!(read_local_time(253402300799 - 25200), "9999-12-31 23:59:59");
    assert_eq!(read_local_time(253402300800 - 25200), "10000-01-01 00:00:00");
}

//! Cross-checks against chrono: the library's own calendar validation and
//! ISO-8601 rendering agree with chrono's, on the four-digit year range
//! the library stores and for the precisions whose rendering shape chrono
//! can reproduce with a fixed format string.

use chrono::{DateTime, FixedOffset, NaiveDate, TimeZone};
use datetime_metric::datetime::Datetime;
use datetime_metric::time_unit::TimeUnit;
use datetime_metric::util::get_iso_time_string;

fn chrono_construct(
    year: i32,
    month: u32,
    day: u32,
    hour: u32,
    minute: u32,
    second: u32,
    nano: u32,
    offset_seconds: i32,
) -> Option<DateTime<FixedOffset>> {
    let offset = FixedOffset::east_opt(offset_seconds)?;
    let naive = NaiveDate::from_ymd_opt(year, month, day)?
        .and_hms_nano_opt(hour, minute, second, nano)?;
    offset.from_local_datetime(&naive).single()
}

#[test]
fn construction_agrees_with_chrono() {
    // Every tuple keeps the year within the four-digit range the library
    // stores, so the two validity notions should coincide exactly.
    let cases: &[(i32, u32, u32, u32, u32, u32, u32, i32)] = &[
        (2021, 11, 3, 14, 30, 0, 0, 3600),
        (2020, 2, 29, 23, 59, 59, 999_999_999, -3600),
        (2021, 2, 29, 0, 0, 0, 0, 0),
        (1900, 2, 29, 0, 0, 0, 0, 0),
        (2000, 2, 29, 0, 0, 0, 0, 0),
        (2021, 4, 31, 0, 0, 0, 0, 0),
        (2021, 6, 31, 0, 0, 0, 0, 0),
        (2021, 12, 31, 0, 0, 0, 0, 0),
        (2021, 0, 1, 0, 0, 0, 0, 0),
        (2021, 13, 1, 0, 0, 0, 0, 0),
        (2021, 1, 0, 0, 0, 0, 0, 0),
        (2021, 1, 32, 0, 0, 0, 0, 0),
        (2021, 1, 1, 24, 0, 0, 0, 0),
        (2021, 1, 1, 0, 60, 0, 0, 0),
        (2021, 1, 1, 0, 0, 60, 0, 0),
        (2021, 1, 1, 0, 0, 0, 1_000_000_000, 0),
        (2021, 1, 1, 0, 0, 0, 999_999_999, 0),
        (2021, 1, 1, 0, 0, 0, 0, 86_400),
        (2021, 1, 1, 0, 0, 0, 0, 86_399),
        (2021, 1, 1, 0, 0, 0, 0, -86_400),
        (2021, 1, 1, 0, 0, 0, 0, -86_399),
        (0, 1, 1, 0, 0, 0, 0, 0),
        (9999, 12, 31, 23, 59, 59, 999_999_999, 0),
    ];
    for case in cases {
        let (year, month, day, hour, minute, second, nano, offset) = *case;
        let mine = Datetime::new(year, month, day, hour, minute, second, nano, offset).is_some();
        let theirs =
            chrono_construct(year, month, day, hour, minute, second, nano, offset).is_some();
        assert_eq!(mine, theirs, "case {case:?}");
    }
}

#[test]
fn every_day_of_a_leap_and_a_common_year_agrees() {
    for year in [2020_i32, 2021] {
        for month in 1..=12_u32 {
            for day in 1..=32_u32 {
                let mine = Datetime::new(year, month, day, 0, 0, 0, 0, 0).is_some();
                let theirs = chrono_construct(year, month, day, 0, 0, 0, 0, 0).is_some();
                assert_eq!(mine, theirs, "{year}-{month}-{day}");
            }
        }
    }
}

#[test]
fn rendering_agrees_with_chrono() {
    let units: &[(TimeUnit, &str)] = &[
        (TimeUnit::Nanosecond, "%Y-%m-%dT%H:%M:%S%.9f%:z"),
        (TimeUnit::Microsecond, "%Y-%m-%dT%H:%M:%S%.6f%:z"),
        (TimeUnit::Millisecond, "%Y-%m-%dT%H:%M:%S%.3f%:z"),
        (TimeUnit::Second, "%Y-%m-%dT%H:%M:%S%:z"),
        (TimeUnit::Day, "%Y-%m-%d%:z"),
    ];
    // Offsets are whole minutes here: the `%:z` rendering drops seconds.
    let values: &[(i32, u32, u32, u32, u32, u32, u32, i32)] = &[
        (2021, 11, 3, 14, 30, 59, 123_456_789, 3600),
        (2020, 2, 29, 0, 0, 0, 0, -20_700),
        (800, 1, 2, 4, 5, 6, 7, 0),
        (9999, 12, 31, 23, 59, 59, 999_999_999, 86_340),
        (0, 1, 1, 0, 0, 0, 0, -86_340),
    ];
    for value in values {
        let (year, month, day, hour, minute, second, nano, offset) = *value;
        let mine = Datetime::new(year, month, day, hour, minute, second, nano, offset).unwrap();
        let theirs = chrono_construct(year, month, day, hour, minute, second, nano, offset)
            .unwrap();
        for (unit, pattern) in units {
            // chrono keeps the full timestamp and lets the format string
            // truncate the rendering; the library truncates the fields.
            // The resulting strings must agree.
            assert_eq!(
                get_iso_time_string(mine, *unit),
                theirs.format(pattern).to_string(),
                "value {value:?} unit {unit:?}"
            );
        }
    }
}

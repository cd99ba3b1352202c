//! Behavioural tests of the datetime metric: record, validate, gate,
//! truncate, render.

use datetime_metric::common_metric_data::CommonMetricData;
use datetime_metric::datetime::Datetime;
use datetime_metric::datetime_metric::DatetimeMetric;
use datetime_metric::storage::Metric;
use datetime_metric::time_unit::TimeUnit;
use datetime_metric::Glean;

fn meta(category: &str, name: &str, pings: &[&str]) -> CommonMetricData {
    CommonMetricData {
        name: name.to_string(),
        category: category.to_string(),
        send_in_pings: pings.iter().map(|p| p.to_string()).collect(),
    }
}

fn dt(
    year: i32,
    month: u32,
    day: u32,
    hour: u32,
    minute: u32,
    second: u32,
    nano: u32,
    offset_seconds: i32,
) -> Datetime {
    Datetime { year, month, day, hour, minute, second, nanosecond: nano, offset_seconds }
}

#[test]
fn set_with_details_hour_precision_renders_truncated() {
    let mut glean = Glean::new(true);
    let metric = DatetimeMetric::new(meta("telemetry", "start_time", &["store1"]), TimeUnit::Hour);
    metric.set_with_details(&mut glean, 2021, 11, 3, 14, 30, 0, 0, 3600);
    assert_eq!(
        metric.test_get_value_as_string(&glean, "store1"),
        Some("2021-11-03T14:00:00+01:00".to_string())
    );
}

#[test]
fn precisions_render_expected_strings() {
    let cases: &[(TimeUnit, &str)] = &[
        (TimeUnit::Day, "2021-11-03+01:00"),
        (TimeUnit::Hour, "2021-11-03T14:00:00+01:00"),
        (TimeUnit::Minute, "2021-11-03T14:30:00+01:00"),
        (TimeUnit::Second, "2021-11-03T14:30:59+01:00"),
        (TimeUnit::Millisecond, "2021-11-03T14:30:59.123+01:00"),
        (TimeUnit::Microsecond, "2021-11-03T14:30:59.123456+01:00"),
        (TimeUnit::Nanosecond, "2021-11-03T14:30:59.123456789+01:00"),
    ];
    for (unit, expected) in cases {
        let mut glean = Glean::new(true);
        let metric = DatetimeMetric::new(meta("telemetry", "start_time", &["store1"]), *unit);
        metric.set_with_details(&mut glean, 2021, 11, 3, 14, 30, 59, 123_456_789, 3600);
        assert_eq!(
            metric.test_get_value_as_string(&glean, "store1").as_deref(),
            Some(*expected),
            "unit {unit:?}"
        );
    }
}

#[test]
fn invalid_date_is_a_no_op() {
    let mut glean = Glean::new(true);
    let metric = DatetimeMetric::new(meta("telemetry", "start_time", &["store1"]), TimeUnit::Second);
    // February has no 30th day in any year.
    metric.set_with_details(&mut glean, 2021, 2, 30, 0, 0, 0, 0, 0);
    assert_eq!(metric.test_get_value_as_string(&glean, "store1"), None);
}

#[test]
fn invalid_date_leaves_prior_value() {
    let mut glean = Glean::new(true);
    let metric = DatetimeMetric::new(meta("telemetry", "start_time", &["store1"]), TimeUnit::Second);
    metric.set_with_details(&mut glean, 2021, 11, 3, 14, 30, 0, 0, 3600);
    let before = metric.test_get_value_as_string(&glean, "store1");
    assert_eq!(before.as_deref(), Some("2021-11-03T14:30:00+01:00"));
    metric.set_with_details(&mut glean, 2021, 2, 30, 0, 0, 0, 0, 0);
    assert_eq!(metric.test_get_value_as_string(&glean, "store1"), before);
}

#[test]
fn out_of_range_fields_are_no_ops() {
    // Each tuple has exactly one field out of range.
    let bad: &[(i32, u32, u32, u32, u32, u32, u32, i32)] = &[
        (-1, 1, 1, 0, 0, 0, 0, 0),
        (10_000, 1, 1, 0, 0, 0, 0, 0),
        (2021, 0, 1, 0, 0, 0, 0, 0),
        (2021, 13, 1, 0, 0, 0, 0, 0),
        (2021, 4, 31, 0, 0, 0, 0, 0),
        (2021, 1, 0, 0, 0, 0, 0, 0),
        (2021, 1, 32, 0, 0, 0, 0, 0),
        (2021, 1, 1, 24, 0, 0, 0, 0),
        (2021, 1, 1, 0, 60, 0, 0, 0),
        (2021, 1, 1, 0, 0, 60, 0, 0),
        (2021, 1, 1, 0, 0, 0, 1_000_000_000, 0),
        (2021, 1, 1, 0, 0, 0, 0, 86_400),
        (2021, 1, 1, 0, 0, 0, 0, -86_400),
    ];
    for case in bad {
        let (year, month, day, hour, minute, second, nano, offset) = *case;
        let mut glean = Glean::new(true);
        let metric =
            DatetimeMetric::new(meta("telemetry", "start_time", &["store1"]), TimeUnit::Second);
        metric.set_with_details(&mut glean, year, month, day, hour, minute, second, nano, offset);
        assert_eq!(metric.test_get_value_as_string(&glean, "store1"), None, "case {case:?}");
    }
}

#[test]
fn leap_year_rules() {
    let cases: &[(i32, bool)] = &[(2020, true), (2021, false), (1900, false), (2000, true)];
    for (year, leap) in cases {
        let mut glean = Glean::new(true);
        let metric =
            DatetimeMetric::new(meta("telemetry", "start_time", &["store1"]), TimeUnit::Day);
        metric.set_with_details(&mut glean, *year, 2, 29, 0, 0, 0, 0, 0);
        let got = metric.test_get_value_as_string(&glean, "store1");
        if *leap {
            assert_eq!(got, Some(format!("{year:04}-02-29+00:00")));
        } else {
            assert_eq!(got, None, "February 29 of {year} should be rejected");
        }
    }
}

#[test]
fn setting_twice_with_same_timestamp_is_idempotent() {
    let mut glean = Glean::new(true);
    let metric =
        DatetimeMetric::new(meta("telemetry", "start_time", &["store1"]), TimeUnit::Nanosecond);
    let value = dt(2021, 11, 3, 14, 30, 59, 123, 3600);
    metric.set(&mut glean, value);
    let once = metric.test_get_value_as_string(&glean, "store1");
    metric.set(&mut glean, value);
    assert_eq!(metric.test_get_value_as_string(&glean, "store1"), once);
    assert!(once.is_some());
}

#[test]
fn second_set_overwrites_first() {
    let mut glean = Glean::new(true);
    let metric =
        DatetimeMetric::new(meta("telemetry", "start_time", &["store1"]), TimeUnit::Second);
    metric.set(&mut glean, dt(2020, 1, 1, 0, 0, 0, 0, 0));
    metric.set(&mut glean, dt(2021, 11, 3, 14, 30, 59, 0, 3600));
    assert_eq!(
        metric.test_get_value_as_string(&glean, "store1").as_deref(),
        Some("2021-11-03T14:30:59+01:00")
    );
}

#[test]
fn disabled_recording_writes_nothing() {
    let mut glean = Glean::new(false);
    let metric =
        DatetimeMetric::new(meta("telemetry", "start_time", &["store1"]), TimeUnit::Second);
    metric.set(&mut glean, dt(2021, 11, 3, 14, 30, 0, 0, 3600));
    assert_eq!(metric.test_get_value_as_string(&glean, "store1"), None);

    glean.set_upload_enabled(true);
    metric.set(&mut glean, dt(2021, 11, 3, 14, 30, 0, 0, 3600));
    let recorded = metric.test_get_value_as_string(&glean, "store1");
    assert!(recorded.is_some());

    // Disabling again: a further set changes nothing.
    glean.set_upload_enabled(false);
    metric.set(&mut glean, dt(1999, 1, 1, 0, 0, 0, 0, 0));
    assert_eq!(metric.test_get_value_as_string(&glean, "store1"), recorded);
}

#[test]
fn never_set_metric_reads_absent() {
    let glean = Glean::new(true);
    let metric =
        DatetimeMetric::new(meta("telemetry", "start_time", &["store1"]), TimeUnit::Second);
    assert_eq!(metric.test_get_value_as_string(&glean, "store1"), None);
    assert_eq!(metric.test_get_value(&glean, "store1"), None);
}

#[test]
fn other_metrics_and_other_stores_stay_absent() {
    let mut glean = Glean::new(true);
    let metric =
        DatetimeMetric::new(meta("telemetry", "start_time", &["store1"]), TimeUnit::Second);
    metric.set(&mut glean, dt(2021, 11, 3, 14, 30, 0, 0, 3600));

    let other = DatetimeMetric::new(meta("telemetry", "end_time", &["store1"]), TimeUnit::Second);
    assert_eq!(other.test_get_value_as_string(&glean, "store1"), None);
    assert_eq!(metric.test_get_value_as_string(&glean, "store2"), None);
}

#[test]
fn value_of_another_kind_reads_absent() {
    let mut glean = Glean::new(true);
    let data = meta("telemetry", "start_time", &["store1"]);
    let metric = DatetimeMetric::new(data.clone(), TimeUnit::Second);
    glean.storage_mut().record(&data, &Metric::Boolean(true));
    assert_eq!(metric.test_get_value_as_string(&glean, "store1"), None);
    assert_eq!(metric.test_get_value(&glean, "store1"), None);
}

#[test]
fn typed_accessor_returns_truncated_value() {
    let mut glean = Glean::new(true);
    let metric = DatetimeMetric::new(meta("telemetry", "start_time", &["store1"]), TimeUnit::Hour);
    metric.set(&mut glean, dt(2021, 11, 3, 14, 30, 59, 123_456_789, 3600));
    assert_eq!(
        metric.test_get_value(&glean, "store1"),
        Some(dt(2021, 11, 3, 14, 0, 0, 0, 3600))
    );
}

#[test]
fn with_meta_defaults_to_day_precision() {
    let mut glean = Glean::new(true);
    let metric = DatetimeMetric::with_meta(meta("telemetry", "start_time", &["store1"]));
    assert_eq!(metric.time_unit, TimeUnit::Day);
    metric.set(&mut glean, dt(2021, 11, 3, 14, 30, 59, 0, 3600));
    assert_eq!(
        metric.test_get_value_as_string(&glean, "store1").as_deref(),
        Some("2021-11-03+01:00")
    );
}

#[test]
fn offsets_render_sign_hours_and_minutes() {
    let cases: &[(i32, &str)] = &[
        (0, "2021-11-03+00:00"),
        (-3600, "2021-11-03-01:00"),
        (20_700, "2021-11-03+05:45"),
        (-20_700, "2021-11-03-05:45"),
        (86_399, "2021-11-03+23:59"),
        (-86_399, "2021-11-03-23:59"),
    ];
    for (offset, expected) in cases {
        let mut glean = Glean::new(true);
        let metric =
            DatetimeMetric::new(meta("telemetry", "start_time", &["store1"]), TimeUnit::Day);
        metric.set(&mut glean, dt(2021, 11, 3, 0, 0, 0, 0, *offset));
        assert_eq!(
            metric.test_get_value_as_string(&glean, "store1").as_deref(),
            Some(*expected),
            "offset {offset}"
        );
    }
}

#[test]
fn years_are_zero_padded() {
    let mut glean = Glean::new(true);
    let metric = DatetimeMetric::new(meta("telemetry", "start_time", &["store1"]), TimeUnit::Day);
    metric.set(&mut glean, dt(800, 1, 2, 0, 0, 0, 0, 0));
    assert_eq!(
        metric.test_get_value_as_string(&glean, "store1").as_deref(),
        Some("0800-01-02+00:00")
    );
    metric.set(&mut glean, dt(0, 1, 2, 0, 0, 0, 0, 0));
    assert_eq!(
        metric.test_get_value_as_string(&glean, "store1").as_deref(),
        Some("0000-01-02+00:00")
    );
}

#[test]
fn recording_reaches_every_named_ping_store() {
    let mut glean = Glean::new(true);
    let metric = DatetimeMetric::new(
        meta("telemetry", "start_time", &["store1", "store2"]),
        TimeUnit::Second,
    );
    metric.set(&mut glean, dt(2021, 11, 3, 14, 30, 0, 0, 3600));
    let expected = Some("2021-11-03T14:30:00+01:00".to_string());
    assert_eq!(metric.test_get_value_as_string(&glean, "store1"), expected);
    assert_eq!(metric.test_get_value_as_string(&glean, "store2"), expected);
    assert_eq!(metric.test_get_value_as_string(&glean, "store3"), None);
}

#[test]
fn empty_category_identifier_is_bare_name() {
    let mut glean = Glean::new(true);
    let data = meta("", "start_time", &["store1"]);
    assert_eq!(data.identifier(), "start_time");
    let with_category = meta("telemetry", "start_time", &["store1"]);
    assert_eq!(with_category.identifier(), "telemetry.start_time");

    // The two identifiers differ, so the metrics do not collide.
    let bare = DatetimeMetric::new(data, TimeUnit::Second);
    let categorized = DatetimeMetric::new(with_category, TimeUnit::Second);
    bare.set(&mut glean, dt(2020, 1, 1, 0, 0, 0, 0, 0));
    assert_eq!(categorized.test_get_value_as_string(&glean, "store1"), None);
    assert!(bare.test_get_value_as_string(&glean, "store1").is_some());
}

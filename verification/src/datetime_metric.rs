//! The datetime metric type: records a timezone-aware timestamp under a
//! configured precision, and reads it back rendered as ISO-8601.

use vstd::prelude::*;

use crate::common_metric_data::CommonMetricData;
use crate::datetime::Datetime;
use crate::storage::{lookup, ping_names, record_in_pings, Metric, StorageManager};
use crate::time_unit::TimeUnit;
use crate::util::{get_iso_time_string, iso_time_string};
use crate::Glean;

verus! {

/// A metric whose value is a timezone-aware calendar timestamp.
///
/// The metric itself is stateless configuration: identifying metadata and
/// the precision values are truncated to when rendered. The recorded value
/// lives entirely in the instance's storage, keyed by the metric's
/// identifier.
#[derive(Clone, Debug)]
pub struct DatetimeMetric {
    /// Identifying metadata; fixed at construction.
    pub meta: CommonMetricData,
    /// Precision the stored value is truncated to for display; fixed at
    /// construction.
    pub time_unit: TimeUnit,
}

/// The datetime snapshot visible under `(store, id)`: the stored pair
/// when the entry carries the datetime tag and a well-formed timestamp,
/// absent otherwise — a value of another kind reads as "not found",
/// never as an error.
pub open spec fn snapshot_datetime(
    contents: Seq<(Seq<char>, Seq<char>, Metric)>,
    store: Seq<char>,
    id: Seq<char>,
) -> Option<(Datetime, TimeUnit)> {
    match lookup(contents, store, id) {
        Some(Metric::Datetime(d, tu)) => if d.valid() {
            Some((d, tu))
        } else {
            None
        },
        _ => None,
    }
}

impl DatetimeMetric {
    /// Constructs the metric with an explicit precision. Both inputs are
    /// structurally trusted; no validation is needed here.
    pub fn new(meta: CommonMetricData, time_unit: TimeUnit) -> (r: Self)
        ensures
            r.meta == meta,
            r.time_unit == time_unit,
    {
        Self { meta, time_unit }
    }

    /// Constructs the metric with a fixed default precision of one day.
    pub fn with_meta(meta: CommonMetricData) -> (r: Self)
        ensures
            r.meta == meta,
            r.time_unit == TimeUnit::Day,
    {
        Self { meta, time_unit: TimeUnit::Day }
    }

    /// The metric's identifying metadata.
    pub fn meta(&self) -> (r: &CommonMetricData)
        ensures
            *r == self.meta,
    {
        &self.meta
    }

    /// Whether a write of this metric is currently permitted on `glean`.
    pub fn should_record(&self, glean: &Glean) -> (r: bool)
        ensures
            r == glean.upload_enabled,
    {
        glean.is_upload_enabled()
    }

    /// The storage contents after this metric records `value`: the tagged
    /// pair of the timestamp and the metric's own precision, written under
    /// the metric's identifier into every ping store it names.
    pub open spec fn recorded_contents(
        self,
        contents: Seq<(Seq<char>, Seq<char>, Metric)>,
        value: Datetime,
    ) -> Seq<(Seq<char>, Seq<char>, Metric)> {
        record_in_pings(
            contents,
            ping_names(self.meta.send_in_pings@),
            self.meta.identifier_spec(),
            Metric::Datetime(value, self.time_unit),
        )
    }

    /// Sets the metric to a fully-formed timestamp.
    ///
    /// When recording is permitted the tagged value is written into
    /// storage; otherwise nothing happens. No error is ever returned:
    /// recording is fire-and-forget.
    pub fn set(&self, glean: &mut Glean, value: Datetime)
        requires
            value.valid(),
        ensures
            final(glean).upload_enabled == old(glean).upload_enabled,
            final(glean).storage@ == if old(glean).upload_enabled {
                self.recorded_contents(old(glean).storage@, value)
            } else {
                old(glean).storage@
            },
    {
        if !self.should_record(glean) {
            return ;
        }
        let value = Metric::Datetime(value, self.time_unit);
        let storage = glean.storage_mut();
        storage.record(&self.meta, &value);
    }

    /// Sets the metric from raw calendar fields.
    ///
    /// When the fields form a valid date/time the metric is set to it;
    /// otherwise the call is a no-op and nothing is written. In either
    /// case no error reaches the caller.
    pub fn set_with_details(
        &self,
        glean: &mut Glean,
        year: i32,
        month: u32,
        day: u32,
        hour: u32,
        minute: u32,
        second: u32,
        nano: u32,
        offset_seconds: i32,
    )
        ensures
            final(glean).upload_enabled == old(glean).upload_enabled,
            final(glean).storage@ == if (Datetime {
                year,
                month,
                day,
                hour,
                minute,
                second,
                nanosecond: nano,
                offset_seconds,
            }).valid() && old(glean).upload_enabled {
                self.recorded_contents(
                    old(glean).storage@,
                    (Datetime {
                        year,
                        month,
                        day,
                        hour,
                        minute,
                        second,
                        nanosecond: nano,
                        offset_seconds,
                    }),
                )
            } else {
                old(glean).storage@
            },
    {
        match Datetime::new(year, month, day, hour, minute, second, nano, offset_seconds) {
            Some(d) => self.set(glean, d),
            None => {},
        }
    }

    /// **Test-only API.**
    ///
    /// The currently stored timestamp, truncated to the precision it was
    /// stored with; absent when nothing is stored under this metric in
    /// the given ping store, or when the stored value is of another kind.
    /// The stored value is not cleared.
    pub fn test_get_value(&self, glean: &Glean, storage_name: &str) -> (r: Option<Datetime>)
        ensures
            r == match snapshot_datetime(
                glean.storage@,
                storage_name@,
                self.meta.identifier_spec(),
            ) {
                Some(snap) => Some(snap.0.truncated(snap.1)),
                None => None::<Datetime>,
            },
    {
        let id = self.meta.identifier();
        match StorageManager.snapshot_metric(glean.storage(), storage_name, id.as_str()) {
            Some(Metric::Datetime(d, tu)) => {
                if d.is_valid() {
                    Some(d.truncate(tu))
                } else {
                    None
                }
            },
            _ => None,
        }
    }

    /// **Test-only API.**
    ///
    /// The currently stored value rendered as an ISO-8601 string,
    /// truncated to the precision it was stored with; absent when nothing
    /// is stored under this metric in the given ping store, or when the
    /// stored value is of another kind. The stored value is not cleared.
    pub fn test_get_value_as_string(&self, glean: &Glean, storage_name: &str) -> (r: Option<
        String,
    >)
        ensures
            match snapshot_datetime(glean.storage@, storage_name@, self.meta.identifier_spec()) {
                Some(snap) => r matches Some(s) && s@ == iso_time_string(snap.0, snap.1),
                None => r is None,
            },
    {
        let id = self.meta.identifier();
        match StorageManager.snapshot_metric(glean.storage(), storage_name, id.as_str()) {
            Some(Metric::Datetime(d, tu)) => {
                if d.is_valid() {
                    Some(get_iso_time_string(d, tu))
                } else {
                    None
                }
            },
            _ => None,
        }
    }
}

} // verus!

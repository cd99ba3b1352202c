//! The behavioural laws of the datetime metric, stated over the storage
//! model and proved once and for all.

use vstd::prelude::*;

use crate::datetime::Datetime;
use crate::datetime_metric::{snapshot_datetime, DatetimeMetric};
use crate::storage::{
    lemma_lookup_record_in_pings_other, lemma_lookup_record_in_pings_recorded,
    lemma_record_in_pings_noop, lookup, ping_names, Metric,
};
use crate::time_unit::TimeUnit;
use crate::util::iso_time_string;

verus! {

/// Round trip: after a metric records a valid timestamp, every ping store
/// the metric names snapshots exactly that timestamp under the metric's
/// own precision — so a read renders it as the ISO-8601 string of that
/// timestamp at that precision.
pub proof fn lemma_recorded_value_read_back(
    m: DatetimeMetric,
    contents: Seq<(Seq<char>, Seq<char>, Metric)>,
    value: Datetime,
    store: Seq<char>,
)
    requires
        value.valid(),
        ping_names(m.meta.send_in_pings@).contains(store),
    ensures
        snapshot_datetime(m.recorded_contents(contents, value), store, m.meta.identifier_spec())
            == Some((value, m.time_unit)),
{
    lemma_lookup_record_in_pings_recorded(
        contents,
        ping_names(m.meta.send_in_pings@),
        m.meta.identifier_spec(),
        Metric::Datetime(value, m.time_unit),
        store,
    );
}

/// Idempotence: recording the same timestamp twice leaves storage exactly
/// as recording it once does.
pub proof fn lemma_set_idempotent(
    m: DatetimeMetric,
    contents: Seq<(Seq<char>, Seq<char>, Metric)>,
    value: Datetime,
)
    ensures
        m.recorded_contents(m.recorded_contents(contents, value), value) == m.recorded_contents(
            contents,
            value,
        ),
{
    let pings = ping_names(m.meta.send_in_pings@);
    let id = m.meta.identifier_spec();
    let tagged = Metric::Datetime(value, m.time_unit);
    let once = m.recorded_contents(contents, value);
    assert forall|st: Seq<char>| pings.contains(st) implies lookup(once, st, id) == Some(
        tagged,
    ) by {
        lemma_lookup_record_in_pings_recorded(contents, pings, id, tagged, st);
    }
    lemma_record_in_pings_noop(once, pings, id, tagged);
}

/// Overwrite: recording timestamp `a` and then timestamp `b` leaves `b`
/// in every ping store the metric names — the snapshot is `b`'s, never
/// `a`'s.
pub proof fn lemma_set_overwrites(
    m: DatetimeMetric,
    contents: Seq<(Seq<char>, Seq<char>, Metric)>,
    a: Datetime,
    b: Datetime,
    store: Seq<char>,
)
    requires
        b.valid(),
        ping_names(m.meta.send_in_pings@).contains(store),
    ensures
        snapshot_datetime(
            m.recorded_contents(m.recorded_contents(contents, a), b),
            store,
            m.meta.identifier_spec(),
        ) == Some((b, m.time_unit)),
{
    lemma_lookup_record_in_pings_recorded(
        m.recorded_contents(contents, a),
        ping_names(m.meta.send_in_pings@),
        m.meta.identifier_spec(),
        Metric::Datetime(b, m.time_unit),
        store,
    );
}

/// Truncation: the rendering of a timestamp depends only on its fields at
/// or above the precision — a timestamp and its truncation render to the
/// same string.
pub proof fn lemma_rendering_truncates(d: Datetime, unit: TimeUnit)
    ensures
        iso_time_string(d, unit) == iso_time_string(d.truncated(unit), unit),
{
    d.lemma_truncated_idempotent(unit);
}

/// Truncation, stated between two timestamps: whatever fields finer than
/// the precision the caller supplied, two timestamps that agree once
/// truncated render to the same string.
pub proof fn lemma_rendering_ignores_finer_fields(d1: Datetime, d2: Datetime, unit: TimeUnit)
    requires
        d1.truncated(unit) == d2.truncated(unit),
    ensures
        iso_time_string(d1, unit) == iso_time_string(d2, unit),
{
}

/// Absence: an empty store snapshots nothing for any metric, and a write
/// under one identifier never creates or changes a snapshot under
/// another.
pub proof fn lemma_never_set_reads_absent(
    m: DatetimeMetric,
    contents: Seq<(Seq<char>, Seq<char>, Metric)>,
    value: Datetime,
    store: Seq<char>,
    other_id: Seq<char>,
)
    requires
        other_id != m.meta.identifier_spec(),
    ensures
        snapshot_datetime(
            Seq::<(Seq<char>, Seq<char>, Metric)>::empty(),
            store,
            other_id,
        ) is None,
        snapshot_datetime(m.recorded_contents(contents, value), store, other_id)
            == snapshot_datetime(contents, store, other_id),
{
    lemma_lookup_record_in_pings_other(
        contents,
        ping_names(m.meta.send_in_pings@),
        m.meta.identifier_spec(),
        Metric::Datetime(value, m.time_unit),
        store,
        other_id,
    );
}

} // verus!

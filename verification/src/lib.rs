//! A datetime metric: accepts a calendar date/time with a timezone offset,
//! validates it, records it in a key/value metric store gated on an
//! upload-enabled flag, and renders it back as an ISO-8601 string truncated
//! to a configured precision.

pub mod common_metric_data;
pub mod datetime;
pub mod datetime_metric;
pub mod laws;
pub mod storage;
pub mod time_unit;
pub mod util;

use vstd::prelude::*;

use crate::storage::Metric;
use crate::storage::Storage;

verus! {

/// The enclosing telemetry instance: the upload-enabled flag that gates
/// every write, and the store of current metric values.
#[derive(Debug)]
pub struct Glean {
    /// Whether recording is currently permitted.
    pub upload_enabled: bool,
    /// The store of current metric values.
    pub storage: Storage,
}

impl Glean {
    /// A fresh instance with nothing recorded.
    pub fn new(upload_enabled: bool) -> (r: Glean)
        ensures
            r.upload_enabled == upload_enabled,
            r.storage@ == Seq::<(Seq<char>, Seq<char>, Metric)>::empty(),
    {
        Glean { upload_enabled, storage: Storage::new() }
    }

    /// Whether recording is currently permitted.
    pub fn is_upload_enabled(&self) -> (r: bool)
        ensures
            r == self.upload_enabled,
    {
        self.upload_enabled
    }

    /// Toggles the recording permission; stored values are untouched.
    pub fn set_upload_enabled(&mut self, flag: bool)
        ensures
            final(self).upload_enabled == flag,
            final(self).storage == old(self).storage,
    {
        self.upload_enabled = flag;
    }

    /// Read access to the store of current values.
    pub fn storage(&self) -> (r: &Storage)
        ensures
            *r == self.storage,
    {
        &self.storage
    }

    /// Write access to the store of current values; the flag is untouched.
    pub fn storage_mut(&mut self) -> (r: &mut Storage)
        ensures
            *r == old(self).storage,
            final(self).storage == *final(r),
            final(self).upload_enabled == old(self).upload_enabled,
    {
        &mut self.storage
    }
}

} // verus!

//! A calendar date/time with a fixed offset from UTC, held as plain fields.
//!
//! A value is well formed when every field lies in its calendar range:
//! the year is a four-digit ISO-8601 year, the day exists in the month
//! (leap-year aware), and the offset is strictly less than one day in
//! either direction.

use vstd::prelude::*;

use crate::time_unit::TimeUnit;

verus! {

/// A timezone-aware calendar timestamp.
///
/// Field ranges for a well-formed value are given by [`Datetime::valid`];
/// the checked constructor [`Datetime::new`] only produces such values.
#[derive(Clone, Copy, Debug, PartialEq, Eq, Structural)]
pub struct Datetime {
    /// Calendar year, `0..=9999` when valid.
    pub year: i32,
    /// Calendar month, `1..=12` when valid.
    pub month: u32,
    /// Day of the month, 1-based, leap-year aware when valid.
    pub day: u32,
    /// Hour of the day, `0..=23` when valid.
    pub hour: u32,
    /// Minute, `0..=59` when valid.
    pub minute: u32,
    /// Second, `0..=59` when valid.
    pub second: u32,
    /// Nanosecond fraction past the last whole second, `0..=999_999_999` when valid.
    pub nanosecond: u32,
    /// Offset from UTC in seconds, strictly between -86_400 and 86_400 when valid.
    pub offset_seconds: i32,
}

/// A year is a leap year when divisible by 4 but not by 100, or divisible by 400.
pub open spec fn is_leap_year(year: int) -> bool {
    (year % 4 == 0 && year % 100 != 0) || year % 400 == 0
}

/// Number of days in the given month of the given year.
pub open spec fn days_in_month(year: int, month: int) -> int {
    if month == 2 {
        if is_leap_year(year) {
            29
        } else {
            28
        }
    } else if month == 4 || month == 6 || month == 9 || month == 11 {
        30
    } else {
        31
    }
}

impl Datetime {
    /// A well-formed timestamp: every field within its calendar range.
    ///
    /// Years are restricted to the four-digit range that plain ISO-8601
    /// can render; the offset must name a fixed timezone strictly less
    /// than one day away from UTC.
    pub open spec fn valid(self) -> bool {
        &&& 0 <= self.year <= 9999
        &&& 1 <= self.month <= 12
        &&& 1 <= self.day <= days_in_month(self.year as int, self.month as int)
        &&& self.hour <= 23
        &&& self.minute <= 59
        &&& self.second <= 59
        &&& self.nanosecond <= 999_999_999
        &&& -86_400 < self.offset_seconds < 86_400
    }

    /// Checked constructor: returns the timestamp exactly when the fields
    /// form a valid calendar date/time, and nothing otherwise.
    pub fn new(
        year: i32,
        month: u32,
        day: u32,
        hour: u32,
        minute: u32,
        second: u32,
        nanosecond: u32,
        offset_seconds: i32,
    ) -> (r: Option<Datetime>)
        ensures
            r == if (Datetime {
                year,
                month,
                day,
                hour,
                minute,
                second,
                nanosecond,
                offset_seconds,
            }).valid() {
                Some(
                    Datetime {
                        year,
                        month,
                        day,
                        hour,
                        minute,
                        second,
                        nanosecond,
                        offset_seconds,
                    },
                )
            } else {
                None::<Datetime>
            },
    {
        let dt = Datetime { year, month, day, hour, minute, second, nanosecond, offset_seconds };
        if dt.is_valid() {
            Some(dt)
        } else {
            None
        }
    }

    /// Runtime check for [`Datetime::valid`].
    pub fn is_valid(&self) -> (r: bool)
        ensures
            r == self.valid(),
    {
        0 <= self.year && self.year <= 9999 && 1 <= self.month && self.month <= 12 && 1 <= self.day
            && self.day <= days_in_month_of(self.year, self.month) && self.hour <= 23
            && self.minute <= 59 && self.second <= 59 && self.nanosecond <= 999_999_999
            && -86_400 < self.offset_seconds && self.offset_seconds < 86_400
    }

    /// The timestamp with every field finer than `unit` set to zero;
    /// for `Day` the whole time of day is zeroed. The date fields and
    /// the offset are never changed.
    pub open spec fn truncated(self, unit: TimeUnit) -> Datetime {
        match unit {
            TimeUnit::Nanosecond => self,
            TimeUnit::Microsecond => Datetime {
                year: self.year,
                month: self.month,
                day: self.day,
                hour: self.hour,
                minute: self.minute,
                second: self.second,
                nanosecond: ((self.nanosecond / 1000) * 1000) as u32,
                offset_seconds: self.offset_seconds,
            },
            TimeUnit::Millisecond => Datetime {
                year: self.year,
                month: self.month,
                day: self.day,
                hour: self.hour,
                minute: self.minute,
                second: self.second,
                nanosecond: ((self.nanosecond / 1_000_000) * 1_000_000) as u32,
                offset_seconds: self.offset_seconds,
            },
            TimeUnit::Second => Datetime {
                year: self.year,
                month: self.month,
                day: self.day,
                hour: self.hour,
                minute: self.minute,
                second: self.second,
                nanosecond: 0,
                offset_seconds: self.offset_seconds,
            },
            TimeUnit::Minute => Datetime {
                year: self.year,
                month: self.month,
                day: self.day,
                hour: self.hour,
                minute: self.minute,
                second: 0,
                nanosecond: 0,
                offset_seconds: self.offset_seconds,
            },
            TimeUnit::Hour => Datetime {
                year: self.year,
                month: self.month,
                day: self.day,
                hour: self.hour,
                minute: 0,
                second: 0,
                nanosecond: 0,
                offset_seconds: self.offset_seconds,
            },
            TimeUnit::Day => Datetime {
                year: self.year,
                month: self.month,
                day: self.day,
                hour: 0,
                minute: 0,
                second: 0,
                nanosecond: 0,
                offset_seconds: self.offset_seconds,
            },
        }
    }

    /// Runtime truncation to the given precision; see [`Datetime::truncated`].
    pub fn truncate(&self, unit: TimeUnit) -> (r: Datetime)
        ensures
            r == self.truncated(unit),
    {
        proof {
            assert((self.nanosecond / 1000) * 1000 <= self.nanosecond) by (nonlinear_arith);
            assert((self.nanosecond / 1_000_000) * 1_000_000 <= self.nanosecond)
                by (nonlinear_arith);
        }
        match unit {
            TimeUnit::Nanosecond => *self,
            TimeUnit::Microsecond => Datetime {
                nanosecond: (self.nanosecond / 1000) * 1000,
                ..*self
            },
            TimeUnit::Millisecond => Datetime {
                nanosecond: (self.nanosecond / 1_000_000) * 1_000_000,
                ..*self
            },
            TimeUnit::Second => Datetime { nanosecond: 0, ..*self },
            TimeUnit::Minute => Datetime { second: 0, nanosecond: 0, ..*self },
            TimeUnit::Hour => Datetime { minute: 0, second: 0, nanosecond: 0, ..*self },
            TimeUnit::Day => Datetime { hour: 0, minute: 0, second: 0, nanosecond: 0, ..*self },
        }
    }

    /// Truncation keeps a valid timestamp valid: only time-of-day fields
    /// shrink toward zero, and the calendar fields are untouched.
    pub proof fn lemma_truncated_valid(self, unit: TimeUnit)
        requires
            self.valid(),
        ensures
            self.truncated(unit).valid(),
    {
        assert((self.nanosecond / 1000) * 1000 <= self.nanosecond) by (nonlinear_arith);
        assert((self.nanosecond / 1_000_000) * 1_000_000 <= self.nanosecond) by (nonlinear_arith);
    }

    /// Truncation is idempotent: truncating twice at the same precision
    /// is the same as truncating once.
    pub proof fn lemma_truncated_idempotent(self, unit: TimeUnit)
        ensures
            self.truncated(unit).truncated(unit) == self.truncated(unit),
    {
        assert(((self.nanosecond / 1000) * 1000) / 1000 == self.nanosecond / 1000)
            by (nonlinear_arith);
        assert(((self.nanosecond / 1_000_000) * 1_000_000) / 1_000_000 == self.nanosecond
            / 1_000_000) by (nonlinear_arith);
    }
}

/// Runtime evaluation of [`days_in_month`].
pub fn days_in_month_of(year: i32, month: u32) -> (r: u32)
    requires
        0 <= year,
    ensures
        r == days_in_month(year as int, month as int),
{
    if month == 2 {
        if (year % 4 == 0 && year % 100 != 0) || year % 400 == 0 {
            29
        } else {
            28
        }
    } else if month == 4 || month == 6 || month == 9 || month == 11 {
        30
    } else {
        31
    }
}

} // verus!

//! Rendering a [`Datetime`] as an ISO-8601 string at a chosen precision.
//!
//! The exact character sequence produced is pinned down by
//! [`iso_time_string`]: a date part `YYYY-MM-DD`, a time part whose shape
//! depends on the precision (absent for `Day`, with a fractional part of
//! 3, 6 or 9 digits for the sub-second precisions), and the UTC offset as
//! `±hh:mm`. Fields finer than the precision are zeroed before rendering.

use vstd::prelude::*;
use vstd::string::*;

use crate::datetime::Datetime;
use crate::time_unit::TimeUnit;

verus! {

/// The decimal digit character for `d` (`0..=9`).
pub open spec fn digit_char(d: int) -> char {
    if d == 0 {
        '0'
    } else if d == 1 {
        '1'
    } else if d == 2 {
        '2'
    } else if d == 3 {
        '3'
    } else if d == 4 {
        '4'
    } else if d == 5 {
        '5'
    } else if d == 6 {
        '6'
    } else if d == 7 {
        '7'
    } else if d == 8 {
        '8'
    } else {
        '9'
    }
}

/// The last `width` decimal digits of `n`, most significant first,
/// zero-padded on the left.
pub open spec fn dec_digits(n: int, width: nat) -> Seq<char>
    decreases width,
{
    if width == 0 {
        Seq::empty()
    } else {
        dec_digits(n / 10, (width - 1) as nat) + seq![digit_char(n % 10)]
    }
}

/// `YYYY-MM-DD` for the date fields of `d`.
pub open spec fn date_part(d: Datetime) -> Seq<char> {
    dec_digits(d.year as int, 4) + seq!['-'] + dec_digits(d.month as int, 2) + seq!['-']
        + dec_digits(d.day as int, 2)
}

/// The fractional-second part: 3, 6 or 9 digits after a dot for the
/// sub-second precisions, empty otherwise.
pub open spec fn frac_part(d: Datetime, unit: TimeUnit) -> Seq<char> {
    match unit {
        TimeUnit::Millisecond => seq!['.'] + dec_digits(d.nanosecond as int / 1_000_000, 3),
        TimeUnit::Microsecond => seq!['.'] + dec_digits(d.nanosecond as int / 1000, 6),
        TimeUnit::Nanosecond => seq!['.'] + dec_digits(d.nanosecond as int, 9),
        _ => Seq::empty(),
    }
}

/// `Thh:mm:ss` plus the fractional part; empty for `Day` precision.
pub open spec fn time_part(d: Datetime, unit: TimeUnit) -> Seq<char> {
    if unit == TimeUnit::Day {
        Seq::empty()
    } else {
        seq!['T'] + dec_digits(d.hour as int, 2) + seq![':'] + dec_digits(d.minute as int, 2)
            + seq![':'] + dec_digits(d.second as int, 2) + frac_part(d, unit)
    }
}

/// The UTC offset as `±hh:mm`; any seconds of the offset below a whole
/// minute are dropped.
pub open spec fn offset_part(offset_seconds: int) -> Seq<char> {
    let magnitude = if offset_seconds < 0 {
        -offset_seconds
    } else {
        offset_seconds
    };
    (if offset_seconds < 0 {
        seq!['-']
    } else {
        seq!['+']
    }) + dec_digits(magnitude / 3600, 2) + seq![':'] + dec_digits((magnitude % 3600) / 60, 2)
}

/// The full ISO-8601 rendering of `d` truncated to `unit`.
pub open spec fn iso_time_string(d: Datetime, unit: TimeUnit) -> Seq<char> {
    let t = d.truncated(unit);
    date_part(t) + time_part(t, unit) + offset_part(t.offset_seconds as int)
}

/// Appends the single digit character for `d` to `s`.
fn push_digit(s: &mut String, d: u32)
    requires
        d < 10,
    ensures
        final(s)@ == old(s)@ + seq![digit_char(d as int)],
{
    if d == 0 {
        s.append("0");
        proof {
            reveal_strlit("0");
            assert(s@ =~= old(s)@ + seq![digit_char(d as int)]);
        }
    } else if d == 1 {
        s.append("1");
        proof {
            reveal_strlit("1");
            assert(s@ =~= old(s)@ + seq![digit_char(d as int)]);
        }
    } else if d == 2 {
        s.append("2");
        proof {
            reveal_strlit("2");
            assert(s@ =~= old(s)@ + seq![digit_char(d as int)]);
        }
    } else if d == 3 {
        s.append("3");
        proof {
            reveal_strlit("3");
            assert(s@ =~= old(s)@ + seq![digit_char(d as int)]);
        }
    } else if d == 4 {
        s.append("4");
        proof {
            reveal_strlit("4");
            assert(s@ =~= old(s)@ + seq![digit_char(d as int)]);
        }
    } else if d == 5 {
        s.append("5");
        proof {
            reveal_strlit("5");
            assert(s@ =~= old(s)@ + seq![digit_char(d as int)]);
        }
    } else if d == 6 {
        s.append("6");
        proof {
            reveal_strlit("6");
            assert(s@ =~= old(s)@ + seq![digit_char(d as int)]);
        }
    } else if d == 7 {
        s.append("7");
        proof {
            reveal_strlit("7");
            assert(s@ =~= old(s)@ + seq![digit_char(d as int)]);
        }
    } else if d == 8 {
        s.append("8");
        proof {
            reveal_strlit("8");
            assert(s@ =~= old(s)@ + seq![digit_char(d as int)]);
        }
    } else {
        s.append("9");
        proof {
            reveal_strlit("9");
            assert(s@ =~= old(s)@ + seq![digit_char(d as int)]);
        }
    }
}

/// Appends the last `width` decimal digits of `n`, zero-padded, to `s`.
fn push_padded(s: &mut String, n: u32, width: u32)
    ensures
        final(s)@ == old(s)@ + dec_digits(n as int, width as nat),
    decreases width,
{
    if width > 0 {
        push_padded(s, n / 10, width - 1);
        push_digit(s, n % 10);
        proof {
            assert(s@ =~= old(s)@ + dec_digits(n as int, width as nat));
        }
    } else {
        proof {
            assert(s@ =~= old(s)@ + dec_digits(n as int, width as nat));
        }
    }
}

/// Appends `YYYY-MM-DD` for `d` to `s`.
fn push_date_part(s: &mut String, d: Datetime)
    requires
        0 <= d.year,
    ensures
        final(s)@ == old(s)@ + date_part(d),
{
    push_padded(s, d.year as u32, 4);
    s.append("-");
    push_padded(s, d.month, 2);
    s.append("-");
    push_padded(s, d.day, 2);
    proof {
        reveal_strlit("-");
        assert(s@ =~= old(s)@ + date_part(d));
    }
}

/// Appends the time-of-day part of `d` at precision `unit` to `s`.
fn push_time_part(s: &mut String, d: Datetime, unit: TimeUnit)
    ensures
        final(s)@ == old(s)@ + time_part(d, unit),
{
    match unit {
        TimeUnit::Day => {
            proof {
                assert(s@ =~= old(s)@ + time_part(d, unit));
            }
        },
        _ => {
            s.append("T");
            push_padded(s, d.hour, 2);
            s.append(":");
            push_padded(s, d.minute, 2);
            s.append(":");
            push_padded(s, d.second, 2);
            match unit {
                TimeUnit::Millisecond => {
                    s.append(".");
                    push_padded(s, d.nanosecond / 1_000_000, 3);
                },
                TimeUnit::Microsecond => {
                    s.append(".");
                    push_padded(s, d.nanosecond / 1000, 6);
                },
                TimeUnit::Nanosecond => {
                    s.append(".");
                    push_padded(s, d.nanosecond, 9);
                },
                _ => {},
            }
            proof {
                reveal_strlit("T");
                reveal_strlit(":");
                reveal_strlit(".");
                assert(s@ =~= old(s)@ + time_part(d, unit));
            }
        },
    }
}

/// Appends the `±hh:mm` offset rendering to `s`.
fn push_offset_part(s: &mut String, offset_seconds: i32)
    requires
        -86_400 < offset_seconds < 86_400,
    ensures
        final(s)@ == old(s)@ + offset_part(offset_seconds as int),
{
    let magnitude: u32 = if offset_seconds < 0 {
        s.append("-");
        (-offset_seconds) as u32
    } else {
        s.append("+");
        offset_seconds as u32
    };
    push_padded(s, magnitude / 3600, 2);
    s.append(":");
    push_padded(s, (magnitude % 3600) / 60, 2);
    proof {
        reveal_strlit("-");
        reveal_strlit("+");
        reveal_strlit(":");
        assert(s@ =~= old(s)@ + offset_part(offset_seconds as int));
    }
}

/// Renders `d` as an ISO-8601 string truncated to `unit`; the result is
/// exactly [`iso_time_string`] of `d` and `unit`.
pub fn get_iso_time_string(d: Datetime, unit: TimeUnit) -> (r: String)
    requires
        d.valid(),
    ensures
        r@ == iso_time_string(d, unit),
{
    let t = d.truncate(unit);
    proof {
        d.lemma_truncated_valid(unit);
    }
    let mut s = String::new();
    push_date_part(&mut s, t);
    push_time_part(&mut s, t, unit);
    push_offset_part(&mut s, t.offset_seconds);
    proof {
        assert(s@ =~= iso_time_string(d, unit));
    }
    s
}

} // verus!

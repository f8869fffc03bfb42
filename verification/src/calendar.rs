//! Calendar date and clock time of a commit, as the `chrono` crate computes
//! them, and the text in which a commit time is shown.

use crate::commit_time::CommitTime;
use crate::text::{push_char, push_zero_padded, zero_padded};
use chrono::{Datelike, FixedOffset, TimeZone, Timelike};
use vstd::prelude::*;
use vstd::string::StringExecFns;

verus! {

/// Year, month, day, hour and minute of a moment in a place; the month counts
/// from 1, as the day does.
#[derive(Clone, Copy, Debug, PartialEq, Eq, Structural)]
pub struct DateTimeParts {
    pub year: i32,
    pub month: u32,
    pub day: u32,
    pub hour: u32,
    pub minute: u32,
}

/// The calendar fields of the moment `seconds` after 1970-01-01 00:00:00 UTC
/// in a place `offset_seconds` east of UTC, or `None` where the calendar does
/// not reach that far.
pub uninterp spec fn local_date_time(seconds: int, offset_seconds: int) -> Option<DateTimeParts>;

/// `TimeZone::timestamp_opt` of `chrono`, on the `FixedOffset` that
/// `FixedOffset::east_opt` makes of `offset_seconds`, read out field by field.
/// The fields are determined by the two numbers alone. The month is 1 to 12,
/// the day 1 to 31, the hour at most 23 and the minute at most 59.
/// `east_opt` accepts every offset of less than a day.
#[verifier::external_body]
pub(crate) fn fixed_offset_date_time(seconds: i64, offset_seconds: i32) -> (parts: Option<
    DateTimeParts,
>)
    requires
        -86_400 < offset_seconds < 86_400,
    ensures
        parts == local_date_time(seconds as int, offset_seconds as int),
        parts matches Some(p) ==> 1 <= p.month <= 12 && 1 <= p.day <= 31 && p.hour <= 23
            && p.minute <= 59,
{
    let zone = FixedOffset::east_opt(offset_seconds).unwrap();
    match zone.timestamp_opt(seconds, 0).single() {
        Some(at) => Some(
            DateTimeParts {
                year: at.year(),
                month: at.month(),
                day: at.day(),
                hour: at.hour(),
                minute: at.minute(),
            },
        ),
        None => None,
    }
}

impl CommitTime {
    /// The offset is less than a day, so that a time zone can have it.
    pub open spec fn has_zone(self) -> bool {
        -1440 < self.offset_minutes < 1440
    }

    /// The calendar fields of the commit time where it was made, if the offset
    /// is less than a day and the calendar reaches the moment.
    pub open spec fn local_parts(self) -> Option<DateTimeParts> {
        if self.has_zone() {
            local_date_time(self.seconds as int, self.offset_minutes * 60)
        } else {
            None
        }
    }

    /// The calendar fields of the commit time in UTC, if the commit time has
    /// them where it was made.
    pub open spec fn utc_parts(self) -> Option<DateTimeParts> {
        if self.local_parts() is Some {
            local_date_time(self.seconds as int, 0)
        } else {
            None
        }
    }
}

/// A year as text: four digits at least, a year before the year 0 with its
/// sign in the first place.
pub open spec fn year_text(year: int) -> Seq<char> {
    if year >= 0 {
        zero_padded(year as nat, 4)
    } else {
        seq!['-'] + zero_padded((-year) as nat, 3)
    }
}

/// An offset from UTC as text: the sign, two digits of hours, two of minutes
/// (more digits of hours where the offset is a hundred hours or more).
pub open spec fn offset_text(offset_minutes: int) -> Seq<char> {
    let size = if offset_minutes >= 0 {
        offset_minutes
    } else {
        -offset_minutes
    };
    seq![if offset_minutes >= 0 {
        '+'
    } else {
        '-'
    }] + zero_padded((size / 60) as nat, 2) + zero_padded((size % 60) as nat, 2)
}

/// Date, time and offset as text: `YYYY-MM-DD HH:MM`, a space, and the offset
/// as `offset_text` writes it.
pub open spec fn date_time_text(parts: DateTimeParts, offset_minutes: int) -> Seq<char> {
    year_text(parts.year as int) + seq!['-'] + zero_padded(parts.month as nat, 2) + seq!['-']
        + zero_padded(parts.day as nat, 2) + seq![' '] + zero_padded(parts.hour as nat, 2)
        + seq![':'] + zero_padded(parts.minute as nat, 2) + seq![' '] + offset_text(
        offset_minutes,
    )
}

/// Appends one character.
fn push_one(text: &mut String, c: char)
    ensures
        final(text)@ == old(text)@ + seq![c],
{
    push_char(text, c);
}

/// Appends a year as `year_text` writes it.
fn push_year(text: &mut String, year: i32)
    ensures
        final(text)@ == old(text)@ + year_text(year as int),
{
    if year >= 0 {
        push_zero_padded(text, year as u64, 4);
    } else {
        let mut piece = String::new();
        push_one(&mut piece, '-');
        push_zero_padded(&mut piece, (-(year as i64)) as u64, 3);
        text.append(piece.as_str());
    }
}

/// Appends an offset from UTC as `offset_text` writes it.
fn push_offset(text: &mut String, offset_minutes: i32)
    ensures
        final(text)@ == old(text)@ + offset_text(offset_minutes as int),
{
    let mut piece = String::new();
    let size: u64 = if offset_minutes >= 0 {
        push_one(&mut piece, '+');
        offset_minutes as u64
    } else {
        push_one(&mut piece, '-');
        (-(offset_minutes as i64)) as u64
    };
    push_zero_padded(&mut piece, size / 60, 2);
    push_zero_padded(&mut piece, size % 60, 2);
    text.append(piece.as_str());
}

/// Writes date, time and offset as `date_time_text` states.
pub fn format_date_time(parts: &DateTimeParts, offset_minutes: i32) -> (text: String)
    ensures
        text@ == date_time_text(*parts, offset_minutes as int),
{
    let mut text = String::new();
    push_year(&mut text, parts.year);
    push_one(&mut text, '-');
    push_zero_padded(&mut text, parts.month as u64, 2);
    push_one(&mut text, '-');
    push_zero_padded(&mut text, parts.day as u64, 2);
    push_one(&mut text, ' ');
    push_zero_padded(&mut text, parts.hour as u64, 2);
    push_one(&mut text, ':');
    push_zero_padded(&mut text, parts.minute as u64, 2);
    push_one(&mut text, ' ');
    push_offset(&mut text, offset_minutes);
    text
}

} // verus!

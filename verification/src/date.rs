//! Dates written into file names: the fields a pattern captures, read as
//! numbers and checked against the calendar.

use crate::calendar::{date_time_of, is_date_time, LocalDateTime};
use crate::decimal::{decimal_value, parse_decimal};
use crate::pattern::{
    captured_group, compiles, group_text, pattern_captures, pattern_compiles, text_view,
};
use crate::timestamp::Timestamp;
use vstd::prelude::*;

verus! {

/// The texts that the six date groups of a pattern matched in one file
/// name. `None` for a group that the pattern lacks or that took no part in
/// the match.
#[derive(Clone, Debug, PartialEq, Eq)]
pub struct DateGroups {
    pub year: Option<String>,
    pub month: Option<String>,
    pub day: Option<String>,
    pub hour: Option<String>,
    pub minute: Option<String>,
    pub second: Option<String>,
}

/// The number that a group wrote, where it took part and wrote one.
pub open spec fn field_value(text: Option<Seq<char>>) -> Option<u32> {
    match text {
        Some(t) => decimal_value(t),
        None => None,
    }
}

/// The number of an optional field: 0 where the group is absent or took no
/// part in the match, and else the number that it wrote, where it wrote
/// one. A group that took part and wrote no number has no value.
pub open spec fn optional_field_value(text: Option<Seq<char>>) -> Option<u32> {
    match text {
        Some(t) => decimal_value(t),
        None => Some(0),
    }
}

/// The date that six group texts write. Year, month and day must each be
/// there and be a number; hour, minute and second count as 0 where they are
/// absent, and must be a number where they are there; and the six numbers
/// must be a date of the calendar and a time of day.
pub open spec fn date_of_fields(
    year: Option<Seq<char>>,
    month: Option<Seq<char>>,
    day: Option<Seq<char>>,
    hour: Option<Seq<char>>,
    minute: Option<Seq<char>>,
    second: Option<Seq<char>>,
) -> Option<LocalDateTime> {
    match (field_value(year), field_value(month), field_value(day)) {
        (Some(y), Some(m), Some(d)) => match (
            optional_field_value(hour),
            optional_field_value(minute),
            optional_field_value(second),
        ) {
            (Some(h), Some(mi), Some(s)) => date_time_of(y, m, d, h, mi, s),
            _ => None,
        },
        _ => None,
    }
}

/// The date that the named groups of a match write: `year`, `month`, `day`,
/// `hour`, `minute` and `second`. No match, no date.
pub open spec fn date_of_captures(captures: Option<Map<Seq<char>, Seq<char>>>) -> Option<
    LocalDateTime,
> {
    match captures {
        Some(groups) => date_of_fields(
            group_text(groups, "year"@),
            group_text(groups, "month"@),
            group_text(groups, "day"@),
            group_text(groups, "hour"@),
            group_text(groups, "minute"@),
            group_text(groups, "second"@),
        ),
        None => None,
    }
}

/// The date that a file name carries under a pattern: none where the
/// pattern does not compile.
pub open spec fn date_in_file_name(file_name: Seq<char>, pattern: Seq<char>) -> Option<
    LocalDateTime,
> {
    if pattern_compiles(pattern) {
        date_of_captures(pattern_captures(pattern, file_name))
    } else {
        None
    }
}

/// A file name whose groups each wrote a number, `year`, `month` and `day`
/// being there, carries exactly the date that the numbers write, where they
/// write one: the fields of the result are the numbers, and an `hour`,
/// `minute` or `second` group that is absent counts as 0.
pub proof fn lemma_written_date_is_decoded(
    file_name: Seq<char>,
    pattern: Seq<char>,
    year: u32,
    month: u32,
    day: u32,
    hour: u32,
    minute: u32,
    second: u32,
)
    requires
        pattern_compiles(pattern),
        pattern_captures(pattern, file_name) matches Some(groups) && {
            &&& field_value(group_text(groups, "year"@)) == Some(year)
            &&& field_value(group_text(groups, "month"@)) == Some(month)
            &&& field_value(group_text(groups, "day"@)) == Some(day)
            &&& optional_field_value(group_text(groups, "hour"@)) == Some(hour)
            &&& optional_field_value(group_text(groups, "minute"@)) == Some(minute)
            &&& optional_field_value(group_text(groups, "second"@)) == Some(second)
        },
        is_date_time(
            year as int,
            month as int,
            day as int,
            hour as int,
            minute as int,
            second as int,
        ),
    ensures
        date_in_file_name(file_name, pattern) == Some(
            LocalDateTime { year: year as i32, month, day, hour, minute, second },
        ),
        !pattern_captures(pattern, file_name)->0.contains_key("hour"@) ==> hour == 0,
        !pattern_captures(pattern, file_name)->0.contains_key("minute"@) ==> minute == 0,
        !pattern_captures(pattern, file_name)->0.contains_key("second"@) ==> second == 0,
{
}

/// A file name that the pattern matches, but whose `year`, `month` or `day`
/// group is absent, or one of whose six groups took part and wrote no
/// number, carries no date.
pub proof fn lemma_unreadable_field_no_date(file_name: Seq<char>, pattern: Seq<char>)
    requires
        pattern_captures(pattern, file_name) matches Some(groups) && {
            ||| field_value(group_text(groups, "year"@)) is None
            ||| field_value(group_text(groups, "month"@)) is None
            ||| field_value(group_text(groups, "day"@)) is None
            ||| optional_field_value(group_text(groups, "hour"@)) is None
            ||| optional_field_value(group_text(groups, "minute"@)) is None
            ||| optional_field_value(group_text(groups, "second"@)) is None
        },
    ensures
        date_in_file_name(file_name, pattern) is None,
{
}

/// A file name that the pattern does not match carries no date.
pub proof fn lemma_no_match_no_date(file_name: Seq<char>, pattern: Seq<char>)
    requires
        pattern_captures(pattern, file_name) is None,
    ensures
        date_in_file_name(file_name, pattern) is None,
{
}

impl DateGroups {
    /// The date that these texts write.
    pub open spec fn date(self) -> Option<LocalDateTime> {
        date_of_fields(
            text_view(self.year),
            text_view(self.month),
            text_view(self.day),
            text_view(self.hour),
            text_view(self.minute),
            text_view(self.second),
        )
    }

    /// Whether these are the date groups of the given match.
    pub open spec fn captured_from(self, groups: Map<Seq<char>, Seq<char>>) -> bool {
        &&& text_view(self.year) == group_text(groups, "year"@)
        &&& text_view(self.month) == group_text(groups, "month"@)
        &&& text_view(self.day) == group_text(groups, "day"@)
        &&& text_view(self.hour) == group_text(groups, "hour"@)
        &&& text_view(self.minute) == group_text(groups, "minute"@)
        &&& text_view(self.second) == group_text(groups, "second"@)
    }
}

/// Reads one group text as a number.
fn parse_field(text: &Option<String>) -> (r: Option<u32>)
    ensures
        r == field_value(text_view(*text)),
{
    match text {
        Some(t) => parse_decimal(t.as_str()),
        None => None,
    }
}

/// Reads an optional group text as a number: 0 where the group is absent,
/// and none where it is there and writes no number.
fn parse_optional_field(text: &Option<String>) -> (r: Option<u32>)
    ensures
        r == optional_field_value(text_view(*text)),
{
    match text {
        Some(t) => parse_decimal(t.as_str()),
        None => Some(0),
    }
}

/// Decodes the date that six captured texts write. The texts of year,
/// month and day must be there; every text that is there must write a
/// number; an hour, minute or second that is absent counts as 0.
pub fn decode_date(groups: &DateGroups) -> (r: Option<LocalDateTime>)
    ensures
        r == groups.date(),
        r matches Some(date) ==> date.wf(),
{
    let year = match parse_field(&groups.year) {
        Some(n) => n,
        None => {
            return None;
        },
    };
    let month = match parse_field(&groups.month) {
        Some(n) => n,
        None => {
            return None;
        },
    };
    let day = match parse_field(&groups.day) {
        Some(n) => n,
        None => {
            return None;
        },
    };
    let hour = match parse_optional_field(&groups.hour) {
        Some(n) => n,
        None => {
            return None;
        },
    };
    let minute = match parse_optional_field(&groups.minute) {
        Some(n) => n,
        None => {
            return None;
        },
    };
    let second = match parse_optional_field(&groups.second) {
        Some(n) => n,
        None => {
            return None;
        },
    };
    LocalDateTime::new(year, month, day, hour, minute, second)
}

/// Matches `pattern` against `text` and collects what the six date groups
/// matched. `None` where the pattern does not match.
pub fn capture_date_groups(pattern: &str, text: &str) -> (r: Option<DateGroups>)
    requires
        pattern_compiles(pattern@),
    ensures
        r is Some <==> pattern_captures(pattern@, text@) is Some,
        r matches Some(groups) ==> groups.captured_from(pattern_captures(pattern@, text@)->0),
{
    let year = match captured_group(pattern, text, "year") {
        Some(group) => group,
        None => {
            return None;
        },
    };
    let month = match captured_group(pattern, text, "month") {
        Some(group) => group,
        None => {
            return None;
        },
    };
    let day = match captured_group(pattern, text, "day") {
        Some(group) => group,
        None => {
            return None;
        },
    };
    let hour = match captured_group(pattern, text, "hour") {
        Some(group) => group,
        None => {
            return None;
        },
    };
    let minute = match captured_group(pattern, text, "minute") {
        Some(group) => group,
        None => {
            return None;
        },
    };
    let second = match captured_group(pattern, text, "second") {
        Some(group) => group,
        None => {
            return None;
        },
    };
    Some(DateGroups { year, month, day, hour, minute, second })
}

/// The date that `file_name` carries under `pattern`, where it carries one:
/// the pattern matches, its groups `year`, `month` and `day` each wrote a
/// number, its groups `hour`, `minute` and `second` each wrote a number or
/// took no part, and the numbers are a date. A pattern that does not
/// compile finds no date.
pub fn date_from_file_name(file_name: &str, pattern: &str) -> (r: Option<LocalDateTime>)
    ensures
        r == date_in_file_name(file_name@, pattern@),
        r matches Some(date) ==> date.wf(),
{
    if !compiles(pattern) {
        return None;
    }
    match capture_date_groups(pattern, file_name) {
        Some(groups) => decode_date(&groups),
        None => None,
    }
}

/// Whether `t` can be the instant of the date that a file name carries
/// under a pattern.
pub open spec fn shown_in_file_name(file_name: Seq<char>, pattern: Seq<char>, t: Timestamp) -> bool {
    match date_in_file_name(file_name, pattern) {
        Some(date) => date.shown_at(t),
        None => false,
    }
}

/// The instant of the date that `file_name` carries under `pattern`: the
/// instant at which the local wall clock shows that date. `None` where the
/// name carries no date, and where the local time zone knows no one instant
/// for it.
pub fn timestamp_from_file_name(file_name: &str, pattern: &str) -> (r: Option<Timestamp>)
    ensures
        r matches Some(t) ==> t.wf() && shown_in_file_name(file_name@, pattern@, t),
{
    match date_from_file_name(file_name, pattern) {
        Some(date) => date.timestamp(),
        None => None,
    }
}

} // verus!

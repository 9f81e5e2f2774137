//! The calendar: dates and times of day as a wall clock shows them, and
//! the instants at which it does.

use crate::timestamp::Timestamp;
use chrono::{Local, LocalResult, TimeZone};
use vstd::prelude::*;

verus! {

/// The last year that a date may fall in.
pub const MAX_YEAR: u32 = 262_142;

/// Whether `year` has a 29th of February in the Gregorian calendar.
pub open spec fn is_leap_year(year: int) -> bool {
    year % 4 == 0 && (year % 100 != 0 || year % 400 == 0)
}

/// How many days `month` has in `year`, for a month from 1 to 12.
pub open spec fn days_in_month(year: int, month: int) -> int {
    if month == 2 {
        if is_leap_year(year) {
            29
        } else {
            28
        }
    } else if month == 4 || month == 6 || month == 9 || month == 11 {
        30
    } else {
        31
    }
}

/// Whether the six numbers are a day of the Gregorian calendar, in a year
/// from 0 to `MAX_YEAR`, and a time of that day to the second.
pub open spec fn is_date_time(
    year: int,
    month: int,
    day: int,
    hour: int,
    minute: int,
    second: int,
) -> bool {
    &&& 0 <= year <= MAX_YEAR
    &&& 1 <= month <= 12
    &&& 1 <= day <= days_in_month(year, month)
    &&& 0 <= hour < 24
    &&& 0 <= minute < 60
    &&& 0 <= second < 60
}

/// A date and a time of day as a wall clock in the local time zone shows
/// them. Which instant that is depends on the zone: see `timestamp`.
#[derive(Clone, Copy, Debug, PartialEq, Eq, Structural)]
pub struct LocalDateTime {
    pub year: i32,
    pub month: u32,
    pub day: u32,
    pub hour: u32,
    pub minute: u32,
    pub second: u32,
}

/// The date and time with the six given fields, where they are one.
pub open spec fn date_time_of(
    year: u32,
    month: u32,
    day: u32,
    hour: u32,
    minute: u32,
    second: u32,
) -> Option<LocalDateTime> {
    if is_date_time(year as int, month as int, day as int, hour as int, minute as int, second as int) {
        Some(LocalDateTime { year: year as i32, month, day, hour, minute, second })
    } else {
        None
    }
}

/// How many years before `year`, from the year 0 on, have a 29th of February.
pub open spec fn leap_years_before(year: int) -> int {
    (year + 3) / 4 - (year + 99) / 100 + (year + 399) / 400
}

/// How many days lie between the first day of the year 0 and the first day
/// of `year`.
pub open spec fn days_before_year(year: int) -> int {
    365 * year + leap_years_before(year)
}

/// How many days of `year` lie before the first day of `month`.
pub open spec fn days_before_month(year: int, month: int) -> int
    decreases month,
{
    if month <= 1 {
        0
    } else {
        days_before_month(year, month - 1) + days_in_month(year, month - 1)
    }
}

/// The days between the first day of the year 0 and the first day of 1970.
pub const DAYS_BEFORE_1970: i64 = 719_528;

/// The seconds in a day.
pub const SECONDS_PER_DAY: i64 = 86_400;

/// What a time zone answers when it is asked at which second after the
/// epoch its wall clock shows a date and time.
#[derive(Clone, Copy, Debug, PartialEq, Eq, Structural)]
pub enum LocalAnswer {
    /// The clock never shows them: the fields are no date, or the clock was
    /// set forward over them.
    Never,
    /// The clock shows them once, at this second.
    Once(i64),
    /// The clock shows them twice, at these seconds: it was set back.
    Twice(i64, i64),
}

/// Asks `chrono::Local` at which instants the local wall clock shows the
/// given fields (`TimeZone::with_ymd_and_hms`), and gives each instant as
/// its seconds since the epoch (`DateTime::timestamp`). Trusted, and
/// nothing is claimed of the answer: it depends on the time zone of the
/// machine.
#[verifier::external_body]
fn local_epoch_seconds(
    year: i32,
    month: u32,
    day: u32,
    hour: u32,
    minute: u32,
    second: u32,
) -> LocalAnswer {
    match Local.with_ymd_and_hms(year, month, day, hour, minute, second) {
        LocalResult::Single(instant) => LocalAnswer::Once(instant.timestamp()),
        LocalResult::Ambiguous(first, last) => LocalAnswer::Twice(
            first.timestamp(),
            last.timestamp(),
        ),
        LocalResult::None => LocalAnswer::Never,
    }
}

impl LocalDateTime {
    /// The fields are a date of the calendar and a time of day.
    pub open spec fn wf(self) -> bool {
        is_date_time(
            self.year as int,
            self.month as int,
            self.day as int,
            self.hour as int,
            self.minute as int,
            self.second as int,
        )
    }

    /// Checks six numbers against the calendar.
    pub fn new(year: u32, month: u32, day: u32, hour: u32, minute: u32, second: u32) -> (r: Option<
        LocalDateTime,
    >)
        ensures
            r == date_time_of(year, month, day, hour, minute, second),
            r matches Some(date) ==> date.wf(),
    {
        if year > MAX_YEAR || month < 1 || month > 12 || hour >= 24 || minute >= 60 || second >= 60 {
            return None;
        }
        let leap = year % 4 == 0 && (year % 100 != 0 || year % 400 == 0);
        let days: u32 = if month == 2 {
            if leap {
                29
            } else {
                28
            }
        } else if month == 4 || month == 6 || month == 9 || month == 11 {
            30
        } else {
            31
        };
        if day < 1 || day > days {
            return None;
        }
        Some(LocalDateTime { year: year as i32, month, day, hour, minute, second })
    }

    /// The seconds from the epoch to this date and time, were the wall
    /// clock that shows them set to UTC.
    pub open spec fn civil_seconds(self) -> int {
        (days_before_year(self.year as int) + days_before_month(self.year as int, self.month as int)
            + self.day - 1 - 719_528) * 86_400 + self.hour * 3_600 + self.minute * 60
            + self.second
    }

    /// Whether `t` can be the instant at which a local wall clock shows this
    /// date and time: a whole second, less than a day from the instant at
    /// which a clock set to UTC shows them, as no time zone is a day away
    /// from UTC.
    pub open spec fn shown_at(self, t: Timestamp) -> bool {
        &&& self.wf()
        &&& t.nanos == 0
        &&& -86_400 < t.secs - self.civil_seconds() < 86_400
    }

    /// Whether the fields are a date of the calendar and a time of day.
    pub fn is_valid(&self) -> (r: bool)
        ensures
            r == self.wf(),
    {
        if self.year < 0 || self.year > 262_142 {
            return false;
        }
        match LocalDateTime::new(
            self.year as u32,
            self.month,
            self.day,
            self.hour,
            self.minute,
            self.second,
        ) {
            Some(_) => true,
            None => false,
        }
    }

    /// The seconds from the epoch to this date and time, were the wall
    /// clock that shows them set to UTC.
    pub fn seconds_in_utc(&self) -> (r: i64)
        requires
            self.wf(),
        ensures
            r == self.civil_seconds(),
            -62_167_219_200 <= r < 8_300_000_000_000,
    {
        let year: i64 = self.year as i64;
        let leap = year % 4 == 0 && (year % 100 != 0 || year % 400 == 0);
        let before_year: i64 = 365 * year + (year + 3) / 4 - (year + 99) / 100 + (year + 399) / 400;
        let common: i64 = match self.month {
            1 => 0,
            2 => 31,
            3 => 59,
            4 => 90,
            5 => 120,
            6 => 151,
            7 => 181,
            8 => 212,
            9 => 243,
            10 => 273,
            11 => 304,
            _ => 334,
        };
        let before_month: i64 = if leap && self.month > 2 {
            common + 1
        } else {
            common
        };
        proof {
            reveal_with_fuel(days_before_month, 13);
        }
        let days: i64 = before_year + before_month + (self.day as i64 - 1) - DAYS_BEFORE_1970;
        days * SECONDS_PER_DAY + self.hour as i64 * 3_600 + self.minute as i64 * 60
            + self.second as i64
    }

    /// The instant at which the local wall clock shows this date and time,
    /// to the second. `None` where the fields are no date, and where the
    /// local time zone has no such instant (the clock was set forward over
    /// it) or has two (it was set back). Which instant it is, is the time
    /// zone's to say; it is taken only where it lies less than a day from
    /// the instant at which a clock set to UTC shows the same.
    pub fn timestamp(&self) -> (r: Option<Timestamp>)
        ensures
            r matches Some(t) ==> self.shown_at(t) && t.wf(),
    {
        if !self.is_valid() {
            return None;
        }
        let answer = local_epoch_seconds(
            self.year,
            self.month,
            self.day,
            self.hour,
            self.minute,
            self.second,
        );
        self.instant_from_answer(answer)
    }

    /// What is made of the answer of a time zone for this date and time.
    /// The one second of the answer is taken as the instant where the fields
    /// are a date and the second lies less than a day from the one at which
    /// a clock set to UTC shows them. A clock that never shows them, or
    /// shows them twice, gives no instant.
    pub open spec fn instant_of(self, answer: LocalAnswer) -> Option<Timestamp> {
        match answer {
            LocalAnswer::Once(secs) => if self.wf() && -86_400 < secs - self.civil_seconds()
                < 86_400 {
                Some(Timestamp { secs, nanos: 0 })
            } else {
                None
            },
            LocalAnswer::Twice(_, _) => None,
            LocalAnswer::Never => None,
        }
    }

    /// Takes the answer of a time zone for this date and time, and makes
    /// the instant of it, where it is one.
    pub fn instant_from_answer(&self, answer: LocalAnswer) -> (r: Option<Timestamp>)
        ensures
            r == self.instant_of(answer),
    {
        match answer {
            LocalAnswer::Once(secs) => {
                if !self.is_valid() {
                    return None;
                }
                let in_utc: i64 = self.seconds_in_utc();
                if in_utc - SECONDS_PER_DAY < secs && secs < in_utc + SECONDS_PER_DAY {
                    Some(Timestamp::from_secs(secs))
                } else {
                    None
                }
            },
            LocalAnswer::Twice(_, _) => None,
            LocalAnswer::Never => None,
        }
    }
}

/// Every instant that is made of an answer is one at which a local wall
/// clock can show the date, and every such instant is made of an answer.
pub proof fn lemma_instant_of_answer(date: LocalDateTime, t: Timestamp)
    ensures
        date.shown_at(t) <==> date.instant_of(LocalAnswer::Once(t.secs)) == Some(t),
{
}

/// Of two dates that lie two days or more apart on the calendar, the later
/// is shown at a later instant, whatever the time zone makes of each.
pub proof fn lemma_later_date_later_instant(
    earlier: LocalDateTime,
    later: LocalDateTime,
    t_earlier: Timestamp,
    t_later: Timestamp,
)
    requires
        earlier.shown_at(t_earlier),
        later.shown_at(t_later),
        earlier.civil_seconds() + 2 * 86_400 <= later.civil_seconds(),
    ensures
        t_earlier.before(t_later),
{
}

/// A later day of the calendar lies a day or more after an earlier one:
/// the seconds in UTC go up with the year, then the month, then the day.
pub proof fn lemma_civil_seconds_by_date(a: LocalDateTime, b: LocalDateTime)
    requires
        a.wf(),
        b.wf(),
        a.year < b.year || (a.year == b.year && (a.month < b.month || (a.month == b.month && a.day
            < b.day))),
    ensures
        a.civil_seconds() - a.hour * 3_600 - a.minute * 60 - a.second + 86_400
            <= b.civil_seconds() - b.hour * 3_600 - b.minute * 60 - b.second,
{
    let day_a = days_before_month(a.year as int, a.month as int) + a.day - 1;
    let day_b = days_before_month(b.year as int, b.month as int) + b.day - 1;
    lemma_days_before_month_grows(b.year as int, 1, b.month as int);
    if a.year < b.year {
        lemma_days_before_year_grows(a.year as int, b.year as int);
        lemma_days_before_month_grows(a.year as int, a.month as int, 13);
        lemma_days_in_year(a.year as int);
        assert(days_before_year(a.year as int) + day_a + 1 <= days_before_year(b.year as int)
            + day_b);
    } else if a.month < b.month {
        lemma_days_before_month_grows(a.year as int, a.month as int, b.month as int);
    }
}

/// The days before a month go up with the month: before a later month lie
/// the days before an earlier one and the days of that one.
pub proof fn lemma_days_before_month_grows(year: int, earlier: int, later: int)
    requires
        1 <= earlier <= later <= 13,
    ensures
        0 <= days_before_month(year, earlier) <= days_before_month(year, later),
        earlier < later ==> days_before_month(year, earlier) + days_in_month(year, earlier)
            <= days_before_month(year, later),
    decreases later - earlier,
{
    if earlier < later {
        lemma_days_before_month_grows(year, earlier, later - 1);
    } else {
        lemma_days_before_month_is_natural(year, earlier);
    }
}

/// No month has a negative number of days before it.
pub proof fn lemma_days_before_month_is_natural(year: int, month: int)
    ensures
        0 <= days_before_month(year, month),
    decreases month,
{
    if month > 1 {
        lemma_days_before_month_is_natural(year, month - 1);
    }
}

/// A year has 365 days, and one more where it is a leap year.
pub proof fn lemma_days_in_year(year: int)
    ensures
        days_before_month(year, 13) == 365 + if is_leap_year(year) {
            1int
        } else {
            0int
        },
{
    reveal_with_fuel(days_before_month, 14);
}

/// Between the first days of two years lie the days of the earlier year, or
/// more.
pub proof fn lemma_days_before_year_grows(a: int, b: int)
    requires
        0 <= a < b,
    ensures
        days_before_year(a) + 365 + if is_leap_year(a) {
            1int
        } else {
            0int
        } <= days_before_year(b),
    decreases b - a,
{
    lemma_leap_years_step(a);
    if a + 1 < b {
        lemma_days_before_year_grows(a + 1, b);
    }
}

/// A leap year adds one to the leap years before the year after it, and
/// another year adds none.
pub proof fn lemma_leap_years_step(year: int)
    requires
        0 <= year,
    ensures
        leap_years_before(year + 1) == leap_years_before(year) + if is_leap_year(year) {
            1int
        } else {
            0int
        },
{
    assert((year + 4) / 4 - (year + 3) / 4 == if year % 4 == 0 {
        1int
    } else {
        0int
    });
    assert((year + 100) / 100 - (year + 99) / 100 == if year % 100 == 0 {
        1int
    } else {
        0int
    });
    assert((year + 400) / 400 - (year + 399) / 400 == if year % 400 == 0 {
        1int
    } else {
        0int
    });
}

} // verus!

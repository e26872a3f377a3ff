use crate::text::{digit_char, four_digits, push_four_digits, push_two_digits, two_digits};
use chrono::{DateTime, Datelike, Days, Local, Timelike, Utc};
use vstd::prelude::*;
use vstd::string::*;

verus! {

/// A wall-clock reading within one day: hours, minutes and seconds since
/// local midnight.
#[derive(Debug, Clone, Copy, PartialEq, Eq, Structural)]
pub struct ClockTime {
    hour: u8,
    minute: u8,
    second: u8,
}

impl ClockTime {
    /// Whether three numbers name a time of day.
    pub open spec fn in_range(hour: int, minute: int, second: int) -> bool {
        0 <= hour < 24 && 0 <= minute < 60 && 0 <= second < 60
    }

    /// The hour of the reading.
    pub closed spec fn spec_hour(self) -> int {
        self.hour as int
    }

    /// The minute of the reading.
    pub closed spec fn spec_minute(self) -> int {
        self.minute as int
    }

    /// The second of the reading.
    pub closed spec fn spec_second(self) -> int {
        self.second as int
    }

    /// Every reading that executable code holds names a time of day.
    #[verifier::type_invariant]
    pub closed spec fn is_valid(self) -> bool {
        Self::in_range(self.hour as int, self.minute as int, self.second as int)
    }

    /// The reading as seconds since midnight.
    pub open spec fn seconds_of_day(self) -> int {
        self.spec_hour() * 3600 + self.spec_minute() * 60 + self.spec_second()
    }

    /// A reading from its three parts, if they name a time of day.
    pub fn new(hour: u8, minute: u8, second: u8) -> (t: Option<ClockTime>)
        ensures
            t is Some <==> Self::in_range(hour as int, minute as int, second as int),
            t matches Some(c) ==> c.is_valid() && c.spec_hour() == hour && c.spec_minute()
                == minute && c.spec_second() == second,
    {
        if hour < 24 && minute < 60 && second < 60 {
            Some(ClockTime { hour, minute, second })
        } else {
            None
        }
    }

    /// The hour of the reading, from 0 to 23.
    pub fn hour(&self) -> (h: u8)
        ensures
            h == self.spec_hour(),
            h < 24,
    {
        proof {
            use_type_invariant(self);
        }
        self.hour
    }

    /// The minute of the reading, from 0 to 59.
    pub fn minute(&self) -> (m: u8)
        ensures
            m == self.spec_minute(),
            m < 60,
    {
        proof {
            use_type_invariant(self);
        }
        self.minute
    }

    /// The second of the reading, from 0 to 59.
    pub fn second(&self) -> (s: u8)
        ensures
            s == self.spec_second(),
            s < 60,
    {
        proof {
            use_type_invariant(self);
        }
        self.second
    }

    /// The reading as the clock face shows it: `HH:MM`.
    pub open spec fn hour_minute(self) -> Seq<char> {
        two_digits(self.spec_hour()) + seq![':'] + two_digits(self.spec_minute())
    }

    /// Writes the reading as the clock face shows it.
    pub fn hour_minute_text(&self) -> (text: String)
        ensures
            text@ == self.hour_minute(),
    {
        proof {
            use_type_invariant(self);
            reveal_strlit(":");
        }
        let mut text = String::new();
        push_two_digits(&mut text, self.hour);
        text.append(":");
        push_two_digits(&mut text, self.minute);
        assert(text@ =~= self.hour_minute());
        text
    }

    /// What validity says of the three parts.
    pub proof fn lemma_valid_parts(self)
        requires
            self.is_valid(),
        ensures
            Self::in_range(self.spec_hour(), self.spec_minute(), self.spec_second()),
            0 <= self.seconds_of_day() < 86400,
    {
    }

    /// Two valid readings with the same three parts are the same reading.
    pub proof fn lemma_parts_determine(self, other: ClockTime)
        requires
            self.spec_hour() == other.spec_hour(),
            self.spec_minute() == other.spec_minute(),
            self.spec_second() == other.spec_second(),
        ensures
            self == other,
    {
    }
}

/// What `chrono` makes of an instant, given as seconds since the Unix epoch,
/// when it moves the instant's UTC date on by a number of days: the new
/// instant, or nothing where its calendar ends.
pub uninterp spec fn utc_day_shift(seconds: i64, days: u64) -> Option<i64>;

/// The UTC calendar date (year, month, day of the month) on which `chrono`
/// places an instant, given as seconds since the Unix epoch; nothing where
/// its calendar does not reach.
pub uninterp spec fn utc_calendar_date(seconds: i64) -> Option<(i32, u32, u32)>;

/// Reads the clock with `chrono::Utc::now` and gives the instant as seconds
/// since the Unix epoch (`DateTime::timestamp`). Nothing is claimed of the
/// number: it is whatever the system clock says. `chrono` does not return
/// where the system clock stands before the epoch.
#[verifier::external_body]
pub(crate) fn utc_now_seconds() -> (seconds: i64) {
    Utc::now().timestamp()
}

/// Moves an instant on by whole days with `chrono`'s
/// `DateTime::<Utc>::checked_add_days`; the instant goes in through
/// `DateTime::from_timestamp` and comes out through `DateTime::timestamp`.
/// Trusted: the result depends on the two numbers alone, so it has a name;
/// an instant that comes out lies 86400 seconds on for each day, the time
/// of day being kept and a UTC day having no other length; and `chrono`
/// adds no more days than an `i32` holds.
#[verifier::external_body]
fn utc_add_days(seconds: i64, days: u64) -> (shifted: Option<i64>)
    ensures
        shifted == utc_day_shift(seconds, days),
        shifted matches Some(t) ==> t == seconds + 86400 * days,
        days > i32::MAX ==> shifted is None,
{
    let start = DateTime::from_timestamp(seconds, 0)?;
    let end = start.checked_add_days(Days::new(days))?;
    Some(end.timestamp())
}

/// The UTC calendar date of an instant, read with `chrono`'s
/// `DateTime::from_timestamp` and the `Datelike` getters `year`, `month` and
/// `day`. Trusted: the result depends on the number alone, so it has a
/// name; the month is from 1 to 12 and the day from 1 to 31, as the getters
/// document.
#[verifier::external_body]
fn utc_date_of(seconds: i64) -> (date: Option<(i32, u32, u32)>)
    ensures
        date == utc_calendar_date(seconds),
        date matches Some((_, month, day)) ==> 1 <= month <= 12 && 1 <= day <= 31,
{
    let at = DateTime::from_timestamp(seconds, 0)?;
    Some((at.year(), at.month(), at.day()))
}

/// Reads the local wall clock with `chrono::Local::now` and gives its hour,
/// minute and second through the `Timelike` getters. Trusted: the ranges
/// that the getters document, hour below 24, minute and second below 60.
/// `chrono` does not return where the system clock stands before the epoch.
#[verifier::external_body]
fn local_clock() -> (now: (u32, u32, u32))
    ensures
        now.0 < 24,
        now.1 < 60,
        now.2 < 60,
{
    let at = Local::now().time();
    (at.hour(), at.minute(), at.second())
}

/// The local wall clock at the moment of the call.
pub fn local_now() -> (now: ClockTime)
    ensures
        now.is_valid(),
{
    let (hour, minute, second) = local_clock();
    ClockTime { hour: hour as u8, minute: minute as u8, second: second as u8 }
}

/// Whether a calendar date has a key: the year must fit four digits.
pub open spec fn has_date_key(year: int, month: int, day: int) -> bool {
    0 <= year <= 9999 && 1 <= month <= 12 && 1 <= day <= 31
}

/// The key under which a day is stored: `DD.MM.YYYY`, day and month in two
/// digits, the year in four, dots between.
pub open spec fn date_key_text(year: int, month: int, day: int) -> Seq<char> {
    two_digits(day) + seq!['.'] + two_digits(month) + seq!['.'] + four_digits(year)
}

/// Writes the key of a calendar date.
pub fn date_key(year: i32, month: u32, day: u32) -> (key: Option<String>)
    ensures
        key is Some <==> has_date_key(year as int, month as int, day as int),
        key matches Some(k) ==> k@ == date_key_text(year as int, month as int, day as int),
{
    if year < 0 || year > 9999 || month < 1 || month > 12 || day < 1 || day > 31 {
        return None;
    }
    proof {
        reveal_strlit(".");
    }
    let mut key = String::new();
    push_two_digits(&mut key, day as u8);
    key.append(".");
    push_two_digits(&mut key, month as u8);
    key.append(".");
    push_four_digits(&mut key, year as u16);
    assert(key@ =~= date_key_text(year as int, month as int, day as int));
    Some(key)
}

/// The key of the UTC day that lies a number of days after an instant;
/// nothing where the calendar ends or the year does not fit four digits.
pub open spec fn utc_date_key_text(now: i64, additional_day: u64) -> Option<Seq<char>> {
    match utc_day_shift(now, additional_day) {
        Some(shifted) => match utc_calendar_date(shifted) {
            Some((year, month, day)) => if has_date_key(year as int, month as int, day as int) {
                Some(date_key_text(year as int, month as int, day as int))
            } else {
                None
            },
            None => None,
        },
        None => None,
    }
}

/// Writes the key of the UTC day that lies `additional_day` days after the
/// instant `now`, given in seconds since the Unix epoch. The key is that of
/// the date on which the instant 86400 seconds later for each day falls.
/// There is none where the calendar ends, which it does before 2147483648
/// days have passed, or where the year does not fit four digits.
pub fn utc_date_key(now: i64, additional_day: u64) -> (key: Option<String>)
    ensures
        key is Some <==> utc_date_key_text(now, additional_day) is Some,
        key matches Some(k) ==> utc_date_key_text(now, additional_day) == Some(k@),
        additional_day > i32::MAX ==> key is None,
        key matches Some(k) ==> now + 86400 * additional_day <= i64::MAX && (utc_calendar_date(
            (now + 86400 * additional_day) as i64,
        ) matches Some((year, month, day)) && k@ == date_key_text(
            year as int,
            month as int,
            day as int,
        )),
        key is None ==> utc_day_shift(now, additional_day) is None || utc_calendar_date(
            utc_day_shift(now, additional_day)->0,
        ) is None || !(0 <= (utc_calendar_date(utc_day_shift(now, additional_day)->0)->0).0
            <= 9999),
{
    match utc_add_days(now, additional_day) {
        Some(shifted) => match utc_date_of(shifted) {
            Some((year, month, day)) => date_key(year, month, day),
            None => None,
        },
        None => None,
    }
}

/// Every key is ten characters long, with its dots at the third and the
/// sixth place.
pub proof fn lemma_date_key_shape(year: int, month: int, day: int)
    ensures
        date_key_text(year, month, day).len() == 10,
        date_key_text(year, month, day)[2] == '.',
        date_key_text(year, month, day)[5] == '.',
{
}

/// Two days with one key are the same day: no day's entry in a schedule can
/// stand for another day.
pub proof fn lemma_date_key_names_one_day(
    year: int,
    month: int,
    day: int,
    other_year: int,
    other_month: int,
    other_day: int,
)
    requires
        has_date_key(year, month, day),
        has_date_key(other_year, other_month, other_day),
        date_key_text(year, month, day) == date_key_text(other_year, other_month, other_day),
    ensures
        year == other_year,
        month == other_month,
        day == other_day,
{
    let key = date_key_text(year, month, day);
    let other = date_key_text(other_year, other_month, other_day);
    assert(key[0] == digit_char(day / 10) && other[0] == digit_char(other_day / 10));
    assert(key[1] == digit_char(day % 10) && other[1] == digit_char(other_day % 10));
    assert(key[3] == digit_char(month / 10) && other[3] == digit_char(other_month / 10));
    assert(key[4] == digit_char(month % 10) && other[4] == digit_char(other_month % 10));
    assert(key[6] == digit_char(year / 1000) && other[6] == digit_char(other_year / 1000));
    assert(key[7] == digit_char((year / 100) % 10) && other[7] == digit_char(
        (other_year / 100) % 10,
    ));
    assert(key[8] == digit_char((year / 10) % 10) && other[8] == digit_char(
        (other_year / 10) % 10,
    ));
    assert(key[9] == digit_char(year % 10) && other[9] == digit_char(other_year % 10));
}

} // verus!

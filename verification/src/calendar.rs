//! Dates and clock times: the local clock, strftime texts, days of the week.
use crate::text::{decimal, digit};
use chrono::{DateTime, Datelike, Duration, Local, NaiveDate, NaiveDateTime, Timelike};
use vstd::prelude::*;

verus! {

/// The first year that the calendar holds.
pub const FIRST_YEAR: i32 = -262143;

/// The last year that the calendar holds.
pub const LAST_YEAR: i32 = 262142;

/// The number of 1 January 1970, where 1 January of the year 1 has the number 1.
pub const EPOCH_DAY: i64 = 719163;

/// The last second of the calendar in UTC, counted from the start of 1970.
pub const LAST_SECOND: i64 = 8210266876799;

/// A date and a time of day in the proleptic Gregorian calendar.
#[derive(Clone, Copy, Debug, PartialEq, Eq, Structural)]
pub struct Moment {
    pub year: i32,
    pub month: u32,
    pub day: u32,
    pub hour: u32,
    pub minute: u32,
    pub second: u32,
}

pub open spec fn is_leap_year(year: int) -> bool {
    year % 4 == 0 && (year % 100 != 0 || year % 400 == 0)
}

pub open spec fn days_in_month(year: int, month: int) -> int {
    if month == 2 {
        if is_leap_year(year) {
            29
        } else {
            28
        }
    } else if month == 4 || month == 6 || month == 9 || month == 11 {
        30
    } else {
        31
    }
}

/// The days of a year that come before a month.
pub open spec fn days_before_month(year: int, month: int) -> int
    decreases month,
{
    if month <= 1 {
        0
    } else {
        days_before_month(year, month - 1) + days_in_month(year, month - 1)
    }
}

/// The number of a date, counted from 1 January of the year 1, which has the number 1.
pub open spec fn day_number(year: int, month: int, day: int) -> int {
    365 * (year - 1) + (year - 1) / 4 - (year - 1) / 100 + (year - 1) / 400 + days_before_month(
        year,
        month,
    ) + day
}

/// The day of the week of a date; 0 is Monday.
pub open spec fn weekday_index(year: int, month: int, day: int) -> int {
    (day_number(year, month, day) - 1) % 7
}

pub open spec fn is_valid_date(year: int, month: int, day: int) -> bool {
    &&& FIRST_YEAR <= year <= LAST_YEAR
    &&& 1 <= month <= 12
    &&& 1 <= day <= days_in_month(year, month)
}

impl Moment {
    /// The fields name a date and a time of day.
    pub open spec fn wf(self) -> bool {
        &&& is_valid_date(self.year as int, self.month as int, self.day as int)
        &&& self.hour < 24
        &&& self.minute < 60
        &&& self.second < 60
    }

    /// The seconds since midnight.
    pub open spec fn second_of_day(self) -> int {
        self.hour * 3600 + self.minute * 60 + self.second
    }

    /// The date, as year, month and day.
    pub open spec fn date(self) -> (i32, u32, u32) {
        (self.year, self.month, self.day)
    }

    /// The day of the week; 0 is Monday.
    pub open spec fn weekday(self) -> int {
        weekday_index(self.year as int, self.month as int, self.day as int)
    }
}

/// Two decimal digits.
pub open spec fn two_digits(n: int) -> Seq<char> {
    seq![digit(n / 10), digit(n % 10)]
}

/// Decimal notation with zeros in front up to four digits.
pub open spec fn four_digits(n: nat) -> Seq<char> {
    if n < 10000 {
        seq![
            digit((n / 1000) as int),
            digit((n / 100 % 10) as int),
            digit((n / 10 % 10) as int),
            digit((n % 10) as int),
        ]
    } else {
        decimal(n)
    }
}

/// A year: four digits from 0 to 9999, and otherwise a sign before them.
pub open spec fn year_text(year: int) -> Seq<char> {
    if 0 <= year <= 9999 {
        four_digits(year as nat)
    } else if year < 0 {
        seq!['-'] + four_digits((-year) as nat)
    } else {
        seq!['+'] + four_digits(year as nat)
    }
}

pub open spec fn weekday_name(weekday: int) -> Seq<char> {
    if weekday == 0 {
        "Monday"@
    } else if weekday == 1 {
        "Tuesday"@
    } else if weekday == 2 {
        "Wednesday"@
    } else if weekday == 3 {
        "Thursday"@
    } else if weekday == 4 {
        "Friday"@
    } else if weekday == 5 {
        "Saturday"@
    } else {
        "Sunday"@
    }
}

pub open spec fn month_name(month: int) -> Seq<char> {
    if month == 1 {
        "January"@
    } else if month == 2 {
        "February"@
    } else if month == 3 {
        "March"@
    } else if month == 4 {
        "April"@
    } else if month == 5 {
        "May"@
    } else if month == 6 {
        "June"@
    } else if month == 7 {
        "July"@
    } else if month == 8 {
        "August"@
    } else if month == 9 {
        "September"@
    } else if month == 10 {
        "October"@
    } else if month == 11 {
        "November"@
    } else {
        "December"@
    }
}

/// The letters that may follow a `%` in a format.
pub open spec fn is_field(c: char) -> bool {
    c == 'Y' || c == 'm' || c == 'd' || c == 'e' || c == 'H' || c == 'M' || c == 'S' || c == 'A'
        || c == 'B'
}

/// The text of one field of a format.
pub open spec fn field_text(m: Moment, c: char) -> Seq<char> {
    if c == 'Y' {
        year_text(m.year as int)
    } else if c == 'm' {
        two_digits(m.month as int)
    } else if c == 'd' {
        two_digits(m.day as int)
    } else if c == 'e' {
        if m.day < 10 {
            seq![' ', digit(m.day as int)]
        } else {
            two_digits(m.day as int)
        }
    } else if c == 'H' {
        two_digits(m.hour as int)
    } else if c == 'M' {
        two_digits(m.minute as int)
    } else if c == 'S' {
        two_digits(m.second as int)
    } else if c == 'A' {
        weekday_name(m.weekday())
    } else {
        month_name(m.month as int)
    }
}

/// Every `%` of the format has a field letter behind it.
pub open spec fn is_format(fmt: Seq<char>) -> bool
    decreases fmt.len(),
{
    if fmt.len() == 0 {
        true
    } else if fmt[0] == '%' {
        fmt.len() >= 2 && is_field(fmt[1]) && is_format(fmt.skip(2))
    } else {
        is_format(fmt.drop_first())
    }
}

/// The text of a moment by a format: fields are replaced, all else is copied.
pub open spec fn rendered(m: Moment, fmt: Seq<char>) -> Seq<char>
    decreases fmt.len(),
{
    if fmt.len() == 0 {
        Seq::empty()
    } else if fmt[0] == '%' && fmt.len() >= 2 {
        field_text(m, fmt[1]) + rendered(m, fmt.skip(2))
    } else {
        seq![fmt[0]] + rendered(m, fmt.drop_first())
    }
}

/// The date that `NaiveDateTime::parse_from_str` reads in a text by a format.
pub uninterp spec fn parsed_date(s: Seq<char>, fmt: Seq<char>) -> Option<(i32, u32, u32)>;

/// `NaiveDateTime::format` writes a moment by a strftime format: the fields `%Y`, `%m`,
/// `%d`, `%e`, `%H`, `%M`, `%S`, `%A` and `%B` are replaced, in English, and everything
/// else is copied. `NaiveDateTime::parse_from_str` reads a text of the format
/// `%Y-%m-%dT%H:%M:%S` back.
#[verifier::external_body]
pub(crate) fn format_moment(m: &Moment, fmt: &str) -> (res: String)
    requires
        m.wf(),
        is_format(fmt@),
    ensures
        res@ == rendered(*m, fmt@),
        fmt@ == "%Y-%m-%dT%H:%M:%S"@ ==> parsed_date(res@, fmt@) == Some(m.date()),
{
    let date = NaiveDate::from_ymd_opt(m.year, m.month, m.day).unwrap();
    date.and_hms_opt(m.hour, m.minute, m.second).unwrap().format(fmt).to_string()
}

/// `NaiveDateTime::parse_from_str` reads a date and a time; what it reads is named
/// [`parsed_date`], and it is a date of the calendar. Of the formats only the one of a stamp
/// is let in: with some others, such as weeks of a year, a far year makes the call panic.
#[verifier::external_body]
pub(crate) fn parse_date(s: &str, fmt: &str) -> (res: Option<(i32, u32, u32)>)
    requires
        fmt@ == "%Y-%m-%dT%H:%M:%S"@,
    ensures
        res == parsed_date(s@, fmt@),
        res matches Some(d) ==> is_valid_date(d.0 as int, d.1 as int, d.2 as int),
{
    let read = NaiveDateTime::parse_from_str(s, fmt).ok();
    read.map(|t| (t.year(), t.month(), t.day()))
}

/// `Datelike::weekday` gives the day of the week and `Weekday::num_days_from_monday` its
/// distance from Monday.
#[verifier::external_body]
pub(crate) fn weekday_of(m: &Moment) -> (res: u32)
    requires
        m.wf(),
    ensures
        res == m.weekday(),
{
    let date = NaiveDate::from_ymd_opt(m.year, m.month, m.day).unwrap();
    date.weekday().num_days_from_monday()
}

/// A reading of the local clock: the local date and time, the seconds since the start of
/// 1970 in UTC, and how many seconds local time is ahead of UTC.
#[derive(Clone, Copy, Debug, PartialEq, Eq, Structural)]
pub struct LocalReading {
    pub local: Moment,
    pub unix: i64,
    pub offset: i32,
}

impl LocalReading {
    /// The clock does not go before 1970, and the local time is the time in UTC moved by
    /// the offset.
    pub open spec fn wf(self) -> bool {
        let m = self.local;
        &&& m.wf()
        &&& self.unix >= 0
        &&& -86400 < self.offset < 86400
        &&& day_number(m.year as int, m.month as int, m.day as int) * 86400 + m.second_of_day()
            == EPOCH_DAY * 86400 + self.unix + self.offset
    }
}

/// `Local::now` reads the system clock and the local time zone. Whatever they are, the
/// parts of a reading agree. Which moment it is is left unsaid. The call panics where the
/// clock is set before 1970, where clock and time zone give no date of the calendar, and
/// where the zone is a day or more away from UTC.
#[verifier::external_body]
pub(crate) fn local_now() -> (res: LocalReading)
    ensures
        res.wf(),
{
    let at = Local::now();
    let t = at.naive_local();
    LocalReading {
        local: Moment {
            year: t.year(),
            month: t.month(),
            day: t.day(),
            hour: t.hour(),
            minute: t.minute(),
            second: t.second(),
        },
        unix: at.timestamp(),
        offset: at.offset().local_minus_utc(),
    }
}

/// Hours and minutes, as a clock shows them.
#[derive(Clone, Copy, Debug, PartialEq, Eq, Structural)]
pub struct TimeOfDay {
    pub hour: u32,
    pub minute: u32,
}

impl TimeOfDay {
    /// A day has 24 hours and an hour 60 minutes.
    pub open spec fn wf(self) -> bool {
        self.hour < 24 && self.minute < 60
    }
}

/// What the local clock shows at a second, which is counted from the start of 1970 in UTC,
/// and how many seconds local time is ahead of UTC then.
#[derive(Clone, Copy, Debug, PartialEq, Eq, Structural)]
pub struct TimeReading {
    pub time: TimeOfDay,
    pub unix: i64,
    pub offset: i32,
}

impl TimeReading {
    /// The local time of day is the one in UTC moved by the offset.
    pub open spec fn wf(self) -> bool {
        &&& self.time.wf()
        &&& self.unix >= 0
        &&& -86400 < self.offset < 86400
        &&& self.time.hour * 60 + self.time.minute == (self.unix + self.offset) % 86400 / 60
    }
}

/// Adding `Duration::hours` to a `DateTime<Local>` moves it by that many hours of elapsed
/// time, and `Timelike::hour` and `Timelike::minute` tell the local time of day. The offset
/// from UTC that holds then is the time zone's affair and is left unsaid. The call panics
/// where the zone is then a day or more away from UTC.
#[verifier::external_body]
pub(crate) fn hours_after(from: &LocalReading, hours: i64) -> (res: TimeReading)
    requires
        from.wf(),
        0 <= hours <= 24,
        from.unix + hours * 3600 <= LAST_SECOND,
    ensures
        res.wf(),
        res.unix == from.unix + hours * 3600,
{
    let start = DateTime::from_timestamp(from.unix, 0).unwrap().with_timezone(&Local);
    let at = start + Duration::hours(hours);
    TimeReading {
        time: TimeOfDay { hour: at.hour(), minute: at.minute() },
        unix: at.timestamp(),
        offset: at.offset().local_minus_utc(),
    }
}

/// The format of the key under which a day's entries stand.
pub open spec fn date_key(m: Moment) -> Seq<char> {
    year_text(m.year as int).push('_') + two_digits(m.month as int).push('_') + two_digits(
        m.day as int,
    )
}

/// A time of day in hours and minutes.
pub open spec fn time_text(t: TimeOfDay) -> Seq<char> {
    two_digits(t.hour as int).push(':') + two_digits(t.minute as int)
}

/// The time of day of a moment.
pub open spec fn clock_text(m: Moment) -> Seq<char> {
    time_text(TimeOfDay { hour: m.hour, minute: m.minute })
}

/// A date and a time of day to the second.
pub open spec fn stamp_text(m: Moment) -> Seq<char> {
    year_text(m.year as int).push('-') + two_digits(m.month as int).push('-') + two_digits(
        m.day as int,
    ).push('T') + two_digits(m.hour as int).push(':') + two_digits(m.minute as int).push(':')
        + two_digits(m.second as int)
}

/// A date in words, with the day of the month in two columns.
pub open spec fn long_date(m: Moment) -> Seq<char> {
    weekday_name(m.weekday()).push(',') + field_text(m, 'e').push(' ') + month_name(m.month as int)
}

impl Moment {
    /// The date as `YYYY_MM_DD`.
    pub fn key(&self) -> (res: String)
        requires
            self.wf(),
        ensures
            res@ == date_key(*self),
    {
        proof {
            reveal_strlit("%Y_%m_%d");
            reveal_with_fuel(is_format, 9);
            reveal_with_fuel(rendered, 9);
            let f = "%Y_%m_%d"@;
            assert(f =~= seq!['%', 'Y', '_', '%', 'm', '_', '%', 'd']);
            assert(f.skip(2) =~= seq!['_', '%', 'm', '_', '%', 'd']);
            assert(f.skip(2).drop_first() =~= seq!['%', 'm', '_', '%', 'd']);
        }
        let res = format_moment(self, "%Y_%m_%d");
        proof { assert(res@ =~= date_key(*self)); }
        res
    }

    /// The time of day as `HH:MM`.
    pub fn clock(&self) -> (res: String)
        requires
            self.wf(),
        ensures
            res@ == clock_text(*self),
    {
        proof {
            reveal_strlit("%H:%M");
            reveal_with_fuel(is_format, 6);
            reveal_with_fuel(rendered, 6);
            let f = "%H:%M"@;
            assert(f =~= seq!['%', 'H', ':', '%', 'M']);
            assert(f.skip(2).drop_first() =~= seq!['%', 'M']);
        }
        let res = format_moment(self, "%H:%M");
        proof { assert(res@ =~= clock_text(*self)); }
        res
    }

    /// The moment as `YYYY-MM-DDTHH:MM:SS`, a text that [`read_stamp`] reads back.
    #[verifier::rlimit(30)]
    pub fn stamp(&self) -> (res: String)
        requires
            self.wf(),
        ensures
            res@ == stamp_text(*self),
            stamp_date(res@) == Some(self.date()),
    {
        proof {
            reveal_strlit("%Y-%m-%dT%H:%M:%S");
            reveal_with_fuel(is_format, 14);
            reveal_with_fuel(rendered, 14);
            let f = "%Y-%m-%dT%H:%M:%S"@;
            assert(f =~= seq![
                '%', 'Y', '-', '%', 'm', '-', '%', 'd', 'T', '%', 'H', ':', '%', 'M', ':', '%', 'S',
            ]);
            let f1 = f.skip(2).drop_first();
            assert(f1 =~= seq![
                '%', 'm', '-', '%', 'd', 'T', '%', 'H', ':', '%', 'M', ':', '%', 'S',
            ]);
            let f2 = f1.skip(2).drop_first();
            assert(f2 =~= seq!['%', 'd', 'T', '%', 'H', ':', '%', 'M', ':', '%', 'S']);
            let f3 = f2.skip(2).drop_first();
            assert(f3 =~= seq!['%', 'H', ':', '%', 'M', ':', '%', 'S']);
            let f4 = f3.skip(2).drop_first();
            assert(f4 =~= seq!['%', 'M', ':', '%', 'S']);
            assert(f4.skip(2).drop_first() =~= seq!['%', 'S']);
        }
        let res = format_moment(self, "%Y-%m-%dT%H:%M:%S");
        proof { assert(res@ =~= stamp_text(*self)); }
        res
    }

    /// The date in words, such as `Thursday,18 December`.
    pub fn in_words(&self) -> (res: String)
        requires
            self.wf(),
        ensures
            res@ == long_date(*self),
    {
        proof {
            reveal_strlit("%A,%e %B");
            reveal_with_fuel(is_format, 9);
            reveal_with_fuel(rendered, 9);
            let f = "%A,%e %B"@;
            assert(f =~= seq!['%', 'A', ',', '%', 'e', ' ', '%', 'B']);
            let f1 = f.skip(2).drop_first();
            assert(f1 =~= seq!['%', 'e', ' ', '%', 'B']);
            assert(f1.skip(2).drop_first() =~= seq!['%', 'B']);
        }
        let res = format_moment(self, "%A,%e %B");
        proof { assert(res@ =~= long_date(*self)); }
        res
    }
}

impl TimeOfDay {
    /// The time of day as `HH:MM`, which is the same on every day.
    pub fn text(&self) -> (res: String)
        requires
            self.wf(),
        ensures
            res@ == time_text(*self),
    {
        let m = Moment {
            year: 1970,
            month: 1,
            day: 1,
            hour: self.hour,
            minute: self.minute,
            second: 0,
        };
        m.clock()
    }
}

/// The date that a stamp stands for, where the text can be read as one.
pub open spec fn stamp_date(s: Seq<char>) -> Option<(i32, u32, u32)> {
    parsed_date(s, "%Y-%m-%dT%H:%M:%S"@)
}

/// Reads the date of a stamp.
pub fn read_stamp(s: &str) -> (res: Option<(i32, u32, u32)>)
    ensures
        res == stamp_date(s@),
        res matches Some(d) ==> is_valid_date(d.0 as int, d.1 as int, d.2 as int),
{
    parse_date(s, "%Y-%m-%dT%H:%M:%S")
}

/// The date `a` is earlier than the date `b`.
pub open spec fn date_before(a: (i32, u32, u32), b: (i32, u32, u32)) -> bool {
    ||| a.0 < b.0
    ||| a.0 == b.0 && a.1 < b.1
    ||| a.0 == b.0 && a.1 == b.1 && a.2 < b.2
}

/// Whether `a` is earlier than `b`.
pub fn is_earlier(a: (i32, u32, u32), b: (i32, u32, u32)) -> (res: bool)
    ensures
        res == date_before(a, b),
{
    a.0 < b.0 || (a.0 == b.0 && (a.1 < b.1 || (a.1 == b.1 && a.2 < b.2)))
}

} // verus!

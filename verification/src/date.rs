//! Calendar dates of the proleptic Gregorian calendar, as `chrono::NaiveDate`
//! represents them, with the day arithmetic the bot needs.

use crate::text::nat_digits;
use chrono::Datelike;
use vstd::prelude::*;

verus! {

/// The earliest year a `chrono::NaiveDate` can hold.
pub const MIN_YEAR: i32 = -262143;

/// The latest year a `chrono::NaiveDate` can hold.
pub const MAX_YEAR: i32 = 262142;

/// Day number (days since the start of the era, 0001-01-01 being day 1) of
/// the earliest representable date, `MIN_YEAR`-01-01.
pub open spec fn min_day_number() -> int {
    -95746129
}

/// Day number of the latest representable date, `MAX_YEAR`-12-31.
pub open spec fn max_day_number() -> int {
    95745399
}

pub open spec fn is_leap_year(y: int) -> bool {
    y % 4 == 0 && (y % 100 != 0 || y % 400 == 0)
}

pub open spec fn days_in_year(y: int) -> int {
    if is_leap_year(y) {
        366
    } else {
        365
    }
}

pub open spec fn days_in_month(y: int, m: int) -> int {
    if m == 2 {
        if is_leap_year(y) {
            29
        } else {
            28
        }
    } else if m == 4 || m == 6 || m == 9 || m == 11 {
        30
    } else {
        31
    }
}

/// Days of the year `y` that come before the first day of month `m`.
pub open spec fn days_before_month(y: int, m: int) -> int {
    let common: int = if m <= 1 {
        0
    } else if m == 2 {
        31
    } else if m == 3 {
        59
    } else if m == 4 {
        90
    } else if m == 5 {
        120
    } else if m == 6 {
        151
    } else if m == 7 {
        181
    } else if m == 8 {
        212
    } else if m == 9 {
        243
    } else if m == 10 {
        273
    } else if m == 11 {
        304
    } else {
        334
    };
    if m > 2 && is_leap_year(y) {
        common + 1
    } else {
        common
    }
}

/// Days of the era that come before January 1 of year `y` (negative for
/// years before 1; year 0 is 1 BCE).
pub open spec fn days_before_year(y: int) -> int {
    365 * (y - 1) + (y - 1) / 4 - (y - 1) / 100 + (y - 1) / 400
}

/// A calendar date: year, month (1 to 12) and day of the month.
#[derive(Clone, Copy, Debug, PartialEq, Eq, Structural)]
pub struct Date {
    pub year: i32,
    pub month: u32,
    pub day: u32,
}

impl Date {
    /// The date exists and lies in the range a `chrono::NaiveDate` can hold.
    pub open spec fn wf(self) -> bool {
        &&& MIN_YEAR <= self.year <= MAX_YEAR
        &&& 1 <= self.month <= 12
        &&& 1 <= self.day <= days_in_month(self.year as int, self.month as int)
    }

    /// The number of the day, 0001-01-01 being day 1 (what
    /// `chrono::Datelike::num_days_from_ce` returns).
    pub open spec fn day_number(self) -> int {
        days_before_year(self.year as int) + days_before_month(self.year as int, self.month as int)
            + self.day
    }

    /// Day of the week counted from Monday: Monday is 0, Sunday is 6.
    /// 0001-01-01 was a Monday.
    pub open spec fn weekday_index(self) -> int {
        (self.day_number() + 6) % 7
    }

    /// The date `year`-`month`-`day`, or `None` where no such date exists or
    /// it lies outside the range a `chrono::NaiveDate` can hold (as
    /// `chrono::NaiveDate::from_ymd_opt` decides).
    pub fn from_ymd_opt(year: i32, month: u32, day: u32) -> (res: Option<Date>)
        ensures
            res is Some <==> (Date { year, month, day }).wf(),
            res matches Some(d) ==> d == (Date { year, month, day }),
    {
        if year < MIN_YEAR || year > MAX_YEAR || month < 1 || month > 12 || day < 1 {
            return None;
        }
        if day > month_length(year, month) {
            return None;
        }
        Some(Date { year, month, day })
    }
}

/// Whether `year` is a leap year.
pub fn leap_year(year: i32) -> (res: bool)
    ensures
        res == is_leap_year(year as int),
{
    year % 4 == 0 && (year % 100 != 0 || year % 400 == 0)
}

/// The number of days of month `month` (1 to 12) of `year`.
pub fn month_length(year: i32, month: u32) -> (res: u32)
    requires
        1 <= month <= 12,
    ensures
        res == days_in_month(year as int, month as int),
{
    if month == 2 {
        if leap_year(year) {
            29
        } else {
            28
        }
    } else if month == 4 || month == 6 || month == 9 || month == 11 {
        30
    } else {
        31
    }
}

} // verus!

verus! {

/// Stepping over a year adds that year's length to the days before it.
pub proof fn lemma_days_before_next_year(y: int)
    ensures
        days_before_year(y + 1) == days_before_year(y) + days_in_year(y),
{
}

/// The days before a later year count at least all days of an earlier year.
pub proof fn lemma_days_before_year_grows(a: int, b: int)
    requires
        a < b,
    ensures
        days_before_year(a) + days_in_year(a) <= days_before_year(b),
    decreases b - a,
{
    lemma_days_before_next_year(a);
    if a + 1 < b {
        lemma_days_before_year_grows(a + 1, b);
        lemma_days_before_next_year(a + 1);
    }
}

/// The last day of a month is followed by the first day of the next one.
pub proof fn lemma_month_end(y: int, m: int)
    requires
        1 <= m <= 12,
    ensures
        m < 12 ==> days_before_month(y, m) + days_in_month(y, m) == days_before_month(y, m + 1),
        m == 12 ==> days_before_month(y, m) + days_in_month(y, m) == days_in_year(y),
{
}

/// A valid date's day number lies within its year.
pub proof fn lemma_day_number_within_year(d: Date)
    requires
        d.wf(),
    ensures
        days_before_year(d.year as int) < d.day_number() <= days_before_year(d.year as int)
            + days_in_year(d.year as int),
{
}

/// Distinct valid dates have distinct day numbers.
pub proof fn lemma_day_number_injective(a: Date, b: Date)
    requires
        a.wf(),
        b.wf(),
        a.day_number() == b.day_number(),
    ensures
        a == b,
{
    lemma_day_number_within_year(a);
    lemma_day_number_within_year(b);
    if a.year < b.year {
        lemma_days_before_year_grows(a.year as int, b.year as int);
    } else if b.year < a.year {
        lemma_days_before_year_grows(b.year as int, a.year as int);
    }
    assert(a.year == b.year);
}

} // verus!

verus! {

/// The date with day number `n`, where one exists in the supported range.
pub open spec fn date_with_number(n: int) -> Date {
    choose|d: Date| d.wf() && d.day_number() == n
}

/// A date whose day number is `n` is the date with day number `n`.
pub proof fn lemma_date_with_number(d: Date, n: int)
    requires
        d.wf(),
        d.day_number() == n,
    ensures
        date_with_number(n) == d,
{
    let c = date_with_number(n);
    assert(c.wf() && c.day_number() == n);
    lemma_day_number_injective(c, d);
}

/// The decimal digit `k` (0 to 9) as a character.
pub open spec fn digit_char(k: int) -> char {
    (k + 48) as char
}

/// `n` (0 to 99) written with two digits, zero-padded.
pub open spec fn two_digits(n: int) -> Seq<char> {
    seq![digit_char(n / 10), digit_char(n % 10)]
}

/// `n` (0 to 9999) written with four digits, zero-padded.
pub open spec fn four_digits(n: int) -> Seq<char> {
    two_digits(n / 100) + two_digits(n % 100)
}

/// The English name of month `m` (1 to 12).
pub open spec fn month_name(m: int) -> Seq<char> {
    if m == 1 {
        "January"@
    } else if m == 2 {
        "February"@
    } else if m == 3 {
        "March"@
    } else if m == 4 {
        "April"@
    } else if m == 5 {
        "May"@
    } else if m == 6 {
        "June"@
    } else if m == 7 {
        "July"@
    } else if m == 8 {
        "August"@
    } else if m == 9 {
        "September"@
    } else if m == 10 {
        "October"@
    } else if m == 11 {
        "November"@
    } else {
        "December"@
    }
}

/// The date as `dd.mm`, day and month zero-padded.
pub open spec fn day_month_text(d: Date) -> Seq<char> {
    two_digits(d.day as int) + "."@ + two_digits(d.month as int)
}

/// The year as chrono's `%Y` writes it: four digits, zero-padded, for the
/// years 0 to 9999; a `+` and the digits after 9999; a `-` and at least four
/// digits, zero-padded, before 0.
pub open spec fn year_text(y: int) -> Seq<char> {
    if 0 <= y <= 9999 {
        four_digits(y)
    } else if y > 9999 {
        seq!['+'] + nat_digits(y as nat)
    } else if -y <= 9999 {
        seq!['-'] + four_digits(-y)
    } else {
        seq!['-'] + nat_digits((-y) as nat)
    }
}

/// The month of the date as `Month YYYY`, e.g. `November 2026`.
pub open spec fn month_title_text(d: Date) -> Seq<char> {
    month_name(d.month as int) + " "@ + year_text(d.year as int)
}

/// What `chrono::NaiveDate::parse_from_str(text, format)` yields.
pub uninterp spec fn parsed_date(text: Seq<char>, format: Seq<char>) -> Option<Date>;

/// Today's date on the machine's local clock
/// (`chrono::Local::now().date_naive()`). Nothing is claimed of which date
/// comes back, only that it is a date chrono can hold.
#[verifier::external_body]
pub(crate) fn local_today() -> (res: Date)
    ensures
        res.wf(),
{
    let n = chrono::Local::now().date_naive();
    Date { year: n.year(), month: n.month(), day: n.day() }
}

/// `chrono::NaiveDate::checked_add_signed` with a whole number of days: the
/// date `n` days after `d` (before it when `n` is negative), or `None` where
/// that date lies outside the range chrono can hold.
#[verifier::external_body]
pub(crate) fn checked_add_days(d: Date, n: i32) -> (res: Option<Date>)
    requires
        d.wf(),
    ensures
        res is Some <==> min_day_number() <= d.day_number() + n <= max_day_number(),
        res matches Some(r) ==> r.wf() && r.day_number() == d.day_number() + n,
{
    let nd = chrono::NaiveDate::from_ymd_opt(d.year, d.month, d.day).unwrap();
    match nd.checked_add_signed(chrono::TimeDelta::days(n as i64)) {
        Some(r) => Some(Date { year: r.year(), month: r.month(), day: r.day() }),
        None => None,
    }
}

/// `chrono::Weekday::num_days_from_monday` of `chrono::Datelike::weekday`:
/// the day of the week, Monday being 0 and Sunday 6.
#[verifier::external_body]
pub(crate) fn num_days_from_monday(d: Date) -> (res: u32)
    requires
        d.wf(),
    ensures
        res == d.weekday_index(),
{
    chrono::NaiveDate::from_ymd_opt(d.year, d.month, d.day).unwrap().weekday().num_days_from_monday()
}

/// `chrono::NaiveDate::format(fmt).to_string()` for the three formats the
/// bot writes: `%d` gives the zero-padded day, `%d.%m` day and month,
/// `%B %Y` the English month name and the year as `year_text` writes it.
#[verifier::external_body]
pub(crate) fn format_date(d: Date, fmt: &str) -> (res: String)
    requires
        d.wf(),
        fmt@ == "%d"@ || fmt@ == "%d.%m"@ || fmt@ == "%B %Y"@,
    ensures
        fmt@ == "%d"@ ==> res@ == two_digits(d.day as int),
        fmt@ == "%d.%m"@ ==> res@ == day_month_text(d),
        fmt@ == "%B %Y"@ ==> res@ == month_title_text(d),
{
    chrono::NaiveDate::from_ymd_opt(d.year, d.month, d.day).unwrap().format(fmt).to_string()
}

/// `chrono::NaiveDate::parse_from_str(text, format)`, the error dropped: the
/// result is named by `parsed_date`, and a date that comes back is one chrono
/// can hold.
#[verifier::external_body]
pub(crate) fn parse_from_str(text: &str, format: &str) -> (res: Option<Date>)
    ensures
        res == parsed_date(text@, format@),
        res matches Some(d) ==> d.wf(),
{
    match chrono::NaiveDate::parse_from_str(text, format) {
        Ok(n) => Some(Date { year: n.year(), month: n.month(), day: n.day() }),
        Err(_) => None,
    }
}

impl Date {
    /// The date `n` days after this one (before it when `n` is negative), or
    /// `None` where that date is out of chrono's range.
    pub fn add_days(&self, n: i32) -> (res: Option<Date>)
        requires
            self.wf(),
        ensures
            res is Some <==> min_day_number() <= self.day_number() + n <= max_day_number(),
            res matches Some(r) ==> r.wf() && r.day_number() == self.day_number() + n && r
                == date_with_number(self.day_number() + n),
    {
        let r = checked_add_days(*self, n);
        proof {
            if let Some(d) = r {
                lemma_date_with_number(d, self.day_number() + n);
            }
        }
        r
    }

    /// Day of the week, Monday being 0 and Sunday 6.
    pub fn weekday(&self) -> (res: u32)
        requires
            self.wf(),
        ensures
            res == self.weekday_index(),
            res < 7,
    {
        num_days_from_monday(*self)
    }

    /// The Monday of the week (Monday to Sunday) this date falls in, or
    /// `None` where that Monday is out of chrono's range.
    pub fn week_start(&self) -> (res: Option<Date>)
        requires
            self.wf(),
        ensures
            res is Some <==> min_day_number() <= self.day_number() - self.weekday_index(),
            res matches Some(r) ==> r.wf() && r.day_number() == self.day_number()
                - self.weekday_index() && r == date_with_number(
                self.day_number() - self.weekday_index(),
            ),
    {
        let w = self.weekday();
        self.add_days(0 - (w as i32))
    }
}

} // verus!

verus! {

/// Law: the weekday moves on by one with each day: `k` days after a date,
/// the weekday is `k` further on (counted round the week).
pub proof fn law_weekday_after_days(d: Date, r: Date, k: int)
    requires
        d.wf(),
        r.wf(),
        r.day_number() == d.day_number() + k,
    ensures
        r.weekday_index() == (d.weekday_index() + k) % 7,
{
    let a = d.day_number() + 6;
    assert((a + k) % 7 == (a % 7 + k) % 7) by (nonlinear_arith);
}

/// Law: going `n` days forward and then `n` days back returns to the date
/// one started from.
pub proof fn law_add_days_round_trip(d: Date, r: Date, back: Date, n: int)
    requires
        d.wf(),
        r.wf(),
        back.wf(),
        r.day_number() == d.day_number() + n,
        back.day_number() == r.day_number() - n,
    ensures
        back == d,
{
    lemma_day_number_injective(back, d);
}

/// Law: the start of a date's week is a Monday, at most six days before the
/// date, and the date falls in the week (Monday to Sunday) it starts.
pub proof fn law_week_start(d: Date, m: Date)
    requires
        d.wf(),
        m.wf(),
        m.day_number() == d.day_number() - d.weekday_index(),
    ensures
        m.weekday_index() == 0,
        d.day_number() - 6 <= m.day_number() <= d.day_number(),
        d.day_number() < m.day_number() + 7,
{
    law_weekday_after_days(d, m, -d.weekday_index());
}

/// Law: the lengths of the months: 31 days in January, March, May, July,
/// August, October and December, 30 in April, June, September and
/// November, and in February 29 in a leap year (divisible by 4, and by 400
/// where divisible by 100) and 28 otherwise. A date is valid exactly when
/// its year is in chrono's range, its month is 1 to 12 and its day is 1 to
/// its month's length.
pub proof fn law_month_lengths(year: i32, month: u32, day: u32)
    ensures
        (Date { year, month, day }).wf() <==> {
            &&& -262143 <= year <= 262142
            &&& 1 <= month <= 12
            &&& 1 <= day
            &&& day <= if month == 2 {
                if year % 4 == 0 && (year % 100 != 0 || year % 400 == 0) {
                    29int
                } else {
                    28
                }
            } else if month == 4 || month == 6 || month == 9 || month == 11 {
                30
            } else {
                31
            }
        },
{
}

/// Law: day numbers count the days one by one: the day after a valid date
/// (the next day of the month, else the 1st of the next month, else the
/// 1st of January of the next year) has the next day number.
pub proof fn law_next_day(d: Date)
    requires
        d.wf(),
    ensures
        d.day < days_in_month(d.year as int, d.month as int) ==> (Date {
            year: d.year,
            month: d.month,
            day: (d.day + 1) as u32,
        }).day_number() == d.day_number() + 1,
        d.day == days_in_month(d.year as int, d.month as int) && d.month < 12 ==> (Date {
            year: d.year,
            month: (d.month + 1) as u32,
            day: 1,
        }).day_number() == d.day_number() + 1,
        d.day == days_in_month(d.year as int, d.month as int) && d.month == 12 && d.year < 262142
            ==> (Date { year: (d.year + 1) as i32, month: 1, day: 1 }).day_number() == d.day_number()
            + 1,
{
    lemma_month_end(d.year as int, d.month as int);
    lemma_days_before_next_year(d.year as int);
}

} // verus!

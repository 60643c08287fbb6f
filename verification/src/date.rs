//! Calendar dates of the proleptic Gregorian calendar.
//!
//! A date is a (year, month, day) triple. Its position on the time line is its
//! day number: the count of days with January 1 of year 1 as day 1. Moving by
//! days goes through the day number; moving by months works on the fields.

use chrono::{Datelike, NaiveDate};
use vstd::prelude::*;

verus! {

/// The first year a date can lie in.
pub const MIN_YEAR: i32 = -262_143;

/// The last year a date can lie in.
pub const MAX_YEAR: i32 = 262_142;

/// The day number of the first day of the first year.
pub const MIN_DAY_NUMBER: i32 = -95_746_129;

/// The day number of the last day of the last year.
pub const MAX_DAY_NUMBER: i32 = 95_745_399;

/// A multiple of 400 that lifts every supported year above zero.
const YEAR_LIFT: i32 = 262_400;

/// A multiple of 400 that lifts every year of 32 bits above zero.
const WIDE_YEAR_LIFT: i64 = 2_147_484_000;

/// Whether the year has 366 days.
pub open spec fn is_leap_year(year: int) -> bool {
    year % 4 == 0 && (year % 100 != 0 || year % 400 == 0)
}

/// Number of days of the month; 31 for a month outside 1..=12.
pub open spec fn days_in_month(year: int, month: int) -> int {
    if month == 2 {
        if is_leap_year(year) {
            29
        } else {
            28
        }
    } else if month == 4 || month == 6 || month == 9 || month == 11 {
        30
    } else {
        31
    }
}

/// Number of days of the year that lie before the first of the month.
pub open spec fn days_before_month(year: int, month: int) -> int {
    let leap: int = if is_leap_year(year) && month > 2 {
        1
    } else {
        0
    };
    leap + if month <= 1 {
        0int
    } else if month == 2 {
        31
    } else if month == 3 {
        59
    } else if month == 4 {
        90
    } else if month == 5 {
        120
    } else if month == 6 {
        151
    } else if month == 7 {
        181
    } else if month == 8 {
        212
    } else if month == 9 {
        243
    } else if month == 10 {
        273
    } else if month == 11 {
        304
    } else {
        334
    }
}

/// Number of days between January 1 of year 1 and January 1 of `year`
/// (negative for years before 1).
#[verifier::opaque]
pub open spec fn days_before_year(year: int) -> int {
    365 * (year - 1) + (year - 1) / 4 - (year - 1) / 100 + (year - 1) / 400
}

/// The day number of a (year, month, day) triple.
pub open spec fn day_number_of(year: int, month: int, day: int) -> int {
    days_before_year(year) + days_before_month(year, month) + day
}

/// Whether (year, month, day) names a day that exists.
pub open spec fn is_calendar_day(year: int, month: int, day: int) -> bool {
    &&& MIN_YEAR <= year <= MAX_YEAR
    &&& 1 <= month <= 12
    &&& 1 <= day <= days_in_month(year, month)
}

/// The day number of the first supported day.
pub open spec fn min_day_number() -> int {
    day_number_of(MIN_YEAR as int, 1, 1)
}

/// The day number of the last supported day.
pub open spec fn max_day_number() -> int {
    day_number_of(MAX_YEAR as int, 12, 31)
}

/// The day with the given day number.
pub open spec fn date_with_number(number: int) -> CalendarDate {
    choose|date: CalendarDate| date.is_valid() && date.day_number() == number
}

/// A day, given by its year, its month and its day of the month.
#[derive(Clone, Copy, Debug, PartialEq, Eq, Structural, Hash)]
pub struct CalendarDate {
    pub year: i32,
    pub month: u32,
    pub day: u32,
}

impl CalendarDate {
    /// The date names a day that exists.
    pub open spec fn is_valid(self) -> bool {
        is_calendar_day(self.year as int, self.month as int, self.day as int)
    }

    /// The day number of the date: the count of days with January 1 of year
    /// 1 as day 1.
    pub open spec fn day_number(self) -> int {
        day_number_of(self.year as int, self.month as int, self.day as int)
    }

    /// Day of the week, counted from Sunday = 0.
    pub open spec fn weekday_index(self) -> int {
        self.day_number() % 7
    }

    /// The date `(year, month, day)` read as mathematical integers.
    pub open spec fn fields(self) -> (int, int, int) {
        (self.year as int, self.month as int, self.day as int)
    }

    /// The fields of the day after this one.
    pub open spec fn following_fields(self) -> (int, int, int) {
        if self.day < days_in_month(self.year as int, self.month as int) {
            (self.year as int, self.month as int, self.day + 1)
        } else if self.month < 12 {
            (self.year as int, self.month + 1, 1)
        } else {
            (self.year + 1, 1, 1)
        }
    }

    /// The day after this one.
    pub open spec fn following(self) -> CalendarDate {
        let (year, month, day) = self.following_fields();
        CalendarDate { year: year as i32, month: month as u32, day: day as u32 }
    }

    /// The day before this one.
    pub open spec fn preceding(self) -> CalendarDate {
        let (year, month, day) = self.preceding_fields();
        CalendarDate { year: year as i32, month: month as u32, day: day as u32 }
    }

    /// The date `months` months away (see `month_shifted_fields`).
    pub open spec fn month_shifted(self, months: int) -> CalendarDate {
        let (year, month, day) = self.month_shifted_fields(months);
        CalendarDate { year: year as i32, month: month as u32, day: day as u32 }
    }

    /// The date `days` days away, if it lies in a supported year.
    pub open spec fn day_shifted(self, days: int) -> Option<CalendarDate> {
        if min_day_number() <= self.day_number() + days <= max_day_number() {
            Some(date_with_number(self.day_number() + days))
        } else {
            None
        }
    }

    /// The date `months` months away, if it lies in a supported year.
    pub open spec fn month_moved(self, months: int) -> Option<CalendarDate> {
        if MIN_YEAR <= self.month_shifted_fields(months).0 <= MAX_YEAR {
            Some(self.month_shifted(months))
        } else {
            None
        }
    }

    /// Whether this is the last supported day.
    pub open spec fn is_last_day(self) -> bool {
        self.year == MAX_YEAR && self.month == 12 && self.day == 31
    }

    /// Whether this is the first supported day.
    pub open spec fn is_first_day(self) -> bool {
        self.year == MIN_YEAR && self.month == 1 && self.day == 1
    }

    /// The day after this one, if it lies in a supported year.
    pub open spec fn next(self) -> Option<CalendarDate> {
        if self.is_last_day() {
            None
        } else {
            Some(self.following())
        }
    }

    /// The day before this one, if it lies in a supported year.
    pub open spec fn previous(self) -> Option<CalendarDate> {
        if self.is_first_day() {
            None
        } else {
            Some(self.preceding())
        }
    }

    /// The fields of the day before this one.
    pub open spec fn preceding_fields(self) -> (int, int, int) {
        if self.day > 1 {
            (self.year as int, self.month as int, self.day - 1)
        } else if self.month > 1 {
            (self.year as int, self.month - 1, days_in_month(self.year as int, self.month - 1))
        } else {
            (self.year - 1, 12, 31)
        }
    }

    /// The fields reached by moving `months` months: the month count moves,
    /// and a day that the target month lacks becomes its last day.
    pub open spec fn month_shifted_fields(self, months: int) -> (int, int, int) {
        let total = self.year * 12 + (self.month - 1) + months;
        let year = total / 12;
        let month = total % 12 + 1;
        let length = days_in_month(year, month);
        (
            year,
            month,
            if self.day <= length {
                self.day as int
            } else {
                length
            },
        )
    }
}

/// A year is 365 days long, or 366 if it is a leap year.
pub proof fn lemma_year_length(year: int)
    ensures
        days_before_year(year + 1) - days_before_year(year) == if is_leap_year(year) {
            366int
        } else {
            365
        },
{
    reveal(days_before_year);
    lemma_quotient_step_4(year);
    lemma_quotient_step_100(year);
    lemma_quotient_step_400(year);
}

/// The quotient by 4 grows by one at each multiple of 4.
proof fn lemma_quotient_step_4(n: int)
    ensures
        n / 4 - (n - 1) / 4 == if n % 4 == 0 {
            1int
        } else {
            0
        },
{
}

/// The quotient by 100 grows by one at each multiple of 100.
proof fn lemma_quotient_step_100(n: int)
    ensures
        n / 100 - (n - 1) / 100 == if n % 100 == 0 {
            1int
        } else {
            0
        },
        n % 100 == 0 ==> n % 4 == 0,
{
}

/// The quotient by 400 grows by one at each multiple of 400.
proof fn lemma_quotient_step_400(n: int)
    ensures
        n / 400 - (n - 1) / 400 == if n % 400 == 0 {
            1int
        } else {
            0
        },
        n % 400 == 0 ==> n % 100 == 0,
{
}

/// Later years start later, by at least 365 days a year.
pub proof fn lemma_year_start_monotone(first: int, second: int)
    requires
        first <= second,
    ensures
        days_before_year(second) - days_before_year(first) >= 365 * (second - first),
    decreases second - first,
{
    if first < second {
        lemma_year_start_monotone(first, second - 1);
        lemma_year_length(second - 1);
    }
}

/// A day that exists lies within its year.
pub proof fn lemma_day_of_year_bounds(year: int, month: int, day: int)
    requires
        1 <= month <= 12,
        1 <= day <= days_in_month(year, month),
    ensures
        1 <= days_before_month(year, month) + day <= days_before_year(year + 1)
            - days_before_year(year),
        month < 12 ==> days_before_month(year, month + 1) == days_before_month(year, month)
            + days_in_month(year, month),
        month == 12 ==> days_before_month(year, month) + days_in_month(year, month)
            == days_before_year(year + 1) - days_before_year(year),
{
    lemma_year_length(year);
}

/// Whether `a` comes before `b`, comparing year, then month, then day.
pub open spec fn date_precedes(a: CalendarDate, b: CalendarDate) -> bool {
    a.year < b.year || (a.year == b.year && (a.month < b.month || (a.month == b.month && a.day
        < b.day)))
}

/// The day number grows with the date.
pub proof fn lemma_day_number_monotone(a: CalendarDate, b: CalendarDate)
    requires
        a.is_valid(),
        b.is_valid(),
        date_precedes(a, b),
    ensures
        a.day_number() < b.day_number(),
{
    let (ay, am, ad) = a.fields();
    let (by, bm, bd) = b.fields();
    lemma_day_of_year_bounds(ay, am, ad);
    lemma_day_of_year_bounds(by, bm, bd);
    if ay < by {
        lemma_year_start_monotone(ay + 1, by);
    } else if am < bm {
        lemma_month_start_monotone(ay, am + 1, bm);
        lemma_day_of_year_bounds(ay, am, days_in_month(ay, am));
    }
}

/// Later months of one year start later.
pub proof fn lemma_month_start_monotone(year: int, first: int, second: int)
    requires
        1 <= first <= second <= 12,
    ensures
        days_before_month(year, first) <= days_before_month(year, second),
{
}

/// Two days that exist and share a day number are the same day.
pub proof fn lemma_day_number_injective(a: CalendarDate, b: CalendarDate)
    requires
        a.is_valid(),
        b.is_valid(),
        a.day_number() == b.day_number(),
    ensures
        a == b,
{
    if date_precedes(a, b) {
        lemma_day_number_monotone(a, b);
    } else if date_precedes(b, a) {
        lemma_day_number_monotone(b, a);
    }
}

/// A day that exists is the day with its day number.
pub proof fn lemma_date_with_number(date: CalendarDate)
    requires
        date.is_valid(),
    ensures
        date_with_number(date.day_number()) == date,
{
    let found = date_with_number(date.day_number());
    assert(found.is_valid() && found.day_number() == date.day_number());
    lemma_day_number_injective(found, date);
}

/// The date a number of days away from a day that exists, where it lies in
/// a supported year, exists and has the day number so reached.
pub proof fn lemma_day_shifted(date: CalendarDate, days: int)
    requires
        date.is_valid(),
    ensures
        date.day_shifted(days) is Some <==> min_day_number() <= date.day_number() + days
            <= max_day_number(),
        date.day_shifted(days) is Some ==> date.day_shifted(days)->0.is_valid()
            && date.day_shifted(days)->0.day_number() == date.day_number() + days,
{
    let number = date.day_number() + days;
    if min_day_number() <= number <= max_day_number() {
        lemma_day_number_taken(number);
    }
}

/// Every day number between those of the first and the last supported day
/// is the day number of a day that exists.
pub proof fn lemma_day_number_taken(number: int)
    requires
        min_day_number() <= number <= max_day_number(),
    ensures
        date_with_number(number).is_valid(),
        date_with_number(number).day_number() == number,
    decreases number - min_day_number(),
{
    let first = CalendarDate { year: MIN_YEAR, month: 1, day: 1 };
    if number == min_day_number() {
        lemma_date_with_number(first);
    } else {
        lemma_day_number_taken(number - 1);
        let before = date_with_number(number - 1);
        lemma_following_day_number(before);
        let last = CalendarDate { year: MAX_YEAR, month: 12, day: 31 };
        if before != last {
            if !date_precedes(before, last) {
                assert(date_precedes(last, before));
                lemma_day_number_monotone(last, before);
            }
        }
        assert(before != last);
        lemma_date_with_number(before.following());
    }
}

/// The dates one day away from a day that exists are the day after it and
/// the day before it.
pub proof fn lemma_day_shifted_by_one(date: CalendarDate)
    requires
        date.is_valid(),
    ensures
        date.day_shifted(1) == date.next(),
        date.day_shifted(-1) == date.previous(),
        date.next() is Some ==> date.next()->0.is_valid(),
        date.previous() is Some ==> date.previous()->0.is_valid(),
{
    let first = CalendarDate { year: MIN_YEAR, month: 1, day: 1 };
    let last = CalendarDate { year: MAX_YEAR, month: 12, day: 31 };
    lemma_day_number_in_range(date);
    lemma_following_day_number(date);
    lemma_preceding_day_number(date);
    if date != last {
        if !date_precedes(date, last) {
            lemma_day_number_monotone(last, date);
        } else {
            lemma_day_number_monotone(date, last);
        }
        lemma_date_with_number(date.following());
    }
    if date != first {
        if !date_precedes(first, date) {
            lemma_day_number_monotone(date, first);
        } else {
            lemma_day_number_monotone(first, date);
        }
        lemma_date_with_number(date.preceding());
    }
}

/// Every day that exists has a day number between those of the first and the
/// last supported day.
pub proof fn lemma_day_number_in_range(d: CalendarDate)
    requires
        d.is_valid(),
    ensures
        min_day_number() <= d.day_number() <= max_day_number(),
{
    let first = CalendarDate { year: MIN_YEAR, month: 1, day: 1 };
    let last = CalendarDate { year: MAX_YEAR, month: 12, day: 31 };
    if date_precedes(first, d) {
        lemma_day_number_monotone(first, d);
    }
    if date_precedes(d, last) {
        lemma_day_number_monotone(d, last);
    }
}

/// The day after a day has the next day number.
pub proof fn lemma_following_day_number(d: CalendarDate)
    requires
        d.is_valid(),
    ensures
        ({
            let (y, m, n) = d.following_fields();
            &&& day_number_of(y, m, n) == d.day_number() + 1
            &&& 1 <= m <= 12
            &&& 1 <= n <= days_in_month(y, m)
            &&& y == d.year || (y == d.year + 1 && d.month == 12 && d.day == 31)
        }),
{
    lemma_day_of_year_bounds(d.year as int, d.month as int, d.day as int);
}

/// The day before a day has the previous day number.
pub proof fn lemma_preceding_day_number(d: CalendarDate)
    requires
        d.is_valid(),
    ensures
        ({
            let (y, m, n) = d.preceding_fields();
            &&& day_number_of(y, m, n) == d.day_number() - 1
            &&& 1 <= m <= 12
            &&& 1 <= n <= days_in_month(y, m)
            &&& y == d.year || (y == d.year - 1 && d.month == 1 && d.day == 1)
        }),
{
    let (y, m, n) = d.preceding_fields();
    lemma_day_of_year_bounds(y, m, n);
}

/// Whether the year is a leap year.
pub fn leap_year(year: i32) -> (leap: bool)
    ensures
        leap == is_leap_year(year as int),
{
    let lifted: u64 = (year as i64 + WIDE_YEAR_LIFT) as u64;
    proof {
        lemma_lifted_year(year as int);
    }
    lifted % 4 == 0 && (lifted % 100 != 0 || lifted % 400 == 0)
}

/// A year lifted by a multiple of 400 is a leap year exactly if the year is.
proof fn lemma_lifted_year(year: int)
    ensures
        is_leap_year(year + WIDE_YEAR_LIFT) == is_leap_year(year),
{
}

/// A day number lifted by a multiple of 7 falls on the same weekday.
proof fn lemma_lifted_day_number(number: int)
    ensures
        (number + 7 * 400_000_000) % 7 == number % 7,
{
}

/// Quotient and remainder by 12 of a count of months lifted by a number of
/// years.
proof fn lemma_lifted_months(total: int, years: int)
    ensures
        (total + years * 12) / 12 == total / 12 + years,
        (total + years * 12) % 12 == total % 12,
{
}

/// Number of days of the month.
pub fn month_length(year: i32, month: u32) -> (length: u32)
    ensures
        length as int == days_in_month(year as int, month as int),
        28 <= length <= 31,
{
    if month == 2 {
        if leap_year(year) {
            29
        } else {
            28
        }
    } else if month == 4 || month == 6 || month == 9 || month == 11 {
        30
    } else {
        31
    }
}

/// Asks chrono for the day number of a date (`Datelike::num_days_from_ce` on
/// the `NaiveDate` of the same fields). chrono documents the count as taken in
/// the proleptic Gregorian calendar with January 1 of year 1 as day 1, which
/// is what `day_number` states. Nothing is returned for fields that name no
/// day.
#[verifier::external_body]
fn chrono_day_number(date: CalendarDate) -> (number: Option<i32>)
    ensures
        date.is_valid() ==> number is Some && number->0 as int == date.day_number(),
{
    Some(NaiveDate::from_ymd_opt(date.year, date.month, date.day)?.num_days_from_ce())
}

/// Asks chrono for the date with a given day number
/// (`NaiveDate::from_num_days_from_ce_opt`). chrono documents the result as
/// the day with that number, January 1 of year 1 being day 1, and returns
/// nothing only for a number outside the years it supports.
#[verifier::external_body]
fn chrono_date_of_day_number(number: i32) -> (date: Option<CalendarDate>)
    ensures
        match date {
            Some(d) => d.is_valid() && d.day_number() == number,
            None => number < min_day_number() || number > max_day_number(),
        },
{
    let day = NaiveDate::from_num_days_from_ce_opt(number)?;
    Some(CalendarDate { year: day.year(), month: day.month(), day: day.day() })
}

impl CalendarDate {
    /// The date with the given fields, if they name a day that exists.
    pub fn from_ymd(year: i32, month: u32, day: u32) -> (date: Option<CalendarDate>)
        ensures
            date is Some <==> is_calendar_day(year as int, month as int, day as int),
            date is Some ==> date->0 == (CalendarDate { year, month, day }),
    {
        if year < MIN_YEAR || year > MAX_YEAR || month < 1 || month > 12 || day < 1 {
            return None;
        }
        if day > month_length(year, month) {
            return None;
        }
        Some(CalendarDate { year, month, day })
    }

    /// Whether the fields name a day that exists.
    pub fn check_valid(&self) -> (valid: bool)
        ensures
            valid == self.is_valid(),
    {
        CalendarDate::from_ymd(self.year, self.month, self.day).is_some()
    }

    /// The day number of the date.
    pub fn to_day_number(&self) -> (number: i32)
        requires
            self.is_valid(),
        ensures
            number as int == self.day_number(),
    {
        match chrono_day_number(*self) {
            Some(number) => number,
            None => vstd::pervasive::unreached(),
        }
    }

    /// The date with the given day number, if it lies in a supported year.
    pub fn from_day_number(number: i32) -> (date: Option<CalendarDate>)
        ensures
            date is Some <==> min_day_number() <= number <= max_day_number(),
            date is Some ==> date->0.is_valid() && date->0.day_number() == number,
    {
        let date = chrono_date_of_day_number(number);
        proof {
            if date is Some {
                lemma_day_number_in_range(date->0);
            }
        }
        date
    }

    /// The date `days` days later (earlier for a negative count), if it lies
    /// in a supported year.
    pub fn plus_days(&self, days: i32) -> (date: Option<CalendarDate>)
        requires
            self.is_valid(),
        ensures
            date == self.day_shifted(days as int),
            date is Some ==> date->0.is_valid() && date->0.day_number() == self.day_number()
                + days,
    {
        let start = self.to_day_number();
        proof {
            lemma_day_number_in_range(*self);
            lemma_range_of_day_numbers();
        }
        let target: i64 = start as i64 + days as i64;
        if target < i32::MIN as i64 || target > i32::MAX as i64 {
            return None;
        }
        let date = CalendarDate::from_day_number(target as i32);
        proof {
            if date is Some {
                lemma_date_with_number(date->0);
            }
        }
        date
    }

    /// The next day, if it lies in a supported year.
    pub fn next_day(&self) -> (date: Option<CalendarDate>)
        requires
            self.is_valid(),
        ensures
            date == self.next(),
            date is Some ==> date->0.is_valid(),
    {
        let date = self.plus_days(1);
        proof {
            lemma_day_shifted_by_one(*self);
        }
        date
    }

    /// The previous day, if it lies in a supported year.
    pub fn previous_day(&self) -> (date: Option<CalendarDate>)
        requires
            self.is_valid(),
        ensures
            date == self.previous(),
            date is Some ==> date->0.is_valid(),
    {
        let date = self.plus_days(-1);
        proof {
            lemma_day_shifted_by_one(*self);
        }
        date
    }

    /// The date `months` months later (earlier for a negative count), if it
    /// lies in a supported year. The day of the month is kept where the
    /// target month has it, and is the target month's last day otherwise.
    pub fn plus_months(&self, months: i32) -> (date: Option<CalendarDate>)
        requires
            self.is_valid(),
        ensures
            date == self.month_moved(months as int),
            date is Some ==> date->0.is_valid(),
    {
        let total: i64 = self.year as i64 * 12 + (self.month as i64 - 1) + months as i64;
        if total < MIN_YEAR as i64 * 12 || total > MAX_YEAR as i64 * 12 + 11 {
            return None;
        }
        let lifted: u64 = (total + YEAR_LIFT as i64 * 12) as u64;
        proof {
            lemma_lifted_months(total as int, YEAR_LIFT as int);
        }
        let year: i32 = ((lifted / 12) as i64 - YEAR_LIFT as i64) as i32;
        let month: u32 = (lifted % 12) as u32 + 1;
        let length = month_length(year, month);
        let day = if self.day <= length {
            self.day
        } else {
            length
        };
        Some(CalendarDate { year, month, day })
    }

    /// Day of the week, counted from Sunday = 0.
    pub fn weekday_from_sunday(&self) -> (weekday: u32)
        requires
            self.is_valid(),
        ensures
            weekday as int == self.weekday_index(),
            weekday < 7,
    {
        let number = self.to_day_number();
        proof {
            lemma_day_number_in_range(*self);
            lemma_range_of_day_numbers();
            lemma_lifted_day_number(number as int);
        }
        let lifted: u64 = (number as i64 + 7 * 400_000_000) as u64;
        (lifted % 7) as u32
    }

    /// The first day of the date's month.
    pub fn first_of_month(&self) -> (date: CalendarDate)
        requires
            self.is_valid(),
        ensures
            date.is_valid(),
            date == (CalendarDate { year: self.year, month: self.month, day: 1 }),
    {
        CalendarDate { year: self.year, month: self.month, day: 1 }
    }

    /// The last day of the date's month.
    pub fn last_of_month(&self) -> (date: CalendarDate)
        requires
            self.is_valid(),
        ensures
            date.is_valid(),
            date.year == self.year,
            date.month == self.month,
            date.day as int == days_in_month(self.year as int, self.month as int),
    {
        CalendarDate { year: self.year, month: self.month, day: month_length(self.year, self.month) }
    }
}

/// The day numbers of the first and the last supported day.
pub proof fn lemma_range_of_day_numbers()
    ensures
        min_day_number() == MIN_DAY_NUMBER,
        max_day_number() == MAX_DAY_NUMBER,
{
    reveal(days_before_year);
}

} // verus!

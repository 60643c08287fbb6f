//! The input grammar: one line of text becomes an event or a task.
//!
//! An event line may begin with a time range, a date with a time range, a
//! range of days or a single day; what follows is the title. A task line may
//! begin with a due date and may end in notes. Text that fits no form is a
//! title and nothing else.
//!
//! The forms, with `H:MM` a time of one or two hour digits and two minute
//! digits, `M/D` a month and a day of one or two digits each, `Y` a year of
//! four digits, `_` one or more white-space characters and `.` exactly one:
//!
//! ```text
//! H:MM_-_H:MM.title            times on the day in view
//! M/D_H:MM_-_H:MM.title        times on a day of the year in view
//! Y/M/D_H:MM_-_H:MM.title      times on a day
//! M/D_-_M/D.title              days of the year in view, the last one excluded
//! Y/M/D_-_Y/M/D.title          days, the last one excluded
//! M/D.title                    one day of the year in view
//! Y/M/D.title                  one day
//! ```
//!
//! The forms are tried in this order and the first that fits is taken. A form
//! fits only if its numbers name times and days that exist.

use crate::date::{is_calendar_day, CalendarDate};
use crate::text::{
    chars_of, check_space, is_space, pow10, push_char, read_char, read_number, read_space,
    read_spaces, scan_char, scan_number, scan_space, scan_spaces, slice_string, trim_begin,
    trim_bounds, trim_end, trimmed_range, Read,
};
use vstd::prelude::*;
use vstd::string::*;

verus! {

/// A time of day on the wall clock.
#[derive(Clone, Copy, Debug, PartialEq, Eq, Structural)]
pub struct ClockTime {
    pub hour: u32,
    pub minute: u32,
}

impl ClockTime {
    /// The time is one that a clock shows.
    pub open spec fn is_valid(self) -> bool {
        self.hour < 24 && self.minute < 60
    }
}

impl CalendarDate {
    /// The given time of this day.
    pub open spec fn at(self, time: ClockTime) -> LocalDateTime {
        LocalDateTime { date: self, hour: time.hour, minute: time.minute }
    }
}

/// A day and a time of day on the wall clock, with no time zone.
#[derive(Clone, Copy, Debug, PartialEq, Eq, Structural)]
pub struct LocalDateTime {
    pub date: CalendarDate,
    pub hour: u32,
    pub minute: u32,
}

impl LocalDateTime {
    /// The day exists, and the time is one that a clock shows.
    pub open spec fn is_valid(self) -> bool {
        self.date.is_valid() && self.hour < 24 && self.minute < 60
    }
}

/// What a line says about when an event takes place, and where its title
/// begins.
#[derive(Clone, Copy, Debug, PartialEq, Eq, Structural)]
pub struct RangeMatch {
    pub start: Option<LocalDateTime>,
    pub end: Option<LocalDateTime>,
    pub first_day: Option<CalendarDate>,
    pub end_day: Option<CalendarDate>,
    pub title_from: usize,
}

/// A time of day at `at`.
pub open spec fn read_clock(s: Seq<char>, at: int) -> Option<Read<ClockTime>> {
    let hour = read_number(s, at, 1, 2);
    let colon = if hour is Some {
        read_char(s, hour->0.end, ':')
    } else {
        None
    };
    let minute = if colon is Some {
        read_number(s, colon->0, 2, 2)
    } else {
        None
    };
    if minute is Some && hour->0.value <= 23 && minute->0.value <= 59 {
        Some(
            Read {
                value: ClockTime {
                    hour: hour->0.value as u32,
                    minute: minute->0.value as u32,
                },
                end: minute->0.end,
            },
        )
    } else {
        None
    }
}

/// A month and a day at `at` that exist in `year`.
pub open spec fn read_month_day(s: Seq<char>, at: int, year: int) -> Option<Read<CalendarDate>> {
    let month = read_number(s, at, 1, 2);
    let slash = if month is Some {
        read_char(s, month->0.end, '/')
    } else {
        None
    };
    let day = if slash is Some {
        read_number(s, slash->0, 1, 2)
    } else {
        None
    };
    if day is Some && is_calendar_day(year, month->0.value, day->0.value) {
        Some(
            Read {
                value: CalendarDate {
                    year: year as i32,
                    month: month->0.value as u32,
                    day: day->0.value as u32,
                },
                end: day->0.end,
            },
        )
    } else {
        None
    }
}

/// A year, a month and a day at `at` that name a day that exists.
pub open spec fn read_full_date(s: Seq<char>, at: int) -> Option<Read<CalendarDate>> {
    let year = read_number(s, at, 4, 4);
    let slash = if year is Some {
        read_char(s, year->0.end, '/')
    } else {
        None
    };
    if slash is Some {
        read_month_day(s, slash->0, year->0.value)
    } else {
        None
    }
}

/// A date at `at`, with its year if `with_year`, else in `year`.
pub open spec fn read_date(s: Seq<char>, at: int, with_year: bool, year: int) -> Option<
    Read<CalendarDate>,
> {
    if with_year {
        read_full_date(s, at)
    } else {
        read_month_day(s, at, year)
    }
}

/// White space, a hyphen and white space at `at`: the position behind them.
pub open spec fn read_dash(s: Seq<char>, at: int) -> Option<int> {
    let before = read_spaces(s, at);
    let dash = if before is Some {
        read_char(s, before->0, '-')
    } else {
        None
    };
    if dash is Some {
        read_spaces(s, dash->0)
    } else {
        None
    }
}

/// Two times of day with a hyphen between them and one white-space character
/// behind them; the position is the one behind that character.
pub open spec fn read_clock_range(s: Seq<char>, at: int) -> Option<Read<(ClockTime, ClockTime)>> {
    let from = read_clock(s, at);
    let dash = if from is Some {
        read_dash(s, from->0.end)
    } else {
        None
    };
    let to = if dash is Some {
        read_clock(s, dash->0)
    } else {
        None
    };
    let gap = if to is Some {
        read_space(s, to->0.end)
    } else {
        None
    };
    if gap is Some {
        Some(Read { value: (from->0.value, to->0.value), end: gap->0 })
    } else {
        None
    }
}

/// The line as times on `day`, read from `at` on.
pub open spec fn timed_on(s: Seq<char>, at: int, day: CalendarDate) -> Option<RangeMatch> {
    match read_clock_range(s, at) {
        Some(times) => Some(
            RangeMatch {
                start: Some(day.at(times.value.0)),
                end: Some(day.at(times.value.1)),
                first_day: None,
                end_day: None,
                title_from: times.end as usize,
            },
        ),
        None => None,
    }
}

/// The line as a date followed by times on it.
pub open spec fn timed_with_date(s: Seq<char>, with_year: bool, year: int) -> Option<RangeMatch> {
    let date = read_date(s, 0, with_year, year);
    let gap = if date is Some {
        read_spaces(s, date->0.end)
    } else {
        None
    };
    if gap is Some {
        timed_on(s, gap->0, date->0.value)
    } else {
        None
    }
}

/// The line as a range of days.
pub open spec fn day_range(s: Seq<char>, with_year: bool, year: int) -> Option<RangeMatch> {
    let first = read_date(s, 0, with_year, year);
    let dash = if first is Some {
        read_dash(s, first->0.end)
    } else {
        None
    };
    let last = if dash is Some {
        read_date(s, dash->0, with_year, year)
    } else {
        None
    };
    let gap = if last is Some {
        read_space(s, last->0.end)
    } else {
        None
    };
    if gap is Some {
        Some(
            RangeMatch {
                start: None,
                end: None,
                first_day: Some(first->0.value),
                end_day: Some(last->0.value),
                title_from: gap->0 as usize,
            },
        )
    } else {
        None
    }
}

/// The line as a single day, which ends where the day after it begins. The
/// last supported day has no day after it and is not taken.
pub open spec fn single_day(s: Seq<char>, with_year: bool, year: int) -> Option<RangeMatch> {
    let day = read_date(s, 0, with_year, year);
    let gap = if day is Some {
        read_space(s, day->0.end)
    } else {
        None
    };
    if gap is Some && day->0.value.next() is Some {
        Some(
            RangeMatch {
                start: None,
                end: None,
                first_day: Some(day->0.value),
                end_day: day->0.value.next(),
                title_from: gap->0 as usize,
            },
        )
    } else {
        None
    }
}

/// The first form that fits the line, with `today` the day in view.
pub open spec fn match_time_range(s: Seq<char>, today: CalendarDate) -> Option<RangeMatch> {
    let year = today.year as int;
    if timed_on(s, 0, today) is Some {
        timed_on(s, 0, today)
    } else if timed_with_date(s, false, year) is Some {
        timed_with_date(s, false, year)
    } else if timed_with_date(s, true, year) is Some {
        timed_with_date(s, true, year)
    } else if day_range(s, false, year) is Some {
        day_range(s, false, year)
    } else if day_range(s, true, year) is Some {
        day_range(s, true, year)
    } else if single_day(s, false, year) is Some {
        single_day(s, false, year)
    } else {
        single_day(s, true, year)
    }
}

/// The title of an event line: what follows the form that fits, without the
/// white space at its ends; the whole line, untouched, if no form fits.
pub open spec fn time_range_title(s: Seq<char>, today: CalendarDate) -> Seq<char> {
    match match_time_range(s, today) {
        Some(found) => trimmed_range(s, found.title_from as int, s.len() as int),
        None => s,
    }
}

/// The digit with the given value.
pub open spec fn digit_char(value: int) -> char {
    ('0' as int + value) as char
}

/// A number below a hundred, written with two digits.
pub open spec fn two_digits(value: int) -> Seq<char> {
    seq![digit_char(value / 10), digit_char(value % 10)]
}

/// The text of the midnight that ends every due date.
pub open spec fn midnight_suffix() -> Seq<char> {
    "T00:00:00.000Z"@
}

/// A due date as text: year, month and day with hyphens between them,
/// followed by midnight in UTC.
pub open spec fn due_stamp(date: CalendarDate) -> Seq<char> {
    two_digits(date.year as int / 100) + two_digits(date.year as int % 100) + seq!['-']
        + two_digits(date.month as int) + seq!['-'] + two_digits(date.day as int)
        + midnight_suffix()
}

/// The due date a task line begins with, and where the rest of the line
/// begins: a date in `year` or a date with a year of its own, and one
/// white-space character. A due date is written with a year of four digits,
/// so a date in a `year` outside 0 to 9999 is not taken.
pub open spec fn read_due_date(s: Seq<char>, year: int) -> Option<Read<CalendarDate>> {
    let short = read_month_day(s, 0, year);
    let short_gap = if short is Some && 0 <= year <= 9999 {
        read_space(s, short->0.end)
    } else {
        None
    };
    let full = read_full_date(s, 0);
    let full_gap = if full is Some {
        read_space(s, full->0.end)
    } else {
        None
    };
    if short_gap is Some {
        Some(Read { value: short->0.value, end: short_gap->0 })
    } else if full_gap is Some {
        Some(Read { value: full->0.value, end: full_gap->0 })
    } else {
        None
    }
}

/// The word that introduces notes.
pub open spec fn notes_word() -> Seq<char> {
    seq!['n', 'o', 't', 'e', 's', ':']
}

/// Whether notes are introduced at `at`: a white-space character, the word
/// `notes:`, a white-space character, and then at least one character and no
/// line feed up to `to`.
pub open spec fn notes_marker_at(s: Seq<char>, at: int, to: int) -> bool {
    &&& 0 <= at
    &&& at + 8 < to <= s.len()
    &&& is_space(s[at])
    &&& s.subrange(at + 1, at + 7) == notes_word()
    &&& is_space(s[at + 7])
    &&& forall|k: int| at + 8 <= k < to ==> s[k] != '\n'
}

/// The first position from `from` on where notes are introduced.
pub open spec fn find_notes_marker(s: Seq<char>, from: int, to: int) -> Option<int>
    decreases to - from,
{
    if from >= to {
        None
    } else if notes_marker_at(s, from, to) {
        Some(from)
    } else {
        find_notes_marker(s, from + 1, to)
    }
}

/// The part of a task line that holds title and notes: behind a due date,
/// the rest without the white space at its ends; else the whole line.
pub open spec fn task_body_bounds(s: Seq<char>, year: int) -> (int, int) {
    match read_due_date(s, year) {
        Some(due) => (trim_begin(s, due.end, s.len() as int), trim_end(s, due.end, s.len() as int)),
        None => (0, s.len() as int),
    }
}

/// The title of a task line: its body up to the notes, without the white
/// space at its ends.
pub open spec fn task_title(s: Seq<char>, year: int) -> Seq<char> {
    let (from, to) = task_body_bounds(s, year);
    match find_notes_marker(s, from, to) {
        Some(marker) => trimmed_range(s, from, marker),
        None => trimmed_range(s, from, to),
    }
}

/// The due date of a task line, as text.
pub open spec fn task_due(s: Seq<char>, year: int) -> Option<Seq<char>> {
    match read_due_date(s, year) {
        Some(due) => Some(due_stamp(due.value)),
        None => None,
    }
}

/// The notes of a task line: all that follows the word `notes:` and the
/// white-space character behind it.
pub open spec fn task_notes(s: Seq<char>, year: int) -> Option<Seq<char>> {
    let (from, to) = task_body_bounds(s, year);
    match find_notes_marker(s, from, to) {
        Some(marker) => Some(s.subrange(marker + 8, to)),
        None => None,
    }
}

fn scan_clock(chars: &Vec<char>, at: usize) -> (out: Option<(ClockTime, usize)>)
    requires
        at <= chars.len(),
    ensures
        match out {
            Some((time, end)) => read_clock(chars@, at as int) == Some(
                Read { value: time, end: end as int },
            ) && end <= chars.len() && time.is_valid(),
            None => read_clock(chars@, at as int) is None,
        },
{
    let (hour, behind_hour) = match scan_number(chars, at, 1, 2) {
        Some(found) => found,
        None => { return None; },
    };
    let behind_colon = match scan_char(chars, behind_hour, ':') {
        Some(found) => found,
        None => { return None; },
    };
    let (minute, behind_minute) = match scan_number(chars, behind_colon, 2, 2) {
        Some(found) => found,
        None => { return None; },
    };
    if hour <= 23 && minute <= 59 {
        Some((ClockTime { hour, minute }, behind_minute))
    } else {
        None
    }
}

fn scan_month_day(chars: &Vec<char>, at: usize, year: i32) -> (out: Option<(CalendarDate, usize)>)
    requires
        at <= chars.len(),
    ensures
        match out {
            Some((date, end)) => read_month_day(chars@, at as int, year as int) == Some(
                Read { value: date, end: end as int },
            ) && end <= chars.len() && date.is_valid(),
            None => read_month_day(chars@, at as int, year as int) is None,
        },
{
    let (month, behind_month) = match scan_number(chars, at, 1, 2) {
        Some(found) => found,
        None => { return None; },
    };
    let behind_slash = match scan_char(chars, behind_month, '/') {
        Some(found) => found,
        None => { return None; },
    };
    let (day, behind_day) = match scan_number(chars, behind_slash, 1, 2) {
        Some(found) => found,
        None => { return None; },
    };
    match CalendarDate::from_ymd(year, month, day) {
        Some(date) => Some((date, behind_day)),
        None => None,
    }
}

fn scan_full_date(chars: &Vec<char>, at: usize) -> (out: Option<(CalendarDate, usize)>)
    requires
        at <= chars.len(),
    ensures
        match out {
            Some((date, end)) => read_full_date(chars@, at as int) == Some(
                Read { value: date, end: end as int },
            ) && end <= chars.len() && date.is_valid() && 0 <= date.year <= 9999,
            None => read_full_date(chars@, at as int) is None,
        },
{
    let (year, behind_year) = match scan_number(chars, at, 4, 4) {
        Some(found) => found,
        None => { return None; },
    };
    let behind_slash = match scan_char(chars, behind_year, '/') {
        Some(found) => found,
        None => { return None; },
    };
    proof {
        reveal_with_fuel(pow10, 5);
    }
    scan_month_day(chars, behind_slash, year as i32)
}

fn scan_date(chars: &Vec<char>, at: usize, with_year: bool, year: i32) -> (out: Option<
    (CalendarDate, usize),
>)
    requires
        at <= chars.len(),
    ensures
        match out {
            Some((date, end)) => read_date(chars@, at as int, with_year, year as int) == Some(
                Read { value: date, end: end as int },
            ) && end <= chars.len() && date.is_valid(),
            None => read_date(chars@, at as int, with_year, year as int) is None,
        },
{
    if with_year {
        scan_full_date(chars, at)
    } else {
        scan_month_day(chars, at, year)
    }
}

fn scan_dash(chars: &Vec<char>, at: usize) -> (out: Option<usize>)
    requires
        at <= chars.len(),
    ensures
        match out {
            Some(end) => read_dash(chars@, at as int) == Some(end as int) && end <= chars.len(),
            None => read_dash(chars@, at as int) is None,
        },
{
    let before = match scan_spaces(chars, at) {
        Some(found) => found,
        None => { return None; },
    };
    let dash = match scan_char(chars, before, '-') {
        Some(found) => found,
        None => { return None; },
    };
    scan_spaces(chars, dash)
}

fn scan_timed_on(chars: &Vec<char>, at: usize, day: CalendarDate) -> (out: Option<RangeMatch>)
    requires
        at <= chars.len(),
        day.is_valid(),
    ensures
        out == timed_on(chars@, at as int, day),
        out is Some ==> out->0.title_from <= chars.len() && range_match_valid(out->0),
{
    let (from, behind_from) = match scan_clock(chars, at) {
        Some(found) => found,
        None => { return None; },
    };
    let behind_dash = match scan_dash(chars, behind_from) {
        Some(found) => found,
        None => { return None; },
    };
    let (to, behind_to) = match scan_clock(chars, behind_dash) {
        Some(found) => found,
        None => { return None; },
    };
    let behind = match scan_space(chars, behind_to) {
        Some(found) => found,
        None => { return None; },
    };
    Some(
        RangeMatch {
            start: Some(LocalDateTime { date: day, hour: from.hour, minute: from.minute }),
            end: Some(LocalDateTime { date: day, hour: to.hour, minute: to.minute }),
            first_day: None,
            end_day: None,
            title_from: behind,
        },
    )
}

fn scan_timed_with_date(chars: &Vec<char>, with_year: bool, year: i32) -> (out: Option<RangeMatch>)
    ensures
        out == timed_with_date(chars@, with_year, year as int),
        out is Some ==> out->0.title_from <= chars.len() && range_match_valid(out->0),
{
    let (date, behind_date) = match scan_date(chars, 0, with_year, year) {
        Some(found) => found,
        None => { return None; },
    };
    let behind_gap = match scan_spaces(chars, behind_date) {
        Some(found) => found,
        None => { return None; },
    };
    scan_timed_on(chars, behind_gap, date)
}

fn scan_day_range(chars: &Vec<char>, with_year: bool, year: i32) -> (out: Option<RangeMatch>)
    ensures
        out == day_range(chars@, with_year, year as int),
        out is Some ==> out->0.title_from <= chars.len() && range_match_valid(out->0),
{
    let (first, behind_first) = match scan_date(chars, 0, with_year, year) {
        Some(found) => found,
        None => { return None; },
    };
    let behind_dash = match scan_dash(chars, behind_first) {
        Some(found) => found,
        None => { return None; },
    };
    let (last, behind_last) = match scan_date(chars, behind_dash, with_year, year) {
        Some(found) => found,
        None => { return None; },
    };
    let behind = match scan_space(chars, behind_last) {
        Some(found) => found,
        None => { return None; },
    };
    Some(
        RangeMatch {
            start: None,
            end: None,
            first_day: Some(first),
            end_day: Some(last),
            title_from: behind,
        },
    )
}

fn scan_single_day(chars: &Vec<char>, with_year: bool, year: i32) -> (out: Option<RangeMatch>)
    ensures
        out == single_day(chars@, with_year, year as int),
        out is Some ==> out->0.title_from <= chars.len() && range_match_valid(out->0),
{
    let (day, behind_day) = match scan_date(chars, 0, with_year, year) {
        Some(found) => found,
        None => { return None; },
    };
    let behind = match scan_space(chars, behind_day) {
        Some(found) => found,
        None => { return None; },
    };
    match day.next_day() {
        Some(after) => Some(
            RangeMatch {
                start: None,
                end: None,
                first_day: Some(day),
                end_day: Some(after),
                title_from: behind,
            },
        ),
        None => None,
    }
}

/// Every time and day that a match names exists.
pub open spec fn range_match_valid(found: RangeMatch) -> bool {
    &&& found.start is Some ==> found.start->0.is_valid()
    &&& found.end is Some ==> found.end->0.is_valid()
    &&& found.first_day is Some ==> found.first_day->0.is_valid()
    &&& found.end_day is Some ==> found.end_day->0.is_valid()
}

/// What a form that fits gives: either two times of one day or two days,
/// never both; and for a single day, the day and the day after it.
pub open spec fn range_match_shaped(found: RangeMatch) -> bool {
    ||| {
        &&& found.start is Some
        &&& found.end is Some
        &&& found.first_day is None
        &&& found.end_day is None
        &&& found.start->0.date == found.end->0.date
    }
    ||| {
        &&& found.start is None
        &&& found.end is None
        &&& found.first_day is Some
        &&& found.end_day is Some
    }
}

/// Whatever the line, a form that fits gives either two times of one day or
/// two days, and the title begins inside the line or at its end.
pub proof fn lemma_time_range_shape(s: Seq<char>, today: CalendarDate)
    ensures
        match match_time_range(s, today) {
            Some(found) => range_match_shaped(found),
            None => time_range_title(s, today) == s,
        },
{
}

/// The title behind a form that fits neither begins nor ends with white
/// space.
pub proof fn lemma_time_range_title_trimmed(s: Seq<char>, today: CalendarDate)
    requires
        match_time_range(s, today) is Some,
        match_time_range(s, today)->0.title_from <= s.len(),
    ensures
        ({
            let title = time_range_title(s, today);
            title.len() > 0 ==> !is_space(title[0]) && !is_space(title[title.len() - 1])
        }),
{
    let from = match_time_range(s, today)->0.title_from as int;
    crate::text::lemma_trim_bounds(s, from, s.len() as int);
}

/// The title of a task line neither begins nor ends with white space.
pub proof fn lemma_task_title_trimmed(s: Seq<char>, year: int)
    ensures
        ({
            let title = task_title(s, year);
            title.len() > 0 ==> !is_space(title[0]) && !is_space(title[title.len() - 1])
        }),
{
    let bounds = task_body_bounds(s, year);
    let from = bounds.0;
    let to = bounds.1;
    match read_due_date(s, year) {
        Some(due) => {
            lemma_due_date_ends_inside(s, year);
            crate::text::lemma_trim_bounds(s, due.end, s.len() as int);
        },
        None => {},
    }
    match find_notes_marker(s, from, to) {
        Some(marker) => {
            lemma_notes_marker_inside(s, from, to);
            crate::text::lemma_trim_bounds(s, from, marker);
        },
        None => {
            crate::text::lemma_trim_bounds(s, from, to);
        },
    }
}

/// The due date a task line begins with ends inside the line.
pub proof fn lemma_due_date_ends_inside(s: Seq<char>, year: int)
    ensures
        read_due_date(s, year) is Some ==> 0 < read_due_date(s, year)->0.end <= s.len(),
{
}

/// The place where notes are introduced lies in the part that was searched.
pub proof fn lemma_notes_marker_inside(s: Seq<char>, from: int, to: int)
    ensures
        find_notes_marker(s, from, to) is Some ==> from <= find_notes_marker(s, from, to)->0
            && find_notes_marker(s, from, to)->0 + 8 < to && notes_marker_at(
            s,
            find_notes_marker(s, from, to)->0,
            to,
        ),
    decreases to - from,
{
    if from < to && !notes_marker_at(s, from, to) {
        lemma_notes_marker_inside(s, from + 1, to);
    }
}

/// A line that gives a single day gives the day after it as the end.
pub proof fn lemma_single_day_ends_next_day(s: Seq<char>, with_year: bool, year: int)
    ensures
        match single_day(s, with_year, year) {
            Some(found) => found.first_day is Some && found.end_day
                == found.first_day->0.next(),
            None => true,
        },
{
}

/// Finds the form that fits an event line.
pub fn scan_time_range(chars: &Vec<char>, today: CalendarDate) -> (out: Option<RangeMatch>)
    requires
        today.is_valid(),
    ensures
        out == match_time_range(chars@, today),
        out is Some ==> out->0.title_from <= chars.len() && range_match_valid(out->0),
{
    let year = today.year;
    let found = scan_timed_on(chars, 0, today);
    if found.is_some() {
        return found;
    }
    let found = scan_timed_with_date(chars, false, year);
    if found.is_some() {
        return found;
    }
    let found = scan_timed_with_date(chars, true, year);
    if found.is_some() {
        return found;
    }
    let found = scan_day_range(chars, false, year);
    if found.is_some() {
        return found;
    }
    let found = scan_day_range(chars, true, year);
    if found.is_some() {
        return found;
    }
    let found = scan_single_day(chars, false, year);
    if found.is_some() {
        return found;
    }
    scan_single_day(chars, true, year)
}

/// Reads an event line: the title, then start and end as times, then first
/// day and the day after the last for an event that takes whole days. At most
/// one of the two pairs is there, and neither if the line is a title only.
pub fn parse_time_range(input: &str, current_date: CalendarDate) -> (out: (
    String,
    Option<LocalDateTime>,
    Option<LocalDateTime>,
    Option<CalendarDate>,
    Option<CalendarDate>,
))
    requires
        current_date.is_valid(),
    ensures
        out.0@ == time_range_title(input@, current_date),
        match match_time_range(input@, current_date) {
            Some(found) => {
                &&& out.1 == found.start
                &&& out.2 == found.end
                &&& out.3 == found.first_day
                &&& out.4 == found.end_day
                &&& range_match_valid(found)
            },
            None => out.1 is None && out.2 is None && out.3 is None && out.4 is None,
        },
{
    let chars = chars_of(input);
    match scan_time_range(&chars, current_date) {
        Some(found) => {
            let (from, to) = trim_bounds(&chars, found.title_from, chars.len());
            (slice_string(input, from, to), found.start, found.end, found.first_day, found.end_day)
        },
        None => (String::from_str(input), None, None, None, None),
    }
}

fn scan_due_date(chars: &Vec<char>, year: i32) -> (out: Option<(CalendarDate, usize)>)
    ensures
        match out {
            Some((date, end)) => read_due_date(chars@, year as int) == Some(
                Read { value: date, end: end as int },
            ) && end <= chars.len() && date.is_valid() && 0 <= date.year <= 9999,
            None => read_due_date(chars@, year as int) is None,
        },
{
    if 0 <= year && year <= 9999 {
        if let Some((date, behind_date)) = scan_month_day(chars, 0, year) {
            if let Some(behind) = scan_space(chars, behind_date) {
                return Some((date, behind));
            }
        }
    }
    if let Some((date, behind_date)) = scan_full_date(chars, 0) {
        if let Some(behind) = scan_space(chars, behind_date) {
            proof {
                reveal_with_fuel(pow10, 5);
            }
            return Some((date, behind));
        }
    }
    None
}

/// Where the last line of `chars[from..to]` begins: behind the last line
/// feed, or at `from`.
fn last_line_start(chars: &Vec<char>, from: usize, to: usize) -> (start: usize)
    requires
        from <= to <= chars.len(),
    ensures
        from <= start <= to,
        forall|k: int| start <= k < to ==> chars@[k] != '\n',
        start > from ==> chars@[start - 1] == '\n',
{
    let mut start: usize = to;
    while start > from && chars[start - 1] != '\n'
        invariant
            from <= start <= to <= chars.len(),
            forall|k: int| start <= k < to ==> chars@[k] != '\n',
        decreases start,
    {
        start -= 1;
    }
    start
}

fn notes_start_here(chars: &Vec<char>, at: usize, to: usize, line_start: usize) -> (yes: bool)
    requires
        at < to <= chars.len(),
        line_start <= to,
        forall|k: int| line_start <= k < to ==> chars@[k] != '\n',
        line_start > 0 ==> chars@[line_start - 1] == '\n',
    ensures
        yes == notes_marker_at(chars@, at as int, to as int),
{
    if to - at <= 8 || at + 8 < line_start {
        return false;
    }
    let yes = check_space(chars[at]) && chars[at + 1] == 'n' && chars[at + 2] == 'o' && chars[at
        + 3] == 't' && chars[at + 4] == 'e' && chars[at + 5] == 's' && chars[at + 6] == ':'
        && check_space(chars[at + 7]);
    proof {
        let word = chars@.subrange(at + 1, at + 7);
        if yes {
            assert(word =~= notes_word());
        } else if is_space(chars@[at as int]) && is_space(chars@[at + 7]) {
            assert(word[0] == chars@[at + 1]);
            assert(word[1] == chars@[at + 2]);
            assert(word[2] == chars@[at + 3]);
            assert(word[3] == chars@[at + 4]);
            assert(word[4] == chars@[at + 5]);
            assert(word[5] == chars@[at + 6]);
        }
    }
    yes
}

/// Finds where notes are introduced in `chars[from..to]`.
fn find_notes(chars: &Vec<char>, from: usize, to: usize) -> (out: Option<usize>)
    requires
        from <= to <= chars.len(),
    ensures
        match out {
            Some(marker) => find_notes_marker(chars@, from as int, to as int) == Some(
                marker as int,
            ) && from <= marker && marker + 8 < to,
            None => find_notes_marker(chars@, from as int, to as int) is None,
        },
{
    let line_start = last_line_start(chars, 0, to);
    let mut at: usize = from;
    while at < to
        invariant
            from <= at <= to <= chars.len(),
            line_start <= to,
            forall|k: int| line_start <= k < to ==> chars@[k] != '\n',
            line_start > 0 ==> chars@[line_start - 1] == '\n',
            find_notes_marker(chars@, from as int, to as int) == find_notes_marker(
                chars@,
                at as int,
                to as int,
            ),
        decreases to - at,
    {
        if notes_start_here(chars, at, to, line_start) {
            return Some(at);
        }
        at += 1;
    }
    None
}

/// The digit with the given value.
fn digit_of(value: u32) -> (c: char)
    requires
        value < 10,
    ensures
        c == digit_char(value as int),
{
    if value == 0 {
        '0'
    } else if value == 1 {
        '1'
    } else if value == 2 {
        '2'
    } else if value == 3 {
        '3'
    } else if value == 4 {
        '4'
    } else if value == 5 {
        '5'
    } else if value == 6 {
        '6'
    } else if value == 7 {
        '7'
    } else if value == 8 {
        '8'
    } else {
        '9'
    }
}

/// Appends a number below a hundred, written with two digits.
pub fn push_two_digits(out: &mut String, value: u32)
    requires
        value < 100,
    ensures
        final(out)@ == old(out)@ + two_digits(value as int),
{
    push_char(out, digit_of(value / 10));
    push_char(out, digit_of(value % 10));
    assert(out@ =~= old(out)@ + two_digits(value as int));
}

/// A due date as text.
pub fn due_text(date: CalendarDate) -> (out: String)
    requires
        date.is_valid(),
        0 <= date.year <= 9999,
    ensures
        out@ == due_stamp(date),
{
    let year: u32 = date.year as u32;
    let mut out = String::new();
    push_two_digits(&mut out, year / 100);
    push_two_digits(&mut out, year % 100);
    push_char(&mut out, '-');
    push_two_digits(&mut out, date.month);
    push_char(&mut out, '-');
    push_two_digits(&mut out, date.day);
    out.append("T00:00:00.000Z");
    assert(out@ =~= due_stamp(date));
    out
}

/// Reads a task line: the title, then the due date as text, then the notes.
pub fn parse_date_and_note(input: &str, current_year: i32) -> (out: (
    String,
    Option<String>,
    Option<String>,
))
    ensures
        out.0@ == task_title(input@, current_year as int),
        match task_due(input@, current_year as int) {
            Some(due) => out.1 is Some && out.1->0@ == due,
            None => out.1 is None,
        },
        match task_notes(input@, current_year as int) {
            Some(notes) => out.2 is Some && out.2->0@ == notes,
            None => out.2 is None,
        },
{
    let chars = chars_of(input);
    let due = scan_due_date(&chars, current_year);
    let (from, to) = match due {
        Some((_, behind)) => trim_bounds(&chars, behind, chars.len()),
        None => (0, chars.len()),
    };
    let due = match due {
        Some((date, _)) => Some(due_text(date)),
        None => None,
    };
    match find_notes(&chars, from, to) {
        Some(marker) => {
            let (title_from, title_to) = trim_bounds(&chars, from, marker);
            (
                slice_string(input, title_from, title_to),
                due,
                Some(slice_string(input, marker + 8, to)),
            )
        },
        None => {
            let (title_from, title_to) = trim_bounds(&chars, from, to);
            (slice_string(input, title_from, title_to), due, None)
        },
    }
}

} // verus!

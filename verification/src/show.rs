//! What the calendar shows of its entries: the line for an event, the line
//! for a task, the emphasis of a day of the grid, and the line being edited
//! around its caret.

use crate::date::{max_day_number, min_day_number, CalendarDate};
use crate::editor::LineEditor;
use crate::grid::DayCell;
use crate::model::{
    local_clock, local_day_number, local_second_of_day, Event, EventTime, Task,
};
use crate::parse_input::{push_two_digits, two_digits, ClockTime};
use crate::text::{push_char, string_of};
use chrono::{DateTime, Datelike};
use vstd::prelude::*;
use vstd::string::*;

verus! {

/// How the number of a day is set off in the grid.
#[derive(Clone, Copy, Debug, PartialEq, Eq, Structural)]
pub enum Emphasis {
    Today,
    Sunday,
    Saturday,
    Weekday,
    /// A day of the month before or after the month in view.
    OtherMonth,
}

/// How the day in column `column` of the grid is set off: today before all,
/// then the days outside the month, then Sunday in the first column and
/// Saturday in the last.
pub open spec fn emphasis_of(column: int, cell: DayCell) -> Emphasis {
    if cell.is_today {
        Emphasis::Today
    } else if !cell.in_month {
        Emphasis::OtherMonth
    } else if column == 0 {
        Emphasis::Sunday
    } else if column == 6 {
        Emphasis::Saturday
    } else {
        Emphasis::Weekday
    }
}

/// How the day in column `column` of the grid is set off.
pub fn day_emphasis(column: usize, cell: &DayCell) -> (emphasis: Emphasis)
    ensures
        emphasis == emphasis_of(column as int, *cell),
{
    if cell.is_today {
        Emphasis::Today
    } else if !cell.in_month {
        Emphasis::OtherMonth
    } else if column == 0 {
        Emphasis::Sunday
    } else if column == 6 {
        Emphasis::Saturday
    } else {
        Emphasis::Weekday
    }
}

/// Whether the cell is the day in view: a day of the month in view with the
/// same number.
pub fn is_cursor_cell(current: &CalendarDate, cell: &DayCell) -> (yes: bool)
    ensures
        yes == (cell.in_month && cell.date.day == current.day),
{
    cell.in_month && cell.date.day == current.day
}

/// A time of day as text: hour and minute with two digits each.
pub open spec fn clock_text_of(time: ClockTime) -> Seq<char> {
    two_digits(time.hour as int) + seq![':'] + two_digits(time.minute as int)
}

/// The time of day of an event time on the wall clock of a time zone, as
/// text; none for a time given by its day and for an instant that falls on no
/// supported day.
pub open spec fn wall_clock_text(time: EventTime, offset: int) -> Option<Seq<char>> {
    match time {
        EventTime::At(seconds) => if min_day_number() <= local_day_number(seconds as int, offset)
            <= max_day_number() {
            Some(
                clock_text_of(
                    ClockTime {
                        hour: (local_second_of_day(seconds as int, offset) / 3600) as u32,
                        minute: (local_second_of_day(seconds as int, offset) % 3600 / 60) as u32,
                    },
                ),
            )
        } else {
            None
        },
        _ => None,
    }
}

/// The title shown for an entry that has none.
pub open spec fn untitled() -> Seq<char> {
    "Untitled"@
}

/// The title of an entry as it is shown.
pub open spec fn shown_title(title: Option<String>) -> Seq<char> {
    match title {
        Some(title) => title@,
        None => untitled(),
    }
}

/// The line for an event in a day of the grid: the time at which it begins
/// and a blank, if it begins at a time, and its title.
pub open spec fn cell_label_of(event: Event, offset: int) -> Seq<char> {
    match wall_clock_text(event.start, offset) {
        Some(start) => start + seq![' '] + shown_title(event.summary),
        None => shown_title(event.summary),
    }
}

/// The line for an event in the list of a day: a blank, the time at which it
/// begins and a blank, if it begins at a time; a hyphen, a blank, the time at
/// which it ends and a blank, if it ends at a time; and its title.
pub open spec fn list_label_of(event: Event, offset: int) -> Seq<char> {
    let start = match wall_clock_text(event.start, offset) {
        Some(start) => seq![' '] + start + seq![' '],
        None => seq![' '],
    };
    let end = match wall_clock_text(event.end, offset) {
        Some(end) => seq!['-', ' '] + end + seq![' '],
        None => Seq::empty(),
    };
    start + end + shown_title(event.summary)
}

/// A day as text: year, month and day with slashes between them.
pub open spec fn slashed_date(date: CalendarDate) -> Seq<char> {
    two_digits(date.year as int / 100) + two_digits(date.year as int % 100) + seq!['/']
        + two_digits(date.month as int) + seq!['/'] + two_digits(date.day as int)
}

/// The line for a task: the day it is due and a blank, if it is due on a day
/// of a year of four digits, and its title.
pub open spec fn task_label_of(due: Option<CalendarDate>, title: Option<String>) -> Seq<char> {
    if due is Some && 0 <= due->0.year <= 9999 {
        slashed_date(due->0) + seq![' '] + shown_title(title)
    } else {
        shown_title(title)
    }
}

/// The day named by a date and time written as RFC 3339, as chrono reads it;
/// none if chrono does not take the text.
pub uninterp spec fn rfc3339_day(text: Seq<char>) -> Option<CalendarDate>;

/// Reads a date and time written as RFC 3339 with chrono
/// (`DateTime::parse_from_rfc3339`) and answers with the day it names in its
/// own time zone (`DateTime::date_naive`). The day is a day that exists.
#[verifier::external_body]
fn read_rfc3339_day(text: &str) -> (day: Option<CalendarDate>)
    ensures
        day == rfc3339_day(text@),
        day is Some ==> day->0.is_valid(),
{
    let day = DateTime::parse_from_rfc3339(text).ok()?.date_naive();
    Some(CalendarDate { year: day.year(), month: day.month(), day: day.day() })
}

/// A time of day as text.
pub fn clock_text(time: ClockTime) -> (text: String)
    requires
        time.is_valid(),
    ensures
        text@ == clock_text_of(time),
{
    let mut text = String::new();
    push_two_digits(&mut text, time.hour);
    push_char(&mut text, ':');
    push_two_digits(&mut text, time.minute);
    assert(text@ =~= clock_text_of(time));
    text
}

/// The time of day of an event time on the wall clock of a time zone, as
/// text.
pub fn event_clock_text(time: &EventTime, offset: i32) -> (text: Option<String>)
    ensures
        match wall_clock_text(*time, offset as int) {
            Some(shown) => text is Some && text->0@ == shown,
            None => text is None,
        },
{
    match time {
        EventTime::At(seconds) => match local_clock(*seconds, offset) {
            Some(clock) => Some(clock_text(clock)),
            None => None,
        },
        _ => None,
    }
}

/// Appends the title of an entry as it is shown.
fn push_title(out: &mut String, title: &Option<String>)
    ensures
        final(out)@ == old(out)@ + shown_title(*title),
{
    match title {
        Some(title) => out.append(title.as_str()),
        None => out.append("Untitled"),
    }
}

/// The line for an event in a day of the grid.
pub fn cell_event_label(event: &Event, offset: i32) -> (label: String)
    ensures
        label@ == cell_label_of(*event, offset as int),
{
    let mut label = String::new();
    match event_clock_text(&event.start, offset) {
        Some(start) => {
            label.append(start.as_str());
            push_char(&mut label, ' ');
        },
        None => {},
    }
    push_title(&mut label, &event.summary);
    assert(label@ =~= cell_label_of(*event, offset as int));
    label
}

/// The line for an event in the list of a day.
pub fn list_event_label(event: &Event, offset: i32) -> (label: String)
    ensures
        label@ == list_label_of(*event, offset as int),
{
    let mut label = String::new();
    push_char(&mut label, ' ');
    match event_clock_text(&event.start, offset) {
        Some(start) => {
            label.append(start.as_str());
            push_char(&mut label, ' ');
        },
        None => {},
    }
    match event_clock_text(&event.end, offset) {
        Some(end) => {
            push_char(&mut label, '-');
            push_char(&mut label, ' ');
            label.append(end.as_str());
            push_char(&mut label, ' ');
        },
        None => {},
    }
    push_title(&mut label, &event.summary);
    assert(label@ =~= list_label_of(*event, offset as int));
    label
}

/// The line for a task that is due on `due`.
pub fn task_label_with(due: Option<CalendarDate>, title: &Option<String>) -> (label: String)
    requires
        due is Some ==> due->0.is_valid(),
    ensures
        label@ == task_label_of(due, *title),
{
    let mut label = String::new();
    match due {
        Some(date) => {
            if 0 <= date.year && date.year <= 9999 {
                let year: u32 = date.year as u32;
                push_two_digits(&mut label, year / 100);
                push_two_digits(&mut label, year % 100);
                push_char(&mut label, '/');
                push_two_digits(&mut label, date.month);
                push_char(&mut label, '/');
                push_two_digits(&mut label, date.day);
                push_char(&mut label, ' ');
            }
        },
        None => {},
    }
    push_title(&mut label, title);
    assert(label@ =~= task_label_of(due, *title));
    label
}

/// The day on which a task is due: the day its due date names; none if the
/// task has no due date or one that is not a date and time.
pub open spec fn task_due_day(task: Task) -> Option<CalendarDate> {
    match task.due {
        Some(due) => rfc3339_day(due@),
        None => None,
    }
}

/// The line for a task.
pub fn task_label(task: &Task) -> (label: String)
    ensures
        label@ == task_label_of(task_due_day(*task), task.title),
{
    let due = match &task.due {
        Some(due) => read_rfc3339_day(due.as_str()),
        None => None,
    };
    task_label_with(due, &task.title)
}

/// Whether a task is shown as completed.
pub fn task_is_completed(task: &Task) -> (yes: bool)
    ensures
        yes == task.completed is Some,
{
    task.completed.is_some()
}

/// The line being edited as it is shown: what stands before the caret, the
/// character at the caret if there is one, and what stands behind it.
pub fn input_parts(editor: &LineEditor) -> (parts: (String, Option<char>, String))
    requires
        editor.wf(),
    ensures
        parts.0@ == editor.text().take(editor.caret as int),
        parts.1 == if editor.caret < editor.text().len() {
            Some(editor.text()[editor.caret as int])
        } else {
            None
        },
        parts.2@ == if editor.caret < editor.text().len() {
            editor.text().skip(editor.caret + 1)
        } else {
            Seq::empty()
        },
{
    let mut left: Vec<char> = Vec::new();
    let mut right: Vec<char> = Vec::new();
    let mut i: usize = 0;
    while i < editor.caret
        invariant
            i <= editor.caret <= editor.buffer@.len(),
            left@ == editor.buffer@.take(i as int),
        decreases editor.caret - i,
    {
        left.push(editor.buffer[i]);
        assert(editor.buffer@.take(i as int).push(editor.buffer@[i as int])
            == editor.buffer@.take(i + 1));
        i += 1;
    }
    let at = editor.char_at_caret();
    if editor.caret < editor.buffer.len() {
        let mut j: usize = editor.caret + 1;
        while j < editor.buffer.len()
            invariant
                editor.caret < j <= editor.buffer@.len(),
                right@ == editor.buffer@.subrange(editor.caret + 1, j as int),
            decreases editor.buffer@.len() - j,
        {
            right.push(editor.buffer[j]);
            assert(editor.buffer@.subrange(editor.caret + 1, j as int).push(
                editor.buffer@[j as int],
            ) == editor.buffer@.subrange(editor.caret + 1, j + 1));
            j += 1;
        }
        assert(editor.buffer@.subrange(editor.caret + 1, editor.buffer@.len() as int)
            == editor.buffer@.skip(editor.caret + 1));
    }
    (string_of(&left), at, string_of(&right))
}

} // verus!

//! Events and tasks as the calendar holds them, and the instants at which
//! events begin and end.
//!
//! An instant is a number of seconds since the beginning of 1970 in UTC. The
//! calendar shows it on the wall clock of one fixed time zone, given by its
//! offset from UTC in seconds, east positive.

use crate::date::{
    lemma_day_number_in_range, lemma_range_of_day_numbers, max_day_number, min_day_number,
    CalendarDate,
};
use crate::parse_input::{ClockTime, LocalDateTime};
use vstd::prelude::*;

verus! {

/// The day number of January 1, 1970.
pub const EPOCH_DAY_NUMBER: i64 = 719_163;

/// Number of seconds of a day.
pub const SECONDS_PER_DAY: i64 = 86_400;

/// Whether `offset` is an offset from UTC that a time zone can have: less
/// than a day either way.
pub open spec fn is_zone_offset(offset: int) -> bool {
    -SECONDS_PER_DAY < offset < SECONDS_PER_DAY
}

/// The day number of the day on which an instant falls in a time zone.
pub open spec fn local_day_number(utc_seconds: int, offset: int) -> int {
    (utc_seconds + offset) / SECONDS_PER_DAY as int + EPOCH_DAY_NUMBER
}

/// The second of the day at which an instant falls in a time zone.
pub open spec fn local_second_of_day(utc_seconds: int, offset: int) -> int {
    (utc_seconds + offset) % (SECONDS_PER_DAY as int)
}

/// The instant at which a wall clock of a time zone shows `local`.
pub open spec fn utc_seconds_of(local: LocalDateTime, offset: int) -> int {
    (local.date.day_number() - EPOCH_DAY_NUMBER) * SECONDS_PER_DAY + local.hour * 3600
        + local.minute * 60 - offset
}

/// When an event begins or ends.
#[derive(Clone, Copy, Debug, PartialEq, Eq, Structural)]
pub enum EventTime {
    /// Not said.
    Unset,
    /// With the day, for an event that takes whole days. As an end, the day
    /// after the last day of the event.
    AllDay(CalendarDate),
    /// At an instant, in seconds since the beginning of 1970 in UTC.
    At(i64),
}

impl EventTime {
    /// The day number of the day the time falls on in a time zone, if it
    /// names a supported day.
    pub open spec fn day_number(self, offset: int) -> Option<int> {
        match self {
            EventTime::Unset => None,
            EventTime::AllDay(date) => if date.is_valid() {
                Some(date.day_number())
            } else {
                None
            },
            EventTime::At(seconds) => if min_day_number() <= local_day_number(
                seconds as int,
                offset,
            ) <= max_day_number() {
                Some(local_day_number(seconds as int, offset))
            } else {
                None
            },
        }
    }

    /// The day the time falls on in a time zone: the day itself for a time
    /// given by its day, the day on the wall clock for an instant.
    pub fn local_date(&self, offset: i32) -> (date: Option<CalendarDate>)
        ensures
            match date {
                Some(day) => day.is_valid() && self.day_number(offset as int) == Some(
                    day.day_number(),
                ),
                None => self.day_number(offset as int) is None,
            },
    {
        match self {
            EventTime::Unset => None,
            EventTime::AllDay(date) => if date.check_valid() {
                Some(*date)
            } else {
                None
            },
            EventTime::At(seconds) => local_date(*seconds, offset),
        }
    }
}

/// A count of whole days that lifts every instant within reach of the
/// supported days above zero.
const DAY_LIFT: i64 = 200_000_000;

/// The instants within reach of the supported days, in seconds either way.
const INSTANT_REACH: i64 = 9_000_000_000_000;

/// The seconds from a fixed midnight long ago to an instant on the wall clock
/// of a time zone; nothing for an instant far from every supported day.
fn lifted_seconds(utc_seconds: i64, offset: i32) -> (lifted: Option<u64>)
    ensures
        match lifted {
            Some(seconds) => seconds as int == utc_seconds + offset + SECONDS_PER_DAY * DAY_LIFT,
            None => local_day_number(utc_seconds as int, offset as int) < min_day_number()
                || local_day_number(utc_seconds as int, offset as int) > max_day_number(),
        },
{
    proof {
        lemma_range_of_day_numbers();
    }
    if utc_seconds < -INSTANT_REACH || utc_seconds > INSTANT_REACH {
        return None;
    }
    Some((utc_seconds + offset as i64 + SECONDS_PER_DAY * DAY_LIFT) as u64)
}

/// The day on which an instant falls in a time zone, if it is a supported
/// day.
pub fn local_date(utc_seconds: i64, offset: i32) -> (date: Option<CalendarDate>)
    ensures
        date is Some <==> min_day_number() <= local_day_number(utc_seconds as int, offset as int)
            <= max_day_number(),
        date is Some ==> date->0.is_valid() && date->0.day_number() == local_day_number(
            utc_seconds as int,
            offset as int,
        ),
{
    let lifted = match lifted_seconds(utc_seconds, offset) {
        Some(lifted) => lifted,
        None => { return None; },
    };
    let number: i64 = (lifted / 86_400) as i64 - DAY_LIFT + EPOCH_DAY_NUMBER;
    assert(number as int == local_day_number(utc_seconds as int, offset as int));
    if number < i32::MIN as i64 || number > i32::MAX as i64 {
        proof {
            lemma_range_of_day_numbers();
        }
        return None;
    }
    CalendarDate::from_day_number(number as i32)
}

/// The time of day at which an instant falls in a time zone, to the minute,
/// if it falls on a supported day.
pub fn local_clock(utc_seconds: i64, offset: i32) -> (time: Option<ClockTime>)
    ensures
        time is Some <==> min_day_number() <= local_day_number(utc_seconds as int, offset as int)
            <= max_day_number(),
        time is Some ==> time->0.is_valid() && time->0.hour as int == local_second_of_day(
            utc_seconds as int,
            offset as int,
        ) / 3600 && time->0.minute as int == local_second_of_day(
            utc_seconds as int,
            offset as int,
        ) % 3600 / 60,
{
    if local_date(utc_seconds, offset).is_none() {
        return None;
    }
    let lifted = match lifted_seconds(utc_seconds, offset) {
        Some(lifted) => lifted,
        None => { return None; },
    };
    let second: u64 = lifted % 86_400;
    assert(second as int == local_second_of_day(utc_seconds as int, offset as int));
    Some(ClockTime { hour: (second / 3600) as u32, minute: (second % 3600 / 60) as u32 })
}

/// The instant at which the wall clock of a time zone shows `local`.
pub fn to_utc_seconds(local: LocalDateTime, offset: i32) -> (seconds: i64)
    requires
        local.is_valid(),
    ensures
        seconds as int == utc_seconds_of(local, offset as int),
{
    proof {
        lemma_day_number_in_range(local.date);
        lemma_range_of_day_numbers();
    }
    let days: i64 = local.date.to_day_number() as i64 - EPOCH_DAY_NUMBER;
    days * SECONDS_PER_DAY + local.hour as i64 * 3600 + local.minute as i64 * 60 - offset as i64
}

/// An instant made from a wall-clock time falls, in the same time zone, on
/// the day of that time and at its hour and minute.
pub proof fn lemma_local_round_trip(local: LocalDateTime, offset: int)
    requires
        local.is_valid(),
    ensures
        local_day_number(utc_seconds_of(local, offset), offset) == local.date.day_number(),
        local_second_of_day(utc_seconds_of(local, offset), offset) == local.hour * 3600
            + local.minute * 60,
{
}

/// An event that begins at a wall-clock time of a time zone begins, in that
/// time zone, on the day of that time.
pub proof fn lemma_instant_falls_on_its_day(local: LocalDateTime, offset: int)
    requires
        local.is_valid(),
        is_zone_offset(offset),
    ensures
        i64::MIN <= utc_seconds_of(local, offset) <= i64::MAX,
        (EventTime::At(utc_seconds_of(local, offset) as i64)).day_number(offset) == Some(
            local.date.day_number(),
        ),
{
    lemma_local_round_trip(local, offset);
    lemma_day_number_in_range(local.date);
    lemma_range_of_day_numbers();
}

/// An event of a calendar.
#[derive(Clone, Debug, PartialEq, Eq)]
pub struct Event {
    /// The name the service gave the event; none before it has stored it.
    pub id: Option<String>,
    pub summary: Option<String>,
    pub start: EventTime,
    pub end: EventTime,
    /// The calendar that holds the event, as requests name it.
    pub calendar_id: String,
}

/// A task of a task list.
#[derive(Clone, Debug, PartialEq, Eq)]
pub struct Task {
    /// The name the service gave the task; none before it has stored it.
    pub id: Option<String>,
    pub title: Option<String>,
    /// The day the task is due, as text (see `due_stamp`).
    pub due: Option<String>,
    pub notes: Option<String>,
    /// When the task was completed, as the service words it.
    pub completed: Option<String>,
    /// `needsAction` or `completed`.
    pub status: Option<String>,
    /// The task list that holds the task.
    pub list_id: String,
}

/// What is sent to create or change an event.
#[derive(Clone, Debug, PartialEq, Eq)]
pub struct EventPayload {
    pub summary: String,
    pub start: EventTime,
    pub end: EventTime,
}

/// What is sent to create or change a task. A field that is not there is
/// left as it is.
#[derive(Clone, Debug, PartialEq, Eq)]
pub struct TaskPayload {
    pub title: Option<String>,
    pub due: Option<String>,
    pub notes: Option<String>,
    pub status: Option<String>,
}

/// What is sent to create or change an event, as plain values.
pub struct EventPayloadView {
    pub summary: Seq<char>,
    pub start: EventTime,
    pub end: EventTime,
}

impl View for EventPayload {
    type V = EventPayloadView;

    open spec fn view(&self) -> EventPayloadView {
        EventPayloadView { summary: self.summary@, start: self.start, end: self.end }
    }
}

/// What is sent to create or change a task, as plain values.
pub struct TaskPayloadView {
    pub title: Option<Seq<char>>,
    pub due: Option<Seq<char>>,
    pub notes: Option<Seq<char>>,
    pub status: Option<Seq<char>>,
}

impl View for TaskPayload {
    type V = TaskPayloadView;

    open spec fn view(&self) -> TaskPayloadView {
        TaskPayloadView {
            title: text_of(self.title),
            due: text_of(self.due),
            notes: text_of(self.notes),
            status: text_of(self.status),
        }
    }
}

/// The text of an optional string.
pub open spec fn text_of(s: Option<String>) -> Option<Seq<char>> {
    match s {
        Some(s) => Some(s@),
        None => None,
    }
}

/// A copy of an optional string.
pub fn copy_text(s: &Option<String>) -> (out: Option<String>)
    ensures
        out == *s,
{
    match s {
        Some(s) => Some(s.clone()),
        None => None,
    }
}

impl Event {
    /// A copy of the event.
    pub fn duplicate(&self) -> (out: Event)
        ensures
            out == *self,
    {
        Event {
            id: copy_text(&self.id),
            summary: copy_text(&self.summary),
            start: self.start,
            end: self.end,
            calendar_id: self.calendar_id.clone(),
        }
    }
}

impl Task {
    /// A copy of the task.
    pub fn duplicate(&self) -> (out: Task)
        ensures
            out == *self,
    {
        Task {
            id: copy_text(&self.id),
            title: copy_text(&self.title),
            due: copy_text(&self.due),
            notes: copy_text(&self.notes),
            completed: copy_text(&self.completed),
            status: copy_text(&self.status),
            list_id: self.list_id.clone(),
        }
    }
}

} // verus!

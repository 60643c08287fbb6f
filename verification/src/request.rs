//! Work that is done outside the calendar: what is asked for, and what comes
//! back.
//!
//! A transition that needs a change made at a service answers with an
//! `Action`. Whoever runs the calendar carries it out in the background and
//! hands the outcome back as a `Completion`. Fetches are asked for by ticket
//! and answered with the ticket and what was fetched.

use crate::cache::{first_failure, gather_listings, joined};
use crate::date::CalendarDate;
use crate::model::{
    text_of, to_utc_seconds, utc_seconds_of, Event, EventPayload, EventPayloadView, EventTime,
    Task, TaskPayload, TaskPayloadView,
};
use crate::parse_input::{
    match_time_range, parse_date_and_note, parse_time_range, task_due, task_notes, task_title,
    time_range_title, RangeMatch,
};
use crate::status::{MutationKind, Outcome};
use vstd::prelude::*;
use vstd::string::*;

verus! {

/// A change to be made at a service.
#[derive(Clone, Debug, PartialEq, Eq)]
pub enum Action {
    Nothing,
    /// Create an event in the main calendar.
    InsertEvent(EventPayload),
    PatchEvent { calendar_id: String, event_id: String, event: EventPayload },
    DeleteEvent { calendar_id: String, event_id: String },
    /// Create a task in the first task list.
    InsertTask(TaskPayload),
    PatchTask { list_id: String, task_id: String, task: TaskPayload },
    DeleteTask { list_id: String, task_id: String },
    /// Set the status of a task, or leave it if no status is given.
    ToggleTask { list_id: String, task_id: String, status: Option<String> },
    /// Remove the completed tasks of a task list.
    ClearCompleted { list_id: String },
}

/// A change to be made at a service, as plain values.
pub enum ActionView {
    Nothing,
    InsertEvent(EventPayloadView),
    PatchEvent { calendar_id: Seq<char>, event_id: Seq<char>, event: EventPayloadView },
    DeleteEvent { calendar_id: Seq<char>, event_id: Seq<char> },
    InsertTask(TaskPayloadView),
    PatchTask { list_id: Seq<char>, task_id: Seq<char>, task: TaskPayloadView },
    DeleteTask { list_id: Seq<char>, task_id: Seq<char> },
    ToggleTask { list_id: Seq<char>, task_id: Seq<char>, status: Option<Seq<char>> },
    ClearCompleted { list_id: Seq<char> },
}

impl View for Action {
    type V = ActionView;

    open spec fn view(&self) -> ActionView {
        match *self {
            Action::Nothing => ActionView::Nothing,
            Action::InsertEvent(payload) => ActionView::InsertEvent(payload@),
            Action::PatchEvent { calendar_id, event_id, event } => ActionView::PatchEvent {
                calendar_id: calendar_id@,
                event_id: event_id@,
                event: event@,
            },
            Action::DeleteEvent { calendar_id, event_id } => ActionView::DeleteEvent {
                calendar_id: calendar_id@,
                event_id: event_id@,
            },
            Action::InsertTask(payload) => ActionView::InsertTask(payload@),
            Action::PatchTask { list_id, task_id, task } => ActionView::PatchTask {
                list_id: list_id@,
                task_id: task_id@,
                task: task@,
            },
            Action::DeleteTask { list_id, task_id } => ActionView::DeleteTask {
                list_id: list_id@,
                task_id: task_id@,
            },
            Action::ToggleTask { list_id, task_id, status } => ActionView::ToggleTask {
                list_id: list_id@,
                task_id: task_id@,
                status: text_of(status),
            },
            Action::ClearCompleted { list_id } => ActionView::ClearCompleted { list_id: list_id@ },
        }
    }
}

/// The kind of change an action makes.
pub open spec fn action_kind(action: ActionView) -> Option<MutationKind> {
    match action {
        ActionView::Nothing => None,
        ActionView::InsertEvent(_) => Some(MutationKind::CreateEvent),
        ActionView::PatchEvent { .. } => Some(MutationKind::UpdateEvent),
        ActionView::DeleteEvent { .. } => Some(MutationKind::DeleteEvent),
        ActionView::InsertTask(_) => Some(MutationKind::CreateTask),
        ActionView::PatchTask { .. } => Some(MutationKind::UpdateTask),
        ActionView::DeleteTask { .. } => Some(MutationKind::DeleteTask),
        ActionView::ToggleTask { .. } => Some(MutationKind::ToggleTask),
        ActionView::ClearCompleted { .. } => Some(MutationKind::ClearCompleted),
    }
}

impl Action {
    /// The kind of change the action makes; none if there is nothing to do.
    pub fn kind(&self) -> (kind: Option<MutationKind>)
        ensures
            kind == action_kind(self@),
    {
        match self {
            Action::Nothing => None,
            Action::InsertEvent(_) => Some(MutationKind::CreateEvent),
            Action::PatchEvent { .. } => Some(MutationKind::UpdateEvent),
            Action::DeleteEvent { .. } => Some(MutationKind::DeleteEvent),
            Action::InsertTask(_) => Some(MutationKind::CreateTask),
            Action::PatchTask { .. } => Some(MutationKind::UpdateTask),
            Action::DeleteTask { .. } => Some(MutationKind::DeleteTask),
            Action::ToggleTask { .. } => Some(MutationKind::ToggleTask),
            Action::ClearCompleted { .. } => Some(MutationKind::ClearCompleted),
        }
    }
}

/// The fetches to start, each with the ticket its result has to carry.
#[derive(Clone, Copy, Debug, PartialEq, Eq, Structural)]
pub struct Fetches {
    pub events: Option<u64>,
    pub tasks: Option<u64>,
}

/// No fetch to start.
pub open spec fn no_fetches() -> Fetches {
    Fetches { events: None, tasks: None }
}

/// What comes back from work done in the background.
#[derive(Clone, Debug, PartialEq, Eq)]
pub enum Completion {
    /// All events of all calendars, in the order in which they were fetched.
    EventsFetched { ticket: u64, events: Vec<Event> },
    /// All tasks of all task lists, in the order in which they were fetched.
    TasksFetched { ticket: u64, tasks: Vec<Task> },
    /// The calendars or the events of a calendar could not be listed; with
    /// the cause.
    EventsFetchFailed { ticket: u64, cause: String },
    /// The task lists or the tasks of a task list could not be listed; with
    /// the cause.
    TasksFetchFailed { ticket: u64, cause: String },
    /// A change at a service has ended.
    Mutated { kind: MutationKind, outcome: Outcome },
    /// The attempt to reach the service for events has ended.
    CalendarHandle { available: bool },
    /// The attempt to reach the service for tasks has ended.
    TasksHandle { available: bool },
}

/// Whether `out` is what a fetch of the events with the given listings, one
/// for each calendar, hands back: a failure with the cause of the first
/// listing that failed, if one did; else all events listed, in order.
pub open spec fn is_events_outcome(
    ticket: u64,
    listings: Seq<Result<Vec<Event>, String>>,
    out: Completion,
) -> bool {
    match first_failure(listings) {
        Some(at) => out == (Completion::EventsFetchFailed {
            ticket,
            cause: listings[at]->Err_0,
        }),
        None => out matches Completion::EventsFetched { ticket: carried, events } && carried
            == ticket && events@ == joined(listings),
    }
}

/// Whether `out` is what a fetch of the tasks with the given listings, one
/// for each task list, hands back: a failure with the cause of the first
/// listing that failed, if one did; else all tasks listed, in order.
pub open spec fn is_tasks_outcome(
    ticket: u64,
    listings: Seq<Result<Vec<Task>, String>>,
    out: Completion,
) -> bool {
    match first_failure(listings) {
        Some(at) => out == (Completion::TasksFetchFailed { ticket, cause: listings[at]->Err_0 }),
        None => out matches Completion::TasksFetched { ticket: carried, tasks } && carried
            == ticket && tasks@ == joined(listings),
    }
}

/// What a fetch of the events hands back. A fetch of which one listing has
/// failed has failed as a whole, so that what is kept is never replaced by a
/// part of what there is.
pub fn events_outcome(ticket: u64, listings: Vec<Result<Vec<Event>, String>>) -> (out: Completion)
    ensures
        is_events_outcome(ticket, listings@, out),
{
    match gather_listings(listings) {
        Ok(events) => Completion::EventsFetched { ticket, events },
        Err(cause) => Completion::EventsFetchFailed { ticket, cause },
    }
}

/// What a fetch of the tasks hands back. A fetch of which one listing has
/// failed has failed as a whole, so that what is kept is never replaced by a
/// part of what there is.
pub fn tasks_outcome(ticket: u64, listings: Vec<Result<Vec<Task>, String>>) -> (out: Completion)
    ensures
        is_tasks_outcome(ticket, listings@, out),
{
    match gather_listings(listings) {
        Ok(tasks) => Completion::TasksFetched { ticket, tasks },
        Err(cause) => Completion::TasksFetchFailed { ticket, cause },
    }
}

/// Start and end of an event as a line gives them. Times of day are taken on
/// the wall clock of the time zone. Where the line gives neither times nor
/// days, a new event takes the whole day in view, and an event that is
/// changed keeps what it has.
pub open spec fn event_times(
    found: Option<RangeMatch>,
    date: CalendarDate,
    offset: int,
    creating: bool,
) -> (EventTime, EventTime) {
    if found is Some && found->0.start is Some && found->0.end is Some {
        (
            EventTime::At(utc_seconds_of(found->0.start->0, offset) as i64),
            EventTime::At(utc_seconds_of(found->0.end->0, offset) as i64),
        )
    } else if found is Some && found->0.first_day is Some && found->0.end_day is Some {
        (EventTime::AllDay(found->0.first_day->0), EventTime::AllDay(found->0.end_day->0))
    } else if creating {
        (
            EventTime::AllDay(date),
            match date.next() {
                Some(after) => EventTime::AllDay(after),
                None => EventTime::Unset,
            },
        )
    } else {
        (EventTime::Unset, EventTime::Unset)
    }
}

/// What is sent for an event written as `line` with `date` in view.
pub open spec fn event_payload_of(
    line: Seq<char>,
    date: CalendarDate,
    offset: int,
    creating: bool,
) -> EventPayloadView {
    let times = event_times(match_time_range(line, date), date, offset, creating);
    EventPayloadView { summary: time_range_title(line, date), start: times.0, end: times.1 }
}

/// What is sent for a task written as `line` in the year `year`.
pub open spec fn task_payload_of(line: Seq<char>, year: int) -> TaskPayloadView {
    TaskPayloadView {
        title: Some(task_title(line, year)),
        due: task_due(line, year),
        notes: task_notes(line, year),
        status: None,
    }
}

/// The status a task gets when its completion is toggled: a completed task
/// needs action again, a task that needs action is completed, and a task
/// with any other status is left as it is.
pub open spec fn toggled_status(status: Seq<char>) -> Option<Seq<char>> {
    if status == "completed"@ {
        Some("needsAction"@)
    } else if status == "needsAction"@ {
        Some("completed"@)
    } else {
        None
    }
}

/// Builds what is sent for an event written as `line`.
pub fn event_payload(line: &str, date: CalendarDate, offset: i32, creating: bool) -> (payload:
    EventPayload)
    requires
        date.is_valid(),
    ensures
        payload@ == event_payload_of(line@, date, offset as int, creating),
{
    let (summary, start, end, first_day, end_day) = parse_time_range(line, date);
    proof {
        crate::date::lemma_range_of_day_numbers();
        if start is Some {
            crate::date::lemma_day_number_in_range(start->0.date);
        }
        if end is Some {
            crate::date::lemma_day_number_in_range(end->0.date);
        }
    }
    match (start, end, first_day, end_day) {
        (Some(start), Some(end), _, _) => EventPayload {
            summary,
            start: EventTime::At(to_utc_seconds(start, offset)),
            end: EventTime::At(to_utc_seconds(end, offset)),
        },
        (_, _, Some(first), Some(after)) => EventPayload {
            summary,
            start: EventTime::AllDay(first),
            end: EventTime::AllDay(after),
        },
        _ => if creating {
            let end = match date.next_day() {
                Some(after) => EventTime::AllDay(after),
                None => EventTime::Unset,
            };
            EventPayload { summary, start: EventTime::AllDay(date), end }
        } else {
            EventPayload { summary, start: EventTime::Unset, end: EventTime::Unset }
        },
    }
}

/// Builds what is sent for a task written as `line`.
pub fn task_payload(line: &str, year: i32) -> (payload: TaskPayload)
    ensures
        payload@ == task_payload_of(line@, year as int),
{
    let (title, due, notes) = parse_date_and_note(line, year);
    TaskPayload { title: Some(title), due, notes, status: None }
}

/// The status a task gets when its completion is toggled.
pub fn toggle_status(status: &String) -> (out: Option<String>)
    ensures
        text_of(out) == toggled_status(status@),
{
    if *status == String::from_str("completed") {
        Some(String::from_str("needsAction"))
    } else if *status == String::from_str("needsAction") {
        Some(String::from_str("completed"))
    } else {
        None
    }
}

} // verus!

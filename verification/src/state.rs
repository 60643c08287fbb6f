//! The state of the calendar and its transitions.
//!
//! The state is changed by two kinds of input: what the user asks for, and
//! what comes back from work that runs in the background. A transition never
//! waits: where work has to be done outside, it answers with a request for
//! that work, and takes the outcome later as an input of its own.
//!
//! `AppView` is the state as plain values, and the spec functions on it say
//! what each transition does. The functions on `AppState` carry the
//! transitions out.

use crate::cache::{
    begins_on, clamp_cursor, clamped_cursor, day_event_count, day_events, events_view,
    group_events, grouped_events, kept_by_start, lemma_grouped_kept_by_start, select_place,
    selected_place,
};
use crate::date::{lemma_day_number_monotone, CalendarDate, MAX_YEAR, MIN_YEAR};
use crate::editor::{edited, lemma_edited_caret, EditOp, LineEditor};
use crate::grid::{grid_fits, is_month_grid, month_grid, row_count, DayCell};
use crate::keys::{bind_editing_key, bind_navigation_key, bound_intent, Intent, KeyPress};
use crate::model::{is_zone_offset, Event, Task};
use crate::refresh::RefreshSlot;
use crate::request::{
    event_payload, event_payload_of, is_events_outcome, is_tasks_outcome, no_fetches,
    task_payload, task_payload_of, toggle_status, toggled_status, Action, ActionView, Completion,
    Fetches,
};
use crate::status::{
    auth_status_of, blank_shown, failure_shown, not_connected_shown, not_connected_status,
    offline_shown, offline_status, outcome_shown, outcome_status, pending_shown, pending_status,
    refreshing_shown, refreshing_status, resolve_auth_status, AuthStatus, MutationKind, Outcome,
    Shown, Status,
};
use crate::text::trimmed;
use std::collections::HashMap;
use vstd::prelude::*;
use vstd::std_specs::hash::*;
use vstd::std_specs::iter::IteratorSpec;
use vstd::string::*;

verus! {

broadcast use vstd::std_specs::hash::group_hash_axioms;

/// What has the focus: the month, the events of the day in view, or the
/// tasks, with or without the notes of the selected task.
#[derive(Clone, Copy, Debug, PartialEq, Eq, Structural)]
pub enum AppLayout {
    Calendar,
    Events,
    Tasks(bool),
}

/// The state of the calendar.
pub struct AppState {
    pub layout: AppLayout,
    /// The day in view.
    pub current_date: CalendarDate,
    pub today: CalendarDate,
    /// The cursor of the list that has the focus.
    pub cursor_line: usize,
    /// The time zone of the calendar: its offset from UTC in seconds.
    pub utc_offset: i32,
    /// The user has asked to leave.
    pub exit: bool,
    /// Whether the service for events can be reached.
    pub events_connected: bool,
    /// Whether the service for tasks can be reached.
    pub tasks_connected: bool,
    /// The events last fetched, by the day number of their start.
    pub events: HashMap<i32, Vec<Event>>,
    /// The tasks last fetched.
    pub tasks: Vec<Task>,
    pub refreshing_status: Status,
    pub changing_status: Status,
    /// A line is being edited.
    pub inputting: bool,
    pub editor: LineEditor,
    /// The line being edited replaces the selected entry.
    pub updating: bool,
    /// A refresh is due at the next tick.
    pub needs_refresh: bool,
    pub auth_status: AuthStatus,
    pub events_refresh: RefreshSlot,
    pub tasks_refresh: RefreshSlot,
}

/// The state as plain values.
pub struct AppView {
    pub layout: AppLayout,
    pub current_date: CalendarDate,
    pub today: CalendarDate,
    pub cursor_line: usize,
    pub utc_offset: i32,
    pub exit: bool,
    pub events_connected: bool,
    pub tasks_connected: bool,
    pub events: Map<i32, Seq<Event>>,
    pub tasks: Seq<Task>,
    pub refreshing_status: Shown,
    pub changing_status: Shown,
    pub inputting: bool,
    /// The line being edited.
    pub line: Seq<char>,
    /// The caret of the line being edited.
    pub caret: usize,
    pub updating: bool,
    pub needs_refresh: bool,
    pub auth_status: AuthStatus,
    pub events_refresh: RefreshSlot,
    pub tasks_refresh: RefreshSlot,
}

/// A state and the change to be made at a service.
pub struct Step {
    pub state: AppView,
    pub action: ActionView,
}

/// A state and the fetches to start.
pub struct Refreshed {
    pub state: AppView,
    pub fetches: Fetches,
}

/// A state and the ticket of the fetch to start, if there is one.
pub struct Started {
    pub state: AppView,
    pub ticket: Option<u64>,
}

impl View for AppState {
    type V = AppView;

    open spec fn view(&self) -> AppView {
        AppView {
            layout: self.layout,
            current_date: self.current_date,
            today: self.today,
            cursor_line: self.cursor_line,
            utc_offset: self.utc_offset,
            exit: self.exit,
            events_connected: self.events_connected,
            tasks_connected: self.tasks_connected,
            events: events_view(self.events@),
            tasks: self.tasks@,
            refreshing_status: self.refreshing_status@,
            changing_status: self.changing_status@,
            inputting: self.inputting,
            line: self.editor.text(),
            caret: self.editor.caret,
            updating: self.updating,
            needs_refresh: self.needs_refresh,
            auth_status: self.auth_status,
            events_refresh: self.events_refresh,
            tasks_refresh: self.tasks_refresh,
        }
    }
}

/// Whether the calendar can have `date` in view: the day exists, and so do
/// all days of the grid of its month.
pub open spec fn is_navigable(date: CalendarDate) -> bool {
    date.is_valid() && MIN_YEAR < date.year < MAX_YEAR
}

/// The day in view after a move to `target`: the target if it can be in
/// view, else the day that was in view.
pub open spec fn settled_date(current: CalendarDate, target: Option<CalendarDate>) -> CalendarDate {
    if target is Some && is_navigable(target->0) {
        target->0
    } else {
        current
    }
}

/// The text of an optional string; empty if there is none.
pub open spec fn text_or_empty(text: Option<String>) -> Seq<char> {
    match text {
        Some(text) => text@,
        None => Seq::empty(),
    }
}

/// The state in which the calendar starts: the month of today in view,
/// nothing fetched but what was kept from an earlier run, no service
/// reached yet.
pub open spec fn initial_view(
    today: CalendarDate,
    utc_offset: i32,
    events: Seq<Event>,
    tasks: Seq<Task>,
) -> AppView {
    AppView {
        layout: AppLayout::Calendar,
        current_date: today,
        today,
        cursor_line: 0,
        utc_offset,
        exit: false,
        events_connected: false,
        tasks_connected: false,
        events: grouped_events(events, utc_offset as int),
        tasks,
        refreshing_status: blank_shown(),
        changing_status: blank_shown(),
        inputting: false,
        line: Seq::empty(),
        caret: 0,
        updating: false,
        needs_refresh: false,
        auth_status: AuthStatus::Authenticating,
        events_refresh: RefreshSlot { awaited: None, issued: 0 },
        tasks_refresh: RefreshSlot { awaited: None, issued: 0 },
    }
}

impl AppView {
    /// The events of the day in view.
    pub open spec fn day_events(self) -> Seq<Event> {
        if self.events.contains_key(self.current_date.day_number() as i32) {
            self.events[self.current_date.day_number() as i32]
        } else {
            Seq::empty()
        }
    }

    /// Number of entries of the list that has the focus.
    pub open spec fn active_len(self) -> nat {
        match self.layout {
            AppLayout::Calendar => 0,
            AppLayout::Events => self.day_events().len(),
            AppLayout::Tasks(_) => self.tasks.len(),
        }
    }

    /// What holds of every state: the day in view can be in view, the events
    /// are kept under the days on which they begin, the cursor lies in the
    /// list that has the focus, the caret lies in the line, and no line is
    /// left over from an edit that has ended.
    pub open spec fn wf(self) -> bool {
        &&& is_navigable(self.current_date)
        &&& self.today.is_valid()
        &&& is_zone_offset(self.utc_offset as int)
        &&& kept_by_start(self.events, self.utc_offset as int)
        &&& self.cursor_line == clamped_cursor(self.cursor_line, self.active_len())
        &&& self.caret <= self.line.len()
        &&& !self.inputting ==> self.line.len() == 0 && self.caret == 0 && !self.updating
        &&& self.events_refresh.wf()
        &&& self.tasks_refresh.wf()
    }

    /// The selected event: the one of the day in view that the cursor is on.
    pub open spec fn selected_event(self) -> Option<Event> {
        match selected_place(self.cursor_line, self.day_events().len()) {
            Some(place) => Some(self.day_events()[place as int]),
            None => None,
        }
    }

    /// The selected task: the one that the cursor is on.
    pub open spec fn selected_task(self) -> Option<Task> {
        match selected_place(self.cursor_line, self.tasks.len()) {
            Some(place) => Some(self.tasks[place as int]),
            None => None,
        }
    }

    /// The state with its cursor brought back into the list that has the
    /// focus.
    pub open spec fn reclamped(self) -> AppView {
        AppView { cursor_line: clamped_cursor(self.cursor_line, self.active_len()), ..self }
    }

    /// The state with another day in view.
    pub open spec fn with_date(self, date: CalendarDate) -> AppView {
        (AppView { current_date: date, ..self }).reclamped()
    }

    /// The state with the focus elsewhere and the cursor on the first entry.
    pub open spec fn with_layout(self, layout: AppLayout) -> AppView {
        AppView { layout, cursor_line: 0, ..self }
    }

    /// The state after a move of the day in view by a number of days: the
    /// day so reached is in view if it can be.
    pub open spec fn moved_days(self, days: int) -> AppView {
        self.with_date(settled_date(self.current_date, self.current_date.day_shifted(days)))
    }

    /// The state after a move of the day in view by a number of months. The
    /// day of the month stays where the month reached has it, and is the
    /// last day of that month otherwise.
    pub open spec fn moved_months(self, months: int) -> AppView {
        self.with_date(settled_date(self.current_date, self.current_date.month_moved(months)))
    }

    /// One day on in the month; nothing in a list.
    pub open spec fn moved_right(self) -> AppView {
        match self.layout {
            AppLayout::Calendar => self.moved_days(1),
            _ => self,
        }
    }

    /// One day back in the month; nothing in a list.
    pub open spec fn moved_left(self) -> AppView {
        match self.layout {
            AppLayout::Calendar => self.moved_days(-1),
            _ => self,
        }
    }

    /// One week back in the month; one entry up in a list, if there is one
    /// above.
    pub open spec fn moved_up(self) -> AppView {
        match self.layout {
            AppLayout::Calendar => self.moved_days(-7),
            _ => AppView {
                cursor_line: if self.cursor_line > 0 {
                    (self.cursor_line - 1) as usize
                } else {
                    0
                },
                ..self
            },
        }
    }

    /// One week on in the month; one entry down in a list, if there is one
    /// below.
    pub open spec fn moved_down(self) -> AppView {
        match self.layout {
            AppLayout::Calendar => self.moved_days(7),
            _ => AppView {
                cursor_line: if self.cursor_line + 1 < self.active_len() {
                    (self.cursor_line + 1) as usize
                } else {
                    self.cursor_line
                },
                ..self
            },
        }
    }

    /// Today in view, if it can be.
    pub open spec fn at_today(self) -> AppView {
        self.with_date(settled_date(self.current_date, Some(self.today)))
    }

    /// The focus on the events of the day in view, or back on the month if
    /// they had it.
    pub open spec fn events_toggled(self) -> AppView {
        self.with_layout(
            if self.layout == AppLayout::Events {
                AppLayout::Calendar
            } else {
                AppLayout::Events
            },
        )
    }

    /// The focus on the tasks, or back on the month if they had it.
    pub open spec fn tasks_toggled(self) -> AppView {
        self.with_layout(
            if self.layout is Tasks {
                AppLayout::Calendar
            } else {
                AppLayout::Tasks(false)
            },
        )
    }

    /// One step back: from the notes to the tasks, from a list to the
    /// month, and out of the calendar from the month.
    pub open spec fn backed(self) -> AppView {
        match self.layout {
            AppLayout::Tasks(true) => AppView { layout: AppLayout::Tasks(false), ..self },
            AppLayout::Calendar => AppView { exit: true, ..self },
            _ => self.with_layout(AppLayout::Calendar),
        }
    }

    /// The notes of the selected task shown, if the tasks have the focus.
    pub open spec fn confirmed(self) -> AppView {
        match self.layout {
            AppLayout::Tasks(false) => AppView { layout: AppLayout::Tasks(true), ..self },
            _ => self,
        }
    }

    /// A refresh due at the next tick.
    pub open spec fn refresh_asked(self) -> AppView {
        AppView { needs_refresh: true, ..self }
    }

    /// A new entry being written.
    pub open spec fn create_started(self) -> AppView {
        AppView { inputting: true, updating: false, ..self }
    }

    /// An entry being edited, with its text in the line and the caret behind
    /// it.
    pub open spec fn update_started(self, text: Seq<char>) -> AppView {
        AppView { inputting: true, updating: true, line: text, caret: text.len() as usize, ..self }
    }

    /// The selected entry of the list that has the focus being edited; a new
    /// entry being written if nothing is selected.
    pub open spec fn edit_started(self) -> AppView {
        match self.layout {
            AppLayout::Tasks(_) => match self.selected_task() {
                Some(task) => self.update_started(text_or_empty(task.title)),
                None => self.create_started(),
            },
            AppLayout::Events => match self.selected_event() {
                Some(event) => self.update_started(text_or_empty(event.summary)),
                None => self.create_started(),
            },
            AppLayout::Calendar => self.create_started(),
        }
    }

    /// No line being edited.
    pub open spec fn edit_closed(self) -> AppView {
        AppView { inputting: false, updating: false, line: Seq::empty(), caret: 0, ..self }
    }

    /// One editing step on the line, if a line is being edited.
    pub open spec fn line_edited(self, op: EditOp) -> AppView {
        if self.inputting {
            AppView {
                line: edited(self.line, self.caret as int, op).text,
                caret: edited(self.line, self.caret as int, op).caret as usize,
                ..self
            }
        } else {
            self
        }
    }

    /// The state with a report on a change.
    pub open spec fn with_change(self, shown: Shown) -> AppView {
        AppView { changing_status: shown, ..self }
    }

    /// The state that reports a change as under way, with the request for
    /// it; or that reports it as not possible, if the service cannot be
    /// reached.
    pub open spec fn requested(self, connected: bool, kind: MutationKind, action: ActionView) -> Step {
        if connected {
            Step { state: self.with_change(pending_shown(kind)), action }
        } else {
            Step { state: self.with_change(offline_shown(kind)), action: ActionView::Nothing }
        }
    }

    /// Nothing to do.
    pub open spec fn idle(self) -> Step {
        Step { state: self, action: ActionView::Nothing }
    }

    /// The selected event to be deleted, if it has a name at the service.
    pub open spec fn event_deleted(self) -> Step {
        match self.selected_event() {
            Some(event) => match event.id {
                Some(id) => self.requested(
                    self.events_connected,
                    MutationKind::DeleteEvent,
                    ActionView::DeleteEvent { calendar_id: event.calendar_id@, event_id: id@ },
                ),
                None => self.idle(),
            },
            None => self.idle(),
        }
    }

    /// The selected task to be deleted, if it has a name at the service.
    pub open spec fn task_deleted(self) -> Step {
        match self.selected_task() {
            Some(task) => match task.id {
                Some(id) => self.requested(
                    self.tasks_connected,
                    MutationKind::DeleteTask,
                    ActionView::DeleteTask { list_id: task.list_id@, task_id: id@ },
                ),
                None => self.idle(),
            },
            None => self.idle(),
        }
    }

    /// The selected entry of the list that has the focus to be deleted.
    pub open spec fn selected_deleted(self) -> Step {
        match self.layout {
            AppLayout::Tasks(_) => self.task_deleted(),
            AppLayout::Events => self.event_deleted(),
            AppLayout::Calendar => self.idle(),
        }
    }

    /// The completion of the selected task to be toggled, if the tasks have
    /// the focus and the task has a name and a status at the service.
    pub open spec fn task_toggled(self) -> Step {
        match self.selected_task() {
            Some(task) => if self.layout is Tasks && task.id is Some && (!self.tasks_connected
                || task.status is Some) {
                self.requested(
                    self.tasks_connected,
                    MutationKind::ToggleTask,
                    ActionView::ToggleTask {
                        list_id: task.list_id@,
                        task_id: task.id->0@,
                        status: toggled_status(text_or_empty(task.status)),
                    },
                )
            } else {
                self.idle()
            },
            None => self.idle(),
        }
    }

    /// The completed tasks of the list of the selected task to be removed,
    /// if the tasks have the focus.
    pub open spec fn completed_cleared(self) -> Step {
        match self.selected_task() {
            Some(task) => if self.layout is Tasks {
                self.requested(
                    self.tasks_connected,
                    MutationKind::ClearCompleted,
                    ActionView::ClearCompleted { list_id: task.list_id@ },
                )
            } else {
                self.idle()
            },
            None => self.idle(),
        }
    }

    /// An event written as `line` to be created.
    pub open spec fn event_created(self, line: Seq<char>) -> Step {
        self.requested(
            self.events_connected,
            MutationKind::CreateEvent,
            ActionView::InsertEvent(
                event_payload_of(line, self.current_date, self.utc_offset as int, true),
            ),
        )
    }

    /// The selected event to be changed to what `line` says, if it has a
    /// name at the service.
    pub open spec fn event_updated(self, line: Seq<char>) -> Step {
        match self.selected_event() {
            Some(event) => match event.id {
                Some(id) => self.requested(
                    self.events_connected,
                    MutationKind::UpdateEvent,
                    ActionView::PatchEvent {
                        calendar_id: event.calendar_id@,
                        event_id: id@,
                        event: event_payload_of(
                            line,
                            self.current_date,
                            self.utc_offset as int,
                            false,
                        ),
                    },
                ),
                None => self.idle(),
            },
            None => self.idle(),
        }
    }

    /// A task written as `line` to be created; the cursor goes to the first
    /// task.
    pub open spec fn task_created(self, line: Seq<char>) -> Step {
        if self.tasks_connected {
            (AppView { cursor_line: 0, ..self }).requested(
                true,
                MutationKind::CreateTask,
                ActionView::InsertTask(task_payload_of(line, self.current_date.year as int)),
            )
        } else {
            self.requested(false, MutationKind::CreateTask, ActionView::Nothing)
        }
    }

    /// The selected task to be changed to what `line` says, if it has a name
    /// at the service.
    pub open spec fn task_updated(self, line: Seq<char>) -> Step {
        match self.selected_task() {
            Some(task) => match task.id {
                Some(id) => self.requested(
                    self.tasks_connected,
                    MutationKind::UpdateTask,
                    ActionView::PatchTask {
                        list_id: task.list_id@,
                        task_id: id@,
                        task: task_payload_of(line, self.current_date.year as int),
                    },
                ),
                None => self.idle(),
            },
            None => self.idle(),
        }
    }

    /// The line taken as a new entry: a task if the tasks have the focus,
    /// an event else. The edit ends. A line of white space is dropped.
    pub open spec fn created(self) -> Step {
        if !self.inputting {
            self.idle()
        } else if trimmed(self.line).len() == 0 {
            self.edit_closed().idle()
        } else {
            match self.layout {
                AppLayout::Tasks(_) => self.edit_closed().task_created(trimmed(self.line)),
                _ => self.edit_closed().event_created(trimmed(self.line)),
            }
        }
    }

    /// The line taken: as a change to the selected entry if one is being
    /// edited, as a new entry else. The edit ends. A line of white space is
    /// dropped.
    pub open spec fn submitted(self) -> Step {
        if self.inputting && self.updating && trimmed(self.line).len() > 0 {
            match self.layout {
                AppLayout::Tasks(_) => self.edit_closed().task_updated(trimmed(self.line)),
                _ => self.edit_closed().event_updated(trimmed(self.line)),
            }
        } else {
            self.created()
        }
    }

    /// What an intent does.
    pub open spec fn step(self, intent: Intent) -> Step {
        match intent {
            Intent::Back => self.backed().idle(),
            Intent::MoveLeft => self.moved_left().idle(),
            Intent::MoveRight => self.moved_right().idle(),
            Intent::MoveUp => self.moved_up().idle(),
            Intent::MoveDown => self.moved_down().idle(),
            Intent::NextMonth => self.moved_months(1).idle(),
            Intent::PreviousMonth => self.moved_months(-1).idle(),
            Intent::NextYear => self.moved_months(12).idle(),
            Intent::PreviousYear => self.moved_months(-12).idle(),
            Intent::JumpToToday => self.at_today().idle(),
            Intent::ToggleEvents => self.events_toggled().idle(),
            Intent::ToggleTasks => self.tasks_toggled().idle(),
            Intent::Confirm => self.confirmed().idle(),
            Intent::StartEdit => self.edit_started().idle(),
            Intent::StartCreate => self.create_started().idle(),
            Intent::DeleteSelected => self.selected_deleted(),
            Intent::ToggleCompleted => self.task_toggled(),
            Intent::ClearCompleted => self.completed_cleared(),
            Intent::Refresh => self.refresh_asked().idle(),
            Intent::Edit(op) => self.line_edited(op).idle(),
            Intent::CancelEdit => self.edit_closed().idle(),
            Intent::SubmitEdit => self.submitted(),
        }
    }

    /// What a key does: what the intent does that it is bound to, and
    /// nothing if it is bound to none.
    pub open spec fn key_pressed(self, key: KeyPress) -> Step {
        match bound_intent(self.inputting, key) {
            Some(intent) => self.step(intent),
            None => self.idle(),
        }
    }

    /// The state that reports that entries cannot be fetched because their
    /// service cannot be reached.
    pub open spec fn not_connected(self) -> AppView {
        AppView { refreshing_status: not_connected_shown(), ..self }
    }

    /// A fetch of the events started, with its ticket. If their service
    /// cannot be reached, no fetch is started and the state reports that.
    /// Nothing changes when the tickets have run out.
    pub open spec fn events_fetch_started(self) -> Started {
        if !self.events_connected {
            Started { state: self.not_connected(), ticket: None }
        } else if self.events_refresh.can_start() {
            Started {
                state: AppView {
                    events_refresh: self.events_refresh.started(),
                    refreshing_status: refreshing_shown(),
                    ..self
                },
                ticket: self.events_refresh.next_ticket(),
            }
        } else {
            Started { state: self, ticket: None }
        }
    }

    /// A fetch of the tasks started, with its ticket. If their service
    /// cannot be reached, no fetch is started and the state reports that.
    /// Nothing changes when the tickets have run out.
    pub open spec fn tasks_fetch_started(self) -> Started {
        if !self.tasks_connected {
            Started { state: self.not_connected(), ticket: None }
        } else if self.tasks_refresh.can_start() {
            Started {
                state: AppView {
                    tasks_refresh: self.tasks_refresh.started(),
                    refreshing_status: refreshing_shown(),
                    ..self
                },
                ticket: self.tasks_refresh.next_ticket(),
            }
        } else {
            Started { state: self, ticket: None }
        }
    }

    /// Fetches of events and tasks started, the events first. Of the two
    /// reports, the one on the tasks is the one that stays.
    pub open spec fn refresh_started(self) -> Refreshed {
        Refreshed {
            state: self.events_fetch_started().state.tasks_fetch_started().state,
            fetches: Fetches {
                events: self.events_fetch_started().ticket,
                tasks: self.events_fetch_started().state.tasks_fetch_started().ticket,
            },
        }
    }

    /// What a tick does: it starts the refresh that is due, if one is, and
    /// reports a service that cannot be reached.
    pub open spec fn ticked(self) -> Refreshed {
        if self.needs_refresh {
            (AppView { needs_refresh: false, ..self }).refresh_started()
        } else {
            Refreshed { state: self, fetches: no_fetches() }
        }
    }

    /// Fetched events have arrived: if they carry the ticket that is waited
    /// for, they replace the events that were kept, and the cursor is
    /// brought back into the list that has the focus; else nothing changes.
    pub open spec fn events_arrived(self, ticket: u64, events: Seq<Event>) -> AppView {
        if self.events_refresh.accepts(ticket) {
            (AppView {
                events: grouped_events(events, self.utc_offset as int),
                refreshing_status: blank_shown(),
                events_refresh: self.events_refresh.arrived(ticket),
                ..self
            }).reclamped()
        } else {
            self
        }
    }

    /// Fetched tasks have arrived: if they carry the ticket that is waited
    /// for, they replace the tasks that were kept, and the cursor is brought
    /// back into the list that has the focus; else nothing changes.
    pub open spec fn tasks_arrived(self, ticket: u64, tasks: Seq<Task>) -> AppView {
        if self.tasks_refresh.accepts(ticket) {
            (AppView {
                tasks,
                refreshing_status: blank_shown(),
                tasks_refresh: self.tasks_refresh.arrived(ticket),
                ..self
            }).reclamped()
        } else {
            self
        }
    }

    /// A fetch of the events has failed: if it carries the ticket that is
    /// waited for, the failure is reported and nothing is waited for any
    /// more; else nothing changes. What is kept stays as it is.
    pub open spec fn events_fetch_failed(self, ticket: u64, cause: Seq<char>) -> AppView {
        if self.events_refresh.accepts(ticket) {
            AppView {
                refreshing_status: failure_shown(cause),
                events_refresh: self.events_refresh.arrived(ticket),
                ..self
            }
        } else {
            self
        }
    }

    /// A fetch of the tasks has failed: if it carries the ticket that is
    /// waited for, the failure is reported and nothing is waited for any
    /// more; else nothing changes. What is kept stays as it is.
    pub open spec fn tasks_fetch_failed(self, ticket: u64, cause: Seq<char>) -> AppView {
        if self.tasks_refresh.accepts(ticket) {
            AppView {
                refreshing_status: failure_shown(cause),
                tasks_refresh: self.tasks_refresh.arrived(ticket),
                ..self
            }
        } else {
            self
        }
    }

    /// A change at a service has ended: its outcome is reported, and a
    /// refresh is due if the change was made.
    pub open spec fn mutation_ended(self, kind: MutationKind, outcome: Outcome) -> AppView {
        AppView {
            changing_status: outcome_shown(kind, outcome),
            needs_refresh: self.needs_refresh || outcome is Done,
            ..self
        }
    }

    /// The attempt to reach the service for events has ended: if it can be
    /// reached, a fetch of the events is started; if not, nothing is
    /// fetched and nothing is reported but the state of the connection.
    pub open spec fn calendar_handle_arrived(self, available: bool) -> Refreshed {
        let reached = AppView {
            events_connected: available,
            auth_status: auth_status_of(available, self.tasks_connected),
            ..self
        };
        if available {
            Refreshed {
                state: reached.events_fetch_started().state,
                fetches: Fetches { events: reached.events_fetch_started().ticket, tasks: None },
            }
        } else {
            Refreshed { state: reached, fetches: no_fetches() }
        }
    }

    /// The attempt to reach the service for tasks has ended: if it can be
    /// reached, a fetch of the tasks is started; if not, nothing is fetched
    /// and nothing is reported but the state of the connection.
    pub open spec fn tasks_handle_arrived(self, available: bool) -> Refreshed {
        let reached = AppView {
            tasks_connected: available,
            auth_status: auth_status_of(self.events_connected, available),
            ..self
        };
        if available {
            Refreshed {
                state: reached.tasks_fetch_started().state,
                fetches: Fetches { events: None, tasks: reached.tasks_fetch_started().ticket },
            }
        } else {
            Refreshed { state: reached, fetches: no_fetches() }
        }
    }

    /// What the arrival of an outcome does.
    pub open spec fn completed(self, completion: Completion) -> Refreshed {
        match completion {
            Completion::EventsFetched { ticket, events } => Refreshed {
                state: self.events_arrived(ticket, events@),
                fetches: no_fetches(),
            },
            Completion::TasksFetched { ticket, tasks } => Refreshed {
                state: self.tasks_arrived(ticket, tasks@),
                fetches: no_fetches(),
            },
            Completion::EventsFetchFailed { ticket, cause } => Refreshed {
                state: self.events_fetch_failed(ticket, cause@),
                fetches: no_fetches(),
            },
            Completion::TasksFetchFailed { ticket, cause } => Refreshed {
                state: self.tasks_fetch_failed(ticket, cause@),
                fetches: no_fetches(),
            },
            Completion::Mutated { kind, outcome } => Refreshed {
                state: self.mutation_ended(kind, outcome),
                fetches: no_fetches(),
            },
            Completion::CalendarHandle { available } => self.calendar_handle_arrived(available),
            Completion::TasksHandle { available } => self.tasks_handle_arrived(available),
        }
    }
}

/// The grid of the month of a day that can be in view lies in supported
/// years.
pub proof fn lemma_navigable_grid_fits(date: CalendarDate)
    requires
        is_navigable(date),
    ensures
        grid_fits(date),
{
    let first = CalendarDate { year: date.year, month: date.month, day: 1 };
    let lowest = CalendarDate { year: MIN_YEAR, month: 12, day: 31 };
    let highest = CalendarDate { year: MAX_YEAR, month: 1, day: 1 };
    lemma_day_number_monotone(lowest, first);
    lemma_day_number_monotone(first, highest);
    crate::date::lemma_range_of_day_numbers();
    crate::date::lemma_year_length(MIN_YEAR as int);
    crate::date::lemma_year_length(MAX_YEAR as int);
    crate::date::lemma_day_of_year_bounds(MIN_YEAR as int, 12, 31);
    crate::date::lemma_day_of_year_bounds(MAX_YEAR as int, 12, 31);
}

/// Whether `date` can be in view.
pub fn check_navigable(date: &CalendarDate) -> (yes: bool)
    ensures
        yes == is_navigable(*date),
{
    date.check_valid() && MIN_YEAR < date.year && date.year < MAX_YEAR
}

/// The day in view after a move to `target`.
pub fn settle_date(current: CalendarDate, target: Option<CalendarDate>) -> (date: CalendarDate)
    ensures
        date == settled_date(current, target),
{
    match target {
        Some(day) => if check_navigable(&day) {
            day
        } else {
            current
        },
        None => current,
    }
}

/// Whether a list kept under a day begins on it.
fn check_begins_on(list: &Vec<Event>, day: i32, offset: i32) -> (ok: bool)
    ensures
        ok == begins_on(list@, day as int, offset as int),
{
    if list.len() == 0 {
        return false;
    }
    let mut i: usize = 0;
    while i < list.len()
        invariant
            i <= list.len(),
            forall|k: int|
                0 <= k < i ==> (#[trigger] list@[k]).start.day_number(offset as int) == Some(
                    day as int,
                ),
        decreases list.len() - i,
    {
        let on_day = match list[i].start.local_date(offset) {
            Some(date) => date.to_day_number() == day,
            None => false,
        };
        if !on_day {
            return false;
        }
        i += 1;
    }
    true
}

/// A copy of an optional text; empty if there is none.
fn copy_or_empty(text: &Option<String>) -> (out: String)
    ensures
        out@ == text_or_empty(*text),
{
    match text {
        Some(text) => text.clone(),
        None => String::new(),
    }
}

impl AppState {
    /// What holds of every state (see `AppView::wf`).
    pub open spec fn wf(&self) -> bool {
        self@.wf()
    }

    /// The state in which the calendar starts, if today can be in view and
    /// the offset is one that a time zone can have. The events are those
    /// kept from an earlier run, in the order in which they were fetched.
    pub fn new(today: CalendarDate, utc_offset: i32, events: &Vec<Event>, tasks: Vec<Task>) -> (state:
        Option<AppState>)
        ensures
            state is Some <==> is_navigable(today) && is_zone_offset(utc_offset as int),
            state is Some ==> state->0.wf() && state->0@ == initial_view(
                today,
                utc_offset,
                events@,
                tasks@,
            ),
    {
        if !check_navigable(&today) || utc_offset <= -86_400 || utc_offset >= 86_400 {
            return None;
        }
        proof {
            lemma_grouped_kept_by_start(events@, utc_offset as int);
        }
        Some(
            AppState {
                layout: AppLayout::Calendar,
                current_date: today,
                today,
                cursor_line: 0,
                utc_offset,
                exit: false,
                events_connected: false,
                tasks_connected: false,
                events: group_events(events, utc_offset),
                tasks,
                refreshing_status: Status::blank(),
                changing_status: Status::blank(),
                inputting: false,
                editor: LineEditor::new(),
                updating: false,
                needs_refresh: false,
                auth_status: AuthStatus::Authenticating,
                events_refresh: RefreshSlot::new(),
                tasks_refresh: RefreshSlot::new(),
            },
        )
    }

    /// Whether the events are kept under the days on which they begin.
    fn check_events_kept(&self) -> (ok: bool)
        ensures
            ok == kept_by_start(events_view(self.events@), self.utc_offset as int),
    {
        let ghost pairs = spec_hash_map_iter(&self.events).remaining();
        let ghost offset = self.utc_offset as int;
        let mut ok = true;
        for pair in it: self.events.iter()
            invariant
                it.seq() == pairs,
                pairs == spec_hash_map_iter(&self.events).remaining(),
                offset == self.utc_offset as int,
                ok == (forall|i: int|
                    0 <= i < it.index() ==> begins_on(
                        (#[trigger] pairs[i]).1@,
                        *pairs[i].0 as int,
                        offset,
                    )),
        {
            let (day, list) = pair;
            let kept = check_begins_on(list, *day, self.utc_offset);
            proof {
                let at = it.index();
                assert(pairs[at] == pair);
                if ok && !kept {
                    assert(!begins_on(pairs[at].1@, *pairs[at].0 as int, offset));
                }
            }
            ok = ok && kept;
        }
        proof {
            let by_day = events_view(self.events@);
            if ok {
                assert forall|day: i32| #[trigger] by_day.contains_key(day) implies begins_on(
                    by_day[day],
                    day as int,
                    offset,
                ) by {
                    assert(pairs.contains((&day, &self.events@[day])));
                    let at = choose|i: int|
                        0 <= i < pairs.len() && pairs[i] == (&day, &self.events@[day]);
                    assert(begins_on(pairs[at].1@, *pairs[at].0 as int, offset));
                }
            } else {
                let at = choose|i: int|
                    0 <= i < pairs.len() && !begins_on(
                        (#[trigger] pairs[i]).1@,
                        *pairs[i].0 as int,
                        offset,
                    );
                let day = *pairs[at].0;
                assert(self.events@.contains_key(day) && self.events@[day] == *pairs[at].1);
                assert(by_day.contains_key(day));
                assert(!begins_on(by_day[day], day as int, offset));
            }
        }
        ok
    }

    /// Whether `wf` holds of the state.
    pub fn check_wf(&self) -> (ok: bool)
        ensures
            ok == self.wf(),
    {
        if !check_navigable(&self.current_date) || !self.today.check_valid() {
            return false;
        }
        if self.utc_offset <= -86_400 || self.utc_offset >= 86_400 {
            return false;
        }
        let len = match self.layout {
            AppLayout::Calendar => 0,
            AppLayout::Events => day_event_count(&self.events, &self.current_date),
            AppLayout::Tasks(_) => self.tasks.len(),
        };
        if self.cursor_line != clamp_cursor(self.cursor_line, len) {
            return false;
        }
        if self.editor.caret > self.editor.char_count() {
            return false;
        }
        if !self.inputting && (self.editor.char_count() != 0 || self.updating) {
            return false;
        }
        self.events_refresh.check_wf() && self.tasks_refresh.check_wf()
            && self.check_events_kept()
    }

    /// The events of the day in view, if there are any.
    pub fn current_day_events(&self) -> (events: Option<&Vec<Event>>)
        requires
            self.wf(),
        ensures
            events is Some ==> events->0@ == self@.day_events() && events->0@.len() > 0,
            events is None ==> self@.day_events().len() == 0,
    {
        day_events(&self.events, &self.current_date)
    }

    /// The place of the selected event among the events of the day in view.
    pub fn selected_event_index(&self) -> (place: Option<usize>)
        requires
            self.wf(),
        ensures
            place == selected_place(self.cursor_line, self@.day_events().len()),
    {
        select_place(self.cursor_line, day_event_count(&self.events, &self.current_date))
    }

    /// The place of the selected task among the tasks.
    pub fn selected_task_index(&self) -> (place: Option<usize>)
        ensures
            place == selected_place(self.cursor_line, self@.tasks.len()),
    {
        select_place(self.cursor_line, self.tasks.len())
    }

    /// The selected event.
    pub fn selected_event(&self) -> (event: Option<&Event>)
        requires
            self.wf(),
        ensures
            match self@.selected_event() {
                Some(selected) => event is Some && *event->0 == selected,
                None => event is None,
            },
    {
        match day_events(&self.events, &self.current_date) {
            Some(list) => match select_place(self.cursor_line, list.len()) {
                Some(place) => Some(&list[place]),
                None => None,
            },
            None => None,
        }
    }

    /// The selected task.
    pub fn selected_task(&self) -> (task: Option<&Task>)
        ensures
            match self@.selected_task() {
                Some(selected) => task is Some && *task->0 == selected,
                None => task is None,
            },
    {
        match select_place(self.cursor_line, self.tasks.len()) {
            Some(place) => Some(&self.tasks[place]),
            None => None,
        }
    }

    /// The first day of the month in view.
    pub fn first_day_of_month(&self) -> (date: CalendarDate)
        requires
            self.wf(),
        ensures
            date == (CalendarDate {
                year: self.current_date.year,
                month: self.current_date.month,
                day: 1,
            }),
            date.is_valid(),
    {
        self.current_date.first_of_month()
    }

    /// The last day of the month in view.
    pub fn last_day_of_month(&self) -> (date: CalendarDate)
        requires
            self.wf(),
        ensures
            date.is_valid(),
            date.year == self.current_date.year,
            date.month == self.current_date.month,
            date.day as int == crate::date::days_in_month(
                self.current_date.year as int,
                self.current_date.month as int,
            ),
    {
        self.current_date.last_of_month()
    }

    /// The grid of the month in view and the number of its weeks to show.
    pub fn generate_calendar_grid(&self) -> (out: (Vec<Vec<DayCell>>, usize))
        requires
            self.wf(),
        ensures
            is_month_grid(out.0@, self.current_date, self.today),
            out.1 as int == row_count(self.current_date),
    {
        proof {
            lemma_navigable_grid_fits(self.current_date);
        }
        month_grid(self.current_date, self.today)
    }

    /// Number of characters of the line being edited.
    pub fn char_count(&self) -> (count: usize)
        ensures
            count == self@.line.len(),
    {
        self.editor.char_count()
    }

    /// Brings the cursor back into the list that has the focus.
    pub fn reclamp_cursor(&mut self)
        requires
            old(self).current_date.is_valid(),
        ensures
            final(self)@ == old(self)@.reclamped(),
    {
        let len = match self.layout {
            AppLayout::Calendar => 0,
            AppLayout::Events => day_event_count(&self.events, &self.current_date),
            AppLayout::Tasks(_) => self.tasks.len(),
        };
        self.cursor_line = clamp_cursor(self.cursor_line, len);
    }

    /// Puts another day in view.
    fn set_date(&mut self, date: CalendarDate)
        requires
            old(self).wf(),
            is_navigable(date),
        ensures
            final(self).wf(),
            final(self)@ == old(self)@.with_date(date),
    {
        self.current_date = date;
        self.reclamp_cursor();
    }

    /// Moves the day in view by a number of days.
    pub fn move_days(&mut self, days: i32)
        requires
            old(self).wf(),
        ensures
            final(self).wf(),
            final(self)@ == old(self)@.moved_days(days as int),
    {
        let target = self.current_date.plus_days(days);
        let date = settle_date(self.current_date, target);
        self.set_date(date);
    }

    /// Moves the day in view by a number of months.
    pub fn move_months(&mut self, months: i32)
        requires
            old(self).wf(),
        ensures
            final(self).wf(),
            final(self)@ == old(self)@.moved_months(months as int),
    {
        let target = self.current_date.plus_months(months);
        let date = settle_date(self.current_date, target);
        self.set_date(date);
    }

    /// One day on in the month; nothing in a list.
    pub fn move_right(&mut self)
        requires
            old(self).wf(),
        ensures
            final(self).wf(),
            final(self)@ == old(self)@.moved_right(),
    {
        match self.layout {
            AppLayout::Calendar => self.move_days(1),
            _ => {},
        }
    }

    /// One day back in the month; nothing in a list.
    pub fn move_left(&mut self)
        requires
            old(self).wf(),
        ensures
            final(self).wf(),
            final(self)@ == old(self)@.moved_left(),
    {
        match self.layout {
            AppLayout::Calendar => self.move_days(-1),
            _ => {},
        }
    }

    /// One week back in the month; one entry up in a list, if there is one
    /// above.
    pub fn move_up(&mut self)
        requires
            old(self).wf(),
        ensures
            final(self).wf(),
            final(self)@ == old(self)@.moved_up(),
    {
        match self.layout {
            AppLayout::Calendar => self.move_days(-7),
            _ => {
                if self.cursor_line > 0 {
                    self.cursor_line = self.cursor_line - 1;
                }
            },
        }
    }

    /// One week on in the month; one entry down in a list, if there is one
    /// below.
    pub fn move_down(&mut self)
        requires
            old(self).wf(),
        ensures
            final(self).wf(),
            final(self)@ == old(self)@.moved_down(),
    {
        match self.layout {
            AppLayout::Calendar => self.move_days(7),
            AppLayout::Events => {
                let len = day_event_count(&self.events, &self.current_date);
                if self.cursor_line < len && self.cursor_line + 1 < len {
                    self.cursor_line = self.cursor_line + 1;
                }
            },
            AppLayout::Tasks(_) => {
                let len = self.tasks.len();
                if self.cursor_line < len && self.cursor_line + 1 < len {
                    self.cursor_line = self.cursor_line + 1;
                }
            },
        }
    }

    /// Puts today in view, if it can be.
    pub fn jump_to_today(&mut self)
        requires
            old(self).wf(),
        ensures
            final(self).wf(),
            final(self)@ == old(self)@.at_today(),
    {
        let date = settle_date(self.current_date, Some(self.today));
        self.set_date(date);
    }

    /// Gives the focus to the events of the day in view, or back to the
    /// month if they have it.
    pub fn toggle_event_visibility(&mut self)
        requires
            old(self).wf(),
        ensures
            final(self).wf(),
            final(self)@ == old(self)@.events_toggled(),
    {
        self.layout = match self.layout {
            AppLayout::Events => AppLayout::Calendar,
            _ => AppLayout::Events,
        };
        self.cursor_line = 0;
    }

    /// Gives the focus to the tasks, or back to the month if they have it.
    pub fn toggle_tasks_visibility(&mut self)
        requires
            old(self).wf(),
        ensures
            final(self).wf(),
            final(self)@ == old(self)@.tasks_toggled(),
    {
        self.layout = match self.layout {
            AppLayout::Tasks(_) => AppLayout::Calendar,
            _ => AppLayout::Tasks(false),
        };
        self.cursor_line = 0;
    }

    /// One step back: from the notes to the tasks, from a list to the
    /// month, and out of the calendar from the month.
    pub fn exit(&mut self)
        requires
            old(self).wf(),
        ensures
            final(self).wf(),
            final(self)@ == old(self)@.backed(),
    {
        match self.layout {
            AppLayout::Tasks(true) => {
                self.layout = AppLayout::Tasks(false);
            },
            AppLayout::Calendar => {
                self.exit = true;
            },
            _ => {
                self.layout = AppLayout::Calendar;
                self.cursor_line = 0;
            },
        }
    }

    /// Shows the notes of the selected task, if the tasks have the focus.
    pub fn confirm(&mut self)
        requires
            old(self).wf(),
        ensures
            final(self).wf(),
            final(self)@ == old(self)@.confirmed(),
    {
        match self.layout {
            AppLayout::Tasks(false) => {
                self.layout = AppLayout::Tasks(true);
            },
            _ => {},
        }
    }

    /// Asks for a refresh at the next tick.
    pub fn request_refresh(&mut self)
        requires
            old(self).wf(),
        ensures
            final(self).wf(),
            final(self)@ == old(self)@.refresh_asked(),
    {
        self.needs_refresh = true;
    }

    /// Begins to write a new entry.
    pub fn start_create(&mut self)
        requires
            old(self).wf(),
        ensures
            final(self).wf(),
            final(self)@ == old(self)@.create_started(),
    {
        self.updating = false;
        self.inputting = true;
    }

    /// Begins to edit the selected entry of the list that has the focus, or
    /// to write a new entry if nothing is selected.
    pub fn add_or_update_event(&mut self)
        requires
            old(self).wf(),
        ensures
            final(self).wf(),
            final(self)@ == old(self)@.edit_started(),
    {
        let text = match self.layout {
            AppLayout::Tasks(_) => match self.selected_task() {
                Some(task) => Some(copy_or_empty(&task.title)),
                None => None,
            },
            AppLayout::Events => match self.selected_event() {
                Some(event) => Some(copy_or_empty(&event.summary)),
                None => None,
            },
            AppLayout::Calendar => None,
        };
        match text {
            Some(text) => {
                self.editor = LineEditor::with_text(text.as_str());
                self.updating = true;
                self.inputting = true;
            },
            None => self.start_create(),
        }
    }

    /// Ends the edit and drops the line.
    pub fn cancel_input(&mut self)
        requires
            old(self).wf(),
        ensures
            final(self).wf(),
            final(self)@ == old(self)@.edit_closed(),
    {
        self.editor.clear();
        self.updating = false;
        self.inputting = false;
        assert(self.editor.text() =~= Seq::<char>::empty());
    }

    /// Carries out one editing step on the line, if a line is being edited.
    pub fn edit_line(&mut self, op: EditOp)
        requires
            old(self).wf(),
        ensures
            final(self).wf(),
            final(self)@ == old(self)@.line_edited(op),
    {
        if self.inputting {
            self.editor.apply(op);
        }
    }

    /// Reports a change as under way, or as not possible if its service
    /// cannot be reached; answers whether it is under way.
    fn report_request(&mut self, connected: bool, kind: MutationKind) -> (under_way: bool)
        requires
            old(self).wf(),
        ensures
            final(self).wf(),
            under_way == connected,
            final(self)@ == old(self)@.with_change(
                if connected {
                    pending_shown(kind)
                } else {
                    offline_shown(kind)
                },
            ),
    {
        if connected {
            self.changing_status = pending_status(kind);
        } else {
            self.changing_status = offline_status(kind);
        }
        connected
    }

    /// Asks for the selected event to be deleted.
    pub fn delete_selected_event(&mut self) -> (action: Action)
        requires
            old(self).wf(),
        ensures
            final(self).wf(),
            final(self)@ == old(self)@.event_deleted().state,
            action@ == old(self)@.event_deleted().action,
    {
        let (calendar_id, event_id) = match self.selected_event() {
            Some(event) => match &event.id {
                Some(id) => (event.calendar_id.clone(), id.clone()),
                None => { return Action::Nothing; },
            },
            None => { return Action::Nothing; },
        };
        if self.report_request(self.events_connected, MutationKind::DeleteEvent) {
            Action::DeleteEvent { calendar_id, event_id }
        } else {
            Action::Nothing
        }
    }

    /// Asks for the selected task to be deleted.
    pub fn delete_selected_task(&mut self) -> (action: Action)
        requires
            old(self).wf(),
        ensures
            final(self).wf(),
            final(self)@ == old(self)@.task_deleted().state,
            action@ == old(self)@.task_deleted().action,
    {
        let (list_id, task_id) = match self.selected_task() {
            Some(task) => match &task.id {
                Some(id) => (task.list_id.clone(), id.clone()),
                None => { return Action::Nothing; },
            },
            None => { return Action::Nothing; },
        };
        if self.report_request(self.tasks_connected, MutationKind::DeleteTask) {
            Action::DeleteTask { list_id, task_id }
        } else {
            Action::Nothing
        }
    }

    /// Asks for the selected entry of the list that has the focus to be
    /// deleted.
    pub fn delete_selected(&mut self) -> (action: Action)
        requires
            old(self).wf(),
        ensures
            final(self).wf(),
            final(self)@ == old(self)@.selected_deleted().state,
            action@ == old(self)@.selected_deleted().action,
    {
        match self.layout {
            AppLayout::Tasks(_) => self.delete_selected_task(),
            AppLayout::Events => self.delete_selected_event(),
            AppLayout::Calendar => Action::Nothing,
        }
    }

    /// Asks for the completion of the selected task to be toggled.
    pub fn toggle_task_completed(&mut self) -> (action: Action)
        requires
            old(self).wf(),
        ensures
            final(self).wf(),
            final(self)@ == old(self)@.task_toggled().state,
            action@ == old(self)@.task_toggled().action,
    {
        let in_tasks = match self.layout {
            AppLayout::Tasks(_) => true,
            _ => false,
        };
        if !in_tasks {
            return Action::Nothing;
        }
        let (list_id, task_id, status) = match self.selected_task() {
            Some(task) => match &task.id {
                Some(id) => (
                    task.list_id.clone(),
                    id.clone(),
                    match &task.status {
                        Some(status) => Some(toggle_status(status)),
                        None => None,
                    },
                ),
                None => { return Action::Nothing; },
            },
            None => { return Action::Nothing; },
        };
        if !self.tasks_connected {
            self.report_request(false, MutationKind::ToggleTask);
            return Action::Nothing;
        }
        match status {
            Some(status) => {
                self.report_request(true, MutationKind::ToggleTask);
                Action::ToggleTask { list_id, task_id, status }
            },
            None => Action::Nothing,
        }
    }

    /// Asks for the completed tasks of the list of the selected task to be
    /// removed.
    pub fn clear_completed_tasks(&mut self) -> (action: Action)
        requires
            old(self).wf(),
        ensures
            final(self).wf(),
            final(self)@ == old(self)@.completed_cleared().state,
            action@ == old(self)@.completed_cleared().action,
    {
        let in_tasks = match self.layout {
            AppLayout::Tasks(_) => true,
            _ => false,
        };
        if !in_tasks {
            return Action::Nothing;
        }
        let list_id = match self.selected_task() {
            Some(task) => task.list_id.clone(),
            None => { return Action::Nothing; },
        };
        if self.report_request(self.tasks_connected, MutationKind::ClearCompleted) {
            Action::ClearCompleted { list_id }
        } else {
            Action::Nothing
        }
    }

    /// Asks for an event written as `title` to be created.
    pub fn create_event_in_background(&mut self, title: &str) -> (action: Action)
        requires
            old(self).wf(),
        ensures
            final(self).wf(),
            final(self)@ == old(self)@.event_created(title@).state,
            action@ == old(self)@.event_created(title@).action,
    {
        if self.report_request(self.events_connected, MutationKind::CreateEvent) {
            Action::InsertEvent(event_payload(title, self.current_date, self.utc_offset, true))
        } else {
            Action::Nothing
        }
    }

    /// Asks for the selected event to be changed to what `title` says.
    pub fn update_event_in_background(&mut self, title: &str) -> (action: Action)
        requires
            old(self).wf(),
        ensures
            final(self).wf(),
            final(self)@ == old(self)@.event_updated(title@).state,
            action@ == old(self)@.event_updated(title@).action,
    {
        let (calendar_id, event_id) = match self.selected_event() {
            Some(event) => match &event.id {
                Some(id) => (event.calendar_id.clone(), id.clone()),
                None => { return Action::Nothing; },
            },
            None => { return Action::Nothing; },
        };
        if self.report_request(self.events_connected, MutationKind::UpdateEvent) {
            Action::PatchEvent {
                calendar_id,
                event_id,
                event: event_payload(title, self.current_date, self.utc_offset, false),
            }
        } else {
            Action::Nothing
        }
    }

    /// Asks for a task written as `title` to be created.
    pub fn create_task_in_background(&mut self, title: &str) -> (action: Action)
        requires
            old(self).wf(),
        ensures
            final(self).wf(),
            final(self)@ == old(self)@.task_created(title@).state,
            action@ == old(self)@.task_created(title@).action,
    {
        if self.report_request(self.tasks_connected, MutationKind::CreateTask) {
            self.cursor_line = 0;
            Action::InsertTask(task_payload(title, self.current_date.year))
        } else {
            Action::Nothing
        }
    }

    /// Asks for the selected task to be changed to what `title` says.
    pub fn update_task_in_background(&mut self, title: &str) -> (action: Action)
        requires
            old(self).wf(),
        ensures
            final(self).wf(),
            final(self)@ == old(self)@.task_updated(title@).state,
            action@ == old(self)@.task_updated(title@).action,
    {
        let (list_id, task_id) = match self.selected_task() {
            Some(task) => match &task.id {
                Some(id) => (task.list_id.clone(), id.clone()),
                None => { return Action::Nothing; },
            },
            None => { return Action::Nothing; },
        };
        if self.report_request(self.tasks_connected, MutationKind::UpdateTask) {
            Action::PatchTask {
                list_id,
                task_id,
                task: task_payload(title, self.current_date.year),
            }
        } else {
            Action::Nothing
        }
    }

    /// Takes the line as a new entry and ends the edit.
    pub fn create_task_or_event(&mut self) -> (action: Action)
        requires
            old(self).wf(),
        ensures
            final(self).wf(),
            final(self)@ == old(self)@.created().state,
            action@ == old(self)@.created().action,
    {
        if !self.inputting {
            return Action::Nothing;
        }
        if self.editor.is_blank() {
            self.cancel_input();
            return Action::Nothing;
        }
        let title = self.editor.trimmed_text();
        self.cancel_input();
        match self.layout {
            AppLayout::Tasks(_) => self.create_task_in_background(title.as_str()),
            _ => self.create_event_in_background(title.as_str()),
        }
    }

    /// Takes the line, as a change to the selected entry or as a new entry,
    /// and ends the edit.
    pub fn update_or_create_task_or_event(&mut self) -> (action: Action)
        requires
            old(self).wf(),
        ensures
            final(self).wf(),
            final(self)@ == old(self)@.submitted().state,
            action@ == old(self)@.submitted().action,
    {
        if self.inputting && self.updating && !self.editor.is_blank() {
            let title = self.editor.trimmed_text();
            self.cancel_input();
            match self.layout {
                AppLayout::Tasks(_) => self.update_task_in_background(title.as_str()),
                _ => self.update_event_in_background(title.as_str()),
            }
        } else {
            self.create_task_or_event()
        }
    }

    /// Carries out what the user asks for.
    pub fn apply(&mut self, intent: Intent) -> (action: Action)
        requires
            old(self).wf(),
        ensures
            final(self).wf(),
            final(self)@ == old(self)@.step(intent).state,
            action@ == old(self)@.step(intent).action,
    {
        match intent {
            Intent::Back => {
                self.exit();
                Action::Nothing
            },
            Intent::MoveLeft => {
                self.move_left();
                Action::Nothing
            },
            Intent::MoveRight => {
                self.move_right();
                Action::Nothing
            },
            Intent::MoveUp => {
                self.move_up();
                Action::Nothing
            },
            Intent::MoveDown => {
                self.move_down();
                Action::Nothing
            },
            Intent::NextMonth => {
                self.move_months(1);
                Action::Nothing
            },
            Intent::PreviousMonth => {
                self.move_months(-1);
                Action::Nothing
            },
            Intent::NextYear => {
                self.move_months(12);
                Action::Nothing
            },
            Intent::PreviousYear => {
                self.move_months(-12);
                Action::Nothing
            },
            Intent::JumpToToday => {
                self.jump_to_today();
                Action::Nothing
            },
            Intent::ToggleEvents => {
                self.toggle_event_visibility();
                Action::Nothing
            },
            Intent::ToggleTasks => {
                self.toggle_tasks_visibility();
                Action::Nothing
            },
            Intent::Confirm => {
                self.confirm();
                Action::Nothing
            },
            Intent::StartEdit => {
                self.add_or_update_event();
                Action::Nothing
            },
            Intent::StartCreate => {
                self.start_create();
                Action::Nothing
            },
            Intent::DeleteSelected => self.delete_selected(),
            Intent::ToggleCompleted => self.toggle_task_completed(),
            Intent::ClearCompleted => self.clear_completed_tasks(),
            Intent::Refresh => {
                self.request_refresh();
                Action::Nothing
            },
            Intent::Edit(op) => {
                self.edit_line(op);
                Action::Nothing
            },
            Intent::CancelEdit => {
                self.cancel_input();
                Action::Nothing
            },
            Intent::SubmitEdit => self.update_or_create_task_or_event(),
        }
    }

    /// Takes a key pressed while no line is edited.
    pub fn handle_key_event(&mut self, key: KeyPress) -> (action: Action)
        requires
            old(self).wf(),
        ensures
            final(self).wf(),
            match crate::keys::navigation_intent(key) {
                Some(intent) => final(self)@ == old(self)@.step(intent).state && action@ == old(
                    self,
                )@.step(intent).action,
                None => final(self)@ == old(self)@ && action@ == ActionView::Nothing,
            },
    {
        match bind_navigation_key(key) {
            Some(intent) => self.apply(intent),
            None => Action::Nothing,
        }
    }

    /// Takes a key pressed while a line is edited.
    pub fn input_handle_key_event(&mut self, key: KeyPress) -> (action: Action)
        requires
            old(self).wf(),
        ensures
            final(self).wf(),
            match crate::keys::editing_intent(key) {
                Some(intent) => final(self)@ == old(self)@.step(intent).state && action@ == old(
                    self,
                )@.step(intent).action,
                None => final(self)@ == old(self)@ && action@ == ActionView::Nothing,
            },
    {
        match bind_editing_key(key) {
            Some(intent) => self.apply(intent),
            None => Action::Nothing,
        }
    }

    /// Takes a key: as part of the edit while a line is edited, as a command
    /// else.
    pub fn key_pressed(&mut self, key: KeyPress) -> (action: Action)
        requires
            old(self).wf(),
        ensures
            final(self).wf(),
            final(self)@ == old(self)@.key_pressed(key).state,
            action@ == old(self)@.key_pressed(key).action,
    {
        if self.inputting {
            self.input_handle_key_event(key)
        } else {
            self.handle_key_event(key)
        }
    }

    /// Starts a fetch of the events and answers with its ticket. If their
    /// service cannot be reached, reports that and starts nothing.
    pub fn start_background_event_fetch(&mut self) -> (ticket: Option<u64>)
        requires
            old(self).wf(),
        ensures
            final(self).wf(),
            final(self)@ == old(self)@.events_fetch_started().state,
            ticket == old(self)@.events_fetch_started().ticket,
    {
        if !self.events_connected {
            self.refreshing_status = not_connected_status();
            return None;
        }
        let ticket = self.events_refresh.start();
        if ticket.is_some() {
            self.refreshing_status = refreshing_status();
        }
        ticket
    }

    /// Starts a fetch of the tasks and answers with its ticket. If their
    /// service cannot be reached, reports that and starts nothing.
    pub fn start_background_task_fetch(&mut self) -> (ticket: Option<u64>)
        requires
            old(self).wf(),
        ensures
            final(self).wf(),
            final(self)@ == old(self)@.tasks_fetch_started().state,
            ticket == old(self)@.tasks_fetch_started().ticket,
    {
        if !self.tasks_connected {
            self.refreshing_status = not_connected_status();
            return None;
        }
        let ticket = self.tasks_refresh.start();
        if ticket.is_some() {
            self.refreshing_status = refreshing_status();
        }
        ticket
    }

    /// Starts fetches of events and tasks, the events first, and answers
    /// with their tickets. A service that cannot be reached is reported, and
    /// nothing is fetched from it.
    pub fn start_background_refresh(&mut self) -> (fetches: Fetches)
        requires
            old(self).wf(),
        ensures
            final(self).wf(),
            final(self)@ == old(self)@.refresh_started().state,
            fetches == old(self)@.refresh_started().fetches,
    {
        let events = self.start_background_event_fetch();
        let tasks = self.start_background_task_fetch();
        Fetches { events, tasks }
    }

    /// Ends a tick: starts the refresh that is due, if one is.
    pub fn tick(&mut self) -> (fetches: Fetches)
        requires
            old(self).wf(),
        ensures
            final(self).wf(),
            final(self)@ == old(self)@.ticked().state,
            fetches == old(self)@.ticked().fetches,
    {
        if self.needs_refresh {
            self.needs_refresh = false;
            self.start_background_refresh()
        } else {
            Fetches { events: None, tasks: None }
        }
    }

    /// Sets whether the services can be reached from what is known of each.
    pub fn update_auth_status(&mut self)
        requires
            old(self).wf(),
        ensures
            final(self).wf(),
            final(self)@ == (AppView {
                auth_status: auth_status_of(old(self).events_connected, old(self).tasks_connected),
                ..old(self)@
            }),
    {
        self.auth_status = resolve_auth_status(self.events_connected, self.tasks_connected);
    }

    /// Takes fetched events: keeps them in place of the events that were
    /// kept if they carry the ticket that is waited for, and drops them else.
    pub fn install_events(&mut self, ticket: u64, events: &Vec<Event>)
        requires
            old(self).wf(),
        ensures
            final(self).wf(),
            final(self)@ == old(self)@.events_arrived(ticket, events@),
    {
        if self.events_refresh.arrive(ticket) {
            proof {
                lemma_grouped_kept_by_start(events@, self.utc_offset as int);
            }
            self.events = group_events(events, self.utc_offset);
            self.refreshing_status = Status::blank();
            self.reclamp_cursor();
        }
    }

    /// Takes fetched tasks: keeps them in place of the tasks that were kept
    /// if they carry the ticket that is waited for, and drops them else.
    pub fn install_tasks(&mut self, ticket: u64, tasks: Vec<Task>)
        requires
            old(self).wf(),
        ensures
            final(self).wf(),
            final(self)@ == old(self)@.tasks_arrived(ticket, tasks@),
    {
        if self.tasks_refresh.arrive(ticket) {
            self.tasks = tasks;
            self.refreshing_status = Status::blank();
            self.reclamp_cursor();
        }
    }

    /// Takes note that a fetch of the events has failed.
    pub fn fail_events_fetch(&mut self, ticket: u64, cause: &str)
        requires
            old(self).wf(),
        ensures
            final(self).wf(),
            final(self)@ == old(self)@.events_fetch_failed(ticket, cause@),
    {
        if self.events_refresh.arrive(ticket) {
            self.refreshing_status = Status::failure(cause);
        }
    }

    /// Takes note that a fetch of the tasks has failed.
    pub fn fail_tasks_fetch(&mut self, ticket: u64, cause: &str)
        requires
            old(self).wf(),
        ensures
            final(self).wf(),
            final(self)@ == old(self)@.tasks_fetch_failed(ticket, cause@),
    {
        if self.tasks_refresh.arrive(ticket) {
            self.refreshing_status = Status::failure(cause);
        }
    }

    /// Takes the outcome of a change at a service.
    pub fn finish_mutation(&mut self, kind: MutationKind, outcome: &Outcome)
        requires
            old(self).wf(),
        ensures
            final(self).wf(),
            final(self)@ == old(self)@.mutation_ended(kind, *outcome),
    {
        self.changing_status = outcome_status(kind, outcome);
        let done = match outcome {
            Outcome::Done => true,
            _ => false,
        };
        if done {
            self.needs_refresh = true;
        }
    }

    /// Takes the outcome of the attempt to reach the service for events, and
    /// starts a fetch of the events if the service can be reached.
    pub fn calendar_handle_resolved(&mut self, available: bool) -> (fetches: Fetches)
        requires
            old(self).wf(),
        ensures
            final(self).wf(),
            final(self)@ == old(self)@.calendar_handle_arrived(available).state,
            fetches == old(self)@.calendar_handle_arrived(available).fetches,
    {
        self.events_connected = available;
        self.update_auth_status();
        if available {
            let ticket = self.start_background_event_fetch();
            Fetches { events: ticket, tasks: None }
        } else {
            Fetches { events: None, tasks: None }
        }
    }

    /// Takes the outcome of the attempt to reach the service for tasks, and
    /// starts a fetch of the tasks if the service can be reached.
    pub fn tasks_handle_resolved(&mut self, available: bool) -> (fetches: Fetches)
        requires
            old(self).wf(),
        ensures
            final(self).wf(),
            final(self)@ == old(self)@.tasks_handle_arrived(available).state,
            fetches == old(self)@.tasks_handle_arrived(available).fetches,
    {
        self.tasks_connected = available;
        self.update_auth_status();
        if available {
            let ticket = self.start_background_task_fetch();
            Fetches { events: None, tasks: ticket }
        } else {
            Fetches { events: None, tasks: None }
        }
    }

    /// Takes what has come back from work done in the background.
    pub fn check_updates(&mut self, completion: Completion) -> (fetches: Fetches)
        requires
            old(self).wf(),
        ensures
            final(self).wf(),
            final(self)@ == old(self)@.completed(completion).state,
            fetches == old(self)@.completed(completion).fetches,
    {
        match completion {
            Completion::EventsFetched { ticket, events } => {
                self.install_events(ticket, &events);
                Fetches { events: None, tasks: None }
            },
            Completion::TasksFetched { ticket, tasks } => {
                self.install_tasks(ticket, tasks);
                Fetches { events: None, tasks: None }
            },
            Completion::EventsFetchFailed { ticket, cause } => {
                self.fail_events_fetch(ticket, cause.as_str());
                Fetches { events: None, tasks: None }
            },
            Completion::TasksFetchFailed { ticket, cause } => {
                self.fail_tasks_fetch(ticket, cause.as_str());
                Fetches { events: None, tasks: None }
            },
            Completion::Mutated { kind, outcome } => {
                self.finish_mutation(kind, &outcome);
                Fetches { events: None, tasks: None }
            },
            Completion::CalendarHandle { available } => self.calendar_handle_resolved(available),
            Completion::TasksHandle { available } => self.tasks_handle_resolved(available),
        }
    }
}

/// Another day that can be in view leaves the state one of which `wf`
/// holds.
pub proof fn lemma_with_date_keeps_wf(state: AppView, target: Option<CalendarDate>)
    requires
        state.wf(),
    ensures
        state.with_date(settled_date(state.current_date, target)).wf(),
{
}

/// A request for a change leaves the state one of which `wf` holds.
pub proof fn lemma_request_keeps_wf(
    state: AppView,
    connected: bool,
    kind: MutationKind,
    action: ActionView,
)
    requires
        state.wf(),
    ensures
        state.requested(connected, kind, action).state.wf(),
        (AppView { cursor_line: 0, ..state }).requested(connected, kind, action).state.wf(),
{
}

/// Taking the line leaves the state one of which `wf` holds.
pub proof fn lemma_submit_keeps_wf(state: AppView)
    requires
        state.wf(),
    ensures
        state.created().state.wf(),
        state.submitted().state.wf(),
{
    let closed = state.edit_closed();
    let line = trimmed(state.line);
    assert(closed.wf());
    lemma_requests_keep_wf(closed, line);
}

/// Every request for a change leaves the state one of which `wf` holds.
pub proof fn lemma_requests_keep_wf(state: AppView, line: Seq<char>)
    requires
        state.wf(),
    ensures
        state.event_deleted().state.wf(),
        state.task_deleted().state.wf(),
        state.selected_deleted().state.wf(),
        state.task_toggled().state.wf(),
        state.completed_cleared().state.wf(),
        state.event_created(line).state.wf(),
        state.event_updated(line).state.wf(),
        state.task_created(line).state.wf(),
        state.task_updated(line).state.wf(),
{
    let shown = pending_shown(MutationKind::DeleteEvent);
    assert forall|connected: bool, kind: MutationKind, action: ActionView|
        (#[trigger] state.requested(connected, kind, action)).state.wf() by {
        lemma_request_keeps_wf(state, connected, kind, action);
    }
    lemma_request_keeps_wf(
        state,
        true,
        MutationKind::CreateTask,
        ActionView::InsertTask(task_payload_of(line, state.current_date.year as int)),
    );
}

/// Every move of the day in view or of the cursor leaves the state one of
/// which `wf` holds.
pub proof fn lemma_moves_keep_wf(state: AppView)
    requires
        state.wf(),
    ensures
        state.moved_left().wf(),
        state.moved_right().wf(),
        state.moved_up().wf(),
        state.moved_down().wf(),
        state.at_today().wf(),
        forall|months: int| (#[trigger] state.moved_months(months)).wf(),
{
    let date = state.current_date;
    lemma_with_date_keeps_wf(state, date.day_shifted(-1));
    lemma_with_date_keeps_wf(state, date.day_shifted(1));
    lemma_with_date_keeps_wf(state, date.day_shifted(-7));
    lemma_with_date_keeps_wf(state, date.day_shifted(7));
    lemma_with_date_keeps_wf(state, Some(state.today));
    assert forall|months: int| (#[trigger] state.moved_months(months)).wf() by {
        lemma_with_date_keeps_wf(state, date.month_moved(months));
    }
}

/// Every change of the focus and every begin or end of an edit leaves the
/// state one of which `wf` holds.
pub proof fn lemma_focus_keeps_wf(state: AppView)
    requires
        state.wf(),
    ensures
        state.backed().wf(),
        state.confirmed().wf(),
        state.events_toggled().wf(),
        state.tasks_toggled().wf(),
        state.refresh_asked().wf(),
        state.create_started().wf(),
        state.edit_started().wf(),
        state.edit_closed().wf(),
{
}

/// Every editing step leaves the state one of which `wf` holds.
pub proof fn lemma_edit_keeps_wf(state: AppView, op: EditOp)
    requires
        state.wf(),
    ensures
        state.line_edited(op).wf(),
{
    lemma_edited_caret(state.line, state.caret as int, op);
}

/// Whatever the user asks for, the state stays one of which `wf` holds.
pub proof fn lemma_step_keeps_wf(state: AppView, intent: Intent)
    requires
        state.wf(),
    ensures
        state.step(intent).state.wf(),
{
    lemma_moves_keep_wf(state);
    lemma_focus_keeps_wf(state);
    lemma_requests_keep_wf(state, Seq::empty());
    lemma_submit_keeps_wf(state);
    match intent {
        Intent::Back => assert(state.step(intent).state == state.backed()),
        Intent::MoveLeft => assert(state.step(intent).state == state.moved_left()),
        Intent::MoveRight => assert(state.step(intent).state == state.moved_right()),
        Intent::MoveUp => assert(state.step(intent).state == state.moved_up()),
        Intent::MoveDown => assert(state.step(intent).state == state.moved_down()),
        Intent::NextMonth => assert(state.step(intent).state == state.moved_months(1)),
        Intent::PreviousMonth => assert(state.step(intent).state == state.moved_months(-1)),
        Intent::NextYear => assert(state.step(intent).state == state.moved_months(12)),
        Intent::PreviousYear => assert(state.step(intent).state == state.moved_months(-12)),
        Intent::JumpToToday => assert(state.step(intent).state == state.at_today()),
        Intent::ToggleEvents => assert(state.step(intent).state == state.events_toggled()),
        Intent::ToggleTasks => assert(state.step(intent).state == state.tasks_toggled()),
        Intent::Confirm => assert(state.step(intent).state == state.confirmed()),
        Intent::StartEdit => assert(state.step(intent).state == state.edit_started()),
        Intent::StartCreate => assert(state.step(intent).state == state.create_started()),
        Intent::DeleteSelected => assert(state.step(intent) == state.selected_deleted()),
        Intent::ToggleCompleted => assert(state.step(intent) == state.task_toggled()),
        Intent::ClearCompleted => assert(state.step(intent) == state.completed_cleared()),
        Intent::Refresh => assert(state.step(intent).state == state.refresh_asked()),
        Intent::Edit(op) => {
            lemma_edit_keeps_wf(state, op);
            assert(state.step(intent).state == state.line_edited(op));
        },
        Intent::CancelEdit => assert(state.step(intent).state == state.edit_closed()),
        Intent::SubmitEdit => assert(state.step(intent) == state.submitted()),
    }
}

/// Starting a fetch leaves the state one of which `wf` holds, whether the
/// service can be reached or not.
pub proof fn lemma_fetch_start_keeps_wf(state: AppView)
    requires
        state.wf(),
    ensures
        state.not_connected().wf(),
        state.events_fetch_started().state.wf(),
        state.tasks_fetch_started().state.wf(),
        state.refresh_started().state.wf(),
{
    let after_events = state.events_fetch_started().state;
    assert(after_events.wf());
    assert(after_events.tasks_fetch_started().state.wf());
}

/// What was fetched, and the failure of a fetch, leave the state one of
/// which `wf` holds.
pub proof fn lemma_arrival_keeps_wf(
    state: AppView,
    ticket: u64,
    events: Seq<Event>,
    tasks: Seq<Task>,
    cause: Seq<char>,
)
    requires
        state.wf(),
    ensures
        state.events_arrived(ticket, events).wf(),
        state.tasks_arrived(ticket, tasks).wf(),
        state.events_fetch_failed(ticket, cause).wf(),
        state.tasks_fetch_failed(ticket, cause).wf(),
{
    lemma_grouped_kept_by_start(events, state.utc_offset as int);
}

/// The outcome of the attempt to reach a service leaves the state one of
/// which `wf` holds.
pub proof fn lemma_handle_keeps_wf(state: AppView, available: bool)
    requires
        state.wf(),
    ensures
        state.calendar_handle_arrived(available).state.wf(),
        state.tasks_handle_arrived(available).state.wf(),
{
    let with_calendar = AppView {
        events_connected: available,
        auth_status: auth_status_of(available, state.tasks_connected),
        ..state
    };
    let with_tasks = AppView {
        tasks_connected: available,
        auth_status: auth_status_of(state.events_connected, available),
        ..state
    };
    assert(with_calendar.wf());
    assert(with_tasks.wf());
    lemma_fetch_start_keeps_wf(with_calendar);
    lemma_fetch_start_keeps_wf(with_tasks);
}

/// Whatever comes back from the background, the state stays one of which
/// `wf` holds.
pub proof fn lemma_completion_keeps_wf(state: AppView, completion: Completion)
    requires
        state.wf(),
    ensures
        state.completed(completion).state.wf(),
{
    match completion {
        Completion::EventsFetched { ticket, events } => {
            lemma_arrival_keeps_wf(state, ticket, events@, Seq::empty(), Seq::empty());
        },
        Completion::TasksFetched { ticket, tasks } => {
            lemma_arrival_keeps_wf(state, ticket, Seq::empty(), tasks@, Seq::empty());
        },
        Completion::EventsFetchFailed { ticket, cause } => {
            lemma_arrival_keeps_wf(state, ticket, Seq::empty(), Seq::empty(), cause@);
        },
        Completion::TasksFetchFailed { ticket, cause } => {
            lemma_arrival_keeps_wf(state, ticket, Seq::empty(), Seq::empty(), cause@);
        },
        Completion::Mutated { kind, outcome } => {
            assert(state.completed(completion).state == state.mutation_ended(kind, outcome));
        },
        Completion::CalendarHandle { available } => {
            lemma_handle_keeps_wf(state, available);
        },
        Completion::TasksHandle { available } => {
            lemma_handle_keeps_wf(state, available);
        },
    }
}

/// A tick leaves the state one of which `wf` holds.
pub proof fn lemma_tick_keeps_wf(state: AppView)
    requires
        state.wf(),
    ensures
        state.ticked().state.wf(),
{
    if state.needs_refresh {
        let due = AppView { needs_refresh: false, ..state };
        assert(due.wf());
        lemma_fetch_start_keeps_wf(due);
    }
}

/// A refresh that finds no service starts no fetch and reports that the
/// service cannot be reached; the tickets and what is kept stay as they are.
pub proof fn lemma_refresh_without_service_is_reported(state: AppView)
    ensures
        !state.events_connected ==> state.events_fetch_started() == (Started {
            state: AppView { refreshing_status: not_connected_shown(), ..state },
            ticket: None,
        }),
        !state.tasks_connected ==> state.tasks_fetch_started() == (Started {
            state: AppView { refreshing_status: not_connected_shown(), ..state },
            ticket: None,
        }),
        !state.events_connected && !state.tasks_connected ==> state.refresh_started()
            == (Refreshed {
            state: AppView { refreshing_status: not_connected_shown(), ..state },
            fetches: no_fetches(),
        }),
        !state.tasks_connected && state.needs_refresh ==> state.ticked().state.refreshing_status
            == not_connected_shown() && state.ticked().fetches.tasks is None,
{
    if !state.events_connected && !state.tasks_connected {
        let after_events = state.events_fetch_started().state;
        assert(after_events == state.not_connected());
        assert(after_events.tasks_fetch_started().state == state.not_connected());
    }
    if !state.tasks_connected && state.needs_refresh {
        let due = AppView { needs_refresh: false, ..state };
        let after_events = due.events_fetch_started().state;
        assert(!after_events.tasks_connected);
    }
}

/// The outcome of an attempt to reach a service that cannot be reached
/// changes nothing but what is known of the connection.
pub proof fn lemma_absent_handle_reports_nothing(state: AppView)
    ensures
        state.calendar_handle_arrived(false) == (Refreshed {
            state: AppView {
                events_connected: false,
                auth_status: auth_status_of(false, state.tasks_connected),
                ..state
            },
            fetches: no_fetches(),
        }),
        state.tasks_handle_arrived(false) == (Refreshed {
            state: AppView {
                tasks_connected: false,
                auth_status: auth_status_of(state.events_connected, false),
                ..state
            },
            fetches: no_fetches(),
        }),
{
}

/// Whether two states keep the same events and tasks.
pub open spec fn same_cache(a: AppView, b: AppView) -> bool {
    a.events == b.events && a.tasks == b.tasks
}

/// The moves of the day in view and of the cursor leave what is kept.
pub proof fn lemma_moves_keep_cache(state: AppView)
    ensures
        same_cache(state.moved_left(), state),
        same_cache(state.moved_right(), state),
        same_cache(state.moved_up(), state),
        same_cache(state.moved_down(), state),
        same_cache(state.at_today(), state),
        forall|months: int| same_cache(#[trigger] state.moved_months(months), state),
{
    assert forall|date: CalendarDate| same_cache(#[trigger] state.with_date(date), state) by {}
}

/// The changes of the focus and the edits of the line leave what is kept.
pub proof fn lemma_focus_keeps_cache(state: AppView)
    ensures
        same_cache(state.backed(), state),
        same_cache(state.confirmed(), state),
        same_cache(state.events_toggled(), state),
        same_cache(state.tasks_toggled(), state),
        same_cache(state.refresh_asked(), state),
        same_cache(state.create_started(), state),
        same_cache(state.edit_started(), state),
        same_cache(state.edit_closed(), state),
        forall|op: EditOp| same_cache(#[trigger] state.line_edited(op), state),
{
    assert forall|layout: AppLayout| same_cache(#[trigger] state.with_layout(layout), state) by {}
    assert forall|text: Seq<char>| same_cache(#[trigger] state.update_started(text), state) by {}
}

/// A request for a change leaves what is kept, and asks nothing of a
/// service that cannot be reached.
pub proof fn lemma_request_keeps_cache(
    state: AppView,
    connected: bool,
    kind: MutationKind,
    action: ActionView,
)
    ensures
        same_cache(state.requested(connected, kind, action).state, state),
        !connected ==> state.requested(connected, kind, action).action == ActionView::Nothing,
{
}

/// Every request for a change leaves what is kept.
pub proof fn lemma_requests_keep_cache(state: AppView, line: Seq<char>)
    ensures
        same_cache(state.event_deleted().state, state),
        same_cache(state.task_deleted().state, state),
        same_cache(state.selected_deleted().state, state),
        same_cache(state.task_toggled().state, state),
        same_cache(state.completed_cleared().state, state),
        same_cache(state.event_created(line).state, state),
        same_cache(state.event_updated(line).state, state),
        same_cache(state.task_created(line).state, state),
        same_cache(state.task_updated(line).state, state),
{
    assert forall|connected: bool, kind: MutationKind, action: ActionView|
        same_cache((#[trigger] state.requested(connected, kind, action)).state, state) by {
        lemma_request_keeps_cache(state, connected, kind, action);
    }
    let first = AppView { cursor_line: 0, ..state };
    lemma_request_keeps_cache(
        first,
        true,
        MutationKind::CreateTask,
        ActionView::InsertTask(task_payload_of(line, state.current_date.year as int)),
    );
}

/// Taking the line leaves what is kept.
pub proof fn lemma_submit_keeps_cache(state: AppView)
    ensures
        same_cache(state.created().state, state),
        same_cache(state.submitted().state, state),
{
    let closed = state.edit_closed();
    assert(same_cache(closed, state));
    lemma_requests_keep_cache(closed, trimmed(state.line));
}

/// What the user asks for never changes what is kept of events and tasks:
/// only what was fetched does.
pub proof fn lemma_step_keeps_cache(state: AppView, intent: Intent)
    ensures
        state.step(intent).state.events == state.events,
        state.step(intent).state.tasks == state.tasks,
{
    lemma_moves_keep_cache(state);
    lemma_focus_keeps_cache(state);
    lemma_requests_keep_cache(state, Seq::empty());
    lemma_submit_keeps_cache(state);
    match intent {
        Intent::Back => assert(state.step(intent).state == state.backed()),
        Intent::MoveLeft => assert(state.step(intent).state == state.moved_left()),
        Intent::MoveRight => assert(state.step(intent).state == state.moved_right()),
        Intent::MoveUp => assert(state.step(intent).state == state.moved_up()),
        Intent::MoveDown => assert(state.step(intent).state == state.moved_down()),
        Intent::NextMonth => assert(state.step(intent).state == state.moved_months(1)),
        Intent::PreviousMonth => assert(state.step(intent).state == state.moved_months(-1)),
        Intent::NextYear => assert(state.step(intent).state == state.moved_months(12)),
        Intent::PreviousYear => assert(state.step(intent).state == state.moved_months(-12)),
        Intent::JumpToToday => assert(state.step(intent).state == state.at_today()),
        Intent::ToggleEvents => assert(state.step(intent).state == state.events_toggled()),
        Intent::ToggleTasks => assert(state.step(intent).state == state.tasks_toggled()),
        Intent::Confirm => assert(state.step(intent).state == state.confirmed()),
        Intent::StartEdit => assert(state.step(intent).state == state.edit_started()),
        Intent::StartCreate => assert(state.step(intent).state == state.create_started()),
        Intent::DeleteSelected => assert(state.step(intent) == state.selected_deleted()),
        Intent::ToggleCompleted => assert(state.step(intent) == state.task_toggled()),
        Intent::ClearCompleted => assert(state.step(intent) == state.completed_cleared()),
        Intent::Refresh => assert(state.step(intent).state == state.refresh_asked()),
        Intent::Edit(op) => assert(state.step(intent).state == state.line_edited(op)),
        Intent::CancelEdit => assert(state.step(intent).state == state.edit_closed()),
        Intent::SubmitEdit => assert(state.step(intent) == state.submitted()),
    }
}

/// A fetch that has failed leaves what is kept of events and tasks as it is.
pub proof fn lemma_failed_fetch_keeps_cache(state: AppView, ticket: u64, cause: Seq<char>)
    ensures
        same_cache(state.events_fetch_failed(ticket, cause), state),
        same_cache(state.tasks_fetch_failed(ticket, cause), state),
{
}

/// A fetch of which one listing has failed leaves what is kept of events and
/// tasks as it is, whatever the other listings hold.
pub proof fn lemma_failed_listing_keeps_cache(
    state: AppView,
    ticket: u64,
    events: Seq<Result<Vec<Event>, String>>,
    tasks: Seq<Result<Vec<Task>, String>>,
    events_out: Completion,
    tasks_out: Completion,
)
    requires
        is_events_outcome(ticket, events, events_out),
        is_tasks_outcome(ticket, tasks, tasks_out),
    ensures
        crate::cache::first_failure(events) is Some ==> same_cache(
            state.completed(events_out).state,
            state,
        ),
        crate::cache::first_failure(tasks) is Some ==> same_cache(
            state.completed(tasks_out).state,
            state,
        ),
{
    if crate::cache::first_failure(events) is Some {
        let cause = events[crate::cache::first_failure(events)->0]->Err_0;
        lemma_failed_fetch_keeps_cache(state, ticket, cause@);
        assert(state.completed(events_out).state == state.events_fetch_failed(ticket, cause@));
    }
    if crate::cache::first_failure(tasks) is Some {
        let cause = tasks[crate::cache::first_failure(tasks)->0]->Err_0;
        lemma_failed_fetch_keeps_cache(state, ticket, cause@);
        assert(state.completed(tasks_out).state == state.tasks_fetch_failed(ticket, cause@));
    }
}

/// Starting a fetch, whether the service can be reached or not, leaves what
/// is kept of events and tasks as it is.
pub proof fn lemma_fetch_start_keeps_cache(state: AppView)
    ensures
        same_cache(state.events_fetch_started().state, state),
        same_cache(state.tasks_fetch_started().state, state),
        same_cache(state.refresh_started().state, state),
        same_cache(state.ticked().state, state),
{
    let after_events = state.events_fetch_started().state;
    assert(same_cache(after_events.tasks_fetch_started().state, after_events));
    let due = AppView { needs_refresh: false, ..state };
    let due_after_events = due.events_fetch_started().state;
    assert(same_cache(due_after_events, state));
    assert(same_cache(due_after_events.tasks_fetch_started().state, due_after_events));
}

/// The outcome of a change at a service, whether it was made or not, leaves
/// what is kept of events and tasks as it is; a refresh is due afterwards
/// exactly if one was due before or the change was made.
pub proof fn lemma_mutation_keeps_cache(state: AppView, kind: MutationKind, outcome: Outcome)
    ensures
        same_cache(state.mutation_ended(kind, outcome), state),
        state.mutation_ended(kind, outcome).needs_refresh == (state.needs_refresh
            || outcome is Done),
{
}

/// No request for a change asks anything of services that cannot be
/// reached.
pub proof fn lemma_requests_ask_nothing_offline(state: AppView, line: Seq<char>)
    requires
        !state.events_connected,
        !state.tasks_connected,
    ensures
        state.event_deleted().action == ActionView::Nothing,
        state.task_deleted().action == ActionView::Nothing,
        state.selected_deleted().action == ActionView::Nothing,
        state.task_toggled().action == ActionView::Nothing,
        state.completed_cleared().action == ActionView::Nothing,
        state.event_created(line).action == ActionView::Nothing,
        state.event_updated(line).action == ActionView::Nothing,
        state.task_created(line).action == ActionView::Nothing,
        state.task_updated(line).action == ActionView::Nothing,
        state.created().action == ActionView::Nothing,
        state.submitted().action == ActionView::Nothing,
{
    assert forall|kind: MutationKind, action: ActionView|
        (#[trigger] state.requested(false, kind, action)).action == ActionView::Nothing by {
        lemma_request_keeps_cache(state, false, kind, action);
    }
    let closed = state.edit_closed();
    assert forall|kind: MutationKind, action: ActionView|
        (#[trigger] closed.requested(false, kind, action)).action == ActionView::Nothing by {
        lemma_request_keeps_cache(closed, false, kind, action);
    }
    let text = trimmed(state.line);
    assert(closed.event_created(text).action == ActionView::Nothing);
    assert(closed.event_updated(text).action == ActionView::Nothing);
    assert(closed.task_created(text).action == ActionView::Nothing);
    assert(closed.task_updated(text).action == ActionView::Nothing);
}

/// A change is asked of a service only if the service can be reached.
pub proof fn lemma_requests_need_service(state: AppView, intent: Intent)
    ensures
        !state.events_connected && !state.tasks_connected ==> state.step(intent).action
            == ActionView::Nothing,
{
    if !state.events_connected && !state.tasks_connected {
        lemma_requests_ask_nothing_offline(state, Seq::empty());
        match intent {
            Intent::DeleteSelected => assert(state.step(intent) == state.selected_deleted()),
            Intent::ToggleCompleted => assert(state.step(intent) == state.task_toggled()),
            Intent::ClearCompleted => assert(state.step(intent) == state.completed_cleared()),
            Intent::SubmitEdit => assert(state.step(intent) == state.submitted()),
            Intent::Back => assert(state.step(intent) == state.backed().idle()),
            Intent::MoveLeft => assert(state.step(intent) == state.moved_left().idle()),
            Intent::MoveRight => assert(state.step(intent) == state.moved_right().idle()),
            Intent::MoveUp => assert(state.step(intent) == state.moved_up().idle()),
            Intent::MoveDown => assert(state.step(intent) == state.moved_down().idle()),
            Intent::NextMonth => assert(state.step(intent) == state.moved_months(1).idle()),
            Intent::PreviousMonth => assert(state.step(intent) == state.moved_months(-1).idle()),
            Intent::NextYear => assert(state.step(intent) == state.moved_months(12).idle()),
            Intent::PreviousYear => assert(state.step(intent) == state.moved_months(-12).idle()),
            Intent::JumpToToday => assert(state.step(intent) == state.at_today().idle()),
            Intent::ToggleEvents => assert(state.step(intent) == state.events_toggled().idle()),
            Intent::ToggleTasks => assert(state.step(intent) == state.tasks_toggled().idle()),
            Intent::Confirm => assert(state.step(intent) == state.confirmed().idle()),
            Intent::StartEdit => assert(state.step(intent) == state.edit_started().idle()),
            Intent::StartCreate => assert(state.step(intent) == state.create_started().idle()),
            Intent::Refresh => assert(state.step(intent) == state.refresh_asked().idle()),
            Intent::Edit(op) => assert(state.step(intent) == state.line_edited(op).idle()),
            Intent::CancelEdit => assert(state.step(intent) == state.edit_closed().idle()),
        }
    }
}

/// Of two fetches of the events started one after the other, the result of
/// the first is dropped and leaves the state as it is, and the result of the
/// second is what is kept afterwards, whichever of the two arrives first.
pub proof fn lemma_last_events_fetch_wins(state: AppView, first: Seq<Event>, second: Seq<Event>)
    requires
        state.wf(),
        state.events_fetch_started().ticket is Some,
        state.events_fetch_started().state.events_fetch_started().ticket is Some,
    ensures
        ({
            let one = state.events_fetch_started();
            let two = one.state.events_fetch_started();
            let late = two.state.events_arrived(two.ticket->0, second).events_arrived(
                one.ticket->0,
                first,
            );
            let early = two.state.events_arrived(one.ticket->0, first).events_arrived(
                two.ticket->0,
                second,
            );
            &&& two.state.events_arrived(one.ticket->0, first) == two.state
            &&& late == early
            &&& late.events == grouped_events(second, state.utc_offset as int)
        }),
{
}

/// Of two fetches of the tasks started one after the other, the result of
/// the first is dropped and leaves the state as it is, and the result of the
/// second is what is kept afterwards, whichever of the two arrives first.
pub proof fn lemma_last_tasks_fetch_wins(state: AppView, first: Seq<Task>, second: Seq<Task>)
    requires
        state.wf(),
        state.tasks_fetch_started().ticket is Some,
        state.tasks_fetch_started().state.tasks_fetch_started().ticket is Some,
    ensures
        ({
            let one = state.tasks_fetch_started();
            let two = one.state.tasks_fetch_started();
            let late = two.state.tasks_arrived(two.ticket->0, second).tasks_arrived(
                one.ticket->0,
                first,
            );
            let early = two.state.tasks_arrived(one.ticket->0, first).tasks_arrived(
                two.ticket->0,
                second,
            );
            &&& two.state.tasks_arrived(one.ticket->0, first) == two.state
            &&& late == early
            &&& late.tasks == second
        }),
{
}

/// When the only task is gone from what was fetched, the cursor is on the
/// first place of an empty list and nothing is selected; the tasks keep the
/// focus.
pub proof fn lemma_only_task_gone(state: AppView, ticket: u64)
    requires
        state.wf(),
        state.layout is Tasks,
        state.tasks.len() == 1,
        state.tasks_refresh.accepts(ticket),
    ensures
        state.cursor_line == 0,
        ({
            let after = state.tasks_arrived(ticket, Seq::empty());
            &&& after.wf()
            &&& after.layout == state.layout
            &&& after.tasks.len() == 0
            &&& after.cursor_line == 0
            &&& after.selected_task() is None
        }),
{
}

/// When the only event of the day in view is gone from what was fetched,
/// the cursor is on the first place of an empty list and nothing is
/// selected; the events keep the focus.
pub proof fn lemma_only_event_gone(state: AppView, ticket: u64, fetched: Seq<Event>)
    requires
        state.wf(),
        state.layout == AppLayout::Events,
        state.day_events().len() == 1,
        state.events_refresh.accepts(ticket),
        crate::cache::events_on_day(
            fetched,
            state.current_date.day_number(),
            state.utc_offset as int,
        ).len() == 0,
    ensures
        state.cursor_line == 0,
        ({
            let after = state.events_arrived(ticket, fetched);
            &&& after.wf()
            &&& after.layout == state.layout
            &&& after.day_events().len() == 0
            &&& after.cursor_line == 0
            &&& after.selected_event() is None
        }),
{
    lemma_grouped_kept_by_start(fetched, state.utc_offset as int);
    crate::date::lemma_day_number_in_range(state.current_date);
    crate::date::lemma_range_of_day_numbers();
}

/// In a list, the cursor never leaves the list, whatever the user asks for
/// and whatever is fetched: it selects an entry whenever there is one.
pub proof fn lemma_cursor_selects(state: AppView)
    requires
        state.wf(),
    ensures
        state.layout is Tasks ==> (state.selected_task() is Some <==> state.tasks.len() > 0),
        state.layout is Tasks && state.tasks.len() > 0 ==> state.selected_task() == Some(
            state.tasks[state.cursor_line as int],
        ),
        state.layout == AppLayout::Events ==> (state.selected_event() is Some
            <==> state.day_events().len() > 0),
        state.layout == AppLayout::Events && state.day_events().len() > 0
            ==> state.selected_event() == Some(state.day_events()[state.cursor_line as int]),
{
}

} // verus!

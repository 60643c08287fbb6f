//! What the calendar reports: whether the services can be reached, and a
//! short text with a colour for work that is under way or has ended.

use vstd::prelude::*;
use vstd::string::*;

verus! {

/// The colour of a status.
#[derive(Clone, Copy, Debug, PartialEq, Eq, Structural)]
pub enum StatusColor {
    Green,
    Yellow,
    Red,
    White,
}

/// A short text and the colour it is shown in.
#[derive(Clone, Debug, PartialEq, Eq)]
pub struct Status {
    pub text: String,
    pub color: StatusColor,
}

/// Whether the services can be reached.
#[derive(Clone, Copy, Debug, PartialEq, Eq, Structural)]
pub enum AuthStatus {
    /// Neither service has answered yet.
    Authenticating,
    /// At least one service can be reached.
    Online,
    /// Both services have answered, and neither can be reached.
    Offline,
}

/// A change that is made at a service.
#[derive(Clone, Copy, Debug, PartialEq, Eq, Structural)]
pub enum MutationKind {
    CreateEvent,
    UpdateEvent,
    DeleteEvent,
    CreateTask,
    UpdateTask,
    DeleteTask,
    ToggleTask,
    ClearCompleted,
}

/// How a change at a service ended.
#[derive(Clone, Debug, PartialEq, Eq)]
pub enum Outcome {
    Done,
    /// There is no task list to put a task in.
    NoTaskList,
    /// The service refused or could not be reached; with the cause.
    Failed(String),
}

/// A status as what it shows.
pub struct Shown {
    pub text: Seq<char>,
    pub color: StatusColor,
}

impl View for Status {
    type V = Shown;

    open spec fn view(&self) -> Shown {
        Shown { text: self.text@, color: self.color }
    }
}

impl Status {
    /// Whether the status has the given text and colour.
    pub open spec fn shows(&self, text: Seq<char>, color: StatusColor) -> bool {
        self@ == (Shown { text, color })
    }

    /// A status with the given text and colour.
    pub fn new(text: &str, color: StatusColor) -> (status: Status)
        ensures
            status.shows(text@, color),
    {
        Status { text: String::from_str(text), color }
    }

    /// The status that shows nothing.
    pub fn blank() -> (status: Status)
        ensures
            status@ == blank_shown(),
    {
        Status { text: String::new(), color: StatusColor::White }
    }

    /// The status that reports a failure with its cause.
    pub fn failure(cause: &str) -> (status: Status)
        ensures
            status@ == failure_shown(cause@),
    {
        let mut text = String::from_str("Failed: ");
        text.append(cause);
        Status { text, color: StatusColor::Red }
    }

    /// A copy of the status.
    pub fn duplicate(&self) -> (status: Status)
        ensures
            status@ == self@,
    {
        Status { text: self.text.clone(), color: self.color }
    }
}

/// The text shown while a change is under way.
pub open spec fn pending_text(kind: MutationKind) -> Seq<char> {
    match kind {
        MutationKind::CreateEvent => "Creating event"@,
        MutationKind::UpdateEvent => "Creating event"@,
        MutationKind::DeleteEvent => "Deleting"@,
        MutationKind::CreateTask => "Creating task"@,
        MutationKind::UpdateTask => "Updating task"@,
        MutationKind::DeleteTask => "Deleting task..."@,
        MutationKind::ToggleTask => "Toggling..."@,
        MutationKind::ClearCompleted => "Clearing..."@,
    }
}

/// The text shown when a change has been made.
pub open spec fn done_text(kind: MutationKind) -> Seq<char> {
    match kind {
        MutationKind::CreateEvent => "Event created!"@,
        MutationKind::UpdateEvent => "Event created!"@,
        MutationKind::DeleteEvent => "Event Deleted!"@,
        MutationKind::CreateTask => "Task created!"@,
        MutationKind::UpdateTask => "Task updated!"@,
        MutationKind::DeleteTask => "Task deleted!"@,
        MutationKind::ToggleTask => "Completed"@,
        MutationKind::ClearCompleted => "Cleared"@,
    }
}

/// The colour in which a change that cannot be made for want of a service
/// is reported: red where something was to be created or updated, white
/// else.
pub open spec fn offline_color(kind: MutationKind) -> StatusColor {
    match kind {
        MutationKind::CreateEvent => StatusColor::Red,
        MutationKind::UpdateEvent => StatusColor::Red,
        MutationKind::CreateTask => StatusColor::Red,
        MutationKind::UpdateTask => StatusColor::Red,
        _ => StatusColor::White,
    }
}

/// The text that reports a failure with its cause.
pub open spec fn failure_text(cause: Seq<char>) -> Seq<char> {
    "Failed: "@ + cause
}

/// What is shown while a change is under way.
pub open spec fn pending_shown(kind: MutationKind) -> Shown {
    Shown { text: pending_text(kind), color: StatusColor::Yellow }
}

/// What is shown when a change cannot be made because its service cannot be
/// reached.
pub open spec fn offline_shown(kind: MutationKind) -> Shown {
    Shown { text: "Offline"@, color: offline_color(kind) }
}

/// What is shown when a change has ended.
pub open spec fn outcome_shown(kind: MutationKind, outcome: Outcome) -> Shown {
    match outcome {
        Outcome::Done => Shown { text: done_text(kind), color: StatusColor::Green },
        Outcome::NoTaskList => Shown { text: "No Tasklist!"@, color: StatusColor::Red },
        Outcome::Failed(cause) => failure_shown(cause@),
    }
}

/// What is shown when something has failed, with the cause.
pub open spec fn failure_shown(cause: Seq<char>) -> Shown {
    Shown { text: failure_text(cause), color: StatusColor::Red }
}

/// What is shown when entries cannot be fetched because their service
/// cannot be reached.
pub open spec fn not_connected_shown() -> Shown {
    Shown { text: "Offline"@, color: StatusColor::White }
}

/// What is shown while entries are fetched.
pub open spec fn refreshing_shown() -> Shown {
    Shown { text: "Refreshing"@, color: StatusColor::Green }
}

/// What is shown when there is nothing to report.
pub open spec fn blank_shown() -> Shown {
    Shown { text: Seq::empty(), color: StatusColor::White }
}

/// The status shown while a change is under way.
pub fn pending_status(kind: MutationKind) -> (status: Status)
    ensures
        status@ == pending_shown(kind),
{
    let text = match kind {
        MutationKind::CreateEvent => "Creating event",
        MutationKind::UpdateEvent => "Creating event",
        MutationKind::DeleteEvent => "Deleting",
        MutationKind::CreateTask => "Creating task",
        MutationKind::UpdateTask => "Updating task",
        MutationKind::DeleteTask => "Deleting task...",
        MutationKind::ToggleTask => "Toggling...",
        MutationKind::ClearCompleted => "Clearing...",
    };
    Status::new(text, StatusColor::Yellow)
}

/// The status shown when a change cannot be made because its service cannot
/// be reached.
pub fn offline_status(kind: MutationKind) -> (status: Status)
    ensures
        status@ == offline_shown(kind),
{
    let color = match kind {
        MutationKind::CreateEvent => StatusColor::Red,
        MutationKind::UpdateEvent => StatusColor::Red,
        MutationKind::CreateTask => StatusColor::Red,
        MutationKind::UpdateTask => StatusColor::Red,
        _ => StatusColor::White,
    };
    Status::new("Offline", color)
}

/// The status shown when a change has ended.
pub fn outcome_status(kind: MutationKind, outcome: &Outcome) -> (status: Status)
    ensures
        status@ == outcome_shown(kind, *outcome),
{
    match outcome {
        Outcome::Done => {
            let text = match kind {
                MutationKind::CreateEvent => "Event created!",
                MutationKind::UpdateEvent => "Event created!",
                MutationKind::DeleteEvent => "Event Deleted!",
                MutationKind::CreateTask => "Task created!",
                MutationKind::UpdateTask => "Task updated!",
                MutationKind::DeleteTask => "Task deleted!",
                MutationKind::ToggleTask => "Completed",
                MutationKind::ClearCompleted => "Cleared",
            };
            Status::new(text, StatusColor::Green)
        },
        Outcome::NoTaskList => Status::new("No Tasklist!", StatusColor::Red),
        Outcome::Failed(cause) => Status::failure(cause.as_str()),
    }
}

/// The status shown when entries cannot be fetched because their service
/// cannot be reached.
pub fn not_connected_status() -> (status: Status)
    ensures
        status@ == not_connected_shown(),
{
    Status::new("Offline", StatusColor::White)
}

/// The status shown while entries are fetched.
pub fn refreshing_status() -> (status: Status)
    ensures
        status@ == refreshing_shown(),
{
    Status::new("Refreshing", StatusColor::Green)
}

/// Whether the services can be reached, once one of them has answered:
/// online if at least one can, offline if neither can.
pub open spec fn auth_status_of(events_connected: bool, tasks_connected: bool) -> AuthStatus {
    if events_connected || tasks_connected {
        AuthStatus::Online
    } else {
        AuthStatus::Offline
    }
}

/// Whether the services can be reached, once one of them has answered.
pub fn resolve_auth_status(events_connected: bool, tasks_connected: bool) -> (status: AuthStatus)
    ensures
        status == auth_status_of(events_connected, tasks_connected),
{
    if events_connected || tasks_connected {
        AuthStatus::Online
    } else {
        AuthStatus::Offline
    }
}

/// The word for a state of the connection, and its colour: yellow while
/// waiting, green when online, white when offline.
pub fn auth_label(status: AuthStatus) -> (label: Status)
    ensures
        match status {
            AuthStatus::Authenticating => label.shows("Authenticating"@, StatusColor::Yellow),
            AuthStatus::Online => label.shows("Online"@, StatusColor::Green),
            AuthStatus::Offline => label.shows("Offline"@, StatusColor::White),
        },
{
    match status {
        AuthStatus::Authenticating => Status::new("Authenticating", StatusColor::Yellow),
        AuthStatus::Online => Status::new("Online", StatusColor::Green),
        AuthStatus::Offline => Status::new("Offline", StatusColor::White),
    }
}

} // verus!

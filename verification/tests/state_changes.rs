use calpersonal::state::{AppLayout, AppState};
use calpersonal::date::CalendarDate;
use calpersonal::keys::{Intent, KeyCode, KeyModifiers, KeyPress};
use calpersonal::model::{Event, EventTime, Task};
use calpersonal::refresh::RefreshSlot;
use calpersonal::request::{events_outcome, tasks_outcome, Action, Completion, Fetches};
use calpersonal::status::{AuthStatus, MutationKind, Outcome, Status, StatusColor};

fn day(year: i32, month: u32, day: u32) -> CalendarDate {
    CalendarDate::from_ymd(year, month, day).unwrap()
}

fn event(id: Option<&str>, date: CalendarDate) -> Event {
    Event {
        id: id.map(str::to_string),
        summary: Some("Standup".to_string()),
        start: EventTime::AllDay(date),
        end: EventTime::AllDay(date.next_day().unwrap()),
        calendar_id: "work".to_string(),
    }
}

fn task(id: Option<&str>, status: Option<&str>) -> Task {
    Task {
        id: id.map(str::to_string),
        title: Some("Pay rent".to_string()),
        due: None,
        notes: None,
        completed: None,
        status: status.map(str::to_string),
        list_id: "list-7".to_string(),
    }
}

fn start(events: Vec<Event>, tasks: Vec<Task>) -> AppState {
    let mut state = AppState::new(day(2026, 10, 28), 0, &events, tasks).unwrap();
    state.events_connected = true;
    state.tasks_connected = true;
    state
}

fn usual() -> AppState {
    let today = day(2026, 10, 28);
    start(
        vec![event(Some("e1"), today), event(Some("e2"), today)],
        vec![
            task(Some("t1"), Some("needsAction")),
            task(Some("t2"), Some("completed")),
            task(Some("t3"), Some("deferred")),
            task(Some("t4"), None),
        ],
    )
}

fn status(text: &str, color: StatusColor) -> Status {
    Status { text: text.to_string(), color }
}

fn press(state: &mut AppState, c: char) -> Action {
    state.key_pressed(KeyPress { code: KeyCode::Char(c), modifiers: KeyModifiers::Plain })
}

const NONE: Fetches = Fetches { events: None, tasks: None };

#[test]
fn deleting_the_selected_event() {
    let mut state = usual();
    state.toggle_event_visibility();
    state.move_down();
    assert_eq!(
        press(&mut state, 'D'),
        Action::DeleteEvent { calendar_id: "work".to_string(), event_id: "e2".to_string() }
    );
    assert_eq!(state.changing_status, status("Deleting", StatusColor::Yellow));
    assert_eq!(state.events.len(), 1);
    assert_eq!(state.cursor_line, 1);
}

#[test]
fn deleting_the_selected_task() {
    let mut state = usual();
    state.toggle_tasks_visibility();
    assert_eq!(
        press(&mut state, 'D'),
        Action::DeleteTask { list_id: "list-7".to_string(), task_id: "t1".to_string() }
    );
    assert_eq!(state.changing_status, status("Deleting task...", StatusColor::Yellow));
    assert_eq!(state.tasks.len(), 4);
}

#[test]
fn deleting_needs_a_list_a_selection_and_a_service() {
    let mut state = usual();
    assert_eq!(press(&mut state, 'D'), Action::Nothing);
    assert_eq!(state.changing_status, Status::blank());
    state.events_connected = false;
    state.tasks_connected = false;
    state.toggle_event_visibility();
    assert_eq!(press(&mut state, 'D'), Action::Nothing);
    assert_eq!(state.changing_status, status("Offline", StatusColor::White));
    state.changing_status = Status::blank();
    state.toggle_tasks_visibility();
    assert_eq!(state.delete_selected(), Action::Nothing);
    assert_eq!(state.changing_status, status("Offline", StatusColor::White));
    let mut empty = start(Vec::new(), Vec::new());
    empty.toggle_event_visibility();
    assert_eq!(empty.delete_selected_event(), Action::Nothing);
    empty.toggle_tasks_visibility();
    assert_eq!(empty.delete_selected_task(), Action::Nothing);
    assert_eq!(empty.changing_status, Status::blank());
}

#[test]
fn toggling_the_completion_of_the_selected_task() {
    let mut state = usual();
    state.toggle_tasks_visibility();
    assert_eq!(
        press(&mut state, ' '),
        Action::ToggleTask {
            list_id: "list-7".to_string(),
            task_id: "t1".to_string(),
            status: Some("completed".to_string()),
        }
    );
    assert_eq!(state.changing_status, status("Toggling...", StatusColor::Yellow));
    state.move_down();
    assert_eq!(
        state.toggle_task_completed(),
        Action::ToggleTask {
            list_id: "list-7".to_string(),
            task_id: "t2".to_string(),
            status: Some("needsAction".to_string()),
        }
    );
    state.move_down();
    assert_eq!(
        state.toggle_task_completed(),
        Action::ToggleTask { list_id: "list-7".to_string(), task_id: "t3".to_string(), status: None }
    );
}

#[test]
fn toggling_needs_the_tasks_a_status_and_a_service() {
    let mut state = usual();
    assert_eq!(press(&mut state, ' '), Action::Nothing);
    state.toggle_event_visibility();
    assert_eq!(press(&mut state, ' '), Action::Nothing);
    assert_eq!(state.changing_status, Status::blank());
    state.toggle_tasks_visibility();
    state.cursor_line = 3;
    assert_eq!(press(&mut state, ' '), Action::Nothing);
    assert_eq!(state.changing_status, Status::blank());
    state.tasks_connected = false;
    assert_eq!(press(&mut state, ' '), Action::Nothing);
    assert_eq!(state.changing_status, status("Offline", StatusColor::White));
}

#[test]
fn clearing_the_completed_tasks() {
    let mut state = usual();
    assert_eq!(press(&mut state, 'L'), Action::Nothing);
    state.toggle_tasks_visibility();
    assert_eq!(press(&mut state, 'L'), Action::ClearCompleted { list_id: "list-7".to_string() });
    assert_eq!(state.changing_status, status("Clearing...", StatusColor::Yellow));
    state.tasks_connected = false;
    assert_eq!(state.clear_completed_tasks(), Action::Nothing);
    assert_eq!(state.changing_status, status("Offline", StatusColor::White));
    let mut empty = start(Vec::new(), Vec::new());
    empty.toggle_tasks_visibility();
    assert_eq!(empty.clear_completed_tasks(), Action::Nothing);
    assert_eq!(empty.changing_status, Status::blank());
}

#[test]
fn a_service_that_is_reached_is_asked_for_its_entries() {
    let mut state = AppState::new(day(2026, 10, 28), 0, &Vec::new(), Vec::new()).unwrap();
    assert_eq!(state.auth_status, AuthStatus::Authenticating);
    assert_eq!(
        state.check_updates(Completion::CalendarHandle { available: true }),
        Fetches { events: Some(1), tasks: None }
    );
    assert!(state.events_connected);
    assert_eq!(state.auth_status, AuthStatus::Online);
    assert_eq!(state.refreshing_status, status("Refreshing", StatusColor::Green));
    assert_eq!(
        state.check_updates(Completion::TasksHandle { available: true }),
        Fetches { events: None, tasks: Some(1) }
    );
    assert!(state.tasks_connected);
    assert_eq!(state.auth_status, AuthStatus::Online);
}

#[test]
fn a_service_that_is_not_reached_is_not_asked() {
    let mut state = AppState::new(day(2026, 10, 28), 0, &Vec::new(), Vec::new()).unwrap();
    assert_eq!(state.check_updates(Completion::CalendarHandle { available: false }), NONE);
    assert_eq!(state.auth_status, AuthStatus::Offline);
    assert_eq!(state.refreshing_status, Status::blank());
    assert_eq!(
        state.check_updates(Completion::TasksHandle { available: true }),
        Fetches { events: None, tasks: Some(1) }
    );
    assert_eq!(state.auth_status, AuthStatus::Online);
    let mut state = AppState::new(day(2026, 10, 28), 0, &Vec::new(), Vec::new()).unwrap();
    assert_eq!(state.tasks_handle_resolved(false), NONE);
    assert_eq!(state.calendar_handle_resolved(false), NONE);
    assert_eq!(state.auth_status, AuthStatus::Offline);
    assert_eq!(state.refreshing_status, Status::blank());
    assert_eq!(state.changing_status, Status::blank());
}

#[test]
fn a_refresh_that_finds_no_service_says_so() {
    let mut state = usual();
    state.events_connected = false;
    state.tasks_connected = false;
    assert_eq!(state.start_background_refresh(), NONE);
    assert_eq!(state.refreshing_status, status("Offline", StatusColor::White));
    assert_eq!(state.changing_status, Status::blank());
    assert_eq!(state.events.len(), 1);
    assert_eq!(state.tasks.len(), 4);
    assert_eq!(state.events_refresh, RefreshSlot { awaited: None, issued: 0 });
    assert_eq!(state.tasks_refresh, RefreshSlot { awaited: None, issued: 0 });
    assert!(state.check_wf());
}

#[test]
fn a_fetch_of_one_kind_that_finds_no_service_says_so() {
    let mut state = usual();
    state.events_connected = false;
    assert_eq!(state.start_background_event_fetch(), None);
    assert_eq!(state.refreshing_status, status("Offline", StatusColor::White));
    assert_eq!(state.auth_status, AuthStatus::Authenticating);
    assert_eq!(state.start_background_task_fetch(), Some(1));
    assert_eq!(state.refreshing_status, status("Refreshing", StatusColor::Green));
    state.tasks_connected = false;
    assert_eq!(state.start_background_task_fetch(), None);
    assert_eq!(state.refreshing_status, status("Offline", StatusColor::White));
    assert_eq!(state.tasks_refresh, RefreshSlot { awaited: Some(1), issued: 1 });
}

#[test]
fn the_refresh_key_without_a_service_says_so_at_the_tick() {
    let mut state = AppState::new(day(2026, 10, 28), 0, &Vec::new(), Vec::new()).unwrap();
    press(&mut state, 'R');
    assert_eq!(state.refreshing_status, Status::blank());
    assert_eq!(state.tick(), NONE);
    assert_eq!(state.refreshing_status, status("Offline", StatusColor::White));
    assert!(!state.needs_refresh);
    state.calendar_handle_resolved(true);
    assert_eq!(state.refreshing_status, status("Refreshing", StatusColor::Green));
    state.finish_mutation(MutationKind::CreateEvent, &Outcome::Done);
    assert_eq!(state.tick(), Fetches { events: Some(2), tasks: None });
    assert_eq!(state.refreshing_status, status("Offline", StatusColor::White));
    state.install_events(2, &Vec::new());
    assert_eq!(state.refreshing_status, Status::blank());
}

#[test]
fn a_refresh_that_is_due_starts_at_the_tick() {
    let mut state = usual();
    assert_eq!(state.tick(), NONE);
    press(&mut state, 'R');
    assert_eq!(state.tick(), Fetches { events: Some(1), tasks: Some(1) });
    assert!(!state.needs_refresh);
    assert_eq!(state.refreshing_status, status("Refreshing", StatusColor::Green));
    assert_eq!(state.tick(), NONE);
    state.tasks_connected = false;
    state.request_refresh();
    assert_eq!(state.tick(), Fetches { events: Some(2), tasks: None });
    assert_eq!(state.refreshing_status, status("Offline", StatusColor::White));
    state.events_connected = false;
    state.request_refresh();
    assert_eq!(state.tick(), NONE);
    assert_eq!(state.refreshing_status, status("Offline", StatusColor::White));
    assert!(!state.needs_refresh);
}

#[test]
fn fetched_entries_replace_what_was_kept() {
    let mut state = usual();
    let fetches = state.start_background_refresh();
    assert_eq!(fetches, Fetches { events: Some(1), tasks: Some(1) });
    let events = vec![event(Some("n1"), day(2026, 11, 1))];
    assert_eq!(state.check_updates(Completion::EventsFetched { ticket: 1, events }), NONE);
    assert_eq!(state.events.len(), 1);
    assert!(state.current_day_events().is_none());
    assert_eq!(state.refreshing_status, Status::blank());
    state.refreshing_status = status("Refreshing", StatusColor::Green);
    let tasks = vec![task(Some("n2"), None)];
    assert_eq!(state.check_updates(Completion::TasksFetched { ticket: 1, tasks: tasks.clone() }), NONE);
    assert_eq!(state.tasks, tasks);
    assert_eq!(state.refreshing_status, Status::blank());
}

#[test]
fn only_the_last_refresh_is_taken() {
    let mut state = usual();
    let first = state.start_background_event_fetch().unwrap();
    let second = state.start_background_event_fetch().unwrap();
    assert_ne!(first, second);
    state.install_events(first, &vec![event(Some("old"), day(2026, 10, 28))]);
    assert_eq!(state.current_day_events().unwrap().len(), 2);
    assert_eq!(state.refreshing_status, status("Refreshing", StatusColor::Green));
    state.install_events(second, &vec![event(Some("new"), day(2026, 10, 28))]);
    assert_eq!(state.current_day_events().unwrap().len(), 1);
    assert_eq!(state.current_day_events().unwrap()[0].id.as_deref(), Some("new"));
    state.install_events(first, &vec![event(Some("old"), day(2026, 10, 28))]);
    state.install_events(second, &Vec::new());
    assert_eq!(state.current_day_events().unwrap()[0].id.as_deref(), Some("new"));
}

#[test]
fn a_late_first_refresh_is_dropped_for_tasks_too() {
    let mut state = usual();
    let first = state.start_background_task_fetch().unwrap();
    let second = state.start_background_task_fetch().unwrap();
    state.install_tasks(second, vec![task(Some("new"), None)]);
    state.install_tasks(first, vec![task(Some("old"), None), task(Some("older"), None)]);
    assert_eq!(state.tasks, vec![task(Some("new"), None)]);
    state.install_tasks(0, Vec::new());
    state.install_tasks(7, Vec::new());
    assert_eq!(state.tasks.len(), 1);
}

#[test]
fn events_and_tasks_are_refreshed_apart() {
    let mut state = usual();
    let events_ticket = state.start_background_event_fetch().unwrap();
    let tasks_ticket = state.start_background_task_fetch().unwrap();
    let again = state.start_background_task_fetch().unwrap();
    assert_eq!((events_ticket, tasks_ticket, again), (1, 1, 2));
    state.install_events(events_ticket, &Vec::new());
    assert!(state.events.is_empty());
    state.install_tasks(tasks_ticket, Vec::new());
    assert_eq!(state.tasks.len(), 4);
    state.install_tasks(again, Vec::new());
    assert!(state.tasks.is_empty());
}

#[test]
fn deleting_the_only_task_leaves_an_empty_list() {
    let mut state = start(Vec::new(), vec![task(Some("t1"), None)]);
    state.toggle_tasks_visibility();
    state.move_down();
    assert_eq!(state.cursor_line, 0);
    assert_eq!(
        press(&mut state, 'D'),
        Action::DeleteTask { list_id: "list-7".to_string(), task_id: "t1".to_string() }
    );
    let done = Completion::Mutated { kind: MutationKind::DeleteTask, outcome: Outcome::Done };
    assert_eq!(state.check_updates(done), NONE);
    assert_eq!(state.changing_status, status("Task deleted!", StatusColor::Green));
    let fetches = state.tick();
    assert_eq!(fetches.tasks, Some(1));
    state.check_updates(Completion::TasksFetched { ticket: 1, tasks: Vec::new() });
    assert_eq!(state.layout, AppLayout::Tasks(false));
    assert_eq!(state.cursor_line, 0);
    assert!(state.tasks.is_empty());
    assert_eq!(state.selected_task_index(), None);
    assert!(state.selected_task().is_none());
    state.move_down();
    state.move_up();
    assert_eq!(state.cursor_line, 0);
    assert_eq!(press(&mut state, 'D'), Action::Nothing);
    assert_eq!(press(&mut state, ' '), Action::Nothing);
    assert_eq!(press(&mut state, 'L'), Action::Nothing);
    press(&mut state, 'a');
    assert!(state.inputting);
    assert!(!state.updating);
}

#[test]
fn deleting_the_only_event_leaves_an_empty_list() {
    let today = day(2026, 10, 28);
    let mut state = start(vec![event(Some("e1"), today), event(Some("e2"), day(2026, 10, 29))], Vec::new());
    state.toggle_event_visibility();
    assert_eq!(
        state.apply(Intent::DeleteSelected),
        Action::DeleteEvent { calendar_id: "work".to_string(), event_id: "e1".to_string() }
    );
    state.finish_mutation(MutationKind::DeleteEvent, &Outcome::Done);
    assert_eq!(state.changing_status, status("Event Deleted!", StatusColor::Green));
    let fetches = state.tick();
    state.install_events(fetches.events.unwrap(), &vec![event(Some("e2"), day(2026, 10, 29))]);
    assert_eq!(state.layout, AppLayout::Events);
    assert_eq!(state.cursor_line, 0);
    assert!(state.current_day_events().is_none());
    assert_eq!(state.selected_event_index(), None);
    assert!(state.selected_event().is_none());
    assert_eq!(press(&mut state, 'D'), Action::Nothing);
}

#[test]
fn a_list_that_shrinks_brings_the_cursor_back() {
    let mut state = usual();
    state.toggle_tasks_visibility();
    state.move_down();
    state.move_down();
    state.move_down();
    assert_eq!(state.cursor_line, 3);
    let ticket = state.start_background_task_fetch().unwrap();
    state.install_tasks(ticket, vec![task(Some("a"), None), task(Some("b"), None)]);
    assert_eq!(state.cursor_line, 1);
    assert_eq!(state.selected_task().unwrap().id.as_deref(), Some("b"));
    let ticket = state.start_background_task_fetch().unwrap();
    state.install_tasks(ticket, vec![task(Some("a"), None), task(Some("b"), None), task(Some("c"), None)]);
    assert_eq!(state.cursor_line, 1);
    state.cursor_line = 9;
    state.reclamp_cursor();
    assert_eq!(state.cursor_line, 2);
}

#[test]
fn a_change_that_was_made_makes_a_refresh_due() {
    let mut state = usual();
    state.finish_mutation(MutationKind::CreateEvent, &Outcome::Done);
    assert!(state.needs_refresh);
    assert_eq!(state.changing_status, status("Event created!", StatusColor::Green));
    assert_eq!(state.tick(), Fetches { events: Some(1), tasks: Some(1) });
}

#[test]
fn a_change_that_failed_leaves_everything_but_the_status() {
    let mut state = usual();
    let failed = Outcome::Failed("connection reset".to_string());
    assert_eq!(
        state.check_updates(Completion::Mutated { kind: MutationKind::UpdateTask, outcome: failed }),
        NONE
    );
    assert_eq!(state.changing_status, status("Failed: connection reset", StatusColor::Red));
    assert!(!state.needs_refresh);
    assert_eq!(state.events.len(), 1);
    assert_eq!(state.tasks.len(), 4);
    assert_eq!(state.tick(), NONE);
    state.finish_mutation(MutationKind::CreateTask, &Outcome::NoTaskList);
    assert_eq!(state.changing_status, status("No Tasklist!", StatusColor::Red));
    assert!(!state.needs_refresh);
    state.request_refresh();
    state.finish_mutation(MutationKind::CreateTask, &Outcome::NoTaskList);
    assert!(state.needs_refresh);
}

#[test]
fn the_connection_is_judged_by_both_services() {
    let mut state = usual();
    state.update_auth_status();
    assert_eq!(state.auth_status, AuthStatus::Online);
    state.events_connected = false;
    state.update_auth_status();
    assert_eq!(state.auth_status, AuthStatus::Online);
    state.tasks_connected = false;
    state.update_auth_status();
    assert_eq!(state.auth_status, AuthStatus::Offline);
}

#[test]
fn a_fetch_that_failed_is_reported_and_leaves_what_is_kept() {
    let mut state = usual();
    let fetches = state.start_background_refresh();
    let failed = Completion::EventsFetchFailed {
        ticket: fetches.events.unwrap(),
        cause: "no route to host".to_string(),
    };
    assert_eq!(state.check_updates(failed), NONE);
    assert_eq!(state.refreshing_status, status("Failed: no route to host", StatusColor::Red));
    assert_eq!(state.events.len(), 1);
    assert_eq!(state.tasks.len(), 4);
    state.install_events(fetches.events.unwrap(), &Vec::new());
    assert_eq!(state.events.len(), 1);
    state.fail_tasks_fetch(fetches.tasks.unwrap(), "timed out");
    assert_eq!(state.refreshing_status, status("Failed: timed out", StatusColor::Red));
    assert_eq!(state.tasks.len(), 4);
}

#[test]
fn a_late_failure_of_an_earlier_fetch_is_dropped() {
    let mut state = usual();
    let first = state.start_background_task_fetch().unwrap();
    let second = state.start_background_task_fetch().unwrap();
    let failed = Completion::TasksFetchFailed { ticket: first, cause: "gone".to_string() };
    assert_eq!(state.check_updates(failed), NONE);
    assert_eq!(state.refreshing_status, status("Refreshing", StatusColor::Green));
    state.fail_events_fetch(1, "never started");
    assert_eq!(state.refreshing_status, status("Refreshing", StatusColor::Green));
    state.install_tasks(second, Vec::new());
    assert!(state.tasks.is_empty());
    assert_eq!(state.refreshing_status, Status::blank());
}

#[test]
fn a_fetch_with_a_failed_listing_has_failed_as_a_whole() {
    let today = day(2026, 10, 28);
    let listings = vec![
        Ok(vec![event(Some("a"), today)]),
        Err("calendar two is gone".to_string()),
        Ok(vec![event(Some("b"), today)]),
        Err("calendar four too".to_string()),
    ];
    assert_eq!(
        events_outcome(7, listings),
        Completion::EventsFetchFailed { ticket: 7, cause: "calendar two is gone".to_string() }
    );
    let listings = vec![Ok(vec![task(Some("a"), None)]), Err("no list".to_string())];
    assert_eq!(
        tasks_outcome(3, listings),
        Completion::TasksFetchFailed { ticket: 3, cause: "no list".to_string() }
    );
    assert_eq!(
        events_outcome(1, vec![Err("no calendars".to_string())]),
        Completion::EventsFetchFailed { ticket: 1, cause: "no calendars".to_string() }
    );
}

#[test]
fn a_fetch_without_a_failed_listing_hands_back_all_entries_in_order() {
    let today = day(2026, 10, 28);
    let listings = vec![
        Ok(vec![event(Some("a"), today), event(Some("b"), today)]),
        Ok(Vec::new()),
        Ok(vec![event(Some("c"), today)]),
    ];
    assert_eq!(
        events_outcome(7, listings),
        Completion::EventsFetched {
            ticket: 7,
            events: vec![event(Some("a"), today), event(Some("b"), today), event(Some("c"), today)],
        }
    );
    assert_eq!(
        tasks_outcome(2, vec![Ok(vec![task(Some("x"), None)]), Ok(vec![task(Some("y"), None)])]),
        Completion::TasksFetched { ticket: 2, tasks: vec![task(Some("x"), None), task(Some("y"), None)] }
    );
    assert_eq!(events_outcome(4, Vec::new()), Completion::EventsFetched { ticket: 4, events: Vec::new() });
    assert_eq!(tasks_outcome(4, Vec::new()), Completion::TasksFetched { ticket: 4, tasks: Vec::new() });
}

#[test]
fn a_failed_listing_leaves_what_is_kept() {
    let today = day(2026, 10, 28);
    let mut state = usual();
    let fetches = state.start_background_refresh();
    let listings = vec![Ok(vec![event(Some("new"), today)]), Err("timed out".to_string())];
    let outcome = events_outcome(fetches.events.unwrap(), listings);
    assert_eq!(state.check_updates(outcome), NONE);
    assert_eq!(state.current_day_events().unwrap().len(), 2);
    assert_eq!(state.current_day_events().unwrap()[0].id.as_deref(), Some("e1"));
    assert_eq!(state.refreshing_status, status("Failed: timed out", StatusColor::Red));
    let outcome = tasks_outcome(fetches.tasks.unwrap(), vec![Err("gone".to_string()), Ok(Vec::new())]);
    assert_eq!(state.check_updates(outcome), NONE);
    assert_eq!(state.tasks.len(), 4);
    assert_eq!(state.refreshing_status, status("Failed: gone", StatusColor::Red));
}

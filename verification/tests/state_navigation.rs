use calpersonal::state::{check_navigable, settle_date, AppLayout, AppState};
use calpersonal::date::CalendarDate;
use calpersonal::keys::{Intent, KeyCode, KeyModifiers, KeyPress};
use calpersonal::model::{Event, EventTime, Task};
use calpersonal::request::Action;
use calpersonal::status::{AuthStatus, Status, StatusColor};

fn day(year: i32, month: u32, day: u32) -> CalendarDate {
    CalendarDate::from_ymd(year, month, day).unwrap()
}

fn event(id: &str, date: CalendarDate) -> Event {
    Event {
        id: Some(id.to_string()),
        summary: Some(format!("event {id}")),
        start: EventTime::AllDay(date),
        end: EventTime::AllDay(date.next_day().unwrap()),
        calendar_id: "primary".to_string(),
    }
}

fn task(id: &str) -> Task {
    Task {
        id: Some(id.to_string()),
        title: Some(format!("task {id}")),
        due: None,
        notes: None,
        completed: None,
        status: Some("needsAction".to_string()),
        list_id: "list".to_string(),
    }
}

fn start() -> AppState {
    let today = day(2026, 10, 28);
    let events = vec![event("a", today), event("b", today), event("c", day(2026, 10, 29))];
    let tasks = vec![task("1"), task("2"), task("3")];
    AppState::new(today, 3600, &events, tasks).unwrap()
}

fn press(state: &mut AppState, c: char) -> Action {
    state.key_pressed(KeyPress { code: KeyCode::Char(c), modifiers: KeyModifiers::Plain })
}

#[test]
fn the_calendar_starts_on_today_with_nothing_reached() {
    let state = start();
    assert_eq!(state.layout, AppLayout::Calendar);
    assert_eq!(state.current_date, day(2026, 10, 28));
    assert_eq!(state.today, day(2026, 10, 28));
    assert_eq!(state.cursor_line, 0);
    assert_eq!(state.utc_offset, 3600);
    assert!(!state.exit);
    assert!(!state.events_connected);
    assert!(!state.tasks_connected);
    assert_eq!(state.events.len(), 2);
    assert_eq!(state.tasks.len(), 3);
    assert_eq!(state.refreshing_status, Status::blank());
    assert_eq!(state.changing_status, Status { text: String::new(), color: StatusColor::White });
    assert!(!state.inputting);
    assert!(!state.updating);
    assert!(!state.needs_refresh);
    assert_eq!(state.auth_status, AuthStatus::Authenticating);
    assert_eq!(state.char_count(), 0);
}

#[test]
fn the_calendar_does_not_start_outside_its_range() {
    let today = day(2026, 10, 28);
    assert!(AppState::new(today, 86_400, &Vec::new(), Vec::new()).is_none());
    assert!(AppState::new(today, -86_400, &Vec::new(), Vec::new()).is_none());
    assert!(AppState::new(today, 86_399, &Vec::new(), Vec::new()).is_some());
    assert!(AppState::new(today, -86_399, &Vec::new(), Vec::new()).is_some());
    assert!(AppState::new(day(262_142, 1, 1), 0, &Vec::new(), Vec::new()).is_none());
    assert!(AppState::new(day(-262_143, 12, 31), 0, &Vec::new(), Vec::new()).is_none());
    assert!(AppState::new(day(262_141, 12, 31), 0, &Vec::new(), Vec::new()).is_some());
    let wrong = CalendarDate { year: 2026, month: 2, day: 30 };
    assert!(AppState::new(wrong, 0, &Vec::new(), Vec::new()).is_none());
}

#[test]
fn arrows_move_the_day_in_view() {
    let mut state = start();
    state.move_right();
    assert_eq!(state.current_date, day(2026, 10, 29));
    state.move_left();
    state.move_left();
    assert_eq!(state.current_date, day(2026, 10, 27));
    state.move_down();
    assert_eq!(state.current_date, day(2026, 11, 3));
    state.move_up();
    state.move_up();
    assert_eq!(state.current_date, day(2026, 10, 20));
    assert_eq!(state.layout, AppLayout::Calendar);
    assert_eq!(state.cursor_line, 0);
}

#[test]
fn month_and_year_keys_move_by_months() {
    let mut state = start();
    state.current_date = day(2026, 1, 31);
    assert_eq!(press(&mut state, '>'), Action::Nothing);
    assert_eq!(state.current_date, day(2026, 2, 28));
    press(&mut state, '<');
    assert_eq!(state.current_date, day(2026, 1, 28));
    press(&mut state, 'y');
    assert_eq!(state.current_date, day(2027, 1, 28));
    press(&mut state, 'Y');
    press(&mut state, 'Y');
    assert_eq!(state.current_date, day(2025, 1, 28));
    state.current_date = day(2024, 2, 29);
    press(&mut state, 'y');
    assert_eq!(state.current_date, day(2025, 2, 28));
    press(&mut state, 't');
    assert_eq!(state.current_date, day(2026, 10, 28));
}

#[test]
fn moves_stop_at_the_ends_of_the_range() {
    let mut state = start();
    state.current_date = day(262_141, 12, 31);
    state.move_right();
    assert_eq!(state.current_date, day(262_141, 12, 31));
    state.move_down();
    assert_eq!(state.current_date, day(262_141, 12, 31));
    state.move_months(1);
    assert_eq!(state.current_date, day(262_141, 12, 31));
    state.move_months(12);
    assert_eq!(state.current_date, day(262_141, 12, 31));
    state.move_left();
    assert_eq!(state.current_date, day(262_141, 12, 30));
    state.current_date = day(-262_142, 1, 1);
    state.move_left();
    assert_eq!(state.current_date, day(-262_142, 1, 1));
    state.move_up();
    assert_eq!(state.current_date, day(-262_142, 1, 1));
    state.move_months(-1);
    assert_eq!(state.current_date, day(-262_142, 1, 1));
    state.move_days(i32::MAX);
    assert_eq!(state.current_date, day(-262_142, 1, 1));
    state.move_right();
    assert_eq!(state.current_date, day(-262_142, 1, 2));
}

#[test]
fn days_that_can_be_in_view() {
    assert!(check_navigable(&day(2026, 10, 28)));
    assert!(check_navigable(&day(262_141, 12, 31)));
    assert!(!check_navigable(&day(262_142, 1, 1)));
    assert!(check_navigable(&day(-262_142, 1, 1)));
    assert!(!check_navigable(&day(-262_143, 12, 31)));
    assert!(!check_navigable(&CalendarDate { year: 2026, month: 2, day: 30 }));
    let here = day(2026, 10, 28);
    assert_eq!(settle_date(here, Some(day(2026, 3, 5))), day(2026, 3, 5));
    assert_eq!(settle_date(here, Some(day(262_142, 1, 1))), here);
    assert_eq!(settle_date(here, None), here);
}

#[test]
fn a_today_out_of_range_is_not_jumped_to() {
    let mut state = start();
    state.today = day(262_142, 6, 1);
    state.jump_to_today();
    assert_eq!(state.current_date, day(2026, 10, 28));
}

#[test]
fn in_a_list_left_and_right_do_nothing() {
    let mut state = start();
    state.toggle_event_visibility();
    state.move_right();
    state.move_left();
    assert_eq!(state.current_date, day(2026, 10, 28));
    assert_eq!(state.layout, AppLayout::Events);
    assert_eq!(state.cursor_line, 0);
    state.toggle_tasks_visibility();
    state.move_right();
    assert_eq!(state.current_date, day(2026, 10, 28));
    assert_eq!(state.layout, AppLayout::Tasks(false));
}

#[test]
fn in_a_list_up_and_down_move_the_cursor_without_wrapping() {
    let mut state = start();
    state.toggle_tasks_visibility();
    state.move_up();
    assert_eq!(state.cursor_line, 0);
    state.move_down();
    assert_eq!(state.cursor_line, 1);
    state.move_down();
    assert_eq!(state.cursor_line, 2);
    state.move_down();
    assert_eq!(state.cursor_line, 2);
    state.move_up();
    assert_eq!(state.cursor_line, 1);
    assert_eq!(state.selected_task_index(), Some(1));
    assert_eq!(state.selected_task().unwrap().id.as_deref(), Some("2"));
    state.toggle_event_visibility();
    assert_eq!(state.cursor_line, 0);
    state.move_down();
    assert_eq!(state.cursor_line, 1);
    state.move_down();
    assert_eq!(state.cursor_line, 1);
    assert_eq!(state.selected_event_index(), Some(1));
    assert_eq!(state.selected_event().unwrap().id.as_deref(), Some("b"));
    assert_eq!(state.current_date, day(2026, 10, 28));
}

#[test]
fn in_an_empty_list_the_cursor_stays_on_the_first_place() {
    let mut state = AppState::new(day(2026, 10, 28), 0, &Vec::new(), Vec::new()).unwrap();
    state.toggle_event_visibility();
    state.move_down();
    state.move_down();
    state.move_up();
    assert_eq!(state.cursor_line, 0);
    assert_eq!(state.selected_event_index(), None);
    assert!(state.selected_event().is_none());
    assert!(state.current_day_events().is_none());
    state.toggle_tasks_visibility();
    state.move_down();
    assert_eq!(state.cursor_line, 0);
    assert_eq!(state.selected_task_index(), None);
    assert!(state.selected_task().is_none());
}

#[test]
fn a_change_of_month_in_the_events_brings_the_cursor_back() {
    let mut state = start();
    state.toggle_event_visibility();
    state.move_down();
    assert_eq!(state.cursor_line, 1);
    state.move_days(1);
    assert_eq!(state.current_date, day(2026, 10, 29));
    assert_eq!(state.cursor_line, 0);
    assert_eq!(state.selected_event().unwrap().id.as_deref(), Some("c"));
    state.move_months(1);
    assert_eq!(state.cursor_line, 0);
    assert!(state.selected_event().is_none());
}

#[test]
fn toggles_switch_between_the_month_and_the_lists() {
    let mut state = start();
    press(&mut state, 'E');
    assert_eq!(state.layout, AppLayout::Events);
    press(&mut state, 'E');
    assert_eq!(state.layout, AppLayout::Calendar);
    press(&mut state, 'T');
    assert_eq!(state.layout, AppLayout::Tasks(false));
    state.move_down();
    press(&mut state, 'E');
    assert_eq!(state.layout, AppLayout::Events);
    assert_eq!(state.cursor_line, 0);
    press(&mut state, 'T');
    assert_eq!(state.layout, AppLayout::Tasks(false));
    press(&mut state, 'T');
    assert_eq!(state.layout, AppLayout::Calendar);
}

#[test]
fn enter_shows_the_notes_and_back_hides_them() {
    let mut state = start();
    state.confirm();
    assert_eq!(state.layout, AppLayout::Calendar);
    state.toggle_tasks_visibility();
    state.move_down();
    state.apply(Intent::Confirm);
    assert_eq!(state.layout, AppLayout::Tasks(true));
    state.confirm();
    assert_eq!(state.layout, AppLayout::Tasks(true));
    state.exit();
    assert_eq!(state.layout, AppLayout::Tasks(false));
    assert_eq!(state.cursor_line, 1);
    assert!(!state.exit);
    state.exit();
    assert_eq!(state.layout, AppLayout::Calendar);
    assert!(!state.exit);
    state.exit();
    assert!(state.exit);
    assert_eq!(state.layout, AppLayout::Calendar);
}

#[test]
fn back_leaves_the_events_for_the_month() {
    let mut state = start();
    state.toggle_event_visibility();
    state.move_down();
    press(&mut state, 'q');
    assert_eq!(state.layout, AppLayout::Calendar);
    assert_eq!(state.cursor_line, 0);
    assert!(!state.exit);
    state.key_pressed(KeyPress { code: KeyCode::Esc, modifiers: KeyModifiers::Plain });
    assert!(state.exit);
}

#[test]
fn the_refresh_key_makes_a_refresh_due() {
    let mut state = start();
    assert_eq!(press(&mut state, 'R'), Action::Nothing);
    assert!(state.needs_refresh);
    state.request_refresh();
    assert!(state.needs_refresh);
}

#[test]
fn keys_that_are_not_bound_change_nothing() {
    let mut state = start();
    assert_eq!(press(&mut state, 'x'), Action::Nothing);
    assert_eq!(
        state.key_pressed(KeyPress { code: KeyCode::Other, modifiers: KeyModifiers::Plain }),
        Action::Nothing
    );
    assert_eq!(state.layout, AppLayout::Calendar);
    assert_eq!(state.current_date, day(2026, 10, 28));
    assert!(!state.inputting);
    assert!(!state.needs_refresh);
}

#[test]
fn the_month_in_view_and_its_grid() {
    let mut state = start();
    assert_eq!(state.first_day_of_month(), day(2026, 10, 1));
    assert_eq!(state.last_day_of_month(), day(2026, 10, 31));
    let (weeks, rows) = state.generate_calendar_grid();
    assert_eq!(rows, 5);
    assert_eq!(weeks[0][0].date, day(2026, 9, 27));
    assert!(weeks[4][3].is_today);
    state.move_months(-8);
    assert_eq!(state.current_date, day(2026, 2, 28));
    assert_eq!(state.last_day_of_month(), day(2026, 2, 28));
    let (weeks, rows) = state.generate_calendar_grid();
    assert_eq!(rows, 4);
    assert_eq!(weeks[0][0].date, day(2026, 2, 1));
    assert!(weeks.iter().flatten().all(|cell| !cell.is_today));
}

#[test]
fn a_state_reached_by_transitions_holds_together() {
    let mut state = start();
    assert!(state.check_wf());
    state.toggle_event_visibility();
    state.move_down();
    state.add_or_update_event();
    state.edit_line(calpersonal::editor::EditOp::Insert('x'));
    assert!(state.check_wf());
    state.cancel_input();
    state.move_months(-3);
    state.toggle_tasks_visibility();
    state.move_down();
    state.start_background_refresh();
    state.calendar_handle_resolved(true);
    state.install_events(1, &vec![event("z", day(2026, 7, 28))]);
    state.install_tasks(1, Vec::new());
    assert!(state.check_wf());
}

#[test]
fn a_state_that_does_not_hold_together_is_told() {
    let broken = |change: fn(&mut AppState)| {
        let mut state = start();
        state.toggle_tasks_visibility();
        change(&mut state);
        state.check_wf()
    };
    assert!(broken(|_| {}));
    assert!(!broken(|s| s.cursor_line = 3));
    assert!(broken(|s| s.cursor_line = 2));
    assert!(broken(|s| s.tasks.clear()));
    assert!(!broken(|s| {
        s.cursor_line = 2;
        s.tasks.pop();
    }));
    assert!(!broken(|s| s.current_date = CalendarDate { year: 2026, month: 2, day: 30 }));
    assert!(!broken(|s| s.current_date = day(262_142, 1, 1)));
    assert!(!broken(|s| s.today = CalendarDate { year: 2026, month: 0, day: 1 }));
    assert!(!broken(|s| s.utc_offset = 86_400));
    assert!(!broken(|s| s.editor.caret = 1));
    assert!(!broken(|s| s.editor.buffer.push('x')));
    assert!(!broken(|s| s.updating = true));
    assert!(broken(|s| {
        s.inputting = true;
        s.updating = true;
        s.editor.buffer.push('x');
        s.editor.caret = 1;
    }));
    assert!(!broken(|s| s.events_refresh.awaited = Some(1)));
    assert!(!broken(|s| s.tasks_refresh.awaited = Some(0)));
    assert!(!broken(|s| {
        s.layout = AppLayout::Events;
        s.cursor_line = 2;
    }));
    assert!(broken(|s| {
        s.layout = AppLayout::Events;
        s.cursor_line = 1;
    }));
    assert!(!broken(|s| {
        let list = s.events.remove(&day(2026, 10, 29).to_day_number()).unwrap();
        s.events.insert(day(2026, 10, 30).to_day_number(), list);
    }));
    assert!(!broken(|s| {
        s.events.insert(day(2026, 11, 30).to_day_number(), Vec::new());
    }));
    assert!(broken(|s| s.utc_offset = -3600));
    assert!(!broken(|s| {
        let at = Event { start: EventTime::At(1_793_228_400), ..event("t", day(2026, 10, 28)) };
        s.events.get_mut(&day(2026, 10, 28).to_day_number()).unwrap().push(at);
        s.utc_offset = 9 * 3600;
    }));
    assert!(broken(|s| {
        let at = Event { start: EventTime::At(1_793_228_400), ..event("t", day(2026, 10, 28)) };
        s.events.get_mut(&day(2026, 10, 28).to_day_number()).unwrap().push(at);
        s.utc_offset = 0;
    }));
}

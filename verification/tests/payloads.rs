use calpersonal::date::CalendarDate;
use calpersonal::model::{EventPayload, EventTime, TaskPayload};
use calpersonal::request::{event_payload, task_payload, toggle_status, Action};
use calpersonal::status::MutationKind;

fn day(year: i32, month: u32, day: u32) -> CalendarDate {
    CalendarDate::from_ymd(year, month, day).unwrap()
}

#[test]
fn event_with_times_is_sent_as_instants() {
    let today = day(2026, 10, 28);
    assert_eq!(
        event_payload("10:00 - 11:30 Standup", today, 9 * 3600, true),
        EventPayload {
            summary: "Standup".to_string(),
            start: EventTime::At(1_793_149_200),
            end: EventTime::At(1_793_154_600),
        }
    );
    assert_eq!(
        event_payload("3/5 10:00 - 11:00 Standup", today, 0, false),
        EventPayload {
            summary: "Standup".to_string(),
            start: EventTime::At(1_772_704_800),
            end: EventTime::At(1_772_708_400),
        }
    );
}

#[test]
fn event_with_days_is_sent_as_days() {
    let today = day(2026, 10, 28);
    assert_eq!(
        event_payload("3/5 - 3/7 Trip", today, 3600, true),
        EventPayload {
            summary: "Trip".to_string(),
            start: EventTime::AllDay(day(2026, 3, 5)),
            end: EventTime::AllDay(day(2026, 3, 7)),
        }
    );
    assert_eq!(
        event_payload("2027/1/31 Dentist", today, 3600, false),
        EventPayload {
            summary: "Dentist".to_string(),
            start: EventTime::AllDay(day(2027, 1, 31)),
            end: EventTime::AllDay(day(2027, 2, 1)),
        }
    );
}

#[test]
fn new_event_without_a_date_takes_the_day_in_view() {
    assert_eq!(
        event_payload("Just a title", day(2026, 12, 31), 3600, true),
        EventPayload {
            summary: "Just a title".to_string(),
            start: EventTime::AllDay(day(2026, 12, 31)),
            end: EventTime::AllDay(day(2027, 1, 1)),
        }
    );
}

#[test]
fn changed_event_without_a_date_keeps_its_times() {
    assert_eq!(
        event_payload("Just a title", day(2026, 12, 31), 3600, false),
        EventPayload {
            summary: "Just a title".to_string(),
            start: EventTime::Unset,
            end: EventTime::Unset,
        }
    );
}

#[test]
fn task_is_sent_with_title_due_date_and_notes() {
    assert_eq!(
        task_payload("3/5 Pay rent notes: call landlord first", 2026),
        TaskPayload {
            title: Some("Pay rent".to_string()),
            due: Some("2026-03-05T00:00:00.000Z".to_string()),
            notes: Some("call landlord first".to_string()),
            status: None,
        }
    );
    assert_eq!(
        task_payload("Water the plants", 2026),
        TaskPayload {
            title: Some("Water the plants".to_string()),
            due: None,
            notes: None,
            status: None,
        }
    );
}

#[test]
fn toggling_swaps_the_two_statuses() {
    assert_eq!(toggle_status(&"completed".to_string()), Some("needsAction".to_string()));
    assert_eq!(toggle_status(&"needsAction".to_string()), Some("completed".to_string()));
    assert_eq!(toggle_status(&"Completed".to_string()), None);
    assert_eq!(toggle_status(&String::new()), None);
}

#[test]
fn every_action_has_its_kind() {
    let payload = EventPayload { summary: String::new(), start: EventTime::Unset, end: EventTime::Unset };
    let task = TaskPayload { title: None, due: None, notes: None, status: None };
    let id = || "x".to_string();
    assert_eq!(Action::Nothing.kind(), None);
    assert_eq!(Action::InsertEvent(payload.clone()).kind(), Some(MutationKind::CreateEvent));
    assert_eq!(
        Action::PatchEvent { calendar_id: id(), event_id: id(), event: payload }.kind(),
        Some(MutationKind::UpdateEvent)
    );
    assert_eq!(
        Action::DeleteEvent { calendar_id: id(), event_id: id() }.kind(),
        Some(MutationKind::DeleteEvent)
    );
    assert_eq!(Action::InsertTask(task.clone()).kind(), Some(MutationKind::CreateTask));
    assert_eq!(
        Action::PatchTask { list_id: id(), task_id: id(), task }.kind(),
        Some(MutationKind::UpdateTask)
    );
    assert_eq!(Action::DeleteTask { list_id: id(), task_id: id() }.kind(), Some(MutationKind::DeleteTask));
    assert_eq!(
        Action::ToggleTask { list_id: id(), task_id: id(), status: None }.kind(),
        Some(MutationKind::ToggleTask)
    );
    assert_eq!(Action::ClearCompleted { list_id: id() }.kind(), Some(MutationKind::ClearCompleted));
}

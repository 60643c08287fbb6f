use calpersonal::refresh::RefreshSlot;
use calpersonal::status::{
    auth_label, offline_status, outcome_status, pending_status, refreshing_status,
    resolve_auth_status, AuthStatus, MutationKind, Outcome, Status, StatusColor,
};

fn status(text: &str, color: StatusColor) -> Status {
    Status { text: text.to_string(), color }
}

const KINDS: [MutationKind; 8] = [
    MutationKind::CreateEvent,
    MutationKind::UpdateEvent,
    MutationKind::DeleteEvent,
    MutationKind::CreateTask,
    MutationKind::UpdateTask,
    MutationKind::DeleteTask,
    MutationKind::ToggleTask,
    MutationKind::ClearCompleted,
];

#[test]
fn status_while_a_change_is_under_way() {
    let texts: Vec<String> = KINDS.iter().map(|k| pending_status(*k).text).collect();
    assert_eq!(
        texts,
        vec![
            "Creating event",
            "Creating event",
            "Deleting",
            "Creating task",
            "Updating task",
            "Deleting task...",
            "Toggling...",
            "Clearing...",
        ]
    );
    for kind in KINDS {
        assert_eq!(pending_status(kind).color, StatusColor::Yellow);
    }
}

#[test]
fn status_when_a_change_has_been_made() {
    let texts: Vec<String> = KINDS.iter().map(|k| outcome_status(*k, &Outcome::Done).text).collect();
    assert_eq!(
        texts,
        vec![
            "Event created!",
            "Event created!",
            "Event Deleted!",
            "Task created!",
            "Task updated!",
            "Task deleted!",
            "Completed",
            "Cleared",
        ]
    );
    for kind in KINDS {
        assert_eq!(outcome_status(kind, &Outcome::Done).color, StatusColor::Green);
    }
}

#[test]
fn status_when_a_change_has_failed() {
    for kind in KINDS {
        assert_eq!(
            outcome_status(kind, &Outcome::Failed("timed out".to_string())),
            status("Failed: timed out", StatusColor::Red)
        );
        assert_eq!(
            outcome_status(kind, &Outcome::Failed(String::new())),
            status("Failed: ", StatusColor::Red)
        );
        assert_eq!(outcome_status(kind, &Outcome::NoTaskList), status("No Tasklist!", StatusColor::Red));
    }
}

#[test]
fn status_when_the_service_cannot_be_reached() {
    let colors: Vec<StatusColor> = KINDS.iter().map(|k| offline_status(*k).color).collect();
    assert_eq!(
        colors,
        vec![
            StatusColor::Red,
            StatusColor::Red,
            StatusColor::White,
            StatusColor::Red,
            StatusColor::Red,
            StatusColor::White,
            StatusColor::White,
            StatusColor::White,
        ]
    );
    for kind in KINDS {
        assert_eq!(offline_status(kind).text, "Offline");
    }
}

#[test]
fn status_of_a_refresh_and_of_nothing() {
    assert_eq!(refreshing_status(), status("Refreshing", StatusColor::Green));
    assert_eq!(Status::blank(), status("", StatusColor::White));
    assert_eq!(Status::new("x", StatusColor::Red), status("x", StatusColor::Red));
    assert_eq!(Status::failure("disk full"), status("Failed: disk full", StatusColor::Red));
    assert_eq!(status("x", StatusColor::Red).duplicate(), status("x", StatusColor::Red));
}

#[test]
fn online_if_one_service_can_be_reached() {
    assert_eq!(resolve_auth_status(true, true), AuthStatus::Online);
    assert_eq!(resolve_auth_status(true, false), AuthStatus::Online);
    assert_eq!(resolve_auth_status(false, true), AuthStatus::Online);
    assert_eq!(resolve_auth_status(false, false), AuthStatus::Offline);
}

#[test]
fn words_for_the_connection() {
    assert_eq!(auth_label(AuthStatus::Authenticating), status("Authenticating", StatusColor::Yellow));
    assert_eq!(auth_label(AuthStatus::Online), status("Online", StatusColor::Green));
    assert_eq!(auth_label(AuthStatus::Offline), status("Offline", StatusColor::White));
}

#[test]
fn tickets_grow_and_only_the_last_is_waited_for() {
    let mut slot = RefreshSlot::new();
    assert_eq!(slot, RefreshSlot { awaited: None, issued: 0 });
    assert_eq!(slot.start(), Some(1));
    assert_eq!(slot.start(), Some(2));
    assert_eq!(slot, RefreshSlot { awaited: Some(2), issued: 2 });
    assert!(!slot.arrive(1));
    assert_eq!(slot, RefreshSlot { awaited: Some(2), issued: 2 });
    assert!(slot.arrive(2));
    assert_eq!(slot, RefreshSlot { awaited: None, issued: 2 });
    assert!(!slot.arrive(2));
    assert!(!slot.arrive(1));
    assert_eq!(slot.start(), Some(3));
    assert!(!slot.arrive(2));
    assert!(slot.arrive(3));
}

#[test]
fn a_slot_holds_together_if_its_ticket_was_given_out() {
    assert!(RefreshSlot::new().check_wf());
    assert!(RefreshSlot { awaited: Some(3), issued: 3 }.check_wf());
    assert!(RefreshSlot { awaited: Some(1), issued: 3 }.check_wf());
    assert!(!RefreshSlot { awaited: Some(4), issued: 3 }.check_wf());
    assert!(!RefreshSlot { awaited: Some(0), issued: 3 }.check_wf());
}

#[test]
fn a_result_that_was_never_asked_for_is_dropped() {
    let mut slot = RefreshSlot::new();
    assert!(!slot.arrive(0));
    assert!(!slot.arrive(1));
    assert_eq!(slot.start(), Some(1));
    assert!(!slot.arrive(0));
    assert!(!slot.arrive(2));
    assert!(slot.arrive(1));
}

#[test]
fn tickets_run_out_at_the_largest_number() {
    let mut slot = RefreshSlot { awaited: None, issued: u64::MAX - 1 };
    assert_eq!(slot.start(), Some(u64::MAX));
    assert_eq!(slot.start(), None);
    assert_eq!(slot, RefreshSlot { awaited: Some(u64::MAX), issued: u64::MAX });
    assert!(slot.arrive(u64::MAX));
}

use calpersonal::cache::{
    calendar_request_id, clamp_cursor, day_event_count, day_events, gather_listings, group_events,
    select_place,
};
use calpersonal::date::CalendarDate;
use calpersonal::model::{Event, EventTime, Task};

fn day(year: i32, month: u32, day: u32) -> CalendarDate {
    CalendarDate::from_ymd(year, month, day).unwrap()
}

fn event(id: &str, start: EventTime) -> Event {
    Event {
        id: Some(id.to_string()),
        summary: Some(format!("event {id}")),
        start,
        end: start,
        calendar_id: "primary".to_string(),
    }
}

#[test]
fn events_are_kept_by_the_day_on_which_they_begin() {
    let all = vec![
        event("a", EventTime::AllDay(day(2026, 10, 28))),
        event("b", EventTime::At(1_793_228_400)),
        event("c", EventTime::AllDay(day(2026, 10, 29))),
        event("d", EventTime::At(1_793_149_200)),
        event("e", EventTime::Unset),
        event("f", EventTime::AllDay(day(2026, 10, 28))),
    ];
    let by_day = group_events(&all, 0);
    assert_eq!(by_day.len(), 2);
    let ids = |date: CalendarDate| -> Vec<String> {
        day_events(&by_day, &date)
            .map(|list| list.iter().map(|e| e.id.clone().unwrap()).collect())
            .unwrap_or_default()
    };
    assert_eq!(ids(day(2026, 10, 28)), vec!["a", "b", "d", "f"]);
    assert_eq!(ids(day(2026, 10, 29)), vec!["c"]);
    assert_eq!(ids(day(2026, 10, 27)), Vec::<String>::new());
    assert_eq!(day_event_count(&by_day, &day(2026, 10, 28)), 4);
    assert_eq!(day_event_count(&by_day, &day(2026, 10, 30)), 0);
    assert!(day_events(&by_day, &day(2026, 10, 30)).is_none());
}

#[test]
fn events_are_kept_under_the_day_of_the_time_zone() {
    let all = vec![
        event("late", EventTime::At(1_793_228_400)),
        event("early", EventTime::At(1_793_149_200)),
    ];
    let east = group_events(&all, 9 * 3600);
    assert_eq!(day_event_count(&east, &day(2026, 10, 28)), 1);
    assert_eq!(day_event_count(&east, &day(2026, 10, 29)), 1);
    assert_eq!(day_events(&east, &day(2026, 10, 29)).unwrap()[0].id.as_deref(), Some("late"));
    let west = group_events(&all, -8 * 3600);
    assert_eq!(day_event_count(&west, &day(2026, 10, 27)), 1);
    assert_eq!(day_events(&west, &day(2026, 10, 27)).unwrap()[0].id.as_deref(), Some("early"));
    assert_eq!(day_event_count(&west, &day(2026, 10, 28)), 1);
}

#[test]
fn events_are_kept_whole() {
    let kept = Event {
        id: None,
        summary: None,
        start: EventTime::AllDay(day(2026, 3, 5)),
        end: EventTime::AllDay(day(2026, 3, 7)),
        calendar_id: "family%40group.calendar".to_string(),
    };
    let by_day = group_events(&vec![kept.clone()], 3600);
    assert_eq!(day_events(&by_day, &day(2026, 3, 5)).unwrap(), &vec![kept.clone()]);
    assert_eq!(kept.duplicate(), kept);
}

#[test]
fn events_without_a_day_are_left_out() {
    let all = vec![
        event("unset", EventTime::Unset),
        event("far", EventTime::At(i64::MAX)),
        event("wrong", EventTime::AllDay(CalendarDate { year: 2026, month: 2, day: 30 })),
    ];
    assert!(group_events(&all, 0).is_empty());
    assert!(group_events(&Vec::new(), 0).is_empty());
}

#[test]
fn tasks_are_copied_whole() {
    let task = Task {
        id: Some("t1".to_string()),
        title: Some("Pay rent".to_string()),
        due: Some("2026-03-05T00:00:00.000Z".to_string()),
        notes: None,
        completed: None,
        status: Some("needsAction".to_string()),
        list_id: "list".to_string(),
    };
    assert_eq!(task.duplicate(), task);
}

#[test]
fn cursor_selects_within_the_list() {
    assert_eq!(select_place(0, 0), None);
    assert_eq!(select_place(5, 0), None);
    assert_eq!(select_place(0, 3), Some(0));
    assert_eq!(select_place(2, 3), Some(2));
    assert_eq!(select_place(3, 3), Some(2));
    assert_eq!(select_place(usize::MAX, 1), Some(0));
}

#[test]
fn cursor_is_brought_back_into_the_list() {
    assert_eq!(clamp_cursor(0, 0), 0);
    assert_eq!(clamp_cursor(7, 0), 0);
    assert_eq!(clamp_cursor(1, 3), 1);
    assert_eq!(clamp_cursor(3, 3), 2);
    assert_eq!(clamp_cursor(usize::MAX, 2), 1);
}

#[test]
fn calendar_names_are_spelt_for_requests() {
    assert_eq!(calendar_request_id("primary"), "primary");
    assert_eq!(calendar_request_id("user@example.com"), "user%40example.com");
    assert_eq!(
        calendar_request_id("en.japanese#holiday@group.v.calendar.google.com"),
        "en.japanese%23holiday%40group.v.calendar.google.com"
    );
    assert_eq!(calendar_request_id("a-b_c.d~e"), "a-b_c.d~e");
    assert_eq!(calendar_request_id("a b/c?d=e&f+g%"), "a%20b%2Fc%3Fd%3De%26f%2Bg%25");
    assert_eq!(calendar_request_id("祝日"), "%E7%A5%9D%E6%97%A5");
    assert_eq!(calendar_request_id("é\u{7f}\n"), "%C3%A9%7F%0A");
    assert_eq!(calendar_request_id(""), "");
}

#[test]
fn events_written_out_day_by_day_read_back() {
    let all = vec![
        event("a", EventTime::AllDay(day(2026, 10, 29))),
        event("b", EventTime::At(1_793_228_400)),
        event("c", EventTime::AllDay(day(2026, 10, 28))),
        event("d", EventTime::At(1_793_149_200)),
        event("e", EventTime::AllDay(day(2026, 10, 29))),
    ];
    for offset in [-8 * 3600, 0, 9 * 3600] {
        let kept = group_events(&all, offset);
        let mut days: Vec<i32> = kept.keys().copied().collect();
        days.sort();
        for order in [days.clone(), days.iter().rev().copied().collect()] {
            let written: Vec<Event> = order.iter().flat_map(|d| kept[d].clone()).collect();
            assert_eq!(group_events(&written, offset), kept);
        }
    }
}

#[test]
fn listings_are_gathered_in_order() {
    let listings: Vec<Result<Vec<u32>, String>> = vec![Ok(vec![1, 2]), Ok(vec![]), Ok(vec![3])];
    assert_eq!(gather_listings(listings), Ok(vec![1, 2, 3]));
    assert_eq!(gather_listings(Vec::<Result<Vec<u32>, String>>::new()), Ok(Vec::new()));
    assert_eq!(gather_listings(vec![Ok(Vec::<u32>::new())]), Ok(Vec::new()));
}

#[test]
fn one_failed_listing_fails_the_gathering_with_the_first_cause() {
    let failed = |cause: &str| -> Result<Vec<u32>, String> { Err(cause.to_string()) };
    assert_eq!(gather_listings(vec![Ok(vec![1]), failed("b"), failed("c")]), Err("b".to_string()));
    assert_eq!(gather_listings(vec![failed("a"), Ok(vec![1])]), Err("a".to_string()));
    assert_eq!(gather_listings(vec![Ok(vec![1]), Ok(vec![2]), failed("z")]), Err("z".to_string()));
    assert_eq!(gather_listings(vec![failed("only")]), Err("only".to_string()));
}

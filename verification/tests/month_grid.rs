use calpersonal::date::CalendarDate;
use calpersonal::grid::{check_grid_fits, month_grid, DayCell};

fn day(year: i32, month: u32, day: u32) -> CalendarDate {
    CalendarDate::from_ymd(year, month, day).unwrap()
}

fn rows_of(year: i32, month: u32) -> usize {
    month_grid(day(year, month, 15), day(2026, 10, 28)).1
}

#[test]
fn grid_has_six_weeks_of_seven_days() {
    let (weeks, _) = month_grid(day(2026, 10, 28), day(2026, 10, 28));
    assert_eq!(weeks.len(), 6);
    for week in &weeks {
        assert_eq!(week.len(), 7);
    }
}

#[test]
fn grid_starts_on_the_sunday_before_the_month() {
    let (weeks, rows) = month_grid(day(2026, 10, 28), day(2026, 10, 28));
    assert_eq!(
        weeks[0][0],
        DayCell { date: day(2026, 9, 27), in_month: false, is_today: false }
    );
    assert_eq!(
        weeks[0][4],
        DayCell { date: day(2026, 10, 1), in_month: true, is_today: false }
    );
    assert_eq!(
        weeks[4][3],
        DayCell { date: day(2026, 10, 28), in_month: true, is_today: true }
    );
    assert_eq!(
        weeks[4][6],
        DayCell { date: day(2026, 10, 31), in_month: true, is_today: false }
    );
    assert_eq!(
        weeks[5][0],
        DayCell { date: day(2026, 11, 1), in_month: false, is_today: false }
    );
    assert_eq!(
        weeks[5][6],
        DayCell { date: day(2026, 11, 7), in_month: false, is_today: false }
    );
    assert_eq!(rows, 5);
}

#[test]
fn grid_days_follow_each_other_and_columns_are_weekdays() {
    let (weeks, _) = month_grid(day(2024, 2, 29), day(2026, 10, 28));
    let mut expected = day(2024, 1, 28);
    for week in &weeks {
        for (column, cell) in week.iter().enumerate() {
            assert_eq!(cell.date, expected);
            assert_eq!(cell.date.weekday_from_sunday() as usize, column);
            assert_eq!(cell.in_month, cell.date.month == 2);
            assert!(!cell.is_today);
            expected = expected.next_day().unwrap();
        }
    }
}

#[test]
fn four_rows_for_a_february_that_begins_on_sunday() {
    let (weeks, rows) = month_grid(day(2026, 2, 10), day(2026, 10, 28));
    assert_eq!(rows, 4);
    assert_eq!(weeks[0][0].date, day(2026, 2, 1));
    assert_eq!(weeks[3][6].date, day(2026, 2, 28));
    assert!(weeks[3][6].in_month);
    assert!(!weeks[4][0].in_month);
}

#[test]
fn six_rows_for_a_long_month_that_begins_late_in_the_week() {
    assert_eq!(rows_of(2026, 8), 6);
    let (weeks, rows) = month_grid(day(2026, 8, 1), day(2026, 10, 28));
    assert_eq!(rows, 6);
    assert_eq!(weeks[0][6].date, day(2026, 8, 1));
    assert_eq!(weeks[5][1].date, day(2026, 8, 31));
    assert_eq!(rows_of(2026, 5), 6);
    assert_eq!(rows_of(2025, 11), 6);
}

#[test]
fn five_rows_for_most_months() {
    assert_eq!(rows_of(2026, 1), 5);
    assert_eq!(rows_of(2026, 3), 5);
    assert_eq!(rows_of(2026, 10), 5);
    assert_eq!(rows_of(2024, 2), 5);
    assert_eq!(rows_of(2026, 11), 5);
}

#[test]
fn shown_rows_hold_the_month() {
    for year in 2000..2060 {
        for month in 1..=12 {
            let view = day(year, month, 1);
            let (weeks, rows) = month_grid(view, view);
            assert!((4..=6).contains(&rows));
            let lead = view.weekday_from_sunday() as usize;
            let length = view.last_of_month().day as usize;
            let span = lead + length - 1;
            if span == 28 {
                assert_eq!(rows, 4);
                continue;
            }
            assert_eq!(rows, (lead + length + 6) / 7);
            let last = &weeks[rows - 1];
            assert!(last.iter().any(|cell| cell.in_month && cell.date.day as usize == length));
            for week in &weeks[rows..] {
                assert!(week.iter().all(|cell| !cell.in_month));
            }
        }
    }
}

#[test]
fn a_month_that_ends_on_the_first_day_of_a_fifth_week_shows_four() {
    let (weeks, rows) = month_grid(day(2021, 2, 1), day(2026, 10, 28));
    assert_eq!(rows, 4);
    assert_eq!(weeks[0][1].date, day(2021, 2, 1));
    assert_eq!(weeks[4][0].date, day(2021, 2, 28));
    assert!(weeks[4][0].in_month);
    let (weeks, rows) = month_grid(day(2032, 2, 1), day(2026, 10, 28));
    assert_eq!(rows, 4);
    assert_eq!(weeks[4][0].date, day(2032, 2, 29));
}

#[test]
fn grid_fits_away_from_the_ends_of_the_calendar() {
    assert!(check_grid_fits(&day(2026, 10, 28)));
    assert!(check_grid_fits(&day(-262_142, 1, 1)));
    assert!(check_grid_fits(&day(262_141, 12, 31)));
    assert!(!check_grid_fits(&day(262_142, 12, 1)));
    assert!(check_grid_fits(&day(262_142, 10, 1)));
    assert_eq!(day(-262_143, 1, 1).weekday_from_sunday(), 4);
    assert!(!check_grid_fits(&day(-262_143, 1, 1)));
    assert!(check_grid_fits(&day(-262_143, 2, 1)));
}

//! The month grid: six weeks of seven days, Sunday first, that hold the month
//! in view, and the number of those weeks that are shown.

use crate::date::{
    day_number_of, days_in_month, lemma_day_number_in_range, lemma_day_number_injective,
    max_day_number, min_day_number, month_length, CalendarDate, MAX_DAY_NUMBER, MIN_DAY_NUMBER,
};
use vstd::prelude::*;

verus! {

/// One day of the grid.
#[derive(Clone, Copy, Debug, PartialEq, Eq, Structural)]
pub struct DayCell {
    pub date: CalendarDate,
    /// The day belongs to the month in view.
    pub in_month: bool,
    /// The day is today.
    pub is_today: bool,
}

/// The day number of the first day of the month of `view`.
pub open spec fn month_start_number(view: CalendarDate) -> int {
    day_number_of(view.year as int, view.month as int, 1)
}

/// Number of days of the first week that lie before the month: the weekday of
/// its first day, counted from Sunday.
pub open spec fn lead_days(view: CalendarDate) -> int {
    month_start_number(view) % 7
}

/// The day number of the first day of the grid: the Sunday on or before the
/// first day of the month.
pub open spec fn grid_start_number(view: CalendarDate) -> int {
    month_start_number(view) - lead_days(view)
}

/// Number of days from the first day of the grid to the last day of the
/// month.
pub open spec fn grid_span(view: CalendarDate) -> int {
    lead_days(view) + days_in_month(view.year as int, view.month as int) - 1
}

/// Number of weeks that are shown.
pub open spec fn row_count(view: CalendarDate) -> int {
    if grid_span(view) > 34 {
        6
    } else if grid_span(view) < 29 {
        4
    } else {
        5
    }
}

/// Whether all 42 days of the grid lie in supported years.
pub open spec fn grid_fits(view: CalendarDate) -> bool {
    min_day_number() <= grid_start_number(view) && grid_start_number(view) + 41
        <= max_day_number()
}

/// What the cell of week `week` and weekday `day` holds.
pub open spec fn cell_matches(
    cell: DayCell,
    view: CalendarDate,
    today: CalendarDate,
    week: int,
    day: int,
) -> bool {
    &&& cell.date.is_valid()
    &&& cell.date.day_number() == grid_start_number(view) + 7 * week + day
    &&& cell.in_month == (cell.date.month == view.month)
    &&& cell.is_today == (cell.date == today)
}

/// Whether `weeks` is the grid for `view`.
pub open spec fn is_month_grid(
    weeks: Seq<Vec<DayCell>>,
    view: CalendarDate,
    today: CalendarDate,
) -> bool {
    &&& weeks.len() == 6
    &&& forall|week: int| 0 <= week < 6 ==> (#[trigger] weeks[week]).len() == 7
    &&& forall|week: int, day: int|
        0 <= week < 6 && 0 <= day < 7 ==> cell_matches(
            #[trigger] weeks[week][day],
            view,
            today,
            week,
            day,
        )
}

/// Whether the grid of the month of `view` lies in supported years.
pub fn check_grid_fits(view: &CalendarDate) -> (fits: bool)
    requires
        view.is_valid(),
    ensures
        fits == grid_fits(*view),
{
    let first = view.first_of_month();
    let lead = first.weekday_from_sunday();
    let start: i64 = first.to_day_number() as i64 - lead as i64;
    proof {
        crate::date::lemma_range_of_day_numbers();
    }
    MIN_DAY_NUMBER as i64 <= start && start + 41 <= MAX_DAY_NUMBER as i64
}

/// The grid for the month of `view`: six weeks of seven days from the Sunday
/// on or before the first of the month, each day marked as in the month or
/// not and as today or not; and the number of weeks to show.
pub fn month_grid(view: CalendarDate, today: CalendarDate) -> (out: (Vec<Vec<DayCell>>, usize))
    requires
        view.is_valid(),
        grid_fits(view),
    ensures
        is_month_grid(out.0@, view, today),
        out.1 as int == row_count(view),
{
    let first = view.first_of_month();
    let lead = first.weekday_from_sunday();
    let length = month_length(view.year, view.month);
    let span = lead + length - 1;
    let rows: usize = if span > 34 {
        6
    } else if span < 29 {
        4
    } else {
        5
    };
    proof {
        lemma_day_number_in_range(first);
        crate::date::lemma_range_of_day_numbers();
    }
    let start: i32 = first.to_day_number() - lead as i32;
    let mut weeks: Vec<Vec<DayCell>> = Vec::new();
    let mut week: i32 = 0;
    while week < 6
        invariant
            0 <= week <= 6,
            view.is_valid(),
            grid_fits(view),
            start as int == grid_start_number(view),
            weeks.len() == week,
            forall|w: int| 0 <= w < week ==> (#[trigger] weeks@[w]).len() == 7,
            forall|w: int, d: int|
                0 <= w < week && 0 <= d < 7 ==> cell_matches(
                    #[trigger] weeks@[w][d],
                    view,
                    today,
                    w,
                    d,
                ),
        decreases 6 - week,
    {
        let mut days: Vec<DayCell> = Vec::new();
        let mut day: i32 = 0;
        while day < 7
            invariant
                0 <= day <= 7,
                0 <= week < 6,
                view.is_valid(),
                grid_fits(view),
                start as int == grid_start_number(view),
                days.len() == day,
                forall|d: int|
                    0 <= d < day ==> cell_matches(#[trigger] days@[d], view, today, week as int, d),
            decreases 7 - day,
        {
            proof {
                crate::date::lemma_range_of_day_numbers();
            }
            let date = match CalendarDate::from_day_number(start + week * 7 + day) {
                Some(date) => date,
                None => vstd::pervasive::unreached(),
            };
            days.push(
                DayCell { date, in_month: date.month == view.month, is_today: date == today },
            );
            day += 1;
        }
        weeks.push(days);
        week += 1;
    }
    (weeks, rows)
}

/// Four, five or six weeks are shown.
pub proof fn lemma_row_count_bounds(view: CalendarDate)
    ensures
        4 <= row_count(view) <= 6,
{
}

/// The first day of the grid is a Sunday, and the first day of the month
/// lies in its first week.
pub proof fn lemma_grid_starts_on_sunday(view: CalendarDate)
    ensures
        grid_start_number(view) % 7 == 0,
        0 <= lead_days(view) < 7,
        month_start_number(view) == grid_start_number(view) + lead_days(view),
{
}

/// The weeks that are shown hold every day of the month, and no smaller
/// number of weeks does: the last day of the month lies in the last week
/// shown. This is stated for every month but those whose last day is the
/// 29th day of the grid, which the count leaves to a fifth week that it does
/// not show.
pub proof fn lemma_shown_rows_hold_month(view: CalendarDate, day: int)
    requires
        view.is_valid(),
        1 <= day <= days_in_month(view.year as int, view.month as int),
        grid_span(view) != 28,
    ensures
        ({
            let place = day_number_of(view.year as int, view.month as int, day)
                - grid_start_number(view);
            0 <= place < 7 * row_count(view)
        }),
        ({
            let last = day_number_of(
                view.year as int,
                view.month as int,
                days_in_month(view.year as int, view.month as int),
            ) - grid_start_number(view);
            7 * (row_count(view) - 1) <= last < 7 * row_count(view)
        }),
{
}

/// The cell at a place of the grid that a day of the month takes holds that
/// day, and is marked as in the month.
pub proof fn lemma_grid_holds_day(
    weeks: Seq<Vec<DayCell>>,
    view: CalendarDate,
    today: CalendarDate,
    day: int,
)
    requires
        view.is_valid(),
        is_month_grid(weeks, view, today),
        1 <= day <= days_in_month(view.year as int, view.month as int),
    ensures
        ({
            let place = lead_days(view) + day - 1;
            let cell = weeks[place / 7][place % 7];
            &&& 0 <= place < 42
            &&& cell.date == (CalendarDate {
                year: view.year,
                month: view.month,
                day: day as u32,
            })
            &&& cell.in_month
        }),
{
    let place = lead_days(view) + day - 1;
    let cell = weeks[place / 7][place % 7];
    let expected = CalendarDate { year: view.year, month: view.month, day: day as u32 };
    assert(cell_matches(cell, view, today, place / 7, place % 7));
    lemma_day_number_injective(cell.date, expected);
}

} // verus!

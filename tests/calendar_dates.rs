use task_calendar::calendar::{days_in_month, CalendarDate};

fn date(year: i32, month: u32, day: u32) -> CalendarDate {
    CalendarDate::new(year, month, day).unwrap()
}

fn ymd(d: CalendarDate) -> (i32, u32, u32) {
    (d.year, d.month, d.day)
}

fn known_length(year: i32, month: u32) -> u32 {
    let leap = (year % 4 == 0 && year % 100 != 0) || year % 400 == 0;
    match month {
        2 => {
            if leap {
                29
            } else {
                28
            }
        }
        4 | 6 | 9 | 11 => 30,
        _ => 31,
    }
}

#[test]
fn leap_februaries() {
    assert_eq!(days_in_month(2024, 2), 29);
    assert_eq!(days_in_month(2023, 2), 28);
    assert_eq!(days_in_month(1900, 2), 28);
    assert_eq!(days_in_month(2000, 2), 29);
    assert_eq!(days_in_month(2100, 2), 28);
}

#[test]
fn month_lengths_of_2023() {
    let expected = [31, 28, 31, 30, 31, 30, 31, 31, 30, 31, 30, 31];
    for m in 1..=12u32 {
        assert_eq!(days_in_month(2023, m), expected[(m - 1) as usize]);
    }
}

#[test]
fn month_lengths_1900_to_2100() {
    for y in 1900..=2100 {
        for m in 1..=12u32 {
            assert_eq!(days_in_month(y, m), known_length(y, m), "{}-{}", y, m);
        }
    }
}

#[test]
fn new_rejects_missing_dates() {
    assert!(CalendarDate::new(2023, 2, 29).is_none());
    assert!(CalendarDate::new(2024, 2, 29).is_some());
    assert!(CalendarDate::new(2024, 13, 1).is_none());
    assert!(CalendarDate::new(2024, 0, 1).is_none());
    assert!(CalendarDate::new(2024, 4, 0).is_none());
    assert!(CalendarDate::new(2024, 4, 31).is_none());
    assert!(CalendarDate::new(300_000, 1, 1).is_none());
}

#[test]
fn day_steps_roll_over_months_and_years() {
    assert_eq!(ymd(date(2024, 1, 31).next_day()), (2024, 2, 1));
    assert_eq!(ymd(date(2024, 2, 28).next_day()), (2024, 2, 29));
    assert_eq!(ymd(date(2023, 12, 31).next_day()), (2024, 1, 1));
    assert_eq!(ymd(date(2024, 1, 1).previous_day()), (2023, 12, 31));
    assert_eq!(ymd(date(2024, 3, 1).previous_day()), (2024, 2, 29));
    assert_eq!(ymd(date(2023, 3, 1).previous_day()), (2023, 2, 28));
    assert_eq!(ymd(date(2024, 5, 10).previous_day()), (2024, 5, 9));
}

#[test]
fn next_then_previous_day_round_trip() {
    let mut d = date(2023, 1, 1);
    while d.year < 2026 {
        assert_eq!(ymd(d.next_day().previous_day()), ymd(d));
        d = d.next_day();
    }
}

#[test]
fn a_year_of_next_days() {
    for (year, length) in [(2023, 365), (2024, 366), (1900, 365), (2000, 366)] {
        let mut d = date(year, 1, 1);
        for _ in 0..length {
            d = d.next_day();
        }
        assert_eq!(ymd(d), (year + 1, 1, 1));
    }
}

#[test]
fn weeks_inverse_inside_a_month() {
    let d = date(2024, 5, 10);
    assert_eq!(ymd(d.next_week()), (2024, 5, 17));
    assert_eq!(ymd(d.next_week().previous_week()), (2024, 5, 10));
    assert_eq!(ymd(d.previous_week()), (2024, 5, 3));
    assert_eq!(ymd(d.previous_week().next_week()), (2024, 5, 10));
}

#[test]
fn week_steps_across_month_ends() {
    assert_eq!(ymd(date(2024, 1, 30).next_week()), (2024, 2, 6));
    assert_eq!(ymd(date(2024, 2, 6).previous_week()), (2024, 1, 30));
    assert_eq!(ymd(date(2023, 12, 28).next_week()), (2024, 1, 4));
    assert_eq!(ymd(date(2024, 1, 3).previous_week()), (2023, 12, 27));
    assert_eq!(ymd(date(2024, 2, 25).next_week()), (2024, 3, 3));
    assert_eq!(ymd(date(2023, 3, 2).previous_week()), (2023, 2, 23));
}

#[test]
fn month_grid_starts_on_monday() {
    // January 2024 begins on a Monday.
    let cells = date(2024, 1, 20).month_grid();
    assert_eq!(cells.len(), 42);
    assert_eq!(cells[0], 1);
    assert_eq!(cells[30], 31);
    assert_eq!(cells[31], 0);
    // September 2024 begins on a Sunday.
    let cells = date(2024, 9, 1).month_grid();
    assert_eq!(cells[5], 0);
    assert_eq!(cells[6], 1);
    assert_eq!(cells[35], 30);
    assert_eq!(cells[36], 0);
}

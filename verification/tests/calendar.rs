use compositor_slint::calendar::{add_months, build_calendar_grid_for, calendar_page, clock_text, date_labels, Date, GRID_CELLS};

fn day(year: i32, month: u32, day: u32) -> Date {
    Date { year, month, day }
}

#[test]
fn the_day_is_clamped_to_the_month() {
    assert_eq!(add_months(day(2023, 1, 31), 1), day(2023, 2, 28));
    assert_eq!(add_months(day(2024, 1, 31), 1), day(2024, 2, 29));
    assert_eq!(add_months(day(1900, 1, 31), 1), day(1900, 2, 28));
    assert_eq!(add_months(day(2000, 1, 31), 1), day(2000, 2, 29));
}

#[test]
fn months_cross_years_both_ways() {
    assert_eq!(add_months(day(2026, 11, 16), 2), day(2027, 1, 16));
    assert_eq!(add_months(day(2026, 1, 16), -1), day(2025, 12, 16));
    assert_eq!(add_months(day(1, 1, 5), -13), day(-1, 12, 5));
}

#[test]
fn there_and_back_again() {
    let today = day(2026, 11, 16);
    assert_eq!(add_months(add_months(today, 30), -30), today);
    assert_eq!(add_months(today, 0), today);
}

#[test]
fn months_add_up() {
    let today = day(2026, 11, 28);
    assert_eq!(add_months(add_months(today, 3), 14), add_months(today, 17));
    assert_eq!(add_months(add_months(today, -9), 5), day(2026, 7, 28));
    // The day of a long month is lost on the way through a short one.
    assert_eq!(add_months(add_months(day(2026, 1, 31), 1), 1), day(2026, 3, 28));
    assert_eq!(add_months(day(2026, 1, 31), 2), day(2026, 3, 31));
}

#[test]
fn november_2026_begins_on_a_sunday() {
    let cells = build_calendar_grid_for(day(2026, 11, 1), day(2026, 11, 16));
    assert_eq!(cells.len(), GRID_CELLS);
    // Six days of October come first.
    assert_eq!(cells[0].day_num, 26);
    assert!(cells[0].is_other_month);
    assert_eq!(cells[6].day_num, 1);
    assert!(!cells[6].is_other_month);
    assert_eq!(cells[35].day_num, 30);
    assert_eq!(cells[36].day_num, 1);
    assert!(cells[36].is_other_month);
    assert_eq!(cells[41].day_num, 6);
}

#[test]
fn only_today_is_marked() {
    let today = day(2026, 11, 16);
    let cells = build_calendar_grid_for(today, today);
    let marked: Vec<i32> = cells.iter().filter(|c| c.is_today).map(|c| c.day_num).collect();
    assert_eq!(marked, vec![16]);
    let other = build_calendar_grid_for(day(2026, 12, 16), today);
    assert!(other.iter().all(|c| !c.is_today));
}

#[test]
fn every_day_of_a_leap_february_is_shown() {
    let cells = build_calendar_grid_for(day(2024, 2, 10), day(2026, 1, 1));
    let shown: Vec<i32> = cells.iter().filter(|c| !c.is_other_month).map(|c| c.day_num).collect();
    assert_eq!(shown, (1..=29).collect::<Vec<i32>>());
}

#[test]
fn a_page_has_its_month_for_a_title() {
    let page = calendar_page(day(2026, 11, 16), 1);
    assert_eq!(page.title, "December 2026");
    assert_eq!(page.days.len(), 42);
    assert_eq!(page.days[0].day_num, 30);
}

#[test]
fn the_panel_shows_the_date() {
    let labels = date_labels(day(2026, 4, 29));
    assert_eq!(labels.panel, "Wed 29 Apr");
    assert_eq!(labels.popout, "Wednesday, 29 April");
    assert_eq!(labels.weekday, "Wednesday");
}

#[test]
fn the_clock_has_two_digits_each() {
    assert_eq!(clock_text(0, 0, 0), "00:00:00");
    assert_eq!(clock_text(9, 5, 59), "09:05:59");
    assert_eq!(clock_text(23, 41, 7), "23:41:07");
}

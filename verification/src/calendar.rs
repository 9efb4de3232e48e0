//! The month grid of the panel's calendar.

use chrono::{Datelike, NaiveDate, NaiveTime, TimeDelta};

use vstd::prelude::*;

use crate::text::digit_char;

verus! {

/// The first and the last year that dates are computed for.
pub const FIRST_YEAR: i32 = -262_143;

pub const LAST_YEAR: i32 = 262_142;

/// How many cells the grid has: six weeks.
pub const GRID_CELLS: usize = 42;

/// A date of the proleptic Gregorian calendar; months and days count from one.
#[derive(Clone, Copy, Debug, PartialEq, Eq, Structural)]
pub struct Date {
    pub year: i32,
    pub month: u32,
    pub day: u32,
}

/// One cell of the grid.
#[derive(Clone, Copy, Debug, PartialEq, Eq, Structural)]
pub struct CalendarDay {
    pub day_num: i32,
    pub is_today: bool,
    /// The cell belongs to the month before or after the one shown.
    pub is_other_month: bool,
}

pub open spec fn is_leap(year: int) -> bool {
    year % 4 == 0 && (year % 100 != 0 || year % 400 == 0)
}

/// How many days a month has.
pub open spec fn month_length(year: int, month: int) -> int {
    if month == 2 {
        if is_leap(year) {
            29
        } else {
            28
        }
    } else if month == 4 || month == 6 || month == 9 || month == 11 {
        30
    } else {
        31
    }
}

/// How many days of the year come before a month.
pub open spec fn days_before_month(year: int, month: int) -> int
    decreases month,
{
    if month <= 1 {
        0
    } else {
        days_before_month(year, month - 1) + month_length(year, month - 1)
    }
}

/// The number of a day, counted from day one, the first of January of year one.
pub open spec fn day_number(year: int, month: int, day: int) -> int {
    let past = year - 1;
    365 * past + past / 4 - past / 100 + past / 400 + days_before_month(year, month) + day
}

/// The number of a month, counted from January of year zero.
pub open spec fn month_number(year: int, month: int) -> int {
    12 * year + month - 1
}

/// Whether dates of the month with this number can be computed.
pub open spec fn month_in_range(number: int) -> bool {
    month_number(FIRST_YEAR as int, 1) <= number <= month_number(LAST_YEAR as int, 12)
}

impl Date {
    /// The date exists and its year can be computed with.
    pub open spec fn valid(self) -> bool {
        &&& FIRST_YEAR <= self.year <= LAST_YEAR
        &&& 1 <= self.month <= 12
        &&& 1 <= self.day <= month_length(self.year as int, self.month as int)
    }

    pub open spec fn number(self) -> int {
        day_number(self.year as int, self.month as int, self.day as int)
    }

    pub open spec fn in_month(self) -> int {
        month_number(self.year as int, self.month as int)
    }
}

/// The number of days from `from` to `to`, by the subtraction of two
/// `chrono::NaiveDate`s: the difference of the two day numbers in the proleptic
/// Gregorian calendar.
#[verifier::external_body]
fn days_between(from: Date, to: Date) -> (days: i64)
    requires
        from.valid(),
        to.valid(),
    ensures
        days == to.number() - from.number(),
{
    let start = NaiveDate::from_ymd_opt(from.year, from.month, from.day).unwrap();
    let end = NaiveDate::from_ymd_opt(to.year, to.month, to.day).unwrap();
    (end - start).num_days()
}

/// How many days after a Monday a date is, by `chrono::Datelike::weekday` and
/// `chrono::Weekday::num_days_from_monday`. The first of January of year one is
/// a Monday.
#[verifier::external_body]
fn days_from_monday(date: Date) -> (days: u32)
    requires
        date.valid(),
    ensures
        days == (date.number() - 1) % 7,
{
    NaiveDate::from_ymd_opt(date.year, date.month, date.day).unwrap().weekday().num_days_from_monday()
}

/// The date one day earlier, by the subtraction of a `chrono::TimeDelta` from a
/// `chrono::NaiveDate`. It panics on the first date that can be computed.
#[verifier::external_body]
fn day_before(date: Date) -> (before: Date)
    requires
        date.valid(),
        date.number() > day_number(FIRST_YEAR as int, 1, 1),
    ensures
        before.valid(),
        before.number() == date.number() - 1,
{
    let d = NaiveDate::from_ymd_opt(date.year, date.month, date.day).unwrap() - TimeDelta::days(1);
    Date { year: d.year(), month: d.month(), day: d.day() }
}

/// What `chrono::NaiveDate::format` writes for a date with a pattern.
pub uninterp spec fn date_formatted(year: int, month: int, day: int, pattern: Seq<char>) -> Seq<char>;

/// The patterns that dates are written with.
pub open spec fn is_pattern(pattern: Seq<char>) -> bool {
    pattern == "%B %Y"@ || pattern == "%a %-d %b"@ || pattern == "%A, %-d %B"@ || pattern == "%A"@
}

/// Writes a date with `chrono::NaiveDate::format`; English month and day names,
/// whatever the locale. The text is the value of `date_formatted`.
#[verifier::external_body]
fn format_date(date: Date, pattern: &str) -> (text: String)
    requires
        date.valid(),
        is_pattern(pattern@),
    ensures
        text@ == date_formatted(date.year as int, date.month as int, date.day as int, pattern@),
{
    NaiveDate::from_ymd_opt(date.year, date.month, date.day).unwrap().format(pattern).to_string()
}

/// The first day of the month that follows.
pub open spec fn next_first(year: int, month: int) -> (int, int) {
    if month == 12 {
        (year + 1, 1)
    } else {
        (year, month + 1)
    }
}

/// A month is as long as the days from its first to the next month's first.
proof fn lemma_month_span(year: int, month: int)
    requires
        1 <= month <= 12,
    ensures
        ({
            let next = next_first(year, month);
            day_number(next.0, next.1, 1) - day_number(year, month, 1) == month_length(year, month)
        }),
        month_number(next_first(year, month).0, next_first(year, month).1) == month_number(year, month) + 1,
        28 <= month_length(year, month) <= 31,
{
    if month == 12 {
        reveal_with_fuel(days_before_month, 13);
        assert(365 + (if is_leap(year) {
            1int
        } else {
            0int
        }) == 365 + year / 4 - (year - 1) / 4 - (year / 100 - (year - 1) / 100) + year / 400 - (year - 1) / 400);
        assert(days_before_month(year, 12) + 31 == 365 + if is_leap(year) {
            1int
        } else {
            0int
        });
    }
}

/// Day numbers of consecutive months do not overlap.
proof fn lemma_month_order(a: int, b: int)
    requires
        a <= b,
    ensures
        a < b ==> day_number(a / 12, a % 12 + 1, 1) + month_length(a / 12, a % 12 + 1) <= day_number(
            b / 12,
            b % 12 + 1,
            1,
        ),
    decreases b - a,
{
    if a < b {
        lemma_month_order(a, b - 1);
        let y = (b - 1) / 12;
        let m = (b - 1) % 12 + 1;
        lemma_month_span(y, m);
        assert(next_first(y, m) == (b / 12, b % 12 + 1));
        if a < b - 1 {
            assert(month_length(y, m) >= 28);
        }
    }
}

/// The date just before the first of a month is the last of the month before.
proof fn lemma_before_first(first: Date, before: Date)
    requires
        1 <= first.month <= 12,
        first.day == 1,
        before.valid(),
        before.number() == first.number() - 1,
    ensures
        before.in_month() == first.in_month() - 1,
        before.day == month_length(before.year as int, before.month as int),
{
    let a = before.in_month();
    let b = first.in_month();
    assert(a / 12 == before.year && a % 12 + 1 == before.month);
    assert(b / 12 == first.year && b % 12 + 1 == first.month);
    lemma_month_span(before.year as int, before.month as int);
    if a >= b {
        lemma_month_order(b, a);
    } else if a < b - 1 {
        lemma_month_order(a, b - 1);
        lemma_month_span((b - 1) / 12, (b - 1) % 12 + 1);
        assert(next_first((b - 1) / 12, (b - 1) % 12 + 1) == (b / 12, b % 12 + 1));
    } else {
        assert(next_first(a / 12, a % 12 + 1) == (b / 12, b % 12 + 1));
    }
}

/// How many days the month has.
fn length_of_month(year: i32, month: u32) -> (days: u32)
    requires
        1 <= month <= 12,
        FIRST_YEAR <= year,
        month_in_range(month_number(year as int, month as int) + 1),
    ensures
        days == month_length(year as int, month as int),
{
    proof {
        lemma_month_span(year as int, month as int);
    }
    let first = Date { year, month, day: 1 };
    let next = if month == 12 {
        Date { year: year + 1, month: 1, day: 1 }
    } else {
        Date { year, month: month + 1, day: 1 }
    };
    days_between(first, next) as u32
}

/// The date `delta` months after `base`, on the same day or, where that month is
/// shorter, on its last.
pub open spec fn months_later(base: Date, delta: int) -> Date {
    let number = base.in_month() + delta;
    let year = number / 12;
    let month = number % 12 + 1;
    Date {
        year: year as i32,
        month: month as u32,
        day: if base.day < month_length(year, month) {
            base.day
        } else {
            month_length(year, month) as u32
        },
    }
}

/// Adds `delta` months to `base`, clamping the day to what the month has.
pub fn add_months(base: Date, delta: i32) -> (r: Date)
    requires
        base.valid(),
        month_in_range(base.in_month() + delta),
        month_in_range(base.in_month() + delta + 1),
    ensures
        r == months_later(base, delta as int),
        r.valid(),
{
    let total: i32 = base.year * 12 + (base.month as i32 - 1) + delta;
    let year: i32 = if total >= 0 {
        total / 12
    } else {
        -((11 - total) / 12)
    };
    let month: u32 = (total - year * 12 + 1) as u32;
    proof {
        lemma_month_span(year as int, month as int);
    }
    let last_day: u32 = length_of_month(year, month);
    let day: u32 = if base.day < last_day {
        base.day
    } else {
        last_day
    };
    Date { year, month, day }
}

/// Where in its week, from Monday, the month shown begins.
pub open spec fn lead_of(shown: Date) -> int {
    (day_number(shown.year as int, shown.month as int, 1) - 1) % 7
}

/// What cell `i` of the grid shows.
pub open spec fn grid_cell(shown: Date, today: Date, i: int) -> CalendarDay {
    let lead = lead_of(shown);
    let length = month_length(shown.year as int, shown.month as int);
    let before = shown.in_month() - 1;
    if i < lead {
        CalendarDay {
            day_num: (month_length(before / 12, before % 12 + 1) - lead + 1 + i) as i32,
            is_today: false,
            is_other_month: true,
        }
    } else if i < lead + length {
        CalendarDay {
            day_num: (i - lead + 1) as i32,
            is_today: today.year == shown.year && today.month == shown.month && today.day == i - lead + 1,
            is_other_month: false,
        }
    } else {
        CalendarDay { day_num: (i - lead - length + 1) as i32, is_today: false, is_other_month: true }
    }
}

/// The cells for the month of `displayed`, weeks starting on Monday, filled up
/// with days of the months around it. Today is marked where the month shown is
/// today's.
pub fn build_calendar_grid_for(displayed: Date, today: Date) -> (cells: Vec<CalendarDay>)
    requires
        displayed.valid(),
        month_in_range(displayed.in_month() - 1),
        month_in_range(displayed.in_month() + 1),
    ensures
        cells@ == Seq::new(GRID_CELLS as nat, |i: int| grid_cell(displayed, today, i)),
{
    let first = Date { year: displayed.year, month: displayed.month, day: 1 };
    proof {
        lemma_month_span(first.year as int, first.month as int);
        lemma_month_order(month_number(FIRST_YEAR as int, 1), first.in_month());
        assert(first.in_month() / 12 == first.year && first.in_month() % 12 + 1 == first.month);
        assert(month_number(FIRST_YEAR as int, 1) / 12 == FIRST_YEAR && month_number(FIRST_YEAR as int, 1) % 12
            + 1 == 1);
        assert(month_length(FIRST_YEAR as int, 1) == 31);
    }
    let lead: u32 = days_from_monday(first);
    let length: u32 = length_of_month(displayed.year, displayed.month);
    let highlight: bool = today.year == displayed.year && today.month == displayed.month;
    let last = day_before(first);
    proof {
        lemma_before_first(first, last);
        let before = last.in_month();
        assert(before / 12 == last.year && before % 12 + 1 == last.month);
        lemma_month_span(last.year as int, last.month as int);
    }
    let mut cells: Vec<CalendarDay> = Vec::new();
    let mut i: u32 = 0;
    while i < lead
        invariant
            i <= lead,
            0 <= lead < 7,
            lead == lead_of(displayed),
            28 <= last.day <= 31,
            last.day == month_length((displayed.in_month() - 1) / 12, (displayed.in_month() - 1) % 12 + 1),
            cells@ == Seq::new(i as nat, |k: int| grid_cell(displayed, today, k)),
        decreases lead - i,
    {
        cells.push(
            CalendarDay { day_num: (last.day - lead + 1 + i) as i32, is_today: false, is_other_month: true },
        );
        i += 1;
    }
    let mut d: u32 = 1;
    while d <= length
        invariant
            1 <= d <= length + 1,
            28 <= length <= 31,
            0 <= lead < 7,
            lead == lead_of(displayed),
            length == month_length(displayed.year as int, displayed.month as int),
            highlight == (today.year == displayed.year && today.month == displayed.month),
            cells@ == Seq::new((lead + d - 1) as nat, |k: int| grid_cell(displayed, today, k)),
        decreases length + 1 - d,
    {
        cells.push(
            CalendarDay { day_num: d as i32, is_today: highlight && d == today.day, is_other_month: false },
        );
        d += 1;
    }
    let mut trail: u32 = 1;
    while cells.len() < GRID_CELLS
        invariant
            cells@.len() <= GRID_CELLS,
            28 <= length <= 31,
            0 <= lead < 7,
            cells@.len() == lead + length + trail - 1,
            1 <= trail <= 15,
            lead == lead_of(displayed),
            length == month_length(displayed.year as int, displayed.month as int),
            cells@ == Seq::new(cells@.len(), |k: int| grid_cell(displayed, today, k)),
        decreases GRID_CELLS - cells@.len(),
    {
        cells.push(CalendarDay { day_num: trail as i32, is_today: false, is_other_month: true });
        trail += 1;
    }
    cells
}

/// The calendar page that is browsed to.
#[derive(Debug)]
pub struct CalendarPage {
    pub title: String,
    pub days: Vec<CalendarDay>,
}

/// The page `offset` months from today's: its month and year, and its grid.
pub fn calendar_page(today: Date, offset: i32) -> (page: CalendarPage)
    requires
        today.valid(),
        month_in_range(today.in_month() + offset - 1),
        month_in_range(today.in_month() + offset + 1),
    ensures
        ({
            let shown = months_later(today, offset as int);
            &&& page.title@ == date_formatted(shown.year as int, shown.month as int, shown.day as int, "%B %Y"@)
            &&& page.days@ == Seq::new(GRID_CELLS as nat, |i: int| grid_cell(shown, today, i))
        }),
{
    let shown = add_months(today, offset);
    let title = format_date(shown, "%B %Y");
    let days = build_calendar_grid_for(shown, today);
    CalendarPage { title, days }
}

/// The dates that the panel shows.
#[derive(Debug)]
pub struct DateLabels {
    /// Beside the clock.
    pub panel: String,
    /// In the opened calendar.
    pub popout: String,
    pub weekday: String,
}

pub fn date_labels(today: Date) -> (labels: DateLabels)
    requires
        today.valid(),
    ensures
        ({
            let (y, m, d) = (today.year as int, today.month as int, today.day as int);
            &&& labels.panel@ == date_formatted(y, m, d, "%a %-d %b"@)
            &&& labels.popout@ == date_formatted(y, m, d, "%A, %-d %B"@)
            &&& labels.weekday@ == date_formatted(y, m, d, "%A"@)
        }),
{
    DateLabels {
        panel: format_date(today, "%a %-d %b"),
        popout: format_date(today, "%A, %-d %B"),
        weekday: format_date(today, "%A"),
    }
}

/// A number below a hundred with two digits.
pub open spec fn two_digits(n: int) -> Seq<char> {
    seq![digit_char(n / 10), digit_char(n % 10)]
}

/// A time of day, as the clock shows it.
pub open spec fn clock_face(hour: int, minute: int, second: int) -> Seq<char> {
    two_digits(hour) + seq![':'] + two_digits(minute) + seq![':'] + two_digits(second)
}

/// Writes a time with `chrono::NaiveTime::format` and the pattern `%H:%M:%S`: hours
/// of 24, minutes and seconds, each with two digits.
#[verifier::external_body]
fn format_time(hour: u32, minute: u32, second: u32) -> (text: String)
    requires
        hour < 24,
        minute < 60,
        second < 60,
    ensures
        text@ == clock_face(hour as int, minute as int, second as int),
{
    NaiveTime::from_hms_opt(hour, minute, second).unwrap().format("%H:%M:%S").to_string()
}

/// What the panel's clock shows.
pub fn clock_text(hour: u32, minute: u32, second: u32) -> (text: String)
    requires
        hour < 24,
        minute < 60,
        second < 60,
    ensures
        text@ == clock_face(hour as int, minute as int, second as int),
{
    format_time(hour, minute, second)
}

/// Moving by no months changes nothing.
pub proof fn law_no_months_later(base: Date)
    requires
        base.valid(),
    ensures
        months_later(base, 0) == base,
{
    assert(base.in_month() / 12 == base.year && base.in_month() % 12 + 1 == base.month);
}

/// Two moves by months are one move by all of them, as long as every month has its day.
pub proof fn law_months_add_up(base: Date, a: int, b: int)
    requires
        base.valid(),
        base.day <= 28,
        month_in_range(base.in_month() + a),
    ensures
        months_later(months_later(base, a), b) == months_later(base, a + b),
{
    let number = base.in_month() + a;
    let there = months_later(base, a);
    assert(there.in_month() == number) by {
        assert(there.year == number / 12);
        assert(there.month == number % 12 + 1);
    }
    lemma_month_span(number / 12, number % 12 + 1);
    assert(there.day == base.day);
    let end = number + b;
    assert(end == base.in_month() + (a + b));
}

/// Moving forward and back by as many months gives the date back, as long as
/// every month has its day.
pub proof fn law_months_there_and_back(base: Date, delta: int)
    requires
        base.valid(),
        base.day <= 28,
        month_in_range(base.in_month() + delta),
    ensures
        months_later(months_later(base, delta), -delta) == base,
{
    let number = base.in_month() + delta;
    let there = months_later(base, delta);
    assert(there.year == number / 12);
    assert(there.month == number % 12 + 1);
    assert(there.in_month() == number);
    lemma_month_span(number / 12, number % 12 + 1);
    assert(base.in_month() / 12 == base.year && base.in_month() % 12 + 1 == base.month);
}

/// Every day of the month shown has a cell, in the column of its weekday.
pub proof fn law_grid_shows_every_day(shown: Date, today: Date, day: int)
    requires
        shown.valid(),
        1 <= day <= month_length(shown.year as int, shown.month as int),
    ensures
        ({
            let i = lead_of(shown) + day - 1;
            &&& 0 <= i < GRID_CELLS
            &&& grid_cell(shown, today, i).day_num == day
            &&& !grid_cell(shown, today, i).is_other_month
            &&& i % 7 == (day_number(shown.year as int, shown.month as int, day) - 1) % 7
        }),
{
    let (y, m) = (shown.year as int, shown.month as int);
    lemma_month_span(y, m);
    let first = day_number(y, m, 1) - 1;
    assert(day_number(y, m, day) - 1 == day - 1 + first);
    vstd::arithmetic::div_mod::lemma_add_mod_noop_right(day - 1, first, 7);
    assert(lead_of(shown) == first % 7);
}

/// At most one cell is marked as today.
pub proof fn law_grid_marks_one_day(shown: Date, today: Date, i: int, j: int)
    requires
        shown.valid(),
        grid_cell(shown, today, i).is_today,
        grid_cell(shown, today, j).is_today,
    ensures
        i == j,
        grid_cell(shown, today, i).day_num == today.day,
{
}

/// A date some months later lies that many months later, on the same day or on the
/// last one of a shorter month.
pub proof fn law_months_later(base: Date, delta: int)
    requires
        base.valid(),
        month_in_range(base.in_month() + delta),
    ensures
        ({
            let r = months_later(base, delta);
            &&& r.valid()
            &&& 12 * r.year + r.month == 12 * base.year + base.month + delta
            &&& r.day <= base.day
            &&& r.day < base.day ==> r.day == month_length(r.year as int, r.month as int)
        }),
{
}

/// A year has 366 days if it is divisible by four, but not by a hundred unless by four
/// hundred, and 365 otherwise.
pub proof fn law_year_length(year: int)
    ensures
        days_before_month(year, 13) == if year % 400 == 0 || (year % 4 == 0 && year % 100 != 0) {
            366int
        } else {
            365
        },
{
    reveal_with_fuel(days_before_month, 14);
}

/// The page of a month begins on a Monday. The days before the first are the last ones
/// of the month before, in order, and those behind the last count from one.
pub proof fn law_grid_goes_on(shown: Date, today: Date, i: int)
    requires
        shown.valid(),
        0 <= i < 42,
    ensures
        ({
            let lead = lead_of(shown);
            let length = month_length(shown.year as int, shown.month as int);
            let last = if shown.month == 1 {
                31int
            } else {
                month_length(shown.year as int, shown.month - 1)
            };
            let cell = grid_cell(shown, today, i);
            &&& 0 <= lead < 7
            &&& i < lead ==> cell.is_other_month && !cell.is_today && cell.day_num == last - (lead - 1 - i)
            &&& lead <= i < lead + length ==> !cell.is_other_month && cell.day_num == i - lead + 1
            &&& i >= lead + length ==> cell.is_other_month && !cell.is_today && cell.day_num == i - (lead + length) + 1
            &&& cell.is_today <==> !cell.is_other_month && (today.year, today.month) == (shown.year, shown.month)
                && today.day == cell.day_num
        }),
{
    let number = shown.in_month() - 1;
    if shown.month == 1 {
        assert(number % 12 + 1 == 12);
    } else {
        assert(number % 12 + 1 == shown.month - 1);
        assert(number / 12 == shown.year);
    }
}

/// Days are counted so that the week of the first of January 2024 begins with it.
pub proof fn law_weeks_begin_on_monday(weeks: int)
    ensures
        (day_number(2024, 1, 1) + 7 * weeks - 1) % 7 == 0,
        day_number(2024, 12, 31) - day_number(2024, 1, 1) == 365,
        day_number(2025, 1, 1) == day_number(2024, 12, 31) + 1,
{
    reveal_with_fuel(days_before_month, 14);
}

/// A clock shows two digits each for the hour, the minute and the second, with colons
/// between them.
pub proof fn law_clock_shows_time(hour: int, minute: int, second: int)
    requires
        0 <= hour < 24,
        0 <= minute < 60,
        0 <= second < 60,
    ensures
        ({
            let face = clock_face(hour, minute, second);
            &&& face.len() == 8
            &&& face[2] == ':' && face[5] == ':'
            &&& crate::text::decimal(face.subrange(0, 2)) == Some(hour)
            &&& crate::text::decimal(face.subrange(3, 5)) == Some(minute)
            &&& crate::text::decimal(face.subrange(6, 8)) == Some(second)
        }),
{
    let face = clock_face(hour, minute, second);
    assert(face.subrange(0, 2) =~= two_digits(hour));
    assert(face.subrange(3, 5) =~= two_digits(minute));
    assert(face.subrange(6, 8) =~= two_digits(second));
    lemma_two_digits(hour);
    lemma_two_digits(minute);
    lemma_two_digits(second);
}

proof fn lemma_two_digits(n: int)
    requires
        0 <= n < 100,
    ensures
        crate::text::decimal(two_digits(n)) == Some(n),
{
    reveal_with_fuel(crate::text::decimal, 3);
    let s = two_digits(n);
    assert(s.drop_last() =~= seq![digit_char(n / 10)]);
    assert(s.last() == digit_char(n % 10));
}

} // verus!

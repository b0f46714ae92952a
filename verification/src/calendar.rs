//! Calendar arithmetic on absolute instants.
//!
//! An instant is a count of nanoseconds since 1970-01-01T00:00:00Z, a
//! Thursday. Dates are proleptic Gregorian; weekdays are numbered from
//! Monday (0) to Sunday (6).

use vstd::prelude::*;
use crate::types::{Weekday, WeekdayOrdinal};

verus! {

/// Nanoseconds in a second.
pub const NANOS_PER_SECOND: u64 = 1_000_000_000;

/// Nanoseconds in a minute.
pub const NANOS_PER_MINUTE: u64 = 60_000_000_000;

/// Nanoseconds in a day.
pub const NANOS_PER_DAY: u64 = 86_400_000_000_000;

/// The last day, counted from the epoch, whose midnight is a `u64` instant.
pub const LAST_DAY: u64 = 213_503;

/// Divisible by 4, and not by 100 unless by 400.
pub open spec fn leap(y: int) -> bool {
    (y % 4 == 0 && y % 100 != 0) || y % 400 == 0
}

/// Days in year `y`.
pub open spec fn year_days(y: int) -> int {
    if leap(y) {
        366
    } else {
        365
    }
}

/// Days in month `m` of year `y`, and 0 where `m` is no month.
pub open spec fn month_days(y: int, m: int) -> int {
    if m == 1 || m == 3 || m == 5 || m == 7 || m == 8 || m == 10 || m == 12 {
        31
    } else if m == 4 || m == 6 || m == 9 || m == 11 {
        30
    } else if m == 2 {
        if leap(y) {
            29
        } else {
            28
        }
    } else {
        0
    }
}

/// Days from the epoch to the first day of year `y`; 0 up to 1970.
pub open spec fn days_before_year(y: int) -> int
    decreases y,
{
    if y <= 1970 {
        0
    } else {
        days_before_year(y - 1) + year_days(y - 1)
    }
}

/// Days of year `y` that lie before the first of month `m`.
pub open spec fn days_before_month(y: int, m: int) -> int {
    let l: int = if leap(y) {
        1
    } else {
        0
    };
    if m <= 1 {
        0
    } else if m == 2 {
        31
    } else if m == 3 {
        59 + l
    } else if m == 4 {
        90 + l
    } else if m == 5 {
        120 + l
    } else if m == 6 {
        151 + l
    } else if m == 7 {
        181 + l
    } else if m == 8 {
        212 + l
    } else if m == 9 {
        243 + l
    } else if m == 10 {
        273 + l
    } else if m == 11 {
        304 + l
    } else if m == 12 {
        334 + l
    } else {
        365 + l
    }
}

/// Days from the epoch to day `d` of month `m` of year `y`.
pub open spec fn day_number(y: int, m: int, d: int) -> int {
    days_before_year(y) + days_before_month(y, m) + d - 1
}

/// A date from 1970 on whose month and day exist.
pub open spec fn valid_date(y: int, m: int, d: int) -> bool {
    y >= 1970 && 1 <= m <= 12 && 1 <= d <= month_days(y, m)
}

/// The date of the day that lies `days` days after the epoch.
pub open spec fn date_of_day(days: int) -> (int, int, int) {
    choose|t: (int, int, int)| valid_date(t.0, t.1, t.2) && day_number(t.0, t.1, t.2) == days
}

/// Weekday of the day `days` days after the epoch, which was a Thursday.
pub open spec fn weekday_of_day(days: int) -> int {
    (days + 3) % 7
}

/// Weekday of the day an instant lies in.
pub open spec fn weekday_of(nanos: u64) -> int {
    weekday_of_day(nanos as int / NANOS_PER_DAY as int)
}

/// Months are counted from year 0: month `m` of year `y` has index
/// `12 * y + m - 1`.
pub open spec fn month_index(y: int, m: int) -> int {
    12 * y + m - 1
}

/// Days from the epoch to the first day of the month with index `i`.
pub open spec fn month_start_day(i: int) -> int {
    day_number(i / 12, i % 12 + 1, 1)
}

/// The first day of a year comes one year's length after the first day of
/// the year before.
pub proof fn lemma_days_before_year_step(y: int)
    requires
        y >= 1970,
    ensures
        days_before_year(y + 1) == days_before_year(y) + year_days(y),
{
}

/// A year has 365 or 366 days, so the years since 1970 have between 365
/// and 366 days each.
pub proof fn lemma_days_before_year_bounds(y: int)
    requires
        y >= 1970,
    ensures
        365 * (y - 1970) <= days_before_year(y) <= 366 * (y - 1970),
    decreases y,
{
    if y > 1970 {
        lemma_days_before_year_bounds(y - 1);
    }
}

/// A later year begins later, by at least the length of every year
/// between.
pub proof fn lemma_days_before_year_monotone(a: int, b: int)
    requires
        1970 <= a <= b,
    ensures
        days_before_year(a) <= days_before_year(b),
        a < b ==> days_before_year(a) + year_days(a) <= days_before_year(b),
    decreases b - a,
{
    if a < b {
        lemma_days_before_year_monotone(a, b - 1);
    }
}

/// A valid date is the only valid date with its day number.
pub proof fn lemma_day_number_injective(y1: int, m1: int, d1: int, y2: int, m2: int, d2: int)
    requires
        valid_date(y1, m1, d1),
        valid_date(y2, m2, d2),
        day_number(y1, m1, d1) == day_number(y2, m2, d2),
    ensures
        y1 == y2 && m1 == m2 && d1 == d2,
{
    if y1 < y2 {
        lemma_days_before_year_monotone(y1, y2);
    } else if y2 < y1 {
        lemma_days_before_year_monotone(y2, y1);
    }
}

/// Every day from the epoch on has a date.
pub proof fn lemma_date_exists(days: int)
    requires
        days >= 0,
    ensures
        valid_date(date_of_day(days).0, date_of_day(days).1, date_of_day(days).2),
        day_number(date_of_day(days).0, date_of_day(days).1, date_of_day(days).2) == days,
{
    let y = year_holding(days, 1970);
    lemma_year_holding(days, 1970);
    let rest = days - days_before_year(y);
    let m: int = if rest < days_before_month(y, 2) {
        1
    } else if rest < days_before_month(y, 3) {
        2
    } else if rest < days_before_month(y, 4) {
        3
    } else if rest < days_before_month(y, 5) {
        4
    } else if rest < days_before_month(y, 6) {
        5
    } else if rest < days_before_month(y, 7) {
        6
    } else if rest < days_before_month(y, 8) {
        7
    } else if rest < days_before_month(y, 9) {
        8
    } else if rest < days_before_month(y, 10) {
        9
    } else if rest < days_before_month(y, 11) {
        10
    } else if rest < days_before_month(y, 12) {
        11
    } else {
        12
    };
    let d = rest - days_before_month(y, m) + 1;
    let w = (y, m, d);
    assert(valid_date(w.0, w.1, w.2) && day_number(w.0, w.1, w.2) == days);
}

/// The year, from `y` on, in which the day lies that comes `days` days
/// after the first day of `y`.
pub open spec fn year_holding(days: int, y: int) -> int
    decreases days,
{
    if days < year_days(y) {
        y
    } else {
        year_holding(days - year_days(y), y + 1)
    }
}

/// The year found holds the day: it begins at or before the day and the
/// year after it begins later.
pub proof fn lemma_year_holding(days: int, y: int)
    requires
        days >= 0,
        y >= 1970,
    ensures
        year_holding(days, y) >= y,
        days_before_year(year_holding(days, y)) - days_before_year(y) <= days,
        days < days_before_year(year_holding(days, y) + 1) - days_before_year(y),
    decreases days,
{
    if days >= year_days(y) {
        lemma_year_holding(days - year_days(y), y + 1);
    }
}

/// Every valid date is the date of its own day number: converting a date
/// to a day count and back gives the date again.
pub proof fn lemma_date_round_trip(y: int, m: int, d: int)
    requires
        valid_date(y, m, d),
    ensures
        date_of_day(day_number(y, m, d)) == (y, m, d),
{
    let days = day_number(y, m, d);
    let w = (y, m, d);
    assert(valid_date(w.0, w.1, w.2) && day_number(w.0, w.1, w.2) == days);
    let t = date_of_day(days);
    lemma_day_number_injective(y, m, d, t.0, t.1, t.2);
}

/// The first of a month comes one month's length after the first of the
/// month before.
pub proof fn lemma_month_start_step(i: int)
    requires
        i >= 1970 * 12,
    ensures
        month_start_day(i + 1) == month_start_day(i) + month_days(i / 12, i % 12 + 1),
        month_start_day(i + 1) > month_start_day(i),
{
    if i % 12 == 11 {
        assert((i + 1) / 12 == i / 12 + 1);
        assert((i + 1) % 12 == 0);
        lemma_days_before_year_step(i / 12);
    } else {
        assert((i + 1) / 12 == i / 12);
        assert((i + 1) % 12 == i % 12 + 1);
    }
}

/// A later month begins later.
pub proof fn lemma_month_start_monotone(i: int, j: int)
    requires
        1970 * 12 <= i <= j,
    ensures
        month_start_day(i) <= month_start_day(j),
        i < j ==> month_start_day(i + 1) <= month_start_day(j),
    decreases j - i,
{
    if i < j {
        lemma_month_start_monotone(i, j - 1);
        lemma_month_start_step(j - 1);
    }
}

/// Whole days from the epoch to an instant.
pub fn nanos_to_days(nanos: u64) -> (days: i64)
    ensures
        days == nanos as int / NANOS_PER_DAY as int,
        0 <= days <= LAST_DAY,
{
    (nanos / NANOS_PER_DAY) as i64
}

/// Midnight of the day `days` days after the epoch.
pub fn days_to_nanos(days: i64) -> (nanos: u64)
    requires
        0 <= days <= LAST_DAY,
    ensures
        nanos == days * NANOS_PER_DAY,
{
    (days as u64) * NANOS_PER_DAY
}

/// Whether the year has 366 days.
pub fn is_leap_year(year: i32) -> (r: bool)
    ensures
        r == leap(year as int),
{
    (year % 4 == 0 && year % 100 != 0) || (year % 400 == 0)
}

/// Days in a month, and 0 where `month` is no month.
pub fn days_in_month(year: i32, month: u32) -> (r: u32)
    ensures
        r == month_days(year as int, month as int),
{
    match month {
        1 | 3 | 5 | 7 | 8 | 10 | 12 => 31,
        4 | 6 | 9 | 11 => 30,
        2 => if is_leap_year(year) {
            29
        } else {
            28
        },
        _ => 0,
    }
}

/// Days in a year.
pub fn days_in_year(year: i32) -> (r: i64)
    ensures
        r == year_days(year as int),
{
    if is_leap_year(year) {
        366
    } else {
        365
    }
}

/// Day count of a date. Years before 1970 count as 1970, months past
/// December add nothing, and `day` may lie outside the month.
pub fn ymd_to_days(year: i32, month: u32, day: u32) -> (days: i64)
    ensures
        days == day_number(year as int, month as int, day as int),
        day as int - 1 <= days <= 800_000_000_000 + day,
{
    let mut days: i64 = 0;
    let mut y: i32 = 1970;
    while y < year
        invariant
            1970 <= y,
            y <= year || year < 1970,
            year < 1970 ==> y == 1970,
            days == days_before_year(y as int),
            0 <= days <= 366 * (y - 1970),
        decreases year - y,
    {
        days += days_in_year(y);
        y += 1;
    }
    assert(days == days_before_year(year as int));
    let mut m: u32 = 1;
    let mut in_year: i64 = 0;
    while m < month && m <= 12
        invariant
            1 <= m <= 13,
            m <= month || month == 0,
            month == 0 ==> m == 1,
            in_year == days_before_month(year as int, m as int),
        decreases 13 - m,
    {
        in_year += days_in_month(year, m) as i64;
        m += 1;
    }
    assert(in_year == days_before_month(year as int, month as int));
    days + in_year + (day as i64 - 1)
}

/// Midnight of a date, as an instant.
pub fn ymd_to_nanos(year: i32, month: u32, day: u32) -> (nanos: u64)
    requires
        day >= 1,
        day_number(year as int, month as int, day as int) <= LAST_DAY,
    ensures
        nanos == day_number(year as int, month as int, day as int) * NANOS_PER_DAY,
{
    days_to_nanos(ymd_to_days(year, month, day))
}

/// The date of the day an instant lies in: the one valid date whose day
/// number is the instant's day count.
pub fn nanos_to_ymd(nanos: u64) -> (date: (i32, u32, u32))
    ensures
        valid_date(date.0 as int, date.1 as int, date.2 as int),
        day_number(date.0 as int, date.1 as int, date.2 as int) == nanos as int
            / NANOS_PER_DAY as int,
        (date.0 as int, date.1 as int, date.2 as int) == date_of_day(
            nanos as int / NANOS_PER_DAY as int,
        ),
        date.0 <= 2554,
{
    let days: i64 = nanos_to_days(nanos);
    let mut y: i32 = 1970;
    let mut remaining: i64 = days;
    while remaining >= days_in_year(y)
        invariant
            1970 <= y <= 2554,
            0 <= remaining,
            remaining + days_before_year(y as int) == days,
            0 <= days <= LAST_DAY,
        decreases remaining,
    {
        proof {
            lemma_days_before_year_bounds(y as int + 1);
        }
        remaining -= days_in_year(y);
        y += 1;
    }
    let mut m: u32 = 1;
    while remaining >= days_in_month(y, m) as i64
        invariant
            1 <= m <= 12,
            0 <= remaining,
            remaining + days_before_month(y as int, m as int) < year_days(y as int),
            remaining + days_before_month(y as int, m as int) + days_before_year(y as int) == days,
        decreases 12 - m,
    {
        remaining -= days_in_month(y, m) as i64;
        m += 1;
    }
    let d: u32 = (remaining + 1) as u32;
    proof {
        let w = (y as int, m as int, d as int);
        assert(valid_date(w.0, w.1, w.2) && day_number(w.0, w.1, w.2) == days as int);
        let t = date_of_day(days as int);
        lemma_day_number_injective(w.0, w.1, w.2, t.0, t.1, t.2);
    }
    (y, m, d)
}

/// Weekday of the day an instant lies in, from Monday (0) to Sunday (6).
pub fn weekday_from_nanos(nanos: u64) -> (r: u32)
    ensures
        r == weekday_of(nanos),
        r < 7,
{
    let days: i64 = nanos_to_days(nanos);
    ((days + 3) % 7) as u32
}

/// The day of month `m` of year `y` on which weekday `wd` falls for the
/// `ord`-th time, or for the last time.
pub open spec fn nth_weekday_day(y: int, m: int, wd: int, ord: WeekdayOrdinal) -> int {
    match ord {
        WeekdayOrdinal::Last => {
            let last = month_days(y, m);
            let last_wd = weekday_of_day(day_number(y, m, last));
            last - (last_wd + 7 - wd) % 7
        },
        _ => {
            let first_wd = weekday_of_day(day_number(y, m, 1));
            1 + (wd + 7 - first_wd) % 7 + (ord.rank() - 1) * 7
        },
    }
}

/// Midnight of that day, where `m` is a month, the day lies in it and the
/// instant is a `u64`.
pub open spec fn nth_weekday_instant(y: int, m: int, wd: int, ord: WeekdayOrdinal) -> Option<u64> {
    let d = nth_weekday_day(y, m, wd, ord);
    let t = day_number(y, m, d) * NANOS_PER_DAY;
    if 1 <= m <= 12 && 1 <= d <= month_days(y, m) && day_number(y, m, d) <= LAST_DAY {
        Some(t as u64)
    } else {
        None
    }
}

/// Stepping from a day to the next day that falls on weekday `wd` takes
/// fewer than seven days.
pub proof fn lemma_days_until(a: int, wd: int, j: int)
    requires
        0 <= wd < 7,
    ensures
        0 <= (wd + 7 - weekday_of_day(a)) % 7 < 7,
        weekday_of_day(a + (wd + 7 - weekday_of_day(a)) % 7 + 7 * j) == wd,
{
    let fw = (a + 3) % 7;
    let k = (wd + 7 - fw) % 7;
    assert(0 <= fw < 7);
    if wd >= fw {
        assert(k == wd - fw);
    } else {
        assert(k == wd + 7 - fw);
    }
    assert((a + k + 7 * j + 3) % 7 == wd);
}

/// Stepping back from a day to the last day before or on it that falls on
/// weekday `wd` takes fewer than seven days.
pub proof fn lemma_days_back(a: int, wd: int)
    requires
        0 <= wd < 7,
    ensures
        0 <= (weekday_of_day(a) + 7 - wd) % 7 < 7,
        weekday_of_day(a - (weekday_of_day(a) + 7 - wd) % 7) == wd,
{
    let lw = (a + 3) % 7;
    let k = (lw + 7 - wd) % 7;
    assert(0 <= lw < 7);
    if lw >= wd {
        assert(k == lw - wd);
    } else {
        assert(k == lw + 7 - wd);
    }
    assert((a - k + 3) % 7 == wd);
}

/// In every month each weekday has a first to fourth and a last
/// occurrence: the day found lies in the month, falls on the weekday, and
/// lies in the week of the month that the ordinal names.
pub proof fn lemma_nth_weekday_day(y: int, m: int, wd: int, ord: WeekdayOrdinal)
    requires
        1 <= m <= 12,
        0 <= wd < 7,
    ensures
        1 <= nth_weekday_day(y, m, wd, ord) <= month_days(y, m),
        weekday_of_day(day_number(y, m, nth_weekday_day(y, m, wd, ord))) == wd,
        ord != WeekdayOrdinal::Last ==> 7 * (ord.rank() - 1) < nth_weekday_day(y, m, wd, ord) <= 7
            * ord.rank(),
        ord == WeekdayOrdinal::Last ==> nth_weekday_day(y, m, wd, ord) > month_days(y, m) - 7,
{
    let base = days_before_year(y) + days_before_month(y, m);
    let len = month_days(y, m);
    assert(28 <= len <= 31);
    assert(forall|d: int| day_number(y, m, d) == base + d - 1);
    match ord {
        WeekdayOrdinal::Last => {
            lemma_days_back(base + len - 1, wd);
        },
        _ => {
            lemma_days_until(base, wd, ord.rank() - 1);
        },
    }
}

/// Midnight of the `ordinal`-th (or last) `weekday` of a month, or `None`
/// where `month` is no month or the instant is past the largest `u64`.
pub fn nth_weekday_of_month(year: i32, month: u32, weekday: Weekday, ordinal: WeekdayOrdinal) -> (r:
    Option<u64>)
    ensures
        r == nth_weekday_instant(year as int, month as int, weekday.ordinal(), ordinal),
{
    if month < 1 || month > 12 {
        return None;
    }
    proof {
        lemma_nth_weekday_day(year as int, month as int, weekday.ordinal(), ordinal);
    }
    let target_wd: u32 = weekday.index();
    let last_day: u32 = days_in_month(year, month);
    assert(28 <= last_day <= 31);
    let target_day: u32 = match ordinal {
        WeekdayOrdinal::Last => {
            let last_wd: u32 = weekday_of_days(ymd_to_days(year, month, last_day));
            let days_back: u32 = (last_wd + 7 - target_wd) % 7;
            last_day - days_back
        },
        _ => {
            let n: u32 = ordinal.number();
            let first_wd: u32 = weekday_of_days(ymd_to_days(year, month, 1));
            let days_until: u32 = (target_wd + 7 - first_wd) % 7;
            1 + days_until + (n - 1) * 7
        },
    };
    if target_day > last_day {
        return None;
    }
    let days: i64 = ymd_to_days(year, month, target_day);
    if days > LAST_DAY as i64 {
        return None;
    }
    Some(days_to_nanos(days))
}

/// Weekday of a day count that is not negative.
pub fn weekday_of_days(days: i64) -> (r: u32)
    requires
        0 <= days < i64::MAX - 3,
    ensures
        r == weekday_of_day(days as int),
        r < 7,
{
    ((days + 3) % 7) as u32
}

/// The last instant of the month that lies `months` months after the month
/// of `from`.
pub open spec fn window_end(from: u64, months: int) -> int {
    let date = date_of_day(from as int / NANOS_PER_DAY as int);
    month_start_day(month_index(date.0, date.1) + months + 1) * NANOS_PER_DAY - 1
}

/// The end of the forward window, where it is a `u64` instant: the last
/// nanosecond of the month that lies `months` months after the month of
/// `from`.
pub fn checked_window_end(from: u64, months: u8) -> (end: Option<u64>)
    ensures
        window_end(from, months as int) <= u64::MAX ==> end is Some && end.unwrap() as int
            == window_end(from, months as int),
        window_end(from, months as int) > u64::MAX ==> end is None,
{
    let (y0, m0, _) = nanos_to_ymd(from);
    let mut year: i32 = y0;
    let mut month: u32 = m0;
    let mut k: u8 = 0;
    while k < months
        invariant
            0 <= k <= months,
            1 <= month <= 12,
            1970 <= year <= 2554 + k,
            month_index(year as int, month as int) == month_index(y0 as int, m0 as int) + k,
        decreases months - k,
    {
        month += 1;
        if month > 12 {
            month = 1;
            year += 1;
        }
        k += 1;
    }
    let last_day: u32 = days_in_month(year, month);
    proof {
        let i = month_index(year as int, month as int);
        assert(i / 12 == year as int && i % 12 + 1 == month as int);
        lemma_month_start_step(i);
        assert(day_number(year as int, month as int, last_day as int) == month_start_day(i + 1)
            - 1);
    }
    let days: i64 = ymd_to_days(year, month, last_day);
    if days >= LAST_DAY as i64 {
        return None;
    }
    Some(days_to_nanos(days) + (NANOS_PER_DAY - 1))
}

/// The end of the forward window: the last nanosecond of the month that
/// lies `months` months after the month of `from`.
pub fn calculate_window_end(from: u64, months: u8) -> (end: u64)
    requires
        window_end(from, months as int) <= u64::MAX,
    ensures
        end == window_end(from, months as int),
{
    match checked_window_end(from, months) {
        Some(end) => end,
        None => 0,
    }
}

/// The month that lies `months_back` months before the month of `now`:
/// its first instant, the first instant of the month after it, and its
/// year and month. `None` where that month lies before 1970 or does not
/// end before the largest instant.
pub open spec fn month_window_of(now: u64, months_back: int) -> Option<(u64, u64, int, int)> {
    let date = date_of_day(now as int / NANOS_PER_DAY as int);
    let i = month_index(date.0, date.1) - months_back;
    if i >= 1970 * 12 && month_start_day(i + 1) <= LAST_DAY {
        Some(
            (
                (month_start_day(i) * NANOS_PER_DAY) as u64,
                (month_start_day(i + 1) * NANOS_PER_DAY) as u64,
                i / 12,
                i % 12 + 1,
            ),
        )
    } else {
        None
    }
}

/// The window of the month that lies `months_back` months before the
/// month of `now`, with its year and month.
pub fn month_window(now: u64, months_back: u8) -> (r: Option<(u64, u64, i32, u32)>)
    ensures
        match month_window_of(now, months_back as int) {
            Some(w) => r is Some && r.unwrap().0 == w.0 && r.unwrap().1 == w.1 && r.unwrap().2
                == w.2 && r.unwrap().3 == w.3 && w.0 < w.1 && 1970 <= w.2 <= 2554 && 1 <= w.3
                <= 12,
            None => r is None,
        },
{
    let (y0, m0, _) = nanos_to_ymd(now);
    let mut year: i32 = y0;
    let mut month: u32 = m0;
    let mut k: u8 = 0;
    while k < months_back
        invariant
            0 <= k <= months_back,
            1 <= month <= 12,
            1970 - k <= year <= 2554,
            month_index(year as int, month as int) == month_index(y0 as int, m0 as int) - k,
        decreases months_back - k,
    {
        if month == 1 {
            month = 12;
            year -= 1;
        } else {
            month -= 1;
        }
        k += 1;
    }
    let ghost i = month_index(year as int, month as int);
    assert(i / 12 == year as int && i % 12 + 1 == month as int);
    if year < 1970 {
        return None;
    }
    proof {
        lemma_month_start_step(i);
        lemma_days_before_year_bounds(year as int);
    }
    let first: i64 = ymd_to_days(year, month, 1);
    let next: i64 = first + days_in_month(year, month) as i64;
    if next > LAST_DAY as i64 {
        return None;
    }
    Some((days_to_nanos(first), days_to_nanos(next), year, month))
}

} // verus!

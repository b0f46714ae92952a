//! Expansion of a recurrence rule into the base instants of its
//! occurrences inside a query window.

use vstd::prelude::*;
use vstd::arithmetic::div_mod::lemma_fundamental_div_mod_converse;
use crate::calendar::{
    NANOS_PER_DAY, date_of_day, day_number, lemma_date_round_trip, lemma_days_before_year_bounds,
    lemma_days_until, weekday_of_day,
    lemma_month_start_monotone, lemma_month_start_step, lemma_nth_weekday_day, month_days,
    lemma_date_exists, month_index, month_start_day, nanos_to_ymd, nth_weekday_day,
    nth_weekday_instant,
    nth_weekday_of_month, valid_date, weekday_from_nanos, weekday_of,
};
use crate::types::{EventSeries, Frequency, WeekdayOrdinal};

verus! {

/// Index of January 1970.
pub const FIRST_MONTH: u32 = 23_640;

/// Index of a month that begins after the largest `u64` instant.
pub const END_MONTH: u32 = 30_660;

/// No occurrence lies before the window or before the rule's own start.
pub open spec fn effective_start(rule: &EventSeries, window_start: u64) -> u64 {
    if window_start >= rule.start_date {
        window_start
    } else {
        rule.start_date
    }
}

/// No occurrence lies at or after the window's end or the rule's end.
pub open spec fn effective_end(rule: &EventSeries, window_end: u64) -> u64 {
    match rule.end_date {
        Some(end) => if window_end <= end {
            window_end
        } else {
            end
        },
        None => window_end,
    }
}

/// Seven days for a weekly rule and fourteen for a biweekly one.
pub open spec fn step_nanos(frequency: Frequency) -> int {
    if frequency == Frequency::Biweekly {
        14 * NANOS_PER_DAY
    } else {
        7 * NANOS_PER_DAY
    }
}

/// The first instant at or after `start` that falls on weekday `wd` and has
/// the time of day of `start`.
pub open spec fn first_on_weekday(start: u64, wd: int) -> int {
    start + ((wd + 7 - weekday_of(start)) % 7) * NANOS_PER_DAY
}

/// The first occurrence that a weekly or biweekly rule could have: the
/// first instant at or after the rule's start that falls on the rule's
/// weekday, with the time of day of the rule's start.
pub open spec fn anchor(rule: &EventSeries) -> int {
    first_on_weekday(rule.start_date, rule.weekday.ordinal())
}

/// The least of `anchor`, `anchor + step`, `anchor + 2 * step`, ... that is
/// not before `from`.
pub open spec fn first_from(anchor: int, step: int, from: int) -> int {
    if from <= anchor {
        anchor
    } else {
        anchor + ((from - anchor - 1) / step + 1) * step
    }
}

/// How many of `first`, `first + step`, `first + 2 * step`, ... lie before `end`.
pub open spec fn run_len(first: int, step: int, end: int) -> nat {
    if first >= end {
        0
    } else {
        ((end - first - 1) / step + 1) as nat
    }
}

/// The instants `first`, `first + step`, ... that lie before `end`.
pub open spec fn stepped_run(first: int, step: int, end: int) -> Seq<u64> {
    Seq::new(run_len(first, step, end), |k: int| (first + k * step) as u64)
}

/// The ordinal of a monthly rule, `First` where the rule names none.
pub open spec fn rule_ordinal(rule: &EventSeries) -> WeekdayOrdinal {
    match rule.weekday_ordinal {
        Some(o) => o,
        None => WeekdayOrdinal::First,
    }
}

/// The instant that the month with index `i` contributes, if any.
pub open spec fn month_candidate(wd: int, ord: WeekdayOrdinal, i: int) -> Option<u64> {
    nth_weekday_instant(i / 12, i % 12 + 1, wd, ord)
}

/// The candidates of the months `lo` up to `hi - 1`, in month order, that
/// lie in `[start, end)`.
pub open spec fn monthly_run(
    wd: int,
    ord: WeekdayOrdinal,
    start: u64,
    end: u64,
    lo: int,
    hi: int,
) -> Seq<u64>
    decreases hi - lo,
{
    if hi <= lo {
        Seq::empty()
    } else {
        let prev = monthly_run(wd, ord, start, end, lo, hi - 1);
        match month_candidate(wd, ord, hi - 1) {
            Some(t) => if start <= t < end {
                prev.push(t)
            } else {
                prev
            },
            None => prev,
        }
    }
}

/// The base instants of a rule's occurrences in the window
/// `[window_start, window_end)`, in ascending order.
pub open spec fn occurrences(rule: &EventSeries, window_start: u64, window_end: u64) -> Seq<u64> {
    let start = effective_start(rule, window_start);
    let end = effective_end(rule, window_end);
    if start >= end {
        Seq::empty()
    } else if rule.frequency == Frequency::Monthly {
        monthly_run(
            rule.weekday.ordinal(),
            rule_ordinal(rule),
            start,
            end,
            FIRST_MONTH as int,
            END_MONTH as int,
        )
    } else {
        stepped_run(
            first_from(anchor(rule), step_nanos(rule.frequency), start as int),
            step_nanos(rule.frequency),
            end as int,
        )
    }
}

/// Whether a weekly or biweekly rule has an occurrence at `t`, whatever
/// window is asked for: `t` is the rule's first possible occurrence or
/// follows it by a whole number of steps, and lies within the rule's own
/// start and end.
pub open spec fn on_cadence(rule: &EventSeries, t: u64) -> bool {
    &&& t >= anchor(rule)
    &&& (t - anchor(rule)) % step_nanos(rule.frequency) == 0
    &&& match rule.end_date {
        Some(end) => t < end,
        None => true,
    }
}

/// The month, by index, that an instant lies in.
pub open spec fn month_of(t: u64) -> int {
    let date = date_of_day(t as int / NANOS_PER_DAY as int);
    month_index(date.0, date.1)
}

/// A run has `k` instants where the `k`-th step reaches `end` and the one
/// before does not.
pub proof fn lemma_run_len(first: int, step: int, end: int, k: int)
    requires
        step > 0,
        k >= 0,
        first + k * step >= end,
        k == 0 || first + (k - 1) * step < end,
    ensures
        run_len(first, step, end) == k,
{
    if k == 0 {
    } else {
        let x = end - first - 1;
        let r = x - (k - 1) * step;
        assert(0 <= r < step) by (nonlinear_arith)
            requires
                r == x - (k - 1) * step,
                x == end - first - 1,
                first + k * step >= end,
                first + (k - 1) * step < end,
        ;
        lemma_fundamental_div_mod_converse(x, step, k - 1, r);
    }
}

/// `first_from` is the anchor plus a whole number of steps, is not before
/// `from`, and is less than a step past `from` unless it is the anchor.
pub proof fn lemma_first_from(anchor: int, step: int, from: int)
    requires
        step > 0,
    ensures
        first_from(anchor, step, from) >= from,
        first_from(anchor, step, from) >= anchor,
        (first_from(anchor, step, from) - anchor) % step == 0,
        (first_from(anchor, step, from) - anchor) / step >= 0,
        first_from(anchor, step, from) == anchor + ((first_from(anchor, step, from) - anchor)
            / step) * step,
        from > anchor ==> first_from(anchor, step, from) - step < from,
{
    if from > anchor {
        let x = from - anchor - 1;
        let k = x / step + 1;
        vstd::arithmetic::div_mod::lemma_fundamental_div_mod(x, step);
        vstd::arithmetic::div_mod::lemma_mod_bound(x, step);
        vstd::arithmetic::div_mod::lemma_div_pos_is_pos(x, step);
        assert(x == step * (x / step) + x % step);
        assert(k * step == step * (x / step) + step) by (nonlinear_arith)
            requires
                k == x / step + 1,
        ;
        lemma_fundamental_div_mod_converse(k * step, step, k, 0);
    } else {
        lemma_fundamental_div_mod_converse(0, step, 0, 0);
    }
}

/// Every instant of a run lies before `end` and not before `first`.
pub proof fn lemma_run_member(first: int, step: int, end: int, k: int)
    requires
        step > 0,
        0 <= k < run_len(first, step, end),
    ensures
        first + k * step < end,
        first <= first + k * step,
{
    let x = end - first - 1;
    assert(k <= x / step);
    assert(k * step <= x) by (nonlinear_arith)
        requires
            0 <= k <= x / step,
            step > 0,
            x >= 0,
    {
        assert((x / step) * step <= x) by {
            vstd::arithmetic::div_mod::lemma_fundamental_div_mod(x, step);
            vstd::arithmetic::div_mod::lemma_mod_bound(x, step);
        }
        assert(k * step <= (x / step) * step);
    }
    assert(0 <= k * step) by (nonlinear_arith)
        requires
            k >= 0,
            step > 0,
    ;
}

/// The candidate of a month from 1970 on always exists as a day; where it
/// is a `u64` instant it is midnight of a day in that month, on the
/// weekday asked for.
pub proof fn lemma_month_candidate(wd: int, ord: WeekdayOrdinal, i: int)
    requires
        0 <= wd < 7,
        i >= FIRST_MONTH,
    ensures
        month_candidate(wd, ord, i) matches Some(t) ==> {
            &&& month_start_day(i) * NANOS_PER_DAY <= t < month_start_day(i + 1) * NANOS_PER_DAY
            &&& month_of(t) == i
            &&& weekday_of(t) == wd
            &&& t as int % NANOS_PER_DAY as int == 0
        },
        month_candidate(wd, ord, i) is None ==> month_start_day(i + 1) * NANOS_PER_DAY
            > u64::MAX,
{
    let y = i / 12;
    let m = i % 12 + 1;
    let d = nth_weekday_day(y, m, wd, ord);
    lemma_nth_weekday_day(y, m, wd, ord);
    lemma_month_start_step(i);
    lemma_days_before_year_bounds(y);
    assert(valid_date(y, m, d));
    lemma_date_round_trip(y, m, d);
    assert(month_start_day(i) <= day_number(y, m, d) < month_start_day(i + 1));
    if month_candidate(wd, ord, i) is Some {
        let t = month_candidate(wd, ord, i).unwrap();
        assert(t as int == day_number(y, m, d) * NANOS_PER_DAY);
        assert(t as int / NANOS_PER_DAY as int == day_number(y, m, d));
        assert(month_index(y, m) == i);
    }
}

/// A valid date lies in its month: not before the month's first day and
/// before the first day of the next month.
pub proof fn lemma_month_bounds(y: int, m: int, d: int)
    requires
        valid_date(y, m, d),
    ensures
        month_index(y, m) >= FIRST_MONTH,
        month_start_day(month_index(y, m)) <= day_number(y, m, d) < month_start_day(
            month_index(y, m) + 1,
        ),
{
    let i = month_index(y, m);
    assert(i / 12 == y && i % 12 + 1 == m);
    lemma_month_start_step(i);
}

/// A later day does not lie in an earlier month.
pub proof fn lemma_month_of_monotone(a: u64, b: u64)
    requires
        a <= b,
    ensures
        FIRST_MONTH <= month_of(a) <= month_of(b),
        month_start_day(month_of(a)) * NANOS_PER_DAY <= a,
        b < month_start_day(month_of(b) + 1) * NANOS_PER_DAY,
{
    let da = a as int / NANOS_PER_DAY as int;
    let db = b as int / NANOS_PER_DAY as int;
    lemma_date_exists(da);
    lemma_date_exists(db);
    let ta = date_of_day(da);
    let tb = date_of_day(db);
    lemma_month_bounds(ta.0, ta.1, ta.2);
    lemma_month_bounds(tb.0, tb.1, tb.2);
    if month_of(a) > month_of(b) {
        lemma_month_start_monotone(month_of(b) + 1, month_of(a));
    }
}

/// Months before the month of `start` contribute nothing.
pub proof fn lemma_monthly_run_before(
    wd: int,
    ord: WeekdayOrdinal,
    start: u64,
    end: u64,
    hi: int,
)
    requires
        0 <= wd < 7,
        FIRST_MONTH <= hi,
        month_start_day(hi) * NANOS_PER_DAY <= start,
    ensures
        monthly_run(wd, ord, start, end, FIRST_MONTH as int, hi) == Seq::<u64>::empty(),
    decreases hi,
{
    if hi > FIRST_MONTH {
        lemma_month_start_step(hi - 1);
        lemma_monthly_run_before(wd, ord, start, end, hi - 1);
        lemma_month_candidate(wd, ord, hi - 1);
    }
}

/// Months that begin at or after `end` contribute nothing.
pub proof fn lemma_monthly_run_after(
    wd: int,
    ord: WeekdayOrdinal,
    start: u64,
    end: u64,
    mid: int,
    hi: int,
)
    requires
        0 <= wd < 7,
        FIRST_MONTH <= mid <= hi,
        month_start_day(mid) * NANOS_PER_DAY >= end,
    ensures
        monthly_run(wd, ord, start, end, FIRST_MONTH as int, hi) == monthly_run(
            wd,
            ord,
            start,
            end,
            FIRST_MONTH as int,
            mid,
        ),
    decreases hi - mid,
{
    if hi > mid {
        lemma_monthly_run_after(wd, ord, start, end, mid, hi - 1);
        lemma_month_candidate(wd, ord, hi - 1);
        lemma_month_start_monotone(mid, hi - 1);
    }
}

/// Every occurrence of a weekly or biweekly rule lies in the effective
/// window, falls on the rule's weekday at the time of day of the rule's
/// start (at midnight where the rule starts at a midnight), and follows
/// the rule's first possible occurrence by a whole number of steps; each
/// follows the one before it by exactly 7 days (14 for a biweekly rule).
pub proof fn lemma_weekly_occurrences(rule: &EventSeries, window_start: u64, window_end: u64)
    requires
        rule.frequency != Frequency::Monthly,
    ensures
        forall|i: int|
            0 <= i < occurrences(rule, window_start, window_end).len() ==> {
                let t = #[trigger] occurrences(rule, window_start, window_end)[i];
                &&& weekday_of(t) == rule.weekday.ordinal()
                &&& effective_start(rule, window_start) <= t < effective_end(rule, window_end)
                &&& window_start <= t < window_end
                &&& on_cadence(rule, t)
                &&& t as int == first_from(
                    anchor(rule),
                    step_nanos(rule.frequency),
                    effective_start(rule, window_start) as int,
                ) + i * step_nanos(rule.frequency)
                &&& t as int % NANOS_PER_DAY as int == rule.start_date as int
                    % NANOS_PER_DAY as int
            },
        forall|i: int|
            0 <= i < occurrences(rule, window_start, window_end).len() - 1 ==> (
            #[trigger] occurrences(rule, window_start, window_end)[i + 1]) - occurrences(
                rule,
                window_start,
                window_end,
            )[i] == step_nanos(rule.frequency),
{
    let start = effective_start(rule, window_start);
    let end = effective_end(rule, window_end);
    let wd = rule.weekday.ordinal();
    let occ = occurrences(rule, window_start, window_end);
    let step = step_nanos(rule.frequency);
    let a = anchor(rule);
    let first = first_from(a, step, start as int);
    let day = rule.start_date as int / NANOS_PER_DAY as int;
    let c: int = if rule.frequency == Frequency::Biweekly {
        2
    } else {
        1
    };
    lemma_first_from(a, step, start as int);
    let k0 = (first - a) / step;
    assert forall|i: int| 0 <= i < occ.len() implies {
        let t = #[trigger] occ[i];
        &&& weekday_of(t) == wd
        &&& start <= t < end
        &&& window_start <= t < window_end
        &&& on_cadence(rule, t)
        &&& t as int == first + i * step
        &&& t as int % NANOS_PER_DAY as int == rule.start_date as int % NANOS_PER_DAY as int
    } by {
        lemma_run_member(first, step, end as int, i);
        let m = k0 + i;
        assert(first + i * step == a + m * step) by (nonlinear_arith)
            requires
                first == a + k0 * step,
                m == k0 + i,
        ;
        lemma_fundamental_div_mod_converse(m * step, step, m, 0);
        lemma_days_until(day, wd, c * m);
        let k = (wd + 7 - weekday_of_day(day)) % 7;
        assert(m * step == (7 * (c * m)) * NANOS_PER_DAY) by (nonlinear_arith)
            requires
                step == 7 * c * 86_400_000_000_000,
        ;
        let n = k + 7 * (c * m);
        assert(first + i * step == rule.start_date + n * NANOS_PER_DAY);
        assert((rule.start_date + n * NANOS_PER_DAY) / NANOS_PER_DAY as int == day + n);
        assert((rule.start_date + n * NANOS_PER_DAY) % NANOS_PER_DAY as int
            == rule.start_date as int % NANOS_PER_DAY as int);
    }
    assert forall|i: int| 0 <= i < occ.len() - 1 implies (#[trigger] occ[i + 1]) - occ[i]
        == step by {
        assert(occ[i] as int == first + i * step);
        assert(occ[i + 1] as int == first + (i + 1) * step);
        assert((i + 1) * step == i * step + step) by (nonlinear_arith);
    }
}

/// Which instants are occurrences does not depend on the window asked
/// for: an instant is among the occurrences of a window exactly if it lies
/// in the window and on the rule's cadence. So an occurrence keeps its
/// base instant, by which its exception is found, in every window that
/// holds it.
pub proof fn lemma_weekly_member(rule: &EventSeries, window_start: u64, window_end: u64, t: u64)
    requires
        rule.frequency != Frequency::Monthly,
    ensures
        occurrences(rule, window_start, window_end).contains(t) <==> (window_start <= t
            < window_end && on_cadence(rule, t)),
{
    let start = effective_start(rule, window_start);
    let end = effective_end(rule, window_end);
    let occ = occurrences(rule, window_start, window_end);
    let step = step_nanos(rule.frequency);
    let a = anchor(rule);
    let first = first_from(a, step, start as int);
    lemma_weekly_occurrences(rule, window_start, window_end);
    lemma_first_from(a, step, start as int);
    if occ.contains(t) {
        let i = choose|i: int| 0 <= i < occ.len() && occ[i] == t;
        assert(occ[i] == t);
    }
    if window_start <= t < window_end && on_cadence(rule, t) {
        assert(a >= rule.start_date) by {
            lemma_days_until(rule.start_date as int / NANOS_PER_DAY as int, rule.weekday.ordinal(), 0);
        }
        assert(start <= t < end);
        let m = (t - a) / step;
        let k0 = (first - a) / step;
        vstd::arithmetic::div_mod::lemma_fundamental_div_mod(t - a, step);
        assert(t - a == m * step) by (nonlinear_arith)
            requires
                t - a == step * m + (t - a) % step,
                (t - a) % step == 0,
        ;
        assert(m >= k0) by (nonlinear_arith)
            requires
                step > 0,
                first == a + k0 * step,
                t - a == m * step,
                t >= start,
                first - step < start || first == a,
                t >= a,
                k0 >= 0,
        {
            if m < k0 {
                assert(m * step <= (k0 - 1) * step);
                assert((k0 - 1) * step == k0 * step - step);
            }
        }
        let i = m - k0;
        assert(first + i * step == t) by (nonlinear_arith)
            requires
                first == a + k0 * step,
                t - a == m * step,
                i == m - k0,
        ;
        let n = run_len(first, step, end as int) as int;
        assert(i < n) by {
            let x = end - first - 1;
            assert(i * step <= x);
            vstd::arithmetic::div_mod::lemma_div_is_ordered(i * step, x, step);
            vstd::arithmetic::div_mod::lemma_div_multiples_vanish(i, step);
            assert(i * step == step * i) by (nonlinear_arith);
        }
        assert(occ[i] == t);
    }
}

/// The occurrences that the months `lo` up to `hi - 1` contribute come one
/// from a month at most, in ascending order of month and of instant. Each
/// is midnight of the ordinal weekday of the month it lies in, falls on
/// weekday `wd`, and lies in `[start, end)`.
pub proof fn lemma_monthly_run(
    wd: int,
    ord: WeekdayOrdinal,
    start: u64,
    end: u64,
    lo: int,
    hi: int,
)
    requires
        0 <= wd < 7,
        FIRST_MONTH <= lo,
    ensures
        forall|j: int|
            0 <= j < monthly_run(wd, ord, start, end, lo, hi).len() ==> {
                let t = #[trigger] monthly_run(wd, ord, start, end, lo, hi)[j];
                &&& lo <= month_of(t) < hi
                &&& month_candidate(wd, ord, month_of(t)) == Some(t)
                &&& weekday_of(t) == wd
                &&& start <= t < end
            },
        forall|j: int, k: int|
            0 <= j < k < monthly_run(wd, ord, start, end, lo, hi).len() ==> {
                &&& month_of(#[trigger] monthly_run(wd, ord, start, end, lo, hi)[j]) < month_of(
                    #[trigger] monthly_run(wd, ord, start, end, lo, hi)[k],
                )
                &&& monthly_run(wd, ord, start, end, lo, hi)[j] < monthly_run(
                    wd,
                    ord,
                    start,
                    end,
                    lo,
                    hi,
                )[k]
            },
    decreases hi - lo,
{
    if hi > lo {
        lemma_monthly_run(wd, ord, start, end, lo, hi - 1);
        lemma_month_candidate(wd, ord, hi - 1);
        let prev = monthly_run(wd, ord, start, end, lo, hi - 1);
        let run = monthly_run(wd, ord, start, end, lo, hi);
        assert forall|j: int, k: int| 0 <= j < k < run.len() implies {
            &&& month_of(#[trigger] run[j]) < month_of(#[trigger] run[k])
            &&& run[j] < run[k]
        } by {
            if k == prev.len() {
                let a = month_of(prev[j]);
                lemma_month_candidate(wd, ord, a);
                lemma_month_start_monotone(a, hi - 1);
            }
        }
    }
}

/// The occurrences of a monthly rule come one from a calendar month at
/// most, in ascending order of month: each is midnight of the rule's
/// ordinal weekday of its month. No month from 1970 on lacks such a day.
pub proof fn lemma_monthly_occurrences(rule: &EventSeries, window_start: u64, window_end: u64)
    requires
        rule.frequency == Frequency::Monthly,
    ensures
        forall|j: int|
            0 <= j < occurrences(rule, window_start, window_end).len() ==> {
                let t = #[trigger] occurrences(rule, window_start, window_end)[j];
                &&& month_candidate(rule.weekday.ordinal(), rule_ordinal(rule), month_of(t))
                    == Some(t)
                &&& weekday_of(t) == rule.weekday.ordinal()
                &&& effective_start(rule, window_start) <= t < effective_end(rule, window_end)
            },
        forall|j: int, k: int|
            0 <= j < k < occurrences(rule, window_start, window_end).len() ==> {
                &&& month_of(#[trigger] occurrences(rule, window_start, window_end)[j]) < month_of(
                    #[trigger] occurrences(rule, window_start, window_end)[k],
                )
                &&& occurrences(rule, window_start, window_end)[j] < occurrences(
                    rule,
                    window_start,
                    window_end,
                )[k]
            },
        forall|y: int, m: int|
            1 <= m <= 12 ==> 1 <= #[trigger] nth_weekday_day(
                y,
                m,
                rule.weekday.ordinal(),
                rule_ordinal(rule),
            ) <= month_days(y, m),
{
    let start = effective_start(rule, window_start);
    let end = effective_end(rule, window_end);
    if start < end {
        lemma_monthly_run(
            rule.weekday.ordinal(),
            rule_ordinal(rule),
            start,
            end,
            FIRST_MONTH as int,
            END_MONTH as int,
        );
    }
    assert forall|y: int, m: int| 1 <= m <= 12 implies 1 <= #[trigger] nth_weekday_day(
        y,
        m,
        rule.weekday.ordinal(),
        rule_ordinal(rule),
    ) <= month_days(y, m) by {
        lemma_nth_weekday_day(y, m, rule.weekday.ordinal(), rule_ordinal(rule));
    }
}

/// A month's candidate that lies in `[start, end)` is among the
/// occurrences that the months around it contribute.
pub proof fn lemma_monthly_run_contains(
    wd: int,
    ord: WeekdayOrdinal,
    start: u64,
    end: u64,
    lo: int,
    hi: int,
    i: int,
)
    requires
        lo <= i < hi,
        month_candidate(wd, ord, i) is Some,
        start <= month_candidate(wd, ord, i).unwrap() < end,
    ensures
        monthly_run(wd, ord, start, end, lo, hi).contains(month_candidate(wd, ord, i).unwrap()),
    decreases hi - lo,
{
    let t = month_candidate(wd, ord, i).unwrap();
    let run = monthly_run(wd, ord, start, end, lo, hi);
    let prev = monthly_run(wd, ord, start, end, lo, hi - 1);
    if i == hi - 1 {
        assert(run == prev.push(t));
        assert(run[run.len() - 1] == t);
    } else {
        lemma_monthly_run_contains(wd, ord, start, end, lo, hi - 1, i);
        let j = choose|j: int| 0 <= j < prev.len() && prev[j] == t;
        assert(run[j] == t);
    }
}

/// Whether a monthly rule has an occurrence at `t`, whatever window is
/// asked for: `t` is midnight of the rule's ordinal weekday of the month
/// it lies in, and lies within the rule's own start and end.
pub open spec fn on_monthly_cadence(rule: &EventSeries, t: u64) -> bool {
    &&& month_candidate(rule.weekday.ordinal(), rule_ordinal(rule), month_of(t)) == Some(t)
    &&& t >= rule.start_date
    &&& match rule.end_date {
        Some(end) => t < end,
        None => true,
    }
}

/// Whether the rule has an occurrence with base instant `t`.
pub open spec fn is_occurrence(rule: &EventSeries, t: u64) -> bool {
    if rule.frequency == Frequency::Monthly {
        on_monthly_cadence(rule, t)
    } else {
        on_cadence(rule, t)
    }
}

/// Every instant lies in a month from January 1970 on that begins before
/// the largest instant is reached.
pub proof fn lemma_month_of_range(t: u64)
    ensures
        FIRST_MONTH <= month_of(t) < END_MONTH,
{
    lemma_month_of_monotone(t, t);
    let i = month_of(t);
    if i >= END_MONTH {
        lemma_month_start_monotone(END_MONTH as int, i);
        lemma_days_before_year_bounds(2555);
        assert(month_start_day(END_MONTH as int) == crate::calendar::days_before_year(2555));
    }
}

/// Which instants are occurrences of a rule does not depend on the window
/// asked for: an instant is among the occurrences of a window exactly if
/// it lies in the window and is an occurrence of the rule. So an
/// occurrence keeps its base instant, by which its exception is found, in
/// every window that holds it, and reading a window again gives the same
/// occurrences.
pub proof fn lemma_occurrence_member(
    rule: &EventSeries,
    window_start: u64,
    window_end: u64,
    t: u64,
)
    ensures
        occurrences(rule, window_start, window_end).contains(t) <==> (window_start <= t
            < window_end && is_occurrence(rule, t)),
{
    if rule.frequency != Frequency::Monthly {
        lemma_weekly_member(rule, window_start, window_end, t);
    } else {
        let start = effective_start(rule, window_start);
        let end = effective_end(rule, window_end);
        let occ = occurrences(rule, window_start, window_end);
        let wd = rule.weekday.ordinal();
        let ord = rule_ordinal(rule);
        lemma_monthly_occurrences(rule, window_start, window_end);
        if occ.contains(t) {
            let j = choose|j: int| 0 <= j < occ.len() && occ[j] == t;
            assert(occ[j] == t);
        }
        if window_start <= t < window_end && on_monthly_cadence(rule, t) {
            lemma_month_of_range(t);
            lemma_monthly_run_contains(
                wd,
                ord,
                start,
                end,
                FIRST_MONTH as int,
                END_MONTH as int,
                month_of(t),
            );
        }
    }
}

/// Whether the rule has an occurrence with base instant `t`.
pub fn is_occurrence_of(rule: &EventSeries, t: u64) -> (r: bool)
    ensures
        r == is_occurrence(rule, t),
{
    match rule.end_date {
        Some(end) => {
            if t >= end {
                return false;
            }
        },
        None => {},
    }
    match rule.frequency {
        Frequency::Monthly => {
            if t < rule.start_date {
                return false;
            }
            let ordinal: WeekdayOrdinal = match rule.weekday_ordinal {
                Some(o) => o,
                None => WeekdayOrdinal::First,
            };
            let (year, month, _) = nanos_to_ymd(t);
            proof {
                let i = month_index(year as int, month as int);
                assert(i / 12 == year as int && i % 12 + 1 == month as int);
            }
            match nth_weekday_of_month(year, month, rule.weekday, ordinal) {
                Some(c) => c == t,
                None => false,
            }
        },
        _ => {
            let target_wd: u32 = rule.weekday.index();
            let start_wd: u32 = weekday_from_nanos(rule.start_date);
            let days_until: u32 = (target_wd + 7 - start_wd) % 7;
            let offset: u64 = days_until as u64 * NANOS_PER_DAY;
            let interval: u64 = if rule.frequency == Frequency::Biweekly {
                14 * NANOS_PER_DAY
            } else {
                7 * NANOS_PER_DAY
            };
            assert(anchor(rule) == rule.start_date + offset);
            if offset > u64::MAX - rule.start_date {
                return false;
            }
            let anchor_at: u64 = rule.start_date + offset;
            t >= anchor_at && (t - anchor_at) % interval == 0
        },
    }
}

/// The base instants of the occurrences of `series` in the window
/// `[window_start, window_end)`, in ascending order.
///
/// A weekly or biweekly rule has its first possible occurrence at the
/// first instant at or after its start that falls on its weekday, with the
/// time of day of its start, and one every 7 or 14 days after that; the
/// window holds those of them that lie in it. A monthly rule yields, for
/// each month, midnight of the rule's ordinal weekday of that month.
/// Nothing lies before the rule's start or at or after its end.
pub fn generate_occurrences(series: &EventSeries, window_start: u64, window_end: u64) -> (out: Vec<
    u64,
>)
    ensures
        out@ == occurrences(series, window_start, window_end),
{
    let mut out: Vec<u64> = Vec::new();
    let start: u64 = if window_start >= series.start_date {
        window_start
    } else {
        series.start_date
    };
    let end: u64 = match series.end_date {
        Some(e) => if window_end <= e {
            window_end
        } else {
            e
        },
        None => window_end,
    };
    if start >= end {
        return out;
    }
    let ghost wd = series.weekday.ordinal();
    match series.frequency {
        Frequency::Monthly => {
            let ordinal: WeekdayOrdinal = match series.weekday_ordinal {
                Some(o) => o,
                None => WeekdayOrdinal::First,
            };
            let (start_year, start_month, _) = nanos_to_ymd(start);
            let (end_year, end_month, _) = nanos_to_ymd(end);
            let mut year: i32 = start_year;
            let mut month: u32 = start_month;
            proof {
                let i = month_index(year as int, month as int);
                assert(i == month_of(start));
                assert(month_index(end_year as int, end_month as int) == month_of(end));
                lemma_month_of_monotone(start, end);
                lemma_monthly_run_before(wd, ordinal, start, end, i);
            }
            while year < end_year || (year == end_year && month <= end_month)
                invariant
                    wd == series.weekday.ordinal(),
                    1 <= month <= 12,
                    1 <= end_month <= 12,
                    1970 <= year <= end_year + 1,
                    1970 <= end_year <= 2554,
                    month_index(year as int, month as int) <= month_index(
                        end_year as int,
                        end_month as int,
                    ) + 1,
                    out@ == monthly_run(
                        wd,
                        ordinal,
                        start,
                        end,
                        FIRST_MONTH as int,
                        month_index(year as int, month as int),
                    ),
                decreases
                        month_index(end_year as int, end_month as int) + 1 - month_index(
                            year as int,
                            month as int,
                        ),
            {
                let ghost i = month_index(year as int, month as int);
                assert(i / 12 == year as int && i % 12 + 1 == month as int);
                match nth_weekday_of_month(year, month, series.weekday, ordinal) {
                    Some(occ) => {
                        if occ >= start && occ < end {
                            out.push(occ);
                        }
                    },
                    None => {},
                }
                month += 1;
                if month > 12 {
                    month = 1;
                    year += 1;
                }
                assert(month_index(year as int, month as int) == i + 1);
            }
            proof {
                let last = month_index(end_year as int, end_month as int);
                assert(last / 12 == end_year as int && last % 12 + 1 == end_month as int);
                assert(month_index(year as int, month as int) == last + 1);
                lemma_month_of_monotone(start, end);
                lemma_monthly_run_after(wd, ordinal, start, end, last + 1, END_MONTH as int);
            }
        },
        _ => {
            let target_wd: u32 = series.weekday.index();
            let start_wd: u32 = weekday_from_nanos(series.start_date);
            let days_until: u32 = (target_wd + 7 - start_wd) % 7;
            let offset: u64 = days_until as u64 * NANOS_PER_DAY;
            let interval: u64 = if series.frequency == Frequency::Biweekly {
                14 * NANOS_PER_DAY
            } else {
                7 * NANOS_PER_DAY
            };
            let ghost step = step_nanos(series.frequency);
            let ghost first = first_from(anchor(series), step, start as int);
            assert(anchor(series) == series.start_date + offset);
            assert(step == interval);
            proof {
                lemma_first_from(anchor(series), step, start as int);
            }
            if offset > u64::MAX - series.start_date {
                assert(run_len(first, step, end as int) == 0);
                assert(out@ =~= stepped_run(first, step, end as int));
                return out;
            }
            let anchor_at: u64 = series.start_date + offset;
            let mut occ: u64 = anchor_at;
            if start > anchor_at {
                let steps: u64 = (start - anchor_at - 1) / interval + 1;
                if steps > (u64::MAX - anchor_at) / interval {
                    assert(first > u64::MAX) by (nonlinear_arith)
                        requires
                            first == anchor_at + steps * interval,
                            steps > (u64::MAX - anchor_at) / (interval as int),
                            interval > 0,
                            anchor_at <= u64::MAX,
                    {
                        let q = (u64::MAX - anchor_at) / (interval as int);
                        assert((u64::MAX - anchor_at) == (interval as int) * q + (u64::MAX
                            - anchor_at) % (interval as int)) by {
                            vstd::arithmetic::div_mod::lemma_fundamental_div_mod(
                                u64::MAX - anchor_at,
                                interval as int,
                            );
                        }
                        assert((u64::MAX - anchor_at) % (interval as int) < interval) by {
                            vstd::arithmetic::div_mod::lemma_mod_bound(
                                u64::MAX - anchor_at,
                                interval as int,
                            );
                        }
                        assert(steps * interval >= (q + 1) * interval);
                        assert((q + 1) * interval == q * interval + interval);
                    }
                    assert(run_len(first, step, end as int) == 0);
                    assert(out@ =~= stepped_run(first, step, end as int));
                    return out;
                }
                assert(steps * interval <= u64::MAX - anchor_at) by (nonlinear_arith)
                    requires
                        steps <= (u64::MAX - anchor_at) / (interval as int),
                        interval > 0,
                        anchor_at <= u64::MAX,
                {
                    let q = (u64::MAX - anchor_at) / (interval as int);
                    assert((u64::MAX - anchor_at) == (interval as int) * q + (u64::MAX
                        - anchor_at) % (interval as int)) by {
                        vstd::arithmetic::div_mod::lemma_fundamental_div_mod(
                            u64::MAX - anchor_at,
                            interval as int,
                        );
                    }
                    assert((u64::MAX - anchor_at) % (interval as int) >= 0) by {
                        vstd::arithmetic::div_mod::lemma_mod_bound(
                            u64::MAX - anchor_at,
                            interval as int,
                        );
                    }
                    assert(steps * interval <= q * interval);
                }
                occ = anchor_at + steps * interval;
            }
            assert(occ == first);
            let mut past_range: bool = false;
            while !past_range && occ < end
                invariant
                    step == interval,
                    step > 0,
                    start >= series.start_date,
                    !past_range ==> occ >= start,
                    !past_range ==> occ == first + out@.len() * step,
                    past_range ==> first + out@.len() * step > u64::MAX,
                    out@.len() == 0 || first + (out@.len() - 1) * step < end,
                    forall|j: int|
                        0 <= j < out@.len() ==> #[trigger] out@[j] as int == first + j * step,
                decreases (if past_range || occ >= end { 0 } else { 1 + end - occ }),
            {
                let ghost k = out@.len() as int;
                if occ >= series.start_date {
                    out.push(occ);
                }
                assert((k + 1) * step == k * step + step) by (nonlinear_arith);
                if occ > u64::MAX - interval {
                    past_range = true;
                } else {
                    occ += interval;
                }
            }
            proof {
                lemma_run_len(first, step, end as int, out@.len() as int);
                assert(out@ =~= stepped_run(first, step, end as int));
            }
        },
    }
    out
}

} // verus!

use office_hours::calendar::{weekday_from_nanos, NANOS_PER_DAY};
use office_hours::occurrences::{generate_occurrences, is_occurrence_of};
use office_hours::types::{EventSeries, Frequency, Principal, Weekday, WeekdayOrdinal};

const WED_2024_01_03: u64 = 1_704_240_000_000_000_000;

const MON_2024_01_01: u64 = 1_704_067_200_000_000_000;

fn admin() -> Principal {
    let mut bytes = [0u8; 29];
    bytes[0] = 7;
    Principal { len: 1, bytes }
}

fn rule(frequency: Frequency, weekday: Weekday, start_date: u64) -> EventSeries {
    EventSeries {
        series_id: [1, 2, 3, 4, 5, 6, 7, 8, 9, 10, 11, 12, 13, 14, 15, 16],
        title: String::from("Office hours"),
        notes: String::from("Bring questions"),
        link: None,
        frequency,
        weekday,
        weekday_ordinal: None,
        start_date,
        end_date: None,
        default_duration_minutes: 60,
        color: None,
        paused: false,
        created_at: 5,
        created_by: admin(),
    }
}

#[test]
fn weekly_rule_over_three_weeks() {
    let r = rule(Frequency::Weekly, Weekday::Wed, WED_2024_01_03);
    let occ = generate_occurrences(&r, WED_2024_01_03, WED_2024_01_03 + 21 * NANOS_PER_DAY);
    assert_eq!(
        occ,
        vec![
            WED_2024_01_03,
            WED_2024_01_03 + 7 * NANOS_PER_DAY,
            WED_2024_01_03 + 14 * NANOS_PER_DAY
        ]
    );
}

#[test]
fn weekly_occurrences_fall_on_the_anchor_weekday_seven_days_apart() {
    let r = rule(Frequency::Weekly, Weekday::Fri, MON_2024_01_01);
    let occ = generate_occurrences(&r, MON_2024_01_01, MON_2024_01_01 + 70 * NANOS_PER_DAY);
    assert_eq!(occ.len(), 10);
    assert_eq!(occ[0], MON_2024_01_01 + 4 * NANOS_PER_DAY);
    for t in occ.iter() {
        assert_eq!(weekday_from_nanos(*t), 4);
    }
    for pair in occ.windows(2) {
        assert_eq!(pair[1] - pair[0], 7 * NANOS_PER_DAY);
    }
}

#[test]
fn biweekly_occurrences_are_fourteen_days_apart() {
    let r = rule(Frequency::Biweekly, Weekday::Wed, WED_2024_01_03);
    let occ = generate_occurrences(&r, 0, WED_2024_01_03 + 43 * NANOS_PER_DAY);
    assert_eq!(
        occ,
        vec![
            WED_2024_01_03,
            WED_2024_01_03 + 14 * NANOS_PER_DAY,
            WED_2024_01_03 + 28 * NANOS_PER_DAY,
            WED_2024_01_03 + 42 * NANOS_PER_DAY
        ]
    );
}

#[test]
fn weekly_rule_keeps_the_time_of_day_of_its_start() {
    let ten_o_clock = 10 * 3_600_000_000_000;
    let r = rule(Frequency::Weekly, Weekday::Wed, MON_2024_01_01 + ten_o_clock);
    let occ = generate_occurrences(&r, 0, MON_2024_01_01 + 14 * NANOS_PER_DAY);
    assert_eq!(
        occ,
        vec![WED_2024_01_03 + ten_o_clock, WED_2024_01_03 + 7 * NANOS_PER_DAY + ten_o_clock]
    );
}

#[test]
fn window_end_is_excluded_and_window_start_included() {
    let r = rule(Frequency::Weekly, Weekday::Wed, WED_2024_01_03);
    let occ = generate_occurrences(&r, WED_2024_01_03, WED_2024_01_03 + 7 * NANOS_PER_DAY);
    assert_eq!(occ, vec![WED_2024_01_03]);
    let occ = generate_occurrences(&r, WED_2024_01_03, WED_2024_01_03 + 7 * NANOS_PER_DAY + 1);
    assert_eq!(occ, vec![WED_2024_01_03, WED_2024_01_03 + 7 * NANOS_PER_DAY]);
}

#[test]
fn rule_end_cuts_the_occurrences() {
    let mut r = rule(Frequency::Weekly, Weekday::Wed, WED_2024_01_03);
    r.end_date = Some(WED_2024_01_03 + 8 * NANOS_PER_DAY);
    let occ = generate_occurrences(&r, 0, u64::MAX);
    assert_eq!(occ, vec![WED_2024_01_03, WED_2024_01_03 + 7 * NANOS_PER_DAY]);
}

#[test]
fn empty_window_has_no_occurrences() {
    let r = rule(Frequency::Weekly, Weekday::Wed, WED_2024_01_03);
    assert_eq!(generate_occurrences(&r, 10, 10), Vec::<u64>::new());
    assert_eq!(generate_occurrences(&r, 0, WED_2024_01_03), Vec::<u64>::new());
    let mut m = rule(Frequency::Monthly, Weekday::Wed, WED_2024_01_03);
    m.weekday_ordinal = Some(WeekdayOrdinal::First);
    assert_eq!(generate_occurrences(&m, 20, 10), Vec::<u64>::new());
}

#[test]
fn weekly_rule_at_the_end_of_time_does_not_overflow() {
    let r = rule(Frequency::Weekly, Weekday::Mon, u64::MAX - 3 * NANOS_PER_DAY);
    let occ = generate_occurrences(&r, 0, u64::MAX);
    assert!(occ.len() <= 1);
    for t in occ.iter() {
        assert_eq!(weekday_from_nanos(*t), 0);
    }
}

#[test]
fn monthly_rule_second_monday() {
    let mut r = rule(Frequency::Monthly, Weekday::Mon, MON_2024_01_01);
    r.weekday_ordinal = Some(WeekdayOrdinal::Second);
    let occ = generate_occurrences(&r, MON_2024_01_01, MON_2024_01_01 + 91 * NANOS_PER_DAY);
    assert_eq!(
        occ,
        vec![
            1_704_672_000_000_000_000,
            1_704_672_000_000_000_000 + 35 * NANOS_PER_DAY,
            1_704_672_000_000_000_000 + 63 * NANOS_PER_DAY
        ]
    );
}

#[test]
fn monthly_rule_last_monday_is_in_every_month() {
    let mut r = rule(Frequency::Monthly, Weekday::Mon, MON_2024_01_01);
    r.weekday_ordinal = Some(WeekdayOrdinal::Last);
    let occ = generate_occurrences(&r, MON_2024_01_01, MON_2024_01_01 + 366 * NANOS_PER_DAY);
    assert_eq!(occ.len(), 12);
    assert_eq!(occ[0], 1_706_486_400_000_000_000);
    assert_eq!(occ[1], 1_708_905_600_000_000_000);
    assert_eq!(occ[2], 1_711_324_800_000_000_000);
    for pair in occ.windows(2) {
        assert!(pair[0] < pair[1]);
    }
    for t in occ.iter() {
        assert_eq!(weekday_from_nanos(*t), 0);
    }
}

#[test]
fn monthly_rule_first_to_fourth_is_in_every_month() {
    for ordinal in [
        WeekdayOrdinal::First,
        WeekdayOrdinal::Second,
        WeekdayOrdinal::Third,
        WeekdayOrdinal::Fourth,
    ] {
        let mut r = rule(Frequency::Monthly, Weekday::Sun, MON_2024_01_01);
        r.weekday_ordinal = Some(ordinal);
        let occ = generate_occurrences(&r, MON_2024_01_01, MON_2024_01_01 + 366 * NANOS_PER_DAY);
        assert_eq!(occ.len(), 12);
        for t in occ.iter() {
            assert_eq!(weekday_from_nanos(*t), 6);
        }
    }
}

#[test]
fn monthly_rule_without_ordinal_uses_the_first() {
    let r = rule(Frequency::Monthly, Weekday::Mon, MON_2024_01_01);
    let occ = generate_occurrences(&r, MON_2024_01_01, MON_2024_01_01 + 31 * NANOS_PER_DAY);
    assert_eq!(occ, vec![MON_2024_01_01]);
}

#[test]
fn monthly_occurrence_before_the_rule_start_is_left_out() {
    let mut r = rule(Frequency::Monthly, Weekday::Mon, MON_2024_01_01 + 1);
    r.weekday_ordinal = Some(WeekdayOrdinal::First);
    let occ = generate_occurrences(&r, 0, MON_2024_01_01 + 40 * NANOS_PER_DAY);
    assert_eq!(occ, vec![MON_2024_01_01 + 35 * NANOS_PER_DAY]);
}

#[test]
fn occurrences_do_not_shift_with_the_window() {
    let ten_o_clock = 10 * 3_600_000_000_000;
    let r = rule(Frequency::Weekly, Weekday::Wed, WED_2024_01_03 + ten_o_clock);
    let all = generate_occurrences(&r, 0, WED_2024_01_03 + 70 * NANOS_PER_DAY);
    assert_eq!(all.len(), 10);
    let from = WED_2024_01_03 + 12 * NANOS_PER_DAY + 12_345;
    let part = generate_occurrences(&r, from, from + 20 * NANOS_PER_DAY);
    assert_eq!(
        part,
        vec![
            WED_2024_01_03 + 14 * NANOS_PER_DAY + ten_o_clock,
            WED_2024_01_03 + 21 * NANOS_PER_DAY + ten_o_clock,
            WED_2024_01_03 + 28 * NANOS_PER_DAY + ten_o_clock
        ]
    );
    for t in part.iter() {
        assert!(all.contains(t));
    }
}

#[test]
fn biweekly_cadence_is_locked_to_the_rule_start() {
    let r = rule(Frequency::Biweekly, Weekday::Wed, WED_2024_01_03);
    let from = WED_2024_01_03 + 7 * NANOS_PER_DAY;
    let occ = generate_occurrences(&r, from, from + 28 * NANOS_PER_DAY);
    assert_eq!(
        occ,
        vec![WED_2024_01_03 + 14 * NANOS_PER_DAY, WED_2024_01_03 + 28 * NANOS_PER_DAY]
    );
    let occ = generate_occurrences(&r, from + 7 * NANOS_PER_DAY, from + 7 * NANOS_PER_DAY + 1);
    assert_eq!(occ, vec![WED_2024_01_03 + 14 * NANOS_PER_DAY]);
}

#[test]
fn instants_on_and_off_the_cadence() {
    let mut r = rule(Frequency::Biweekly, Weekday::Wed, MON_2024_01_01);
    assert!(is_occurrence_of(&r, WED_2024_01_03));
    assert!(!is_occurrence_of(&r, WED_2024_01_03 + 7 * NANOS_PER_DAY));
    assert!(is_occurrence_of(&r, WED_2024_01_03 + 14 * NANOS_PER_DAY));
    assert!(!is_occurrence_of(&r, WED_2024_01_03 + 1));
    assert!(!is_occurrence_of(&r, MON_2024_01_01));
    assert!(!is_occurrence_of(&r, WED_2024_01_03 - 14 * NANOS_PER_DAY));
    r.end_date = Some(WED_2024_01_03 + 14 * NANOS_PER_DAY);
    assert!(!is_occurrence_of(&r, WED_2024_01_03 + 14 * NANOS_PER_DAY));
    let mut m = rule(Frequency::Monthly, Weekday::Mon, MON_2024_01_01);
    m.weekday_ordinal = Some(WeekdayOrdinal::Last);
    assert!(is_occurrence_of(&m, 1_706_486_400_000_000_000));
    assert!(!is_occurrence_of(&m, 1_706_486_400_000_000_000 + 1));
    assert!(!is_occurrence_of(&m, MON_2024_01_01));
    assert!(!is_occurrence_of(&m, u64::MAX));
    assert!(!is_occurrence_of(&rule(Frequency::Weekly, Weekday::Wed, u64::MAX), u64::MAX));
}

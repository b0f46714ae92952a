use office_hours::calendar::{
    calculate_window_end, days_in_month, days_to_nanos, is_leap_year, nanos_to_days, nanos_to_ymd,
    nth_weekday_of_month, weekday_from_nanos, ymd_to_days, ymd_to_nanos, NANOS_PER_DAY,
};
use office_hours::types::{Weekday, WeekdayOrdinal};

#[test]
fn leap_years_follow_the_gregorian_rule() {
    assert!(is_leap_year(2000));
    assert!(is_leap_year(2024));
    assert!(!is_leap_year(1900));
    assert!(!is_leap_year(2023));
    assert!(!is_leap_year(2100));
}

#[test]
fn month_lengths() {
    assert_eq!(days_in_month(2024, 1), 31);
    assert_eq!(days_in_month(2024, 2), 29);
    assert_eq!(days_in_month(2023, 2), 28);
    assert_eq!(days_in_month(2024, 4), 30);
    assert_eq!(days_in_month(2024, 12), 31);
    assert_eq!(days_in_month(2024, 0), 0);
    assert_eq!(days_in_month(2024, 13), 0);
}

#[test]
fn epoch_is_day_zero_and_a_thursday() {
    assert_eq!(ymd_to_nanos(1970, 1, 1), 0);
    assert_eq!(nanos_to_ymd(0), (1970, 1, 1));
    assert_eq!(weekday_from_nanos(0), 3);
}

#[test]
fn dates_to_instants() {
    assert_eq!(ymd_to_days(2024, 1, 1), 19723);
    assert_eq!(ymd_to_nanos(2024, 1, 3), 1_704_240_000_000_000_000);
    assert_eq!(ymd_to_nanos(2024, 3, 1), 1_709_251_200_000_000_000);
    assert_eq!(ymd_to_nanos(2000, 2, 29), 951_782_400_000_000_000);
    assert_eq!(days_to_nanos(19723), 19723 * NANOS_PER_DAY);
    assert_eq!(nanos_to_days(1_704_240_000_000_000_000), 19725);
}

#[test]
fn instants_to_dates() {
    assert_eq!(nanos_to_ymd(1_704_240_000_000_000_000), (2024, 1, 3));
    assert_eq!(nanos_to_ymd(1_709_164_800_000_000_000), (2024, 2, 29));
    assert_eq!(nanos_to_ymd(1_709_251_200_000_000_000 - 1), (2024, 2, 29));
    assert_eq!(nanos_to_ymd(1_735_603_200_000_000_000), (2024, 12, 31));
    assert_eq!(nanos_to_ymd(u64::MAX), (2554, 7, 21));
}

#[test]
fn date_round_trip_over_a_leap_year() {
    let mut day: i64 = 19723;
    while day < 19723 + 366 {
        let nanos = days_to_nanos(day);
        let (y, m, d) = nanos_to_ymd(nanos + 12_345);
        assert_eq!(ymd_to_nanos(y, m, d), nanos);
        day += 1;
    }
}

#[test]
fn weekdays_count_from_monday() {
    assert_eq!(weekday_from_nanos(1_704_067_200_000_000_000), 0);
    assert_eq!(weekday_from_nanos(1_704_240_000_000_000_000), 2);
    assert_eq!(weekday_from_nanos(1_711_843_200_000_000_000), 6);
    assert_eq!(weekday_from_nanos(1_704_240_000_000_000_000 + NANOS_PER_DAY - 1), 2);
}

#[test]
fn nth_weekday_first_to_fourth() {
    assert_eq!(
        nth_weekday_of_month(2024, 1, Weekday::Mon, WeekdayOrdinal::First),
        Some(1_704_067_200_000_000_000)
    );
    assert_eq!(
        nth_weekday_of_month(2024, 1, Weekday::Mon, WeekdayOrdinal::Second),
        Some(1_704_672_000_000_000_000)
    );
    assert_eq!(
        nth_weekday_of_month(2024, 1, Weekday::Mon, WeekdayOrdinal::Fourth),
        Some(1_705_881_600_000_000_000)
    );
    assert_eq!(
        nth_weekday_of_month(2024, 3, Weekday::Fri, WeekdayOrdinal::First),
        Some(1_709_251_200_000_000_000)
    );
}

#[test]
fn nth_weekday_last() {
    assert_eq!(
        nth_weekday_of_month(2024, 2, Weekday::Fri, WeekdayOrdinal::Last),
        Some(1_708_646_400_000_000_000)
    );
    assert_eq!(
        nth_weekday_of_month(2024, 1, Weekday::Mon, WeekdayOrdinal::Last),
        Some(1_706_486_400_000_000_000)
    );
    assert_eq!(
        nth_weekday_of_month(2024, 2, Weekday::Thu, WeekdayOrdinal::Last),
        Some(1_709_164_800_000_000_000)
    );
}

#[test]
fn nth_weekday_of_no_month_is_none() {
    assert_eq!(nth_weekday_of_month(2024, 0, Weekday::Mon, WeekdayOrdinal::First), None);
    assert_eq!(nth_weekday_of_month(2024, 13, Weekday::Mon, WeekdayOrdinal::Last), None);
    assert_eq!(nth_weekday_of_month(2554, 8, Weekday::Mon, WeekdayOrdinal::First), None);
}

#[test]
fn window_end_is_the_last_nanosecond_of_a_month() {
    let from = 1_704_240_000_000_000_000;
    assert_eq!(calculate_window_end(from, 0), 1_706_659_200_000_000_000 + NANOS_PER_DAY - 1);
    assert_eq!(calculate_window_end(from, 2), 1_711_843_200_000_000_000 + NANOS_PER_DAY - 1);
    assert_eq!(calculate_window_end(from, 12), 1_738_281_600_000_000_000 + NANOS_PER_DAY - 1);
    assert_eq!(calculate_window_end(from, 3), 1_714_435_200_000_000_000 + NANOS_PER_DAY - 1);
}

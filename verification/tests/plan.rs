use rsync_win::plan::limits::format_max_alloc;
use rsync_win::plan::stop_at::{
    days_from_civil, days_in_month, is_leap_year, parse_clock_stop_at_seconds,
    parse_full_stop_at_seconds, parse_stop_at_clock_seconds, stop_at_target_seconds, StopAtError,
};

#[test]
fn clock_times_parse_to_seconds_after_midnight() {
    assert_eq!(parse_stop_at_clock_seconds("12:30"), Ok(45_000));
    assert_eq!(parse_stop_at_clock_seconds("23:59:59"), Ok(86_399));
    assert_eq!(parse_stop_at_clock_seconds("+1:05"), Ok(3_900));
    assert_eq!(parse_stop_at_clock_seconds("24:00"), Err(StopAtError::ClockRange));
    assert_eq!(parse_stop_at_clock_seconds("12"), Err(StopAtError::TimeFormat));
    assert_eq!(parse_stop_at_clock_seconds("1:2:3:4"), Err(StopAtError::TimeFormat));
    assert_eq!(parse_stop_at_clock_seconds("aa:00"), Err(StopAtError::HourInvalid));
    assert_eq!(parse_stop_at_clock_seconds("01:-1"), Err(StopAtError::MinuteInvalid));
    assert_eq!(parse_stop_at_clock_seconds("01:02:x"), Err(StopAtError::SecondInvalid));
    assert_eq!(
        StopAtError::ClockRange.message(),
        "--stop-at time is outside the valid clock range"
    );
}

#[test]
fn civil_dates_count_days_from_the_epoch() {
    assert_eq!(days_from_civil(1970, 1, 1), Ok(0));
    assert_eq!(days_from_civil(1969, 12, 31), Ok(-1));
    assert_eq!(days_from_civil(2000, 3, 1), Ok(11_017));
    assert_eq!(days_from_civil(2024, 2, 29), Ok(19_782));
    assert_eq!(days_from_civil(1600, 1, 1), Ok(-135_140));
    assert_eq!(days_from_civil(2023, 2, 29), Err(StopAtError::DayRange));
    assert_eq!(days_from_civil(2024, 13, 1), Err(StopAtError::MonthRange));
    assert_eq!(days_from_civil(2024, 1, 0), Err(StopAtError::DayRange));
    assert!(is_leap_year(2000));
    assert!(!is_leap_year(1900));
    assert!(is_leap_year(-4));
    assert_eq!(days_in_month(2023, 2), 28);
    assert_eq!(days_in_month(2024, 2), 29);
    assert_eq!(days_in_month(2024, 11), 30);
    assert_eq!(days_in_month(2024, 0), 0);
}

#[test]
fn full_stop_at_values_resolve_to_epoch_seconds() {
    assert_eq!(parse_full_stop_at_seconds("2024-02-29T12:00"), Ok(1_709_208_000));
    assert_eq!(parse_full_stop_at_seconds("2024/02/29T12:00"), Ok(1_709_208_000));
    assert_eq!(parse_full_stop_at_seconds("1970-01-01T00:00:01"), Ok(1));
    assert_eq!(
        parse_full_stop_at_seconds("1969-12-31T23:59"),
        Err(StopAtError::BeforeEpoch)
    );
    assert_eq!(parse_full_stop_at_seconds("2024-02-29"), Err(StopAtError::FullFormat));
    assert_eq!(parse_full_stop_at_seconds("2024-02T12:00"), Err(StopAtError::DateFormat));
    assert_eq!(parse_full_stop_at_seconds("x-1-1T00:00"), Err(StopAtError::YearInvalid));
    assert_eq!(parse_full_stop_at_seconds("2024-x-1T00:00"), Err(StopAtError::MonthInvalid));
    assert_eq!(parse_full_stop_at_seconds("2024-1-1T25:00"), Err(StopAtError::ClockRange));
}

#[test]
fn clock_stop_at_picks_the_next_matching_time() {
    let noon = 1_709_208_000;
    assert_eq!(parse_clock_stop_at_seconds("13:00", noon), Ok(1_709_211_600));
    assert_eq!(parse_clock_stop_at_seconds("01:00", noon), Ok(1_709_254_800));
    assert_eq!(parse_clock_stop_at_seconds("12:00", noon), Ok(noon + 86_400));
    assert_eq!(stop_at_target_seconds("13:00", noon), Ok(1_709_211_600));
    assert_eq!(stop_at_target_seconds("2024-02-29T12:00", noon), Ok(noon));
    assert_eq!(
        stop_at_target_seconds("2024-02-29T12:00", noon + 1),
        Err(StopAtError::NotFuture)
    );
}

#[test]
fn max_alloc_values_are_shown_with_units() {
    assert_eq!(format_max_alloc(" 512M "), "512 MB");
    assert_eq!(format_max_alloc("2 g"), "2 GB");
    assert_eq!(format_max_alloc("1.5k"), "1.5 KB");
    assert_eq!(format_max_alloc("100"), "100 B");
    assert_eq!(format_max_alloc(""), " B");
}

use vnlog::duration::{
    duration_fits, fmt_duration, minutes_fit, parse_date, parse_hour_min, parse_min, split_hours,
    DurationError, MAX_MINUTES,
};

#[test]
fn parses_hour_minute_form() {
    assert_eq!(parse_date("1:28"), Ok(88));
    assert_eq!(parse_date("0:00"), Ok(0));
    assert_eq!(parse_date("+2:+05"), Ok(125));
    assert_eq!(parse_date("10:7"), Ok(607));
}

#[test]
fn parses_minute_form() {
    assert_eq!(parse_date("54"), Ok(54));
    assert_eq!(parse_date("0"), Ok(0));
    assert_eq!(parse_date("+7"), Ok(7));
}

#[test]
fn rejects_sixty_minutes_or_more_in_minute_form() {
    assert_eq!(
        parse_date("90"),
        Err("Unable to parse duration `90`.\nTried `[hour:min]` format, but colon `:` not found.\nTried `[min]` format, but minutes greater than 60.".to_string())
    );
}

#[test]
fn rejects_leading_colon() {
    assert_eq!(
        parse_date(":30"),
        Err("Unable to parse duration `:30`.\nTried `[hour:min]` format, but parsing hour component failed.\nTried `[min]` format, but parsing minutes failed.".to_string())
    );
}

#[test]
fn rejects_bad_minute_component() {
    assert_eq!(
        parse_date("1:x"),
        Err("Unable to parse duration `1:x`.\nTried `[hour:min]` format, but parsing minute component failed.\nTried `[min]` format, but parsing minutes failed.".to_string())
    );
    assert_eq!(
        parse_date("1:60"),
        Err("Unable to parse duration `1:60`.\nTried `[hour:min]` format, but minutes greater than 60.\nTried `[min]` format, but parsing minutes failed.".to_string())
    );
    assert_eq!(
        parse_date(""),
        Err("Unable to parse duration ``.\nTried `[hour:min]` format, but parsing hour component failed.\nTried `[min]` format, but parsing minutes failed.".to_string())
    );
}

#[test]
fn second_colon_belongs_to_minutes() {
    assert_eq!(parse_hour_min("1:2:3"), Err(DurationError::MinuteComponent));
}

#[test]
fn hour_minute_errors() {
    assert_eq!(parse_hour_min("5"), Err(DurationError::MissingColon));
    assert_eq!(parse_hour_min("a:5"), Err(DurationError::HourComponent));
    assert_eq!(parse_hour_min("-1:5"), Err(DurationError::HourComponent));
    assert_eq!(parse_hour_min("+:5"), Err(DurationError::HourComponent));
    assert_eq!(parse_hour_min("1:"), Err(DurationError::MinuteComponent));
    assert_eq!(parse_hour_min("1:75"), Err(DurationError::MinutesTooLarge));
    assert_eq!(parse_hour_min("3:59"), Ok(239));
}

#[test]
fn minute_errors() {
    assert_eq!(parse_min("59"), Ok(59));
    assert_eq!(parse_min("60"), Err(DurationError::MinutesTooLarge));
    assert_eq!(parse_min("x"), Err(DurationError::Minutes));
    assert_eq!(parse_min("99999999999999999999"), Err(DurationError::Minutes));
}

#[test]
fn error_messages() {
    assert_eq!(DurationError::HourComponent.message(), "parsing hour component failed");
    assert_eq!(DurationError::MissingColon.message(), "colon `:` not found");
    assert_eq!(DurationError::MinuteComponent.message(), "parsing minute component failed");
    assert_eq!(DurationError::Minutes.message(), "parsing minutes failed");
    assert_eq!(DurationError::MinutesTooLarge.message(), "minutes greater than 60");
}

#[test]
fn hours_above_i64_wrap_around() {
    // 2^64 - 1 hours read as -1 hour once cast to a signed number.
    assert_eq!(parse_date("18446744073709551615:00"), Ok(-60));
    assert_eq!(parse_date("18446744073709551616:00").is_err(), true);
}

#[test]
fn range_of_durations() {
    assert!(duration_fits("1:00"));
    assert!(duration_fits("nothing"));
    assert!(duration_fits("2562047788015:12"));
    assert!(!duration_fits("2562047788015:13"));
    assert!(!duration_fits("9000000000000000:00"));
    assert!(minutes_fit(MAX_MINUTES));
    assert!(minutes_fit(-MAX_MINUTES));
    assert!(!minutes_fit(MAX_MINUTES + 1));
    assert_eq!(parse_date("2562047788015:12"), Ok(MAX_MINUTES));
}

#[test]
fn formats_durations() {
    assert_eq!(fmt_duration(65), "1:05");
    assert_eq!(fmt_duration(0), "0:00");
    assert_eq!(fmt_duration(600), "10:00");
    assert_eq!(fmt_duration(59), "0:59");
    assert_eq!(fmt_duration(-5), "0:-5");
    assert_eq!(fmt_duration(-65), "-1:-5");
    assert_eq!(fmt_duration(-125), "-2:-5");
    assert_eq!(fmt_duration(-630), "-10:-30");
}

#[test]
fn splits_hours_like_chrono() {
    assert_eq!(split_hours(125), (2, 5));
    assert_eq!(split_hours(-125), (-2, -5));
    assert_eq!(split_hours(MAX_MINUTES), (2562047788015, 12));
}

#[test]
fn printed_durations_read_back() {
    for m in [0i64, 1, 9, 10, 59, 60, 61, 599, 1439, 100000, MAX_MINUTES] {
        assert_eq!(parse_date(&fmt_duration(m)), Ok(m));
    }
}

use replayd::format::{format_date, format_date_at, format_date_since, format_duration, is_valid_datetime, LocalDateTime};

fn at(year: i32, month: u32, day: u32, hour: u32, minute: u32, second: u32) -> LocalDateTime {
    LocalDateTime { year, month, day, hour, minute, second }
}

#[test]
fn long_durations() {
    assert_eq!(format_duration(3725, true), "1:02:05");
    assert_eq!(format_duration(125, true), "02:05");
    assert_eq!(format_duration(1, true), "1 second");
    assert_eq!(format_duration(0, true), "0 seconds");
    assert_eq!(format_duration(45, true), "45 seconds");
}

#[test]
fn short_durations() {
    assert_eq!(format_duration(3725, false), "1:02:05");
    assert_eq!(format_duration(125, false), "2:05");
    assert_eq!(format_duration(60, false), "1:00");
    assert_eq!(format_duration(9, false), "9s");
    assert_eq!(format_duration(36000, false), "10:00:00");
}

#[test]
fn long_date() {
    let d = at(2024, 1, 5, 15, 7, 9);
    let now = at(2024, 6, 1, 12, 0, 0);
    assert_eq!(format_date_at(&d, &now, true), "Jan 05, 2024, 3:07:09 PM");
}

#[test]
fn short_dates_relative_to_now() {
    let now = at(2024, 3, 1, 12, 0, 0);
    assert_eq!(format_date_at(&at(2024, 3, 1, 9, 5, 0), &now, false), "Today at 9:05 AM");
    assert_eq!(format_date_at(&at(2024, 2, 29, 23, 59, 0), &now, false), "Yesterday at 11:59 PM");
    assert_eq!(format_date_at(&at(2024, 2, 28, 0, 30, 0), &now, false), "Feb 28 at 12:30 AM");
    assert_eq!(format_date_at(&at(2023, 12, 31, 13, 0, 0), &now, false), "Dec 31 2023 at 1:00 PM");
}

#[test]
fn yesterday_across_a_year() {
    let now = at(2025, 1, 1, 8, 0, 0);
    assert_eq!(format_date_at(&at(2024, 12, 31, 20, 15, 0), &now, false), "Yesterday at 8:15 PM");
}

#[test]
fn validity_of_moments() {
    assert!(is_valid_datetime(&at(2024, 2, 29, 0, 0, 0)));
    assert!(!is_valid_datetime(&at(2023, 2, 29, 0, 0, 0)));
    assert!(!is_valid_datetime(&at(2024, 4, 31, 0, 0, 0)));
    assert!(!is_valid_datetime(&at(2024, 1, 1, 24, 0, 0)));
}

#[test]
fn date_of_a_timestamp() {
    let s = format_date(1_700_000_000, true).unwrap();
    assert!(s.contains("2023"));
}

#[test]
fn format_date_at_chrono_range_ends() {
    let max: i64 = 8_210_266_876_799;
    let min: i64 = -8_334_601_228_800;
    assert!(chrono::DateTime::from_timestamp_secs(max).is_some());
    assert!(chrono::DateTime::from_timestamp_secs(max + 1).is_none());
    assert!(chrono::DateTime::from_timestamp_secs(min).is_some());
    assert!(chrono::DateTime::from_timestamp_secs(min - 1).is_none());
    assert_eq!(replayd::format::format_date((max + 1) as u64, true), None);
    assert_eq!(replayd::format::format_date((max + 1) as u64, false), None);
    assert_eq!(replayd::format::format_date((min - 1) as u64, true), None);
    assert!(replayd::format::format_date((max - 86_400) as u64, true).is_some());
    assert!(replayd::format::format_date((min + 86_400) as u64, true).is_some());
    assert!(replayd::format::format_date(1_700_000_000, true).is_some());
    assert!(replayd::format::format_date(u64::MAX, true).is_some());
}

#[test]
fn format_date_since_a_clock_reading() {
    let t: u64 = 1_700_000_000;
    assert!(format_date_since(t, Some(t), false).unwrap().starts_with("Today at "));
    assert!(format_date_since(t, Some(t + 86_400), false).unwrap().starts_with("Yesterday at "));
    assert_eq!(format_date_since(t, None, false), None);
    assert_eq!(format_date_since(t, None, true), format_date(t, true));
    assert_eq!(format_date_since(t, Some(0), true), format_date(t, true));
    let earlier = format_date_since(t, Some(t + 3 * 86_400), false).unwrap();
    assert!(!earlier.starts_with("Today") && !earlier.starts_with("Yesterday"));
    assert!(earlier.contains(" at "));
}

fn month_abbrev(m: u32) -> &'static str {
    ["Jan", "Feb", "Mar", "Apr", "May", "Jun", "Jul", "Aug", "Sep", "Oct", "Nov", "Dec"][(m - 1) as usize]
}

fn year_text(y: i32) -> String {
    if (0..=9999).contains(&y) {
        format!("{y:04}")
    } else if y < 0 {
        format!("-{:04}", -(y as i64))
    } else {
        format!("+{y:04}")
    }
}

fn clock_text(h: u32, m: u32) -> String {
    let h12 = if h % 12 == 0 { 12 } else { h % 12 };
    format!("{h12}:{m:02} {}", if h >= 12 { "PM" } else { "AM" })
}

#[test]
fn chrono_patterns_write_the_stated_text() {
    for year in [-262143, -5, 0, 5, 999, 1000, 2023, 9999, 10000, 262142] {
        for month in [1u32, 2, 7, 12] {
            for day in [2u32, 9, 10, 28] {
                for hour in [0u32, 1, 11, 12, 13, 23] {
                    for minute in [0u32, 5, 59] {
                        let d = at(year, month, day, hour, minute, 7);
                        let long = format!(
                            "{} {day:02}, {}, {}:{:02} {}",
                            month_abbrev(month),
                            year_text(year),
                            clock_text(hour, minute).split(' ').next().unwrap(),
                            7,
                            if hour >= 12 { "PM" } else { "AM" }
                        );
                        assert_eq!(format_date_at(&d, &d, true), long);
                        assert_eq!(format_date_at(&d, &d, false), format!("Today at {}", clock_text(hour, minute)));
                        let other_month = at(year, if month == 7 { 1 } else { 7 }, 15, 12, 0, 0);
                        assert_eq!(
                            format_date_at(&d, &other_month, false),
                            format!("{} {day:02} at {}", month_abbrev(month), clock_text(hour, minute))
                        );
                        let other_year = at(if year == 2023 { 2024 } else { 2023 }, 7, 15, 12, 0, 0);
                        assert_eq!(
                            format_date_at(&d, &other_year, false),
                            format!("{} {day:02} {} at {}", month_abbrev(month), year_text(year), clock_text(hour, minute))
                        );
                    }
                }
            }
        }
    }
}

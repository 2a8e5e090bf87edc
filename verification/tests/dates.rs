use chrono::{Datelike, NaiveDate};
use haul::calendar::{display_date, read_day, show_day, standardize_date_format, Day};
use haul::config::Config;
use haul::status::{check_date, Status};
use haul::task::TaskError;
use haul::template::parse_date;

fn day(year: i32, month: u32, day_of_month: u32) -> Day {
    Day { number: NaiveDate::from_ymd_opt(year, month, day_of_month).unwrap().num_days_from_ce() }
}

fn reason(text: &str, format: &str) -> String {
    NaiveDate::parse_from_str(text, format).unwrap_err().to_string()
}

#[test]
fn days_are_counted_from_the_year_one() {
    assert_eq!(read_day("01/01/0001", "%d/%m/%Y"), Ok(Day { number: 1 }));
    assert_eq!(read_day("01/01/1970", "%d/%m/%Y"), Ok(Day { number: 719_163 }));
    assert_eq!(read_day("17/05/2024", "%d/%m/%Y"), Ok(day(2024, 5, 17)));
    assert_eq!(read_day("2024/05/17", "%Y/%m/%d"), Ok(day(2024, 5, 17)));
    assert_eq!(read_day("5/6/24", "%d/%m/%y"), Ok(day(2024, 6, 5)));
}

#[test]
fn read_day_says_why_a_text_is_no_date() {
    for (text, format) in [
        ("tomorrow", "%d/%m/%Y"),
        ("31/02/2024", "%d/%m/%Y"),
        ("17/05", "%d/%m/%Y"),
        ("17/05/2024 ", "%d/%m/%Y"),
        ("17/05", "%d/%m"),
        ("17/05/2024", "%d/%m/%Q"),
        ("", "%d/%m/%Y"),
    ] {
        assert_eq!(
            read_day(text, format),
            Err(TaskError::UnreadableDate { reason: reason(text, format) }),
            "{:?} {:?}",
            text,
            format
        );
    }
}

#[test]
fn show_day_writes_a_day_in_a_format() {
    assert_eq!(show_day(day(2024, 5, 7), "%d/%m/%Y"), Ok("07/05/2024".to_string()));
    assert_eq!(show_day(day(2024, 5, 7), "%Y/%m/%d"), Ok("2024/05/07".to_string()));
    assert_eq!(show_day(day(2024, 5, 7), "%d/%m/%y"), Ok("07/05/24".to_string()));
    assert_eq!(show_day(Day { number: 1 }, "%d/%m/%Y"), Ok("01/01/0001".to_string()));
    assert_eq!(show_day(day(2024, 5, 7), ""), Ok(String::new()));
}

#[test]
fn show_day_fails_where_nothing_can_be_shown() {
    assert_eq!(
        show_day(day(2024, 5, 7), "%d/%Q"),
        Err(TaskError::UnprintableDate { format: "%d/%Q".to_string() })
    );
    assert_eq!(
        show_day(day(2024, 5, 7), "%H:%M"),
        Err(TaskError::UnprintableDate { format: "%H:%M".to_string() })
    );
    assert_eq!(
        show_day(Day { number: i32::MAX }, "%d/%m/%Y"),
        Err(TaskError::UnprintableDate { format: "%d/%m/%Y".to_string() })
    );
}

#[test]
fn standardize_puts_a_date_into_the_storage_format() {
    assert_eq!(standardize_date_format("2024/05/17", "%Y/%m/%d"), Ok("17/05/2024".to_string()));
    assert_eq!(standardize_date_format("5/6/2024", "%d/%m/%Y"), Ok("05/06/2024".to_string()));
    assert_eq!(standardize_date_format("05/17/2024", "%m/%d/%Y"), Ok("17/05/2024".to_string()));
    assert_eq!(standardize_date_format("17/05/24", "%d/%m/%y"), Ok("17/05/2024".to_string()));
    assert_eq!(
        standardize_date_format("2024-05-17", "%Y/%m/%d"),
        Err(TaskError::UnreadableDate { reason: reason("2024-05-17", "%Y/%m/%d") })
    );
}

#[test]
fn display_date_shows_a_stored_date() {
    assert_eq!(display_date("17/05/2024", "%Y/%m/%d"), Ok("2024/05/17".to_string()));
    assert_eq!(display_date("17/05/2024", "%d/%m/%y"), Ok("17/05/24".to_string()));
    assert_eq!(display_date("17/05/2024", "%m"), Ok("05".to_string()));
    assert_eq!(
        display_date("2024/05/17", "%d/%m/%Y"),
        Err(TaskError::UnreadableDate { reason: reason("2024/05/17", "%d/%m/%Y") })
    );
}

#[test]
fn a_date_comes_back_as_it_was_entered() {
    let dates = [(2024, 2, 29), (1999, 12, 31), (2000, 1, 1), (1, 1, 1), (9999, 12, 31), (2024, 5, 7)];
    for template in ["d/m/y", "y/m/d", "m/d/y", "y/d/m", "d/m/y/d"] {
        let format = parse_date(template).unwrap();
        for (year, month, day_of_month) in dates {
            let date = NaiveDate::from_ymd_opt(year, month, day_of_month).unwrap();
            let entered = date.format(&format).to_string();
            let stored = standardize_date_format(&entered, &format).unwrap();
            assert_eq!(stored, date.format("%d/%m/%Y").to_string());
            assert_eq!(display_date(&stored, &format), Ok(entered));
        }
    }
}

#[test]
fn a_date_without_leading_zeros_comes_back_with_them() {
    let stored = standardize_date_format("7/5/2024", "%d/%m/%Y").unwrap();
    assert_eq!(display_date(&stored, "%d/%m/%Y"), Ok("07/05/2024".to_string()));
}

#[test]
fn check_date_reads_the_date_in_the_configured_format() {
    let mut config = Config::default();
    config.date.format = "%Y/%m/%d".to_string();
    config.date.warn_days_before = 2;
    let today = day(2024, 5, 17);
    assert_eq!(check_date("2024/05/10", &config, today), Ok(Status::Late));
    assert_eq!(check_date("2024/05/16", &config, today), Ok(Status::Yesterday));
    assert_eq!(check_date("2024/05/17", &config, today), Ok(Status::Today));
    assert_eq!(check_date("2024/05/18", &config, today), Ok(Status::Tomorrow));
    assert_eq!(check_date("2024/05/19", &config, today), Ok(Status::Tomorrow));
    assert_eq!(check_date("2024/05/20", &config, today), Ok(Status::Future));
    assert_eq!(
        check_date("17/05/2024", &config, today),
        Err(TaskError::UnreadableDate { reason: reason("17/05/2024", "%Y/%m/%d") })
    );
}

#[test]
fn check_date_over_the_turn_of_a_year() {
    let config = Config::default();
    assert_eq!(check_date("01/01/25", &config, day(2024, 12, 31)), Ok(Status::Tomorrow));
    assert_eq!(check_date("31/12/24", &config, day(2025, 1, 1)), Ok(Status::Yesterday));
    assert_eq!(check_date("01/03/24", &config, day(2024, 2, 28)), Ok(Status::Future));
    assert_eq!(check_date("01/03/23", &config, day(2023, 2, 28)), Ok(Status::Tomorrow));
}

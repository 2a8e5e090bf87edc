use chrono::{Datelike, NaiveDate};
use colored::control::set_override;
use haul::calendar::Day;
use haul::config::{parse_config, Config, Date, Ui};
use haul::render::{display, display_all, format_compact, format_date, format_task};
use haul::status::{check_date, Status};
use haul::task::Task;
use haul::template::parse_date;

fn day(year: i32, month: u32, day_of_month: u32) -> Day {
    Day { number: NaiveDate::from_ymd_opt(year, month, day_of_month).unwrap().num_days_from_ce() }
}

fn config(colors: bool, compact: bool, warn_days_before: i32) -> Config {
    Config {
        ui: Ui { colors, compact },
        date: Date { format: "%d/%m/%Y".to_string(), warn_days_before },
    }
}

fn task(id: i64, name: &str, done: bool, list: &str, date: Option<&str>) -> Task {
    Task {
        id,
        name: name.to_string(),
        done,
        list: list.to_string(),
        date: date.map(str::to_string),
    }
}

#[test]
fn each_status_has_its_colour() {
    set_override(true);
    let today = day(2024, 6, 5);
    let settings = config(true, false, 2);
    assert_eq!(
        format_date(&settings, "01/06/2024", today),
        Ok("| due: \x1b[31m01/06/2024\x1b[0m".to_string())
    );
    assert_eq!(
        format_date(&settings, "04/06/2024", today),
        Ok("| due: \x1b[33m04/06/2024\x1b[0m".to_string())
    );
    assert_eq!(
        format_date(&settings, "05/06/2024", today),
        Ok("| due: \x1b[32m05/06/2024\x1b[0m".to_string())
    );
    assert_eq!(
        format_date(&settings, "06/06/2024", today),
        Ok("| due: \x1b[36m06/06/2024\x1b[0m".to_string())
    );
    assert_eq!(
        format_date(&settings, "07/06/2024", today),
        Ok("| due: \x1b[36m07/06/2024\x1b[0m".to_string())
    );
    assert_eq!(format_date(&settings, "08/06/2024", today), Ok("| due: 08/06/2024".to_string()));
}

#[test]
fn colours_off_leave_every_date_plain() {
    set_override(true);
    let today = day(2024, 6, 5);
    let settings = config(false, false, 2);
    for stored in ["01/06/2024", "04/06/2024", "05/06/2024", "06/06/2024", "08/06/2024"] {
        assert_eq!(format_date(&settings, stored, today), Ok(format!("| due: {}", stored)));
    }
}

#[test]
fn a_date_beyond_the_warning_has_no_colour() {
    set_override(true);
    let format = parse_date("d/m/y").unwrap();
    assert_eq!(format, "%d/%m/%Y");
    let settings = Config {
        ui: Ui { colors: true, compact: false },
        date: Date { format, warn_days_before: 1 },
    };
    let today = day(2024, 6, 5);
    assert_eq!(check_date("07/06/2024", &settings, today), Ok(Status::Future));
    assert_eq!(format_date(&settings, "07/06/2024", today), Ok("| due: 07/06/2024".to_string()));
    let one = task(9, "pay rent", false, "home", Some("07/06/2024"));
    assert_eq!(
        format_task(&settings, &one, 1, 1, today),
        Ok("  │ 1 ─ [ ] pay rent \n  │         └─[id: 9] | due: 07/06/2024 \n  └──────────●\n\n"
            .to_string())
    );
}

#[test]
fn without_warning_the_next_day_has_no_colour() {
    set_override(true);
    let settings = config(true, false, 0);
    let today = day(2024, 6, 5);
    assert_eq!(check_date("06/06/2024", &settings, today), Ok(Status::Future));
    assert_eq!(format_date(&settings, "06/06/2024", today), Ok("| due: 06/06/2024".to_string()));
}

#[test]
fn entries_carry_the_coloured_date() {
    set_override(true);
    let today = day(2024, 6, 5);
    let one = task(9, "pay rent", false, "home", Some("05/06/2024"));
    assert_eq!(
        format_task(&config(true, false, 1), &one, 1, 2, today),
        Ok("  │ 1 ─ [ ] pay rent \n  │         └─[id: 9] | due: \x1b[32m05/06/2024\x1b[0m \n  │\n"
            .to_string())
    );
    assert_eq!(
        format_compact(&config(true, true, 1), &one, 2, 2, today),
        Ok("  └ [9 | due: \x1b[32m05/06/2024\x1b[0m] ─ [ ] pay rent\n\n".to_string())
    );
}

#[test]
fn the_title_is_bold_whether_colours_are_on_or_off() {
    set_override(true);
    let tasks = vec![task(1, "a", false, "home", Some("01/06/2024"))];
    let today = day(2024, 6, 5);
    assert_eq!(
        display("home", &tasks, &config(false, true, 1), today),
        Ok("  ┌─[\x1b[1mhome\x1b[0m]\n  └ [1 | due: 01/06/2024] ─ [ ] a\n\n".to_string())
    );
    assert_eq!(
        display("home", &tasks, &config(true, true, 1), today),
        Ok("  ┌─[\x1b[1mhome\x1b[0m]\n  └ [1 | due: \x1b[31m01/06/2024\x1b[0m] ─ [ ] a\n\n".to_string())
    );
    assert_eq!(
        display("home", &Vec::new(), &config(true, false, 1), today),
        Ok("  ┌──────────●[\x1b[1mhome\x1b[0m]\n".to_string())
    );
}

#[test]
fn display_all_with_colours() {
    set_override(true);
    let tasks = vec![
        task(1, "a", false, "work", Some("04/06/2024")),
        task(2, "b", true, "home", None),
    ];
    let text = "ui {\n compact = true\n}\ndate {\n format = d/m/y\n}\n";
    let settings = parse_config(text).unwrap();
    assert_eq!(
        display_all(&tasks, &settings, day(2024, 6, 5)),
        Ok("  ┌─[\x1b[1mwork\x1b[0m]\n  └ [1 | due: \x1b[33m04/06/2024\x1b[0m] ─ [ ] a\n\n  ┌─[\x1b[1mhome\x1b[0m]\n  └ [2] ─ [x] b\n\n"
            .to_string())
    );
}

use chrono::Datelike;
use whocares::date::{parse_date, Date, DateError};
use whocares::schedule::{
    get_current_caretaker, get_current_caretaker_idx, get_next_weeks, CareWeek, Config,
    ConfigError, Reschedule, WeekId,
};
use whocares::week_key::parse_week_key;

fn day(s: &str) -> Date {
    parse_date(s).unwrap()
}

fn today() -> Date {
    Date { days: chrono::Local::now().date_naive().num_days_from_ce() }
}

fn names(v: &[&str]) -> Vec<String> {
    v.iter().map(|s| s.to_string()).collect()
}

fn sample_config() -> Config {
    Config::new(day("2024-05-27"), names(&["A", "B", "C", "D"]), Vec::new()).unwrap()
}

fn caretakers_of(weeks: &[CareWeek]) -> Vec<&str> {
    weeks.iter().map(|w| w.caretaker.as_str()).collect()
}

#[test]
fn get_current_caretaker_works() {
    let config = sample_config();
    let current_caretaker = get_current_caretaker(&config, today());
    assert!(config.caretakers.contains(&current_caretaker));
}

#[test]
fn get_next_weeks_across_years_works() {
    let config = sample_config();
    let weeks = get_next_weeks(&config, today(), 100);
    assert!(weeks.len() == 100);
}

#[test]
fn reschedule_works() {
    let now = chrono::Local::now().date_naive();
    let current_week = now.iso_week().week();
    let current_year = now.iso_week().year();
    let config = Config::new(
        day("2024-01-01"),
        names(&["A", "B", "C"]),
        vec![
            Reschedule {
                week: WeekId { year: current_year, week: current_week },
                caretaker: "C".to_string(),
            },
            Reschedule {
                week: WeekId { year: current_year, week: current_week + 1 },
                caretaker: "B".to_string(),
            },
            Reschedule {
                week: WeekId { year: current_year, week: current_week + 2 },
                caretaker: "A".to_string(),
            },
        ],
    )
    .unwrap();

    let weeks = get_next_weeks(&config, today(), 3);
    assert!(weeks.len() == 3);
    assert!(weeks[0].caretaker == "C");
    assert!(weeks[1].caretaker == "B");
    assert!(weeks[2].caretaker == "A");
}

#[test]
fn three_weeks_from_start_follow_the_list() {
    let config = Config::new(day("2024-01-01"), names(&["A", "B", "C"]), Vec::new()).unwrap();
    let weeks = get_next_weeks(&config, day("2024-01-01"), 3);
    assert_eq!(caretakers_of(&weeks), vec!["A", "B", "C"]);
    assert_eq!(weeks[0].start_date, day("2024-01-01"));
    assert_eq!(weeks[1].start_date, day("2024-01-08"));
    assert_eq!(weeks[2].start_date, day("2024-01-15"));
    assert_eq!(weeks[0].week, 1);
    assert_eq!(weeks[2].week, 3);
}

#[test]
fn rotation_wraps_after_the_last_caretaker() {
    let config = Config::new(day("2024-01-01"), names(&["A", "B", "C"]), Vec::new()).unwrap();
    let weeks = get_next_weeks(&config, day("2024-01-22"), 1);
    assert_eq!(caretakers_of(&weeks), vec!["A"]);
    assert_eq!(get_current_caretaker_idx(&config, day("2024-01-22")), 0);
    assert_eq!(get_current_caretaker_idx(&config, day("2024-01-15")), 2);
    assert_eq!(get_current_caretaker(&config, day("2024-01-15")), "C");
}

#[test]
fn overrides_replace_each_of_three_weeks() {
    let config = Config::new(
        day("2024-01-01"),
        names(&["A", "B", "C"]),
        vec![
            Reschedule { week: WeekId { year: 2024, week: 1 }, caretaker: "C".to_string() },
            Reschedule { week: WeekId { year: 2024, week: 2 }, caretaker: "B".to_string() },
            Reschedule { week: WeekId { year: 2024, week: 3 }, caretaker: "A".to_string() },
        ],
    )
    .unwrap();
    let weeks = get_next_weeks(&config, day("2024-01-01"), 3);
    assert_eq!(caretakers_of(&weeks), vec!["C", "B", "A"]);
}

#[test]
fn override_does_not_shift_the_rotation() {
    let config = Config::new(
        day("2024-01-01"),
        names(&["A", "B", "C"]),
        vec![Reschedule { week: WeekId { year: 2024, week: 2 }, caretaker: "Z".to_string() }],
    )
    .unwrap();
    let weeks = get_next_weeks(&config, day("2024-01-01"), 4);
    assert_eq!(caretakers_of(&weeks), vec!["A", "Z", "C", "A"]);
}

#[test]
fn first_matching_override_counts() {
    let config = Config::new(
        day("2024-01-01"),
        names(&["A"]),
        vec![
            Reschedule { week: WeekId { year: 2024, week: 1 }, caretaker: "X".to_string() },
            Reschedule { week: WeekId { year: 2024, week: 1 }, caretaker: "Y".to_string() },
        ],
    )
    .unwrap();
    let weeks = get_next_weeks(&config, day("2024-01-03"), 1);
    assert_eq!(caretakers_of(&weeks), vec!["X"]);
}

#[test]
fn zero_weeks_give_an_empty_schedule() {
    let weeks = get_next_weeks(&sample_config(), day("2024-06-01"), 0);
    assert!(weeks.is_empty());
}

#[test]
fn weeks_are_mondays_seven_days_apart() {
    let weeks = get_next_weeks(&sample_config(), day("2024-06-05"), 10);
    assert_eq!(weeks[0].start_date, day("2024-06-03"));
    assert_eq!(weeks[0].end_date, day("2024-06-09"));
    for w in &weeks {
        assert_eq!(w.end_date.days - w.start_date.days, 6);
    }
    for pair in weeks.windows(2) {
        assert_eq!(pair[1].start_date.days - pair[0].start_date.days, 7);
    }
}

#[test]
fn rotation_runs_on_across_new_year() {
    let config = Config::new(day("2024-12-23"), names(&["A", "B", "C"]), Vec::new()).unwrap();
    let weeks = get_next_weeks(&config, day("2024-12-23"), 4);
    assert_eq!(caretakers_of(&weeks), vec!["A", "B", "C", "A"]);
    let numbers: Vec<u32> = weeks.iter().map(|w| w.week).collect();
    assert_eq!(numbers, vec![52, 1, 2, 3]);
}

#[test]
fn override_keyed_by_iso_year_at_new_year() {
    let config = Config::new(
        day("2024-12-23"),
        names(&["A", "B", "C"]),
        vec![Reschedule { week: WeekId { year: 2025, week: 1 }, caretaker: "Z".to_string() }],
    )
    .unwrap();
    let weeks = get_next_weeks(&config, day("2024-12-23"), 3);
    assert_eq!(caretakers_of(&weeks), vec!["A", "Z", "C"]);
    assert_eq!(weeks[1].start_date, day("2024-12-30"));
}

#[test]
fn hundred_weeks_strictly_increase() {
    let weeks = get_next_weeks(&sample_config(), day("2024-06-05"), 100);
    assert_eq!(weeks.len(), 100);
    for pair in weeks.windows(2) {
        assert!(pair[0].start_date.days < pair[1].start_date.days);
    }
    assert!(weeks.iter().any(|w| w.week == 1));
}

#[test]
fn empty_caretaker_list_is_refused() {
    let r = Config::new(day("2024-01-01"), Vec::new(), Vec::new());
    assert!(matches!(r, Err(ConfigError::NoCaretakers)));
}

#[test]
fn dates_parse_to_day_numbers() {
    assert_eq!(day("0001-01-01").days, 1);
    assert_eq!(day("2024-05-27").days, 739033);
    assert_eq!(parse_date("2024-02-30"), Err(DateError::Malformed));
    assert_eq!(parse_date("27.05.2024"), Err(DateError::Malformed));
    assert_eq!(Date::from_days(0), Some(Date { days: 0 }));
    assert_eq!(Date::from_days(i32::MAX), None);
}

#[test]
fn week_keys_parse() {
    assert_eq!(parse_week_key("2024-22"), Some(WeekId { year: 2024, week: 22 }));
    assert_eq!(parse_week_key("0-1"), Some(WeekId { year: 0, week: 1 }));
    assert_eq!(parse_week_key("2024-"), None);
    assert_eq!(parse_week_key("-22"), None);
    assert_eq!(parse_week_key("2024"), None);
    assert_eq!(parse_week_key("2024-2x"), None);
    assert_eq!(parse_week_key("20a4-22"), None);
    assert_eq!(parse_week_key("2024--22"), None);
    assert_eq!(parse_week_key("2147483648-1"), None);
    assert_eq!(parse_week_key("2147483647-4294967295"), Some(WeekId { year: 2147483647, week: 4294967295 }));
    assert_eq!(parse_week_key("1-4294967296"), None);
    assert_eq!(parse_week_key("2024-01"), None);
    assert_eq!(parse_week_key("02024-1"), None);
    assert_eq!(parse_week_key("2024-0"), Some(WeekId { year: 2024, week: 0 }));
    assert_eq!(parse_week_key("2024-10"), Some(WeekId { year: 2024, week: 10 }));
}

#[test]
fn rotation_counts_iso_weeks_from_a_midweek_start() {
    let config = Config::new(day("2024-01-03"), names(&["A", "B", "C"]), Vec::new()).unwrap();
    assert_eq!(get_current_caretaker_idx(&config, day("2024-01-03")), 0);
    assert_eq!(get_current_caretaker_idx(&config, day("2024-01-07")), 0);
    assert_eq!(get_current_caretaker_idx(&config, day("2024-01-08")), 1);
    assert_eq!(get_current_caretaker_idx(&config, day("2024-01-10")), 1);
    let from_monday = get_next_weeks(&config, day("2024-01-08"), 2);
    let from_wednesday = get_next_weeks(&config, day("2024-01-03"), 3);
    assert_eq!(caretakers_of(&from_monday), vec!["B", "C"]);
    assert_eq!(caretakers_of(&from_wednesday), vec!["A", "B", "C"]);
    assert_eq!(from_wednesday[0].start_date, day("2024-01-01"));
}

use todo_core::daily::{DailyBoard, DailyError, DailyItem};
use todo_core::date::{add_one_day, days_in_month, format_ymd, is_leap, shift_date, valid_date};

fn item(id: &str, completed: bool, daily: Option<&str>) -> DailyItem {
    DailyItem {
        id: id.to_string(),
        completed,
        daily_date: daily.map(|d| d.to_string()),
        carried_from: None,
    }
}

fn board(days: &[&str], items: Vec<DailyItem>) -> DailyBoard {
    DailyBoard {
        days: days.iter().map(|d| d.to_string()).collect(),
        items,
    }
}

#[test]
fn add_one_day_month_and_year_boundaries() {
    assert_eq!(add_one_day("2026-07-26").as_deref(), Some("2026-07-27"));
    assert_eq!(add_one_day("2026-01-31").as_deref(), Some("2026-02-01"));
    assert_eq!(add_one_day("2026-12-31").as_deref(), Some("2027-01-01"));
    assert_eq!(add_one_day("2024-02-28").as_deref(), Some("2024-02-29"));
    assert_eq!(add_one_day("2025-02-28").as_deref(), Some("2025-03-01"));
}

#[test]
fn create_today_empty_still_inserts_day() {
    let mut b = board(&[], vec![]);
    b.insert_day("2026-07-26");
    assert!(b.day_exists("2026-07-26"));
    assert_eq!(b.carry_incomplete("2026-07-25", "2026-07-26").len(), 0);
}

#[test]
fn carry_moves_incomplete_only() {
    let mut b = board(&[], vec![]);
    b.insert_day("2026-07-25");
    b.insert_day("2026-07-26");
    b.items.push(item("a", false, Some("2026-07-25")));
    b.items.push(item("b", true, Some("2026-07-25")));
    assert_eq!(b.carry_incomplete("2026-07-25", "2026-07-26").len(), 1);
    let a = &b.items[0];
    let done = &b.items[1];
    assert_eq!(a.daily_date.as_deref(), Some("2026-07-26"));
    assert_eq!(a.carried_from.as_deref(), Some("2026-07-25"));
    assert_eq!(done.daily_date.as_deref(), Some("2026-07-25"));
}

#[test]
fn add_one_day_rejects_invalid_dates() {
    assert_eq!(add_one_day("2025-02-29"), None);
    assert_eq!(add_one_day("2026-13-01"), None);
    assert_eq!(add_one_day("2026-04-31"), None);
    assert_eq!(add_one_day("2026-00-10"), None);
    assert_eq!(add_one_day("2026-01-00"), None);
    assert_eq!(add_one_day("2026/01/01"), None);
    assert_eq!(add_one_day("2026-1-01"), None);
    assert_eq!(add_one_day(""), None);
    assert_eq!(add_one_day("2026-07-2x"), None);
    assert_eq!(add_one_day("２026-07-26"), None);
}

#[test]
fn add_one_day_takes_digits_only() {
    // Each field is decimal digits; a sign is no digit.
    assert_eq!(add_one_day("+999-01-05"), None);
    assert_eq!(add_one_day("2024-+2-28"), None);
    assert_eq!(add_one_day("2026-+1-05"), None);
    assert_eq!(add_one_day("-024-12-31"), None);
    assert_eq!(add_one_day("2024--2-28"), None);
    assert!(!valid_date("2026-+1-05"));
    assert!(!valid_date("+202-01-01"));
    assert_eq!(add_one_day("0000-12-31").as_deref(), Some("0001-01-01"));
    assert_eq!(add_one_day("9999-12-31").as_deref(), Some("10000-01-01"));
}

#[test]
fn leap_years_and_month_lengths() {
    assert!(is_leap(2024));
    assert!(!is_leap(2025));
    assert!(!is_leap(1900));
    assert!(is_leap(2000));
    assert!(is_leap(0));
    assert_eq!(days_in_month(2024, 2), 29);
    assert_eq!(days_in_month(2023, 2), 28);
    assert_eq!(days_in_month(2023, 4), 30);
    assert_eq!(days_in_month(2023, 12), 31);
    assert_eq!(days_in_month(2023, 13), 0);
    assert_eq!(days_in_month(2023, 0), 0);
}

#[test]
fn valid_date_examples() {
    assert!(valid_date("2026-07-26"));
    assert!(valid_date("2000-02-29"));
    assert!(!valid_date("1900-02-29"));
    assert!(!valid_date(" 2026-07-26"));
    assert!(!valid_date("2026-07-26 "));
}

#[test]
fn format_ymd_pads_with_zeros() {
    assert_eq!(format_ymd(2026, 7, 5), "2026-07-05");
    assert_eq!(format_ymd(7, 1, 1), "0007-01-01");
    assert_eq!(format_ymd(0, 11, 30), "0000-11-30");
    assert_eq!(format_ymd(12345, 10, 10), "12345-10-10");
}

#[test]
fn previous_date_is_latest_earlier_board() {
    let b = board(&["2026-07-20", "2026-07-24", "2026-07-22", "2026-07-30"], vec![]);
    assert_eq!(b.previous_date("2026-07-26").as_deref(), Some("2026-07-24"));
    assert_eq!(b.previous_date("2026-07-24").as_deref(), Some("2026-07-22"));
    assert_eq!(b.previous_date("2026-07-20"), None);
}

#[test]
fn status_reports_boards_and_button() {
    let b = board(&["2026-07-25"], vec![]);
    let st = b.status(" 2026-07-26\n").unwrap();
    assert_eq!(st.local_today, "2026-07-26");
    assert!(!st.has_today);
    assert!(!st.has_tomorrow);
    assert_eq!(st.button, "today");
    assert_eq!(st.previous_date.as_deref(), Some("2026-07-25"));

    let b = board(&["2026-07-26", "2026-07-27"], vec![]);
    let st = b.status("2026-07-26").unwrap();
    assert!(st.has_today);
    assert!(st.has_tomorrow);
    assert_eq!(st.button, "tomorrow");
    assert_eq!(st.previous_date, None);

    assert_eq!(b.status("2026-02-30").unwrap_err(), DailyError::InvalidLocalToday);
}

#[test]
fn create_today_carries_from_latest_board() {
    let mut b = board(
        &["2026-07-20", "2026-07-24"],
        vec![
            item("old", false, Some("2026-07-20")),
            item("open", false, Some("2026-07-24")),
            item("done", true, Some("2026-07-24")),
            item("general", false, None),
        ],
    );
    let out = b.create("2026-07-26", "today").unwrap();
    assert_eq!(out.date, "2026-07-26");
    assert!(out.created);
    assert_eq!(out.carried_from.as_deref(), Some("2026-07-24"));
    assert_eq!(out.moved, vec!["open".to_string()]);
    assert!(b.day_exists("2026-07-26"));
    assert_eq!(b.items[0].daily_date.as_deref(), Some("2026-07-20"));
    assert_eq!(b.items[1].daily_date.as_deref(), Some("2026-07-26"));
    assert_eq!(b.items[1].carried_from.as_deref(), Some("2026-07-24"));
    assert_eq!(b.items[2].daily_date.as_deref(), Some("2026-07-24"));
    assert_eq!(b.items[3].daily_date, None);

    // Creating it again changes nothing.
    let again = b.create("2026-07-26", "today").unwrap();
    assert!(!again.created);
    assert_eq!(again.date, "2026-07-26");
    assert!(again.moved.is_empty());
    assert_eq!(b.items[1].daily_date.as_deref(), Some("2026-07-26"));
}

#[test]
fn create_today_with_nothing_before() {
    let mut b = board(&[], vec![item("x", false, None)]);
    let out = b.create("2026-07-26", " today ").unwrap();
    assert!(out.created);
    assert_eq!(out.carried_from, None);
    assert!(out.moved.is_empty());
    assert!(b.day_exists("2026-07-26"));
}

#[test]
fn create_tomorrow_moves_today_open_todos() {
    let mut b = board(
        &["2026-12-31"],
        vec![item("open", false, Some("2026-12-31")), item("done", true, Some("2026-12-31"))],
    );
    let out = b.create("2026-12-31", "tomorrow").unwrap();
    assert_eq!(out.date, "2027-01-01");
    assert!(out.created);
    assert_eq!(out.carried_from.as_deref(), Some("2026-12-31"));
    assert_eq!(b.items[0].daily_date.as_deref(), Some("2027-01-01"));
    assert_eq!(b.items[0].carried_from.as_deref(), Some("2026-12-31"));
    assert_eq!(b.items[1].daily_date.as_deref(), Some("2026-12-31"));
    let again = b.create("2026-12-31", "tomorrow").unwrap();
    assert!(!again.created);
    assert_eq!(again.date, "2027-01-01");
}

#[test]
fn create_refusals() {
    let mut b = board(&[], vec![item("open", false, None)]);
    assert_eq!(b.create("2026-07-26", "tomorrow").unwrap_err(), DailyError::TodayMissing);
    assert_eq!(b.create("2026-07-26", "yesterday").unwrap_err(), DailyError::InvalidForDay);
    assert_eq!(b.create("26-07-2026", "today").unwrap_err(), DailyError::InvalidLocalToday);
    assert!(b.days.is_empty());
}

#[test]
fn set_todo_daily_rules() {
    let mut b = board(&["2026-07-26"], vec![item("a", false, None), item("b", false, None)]);
    b.items[0].carried_from = Some("2026-07-20".to_string());
    assert_eq!(b.set_todo_daily("zzz", Some("2026-07-26")).unwrap_err(), DailyError::TodoNotFound);
    assert_eq!(b.set_todo_daily("a", Some("2026-07-32")).unwrap_err(), DailyError::InvalidDate);
    assert_eq!(b.set_todo_daily("a", Some("2026-07-27")).unwrap_err(), DailyError::BoardMissing);
    b.set_todo_daily("a", Some(" 2026-07-26 ")).unwrap();
    assert_eq!(b.items[0].daily_date.as_deref(), Some("2026-07-26"));
    assert_eq!(b.items[0].carried_from, None);
    assert_eq!(b.items[1].daily_date, None);
    b.set_todo_daily("a", None).unwrap();
    assert_eq!(b.items[0].daily_date, None);
    assert_eq!(b.set_todo_daily("zzz", None).unwrap_err(), DailyError::TodoNotFound);
}

#[test]
fn daily_error_messages_and_codes() {
    assert_eq!(DailyError::InvalidLocalToday.message(), "Invalid local_today");
    assert_eq!(DailyError::InvalidForDay.message(), "for must be today or tomorrow");
    assert_eq!(DailyError::TodayMissing.message(), "Create todos for today first");
    assert_eq!(DailyError::TodoNotFound.message(), "Todo not found");
    assert_eq!(DailyError::InvalidDate.message(), "Invalid date");
    assert_eq!(
        DailyError::BoardMissing.message(),
        "Daily board does not exist for date; create today first"
    );
    assert_eq!(DailyError::InvalidLocalToday.status_code(), 400);
    assert_eq!(DailyError::TodoNotFound.status_code(), 404);
    assert_eq!(DailyError::TodayMissing.status_code(), 409);
    assert_eq!(DailyError::BoardMissing.status_code(), 409);
}

#[test]
fn shift_date_moves_by_whole_days() {
    assert_eq!(shift_date("2026-07-26", 1).as_deref(), Some("2026-07-27"));
    assert_eq!(shift_date("2026-07-26", -1).as_deref(), Some("2026-07-25"));
    assert_eq!(shift_date("2026-03-01", -1).as_deref(), Some("2026-02-28"));
    assert_eq!(shift_date("2024-03-01", -1).as_deref(), Some("2024-02-29"));
    assert_eq!(shift_date("2026-01-01", -1).as_deref(), Some("2025-12-31"));
    assert_eq!(shift_date("2026-12-31", 1).as_deref(), Some("2027-01-01"));
    assert_eq!(shift_date("2026-07-26", 0).as_deref(), Some("2026-07-26"));
    assert_eq!(shift_date("2026-07-26", 365).as_deref(), Some("2027-07-26"));
    assert_eq!(shift_date("2024-02-29", -366).as_deref(), Some("2023-02-28"));
}

#[test]
fn shift_date_refuses_bad_dates_and_years_out_of_range() {
    assert_eq!(shift_date("2026-02-30", 1), None);
    assert_eq!(shift_date("not a date", -1), None);
    assert_eq!(shift_date("0000-01-01", -1), None);
    assert_eq!(shift_date("9999-12-31", 1), None);
    assert_eq!(shift_date("9999-12-31", -1).as_deref(), Some("9999-12-30"));
    assert_eq!(shift_date("2026-07-26", i32::MIN), None);
}

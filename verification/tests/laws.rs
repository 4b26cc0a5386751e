use todo_core::daily::{DailyBoard, DailyItem};
use todo_core::date::{add_one_day, format_ymd, shift_date, valid_date};
use todo_core::listing::{list_todos, section_counts, TodosQuery};
use todo_core::model::{Importance, Section, Todo};

fn item(id: &str, completed: bool, daily: Option<&str>) -> DailyItem {
    DailyItem {
        id: id.to_string(),
        completed,
        daily_date: daily.map(str::to_string),
        carried_from: None,
    }
}

#[test]
fn formatted_dates_read_back_and_next_days_stay_valid() {
    for (y, m, d) in [(2026, 7, 26), (0, 1, 1), (9999, 12, 30), (999, 2, 28), (2024, 2, 29)] {
        let text = format_ymd(y, m, d);
        assert!(valid_date(&text), "{text}");
        let next = add_one_day(&text).unwrap();
        assert!(valid_date(&next), "{next}");
    }
}

#[test]
fn date_text_order_is_calendar_order() {
    let mut day = "2023-12-25".to_string();
    for _ in 0..500 {
        let next = add_one_day(&day).unwrap();
        assert!(day < next, "{day} {next}");
        day = next;
    }
    assert!(format_ymd(999, 12, 31) < format_ymd(1000, 1, 1));
}

#[test]
fn button_of_status_always_creates() {
    for days in [vec![], vec!["2026-07-26".to_string()], vec!["2026-07-26".to_string(), "2026-07-27".to_string()]] {
        let mut b = DailyBoard { days, items: vec![item("a", false, Some("2026-07-26"))] };
        let st = b.status("2026-07-26").unwrap();
        assert!(b.create("2026-07-26", &st.button).is_ok());
    }
}

#[test]
fn completed_todos_never_move_and_create_is_idempotent() {
    let mut b = DailyBoard {
        days: vec!["2026-07-26".to_string()],
        items: vec![item("open", false, Some("2026-07-26")), item("done", true, Some("2026-07-26"))],
    };
    let first = b.create("2026-07-26", "tomorrow").unwrap();
    assert!(first.created);
    assert_eq!(b.items[1].daily_date.as_deref(), Some("2026-07-26"));
    assert!(b.items.iter().all(|i| i.completed || i.daily_date.as_deref() != Some("2026-07-26")));
    let days_after = b.days.clone();
    let second = b.create("2026-07-26", "tomorrow").unwrap();
    assert!(!second.created);
    assert_eq!(b.days, days_after);
}

#[test]
fn place_then_remove_returns_to_general() {
    let mut b = DailyBoard {
        days: vec!["2026-07-26".to_string()],
        items: vec![item("a", false, None)],
    };
    b.items[0].carried_from = Some("2026-07-25".to_string());
    b.set_todo_daily("a", Some("2026-07-26")).unwrap();
    b.set_todo_daily("a", None).unwrap();
    assert_eq!(b.items[0].daily_date, None);
    assert_eq!(b.items[0].carried_from, None);
}

fn todo(id: &str, section: Section, completed_at: Option<&str>) -> Todo {
    Todo {
        id: id.to_string(),
        section,
        title: id.to_string(),
        completed: completed_at.is_some(),
        importance: Importance::Medium,
        due_date: None,
        created_at: format!("2026-01-0{} 00:00:00", id.len()),
        updated_at: "u".to_string(),
        completed_at: completed_at.map(str::to_string),
        daily_date: None,
        carried_from: None,
    }
}

#[test]
fn archive_partitions_and_counts_match_lists() {
    let todos = vec![
        todo("a", Section::P, None),
        todo("bb", Section::P, Some("2026-01-01 00:00:00")),
        todo("ccc", Section::P, Some("2026-01-10 00:00:00")),
        todo("dddd", Section::I, None),
    ];
    let cutoff = "2026-01-05 00:00:00";
    let q = |show: Option<&str>| TodosQuery {
        section: Some("P".to_string()),
        sort: None,
        show: show.map(str::to_string),
    };
    let active = list_todos(todos.clone(), &q(None), cutoff).unwrap();
    let archived = list_todos(todos.clone(), &q(Some("archived")), cutoff).unwrap();
    let all = list_todos(todos.clone(), &q(Some("all")), cutoff).unwrap();
    assert_eq!(active.len() + archived.len(), all.len());
    let counts = section_counts(&todos, cutoff);
    let p = counts.iter().find(|c| c.section == Section::P).unwrap();
    assert_eq!(p.total, active.len());
    assert!(p.completed <= p.total);
}

#[test]
fn no_valid_date_between_a_day_and_the_next() {
    let day = "2024-02-28";
    let next = add_one_day(day).unwrap();
    assert_eq!(next, "2024-02-29");
    for x in ["2024-02-28", "2024-02-29", "2024-02-2", "2024-02-280", "2024-02-28 "] {
        assert!(!(valid_date(x) && day < x && x < next.as_str()), "{x}");
    }
}

#[test]
fn shifting_forward_then_back_returns() {
    for day in ["2026-07-26", "2026-03-01", "2024-12-31", "2000-02-29", "0000-01-01"] {
        let fwd = shift_date(day, 1).unwrap();
        assert_eq!(shift_date(&fwd, -1).as_deref(), Some(day));
    }
}

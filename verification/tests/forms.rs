use todo_core::daily::{check_create_request, check_list_date, check_local_today, DailyError};
use todo_core::forms::{
    add_to_daily, archive_count_label, archive_filter, create_request_day, daily_badge,
    importance_change, remove_from_daily, shift_date_or, place_on_board, plain_add, quick_add,
    view_after_create, AddForm, PickAction, PickConfirm,
};
use todo_core::model::{DailyStatus, Importance, Section, Todo};
use todo_core::text::trim;

fn todo(id: &str, importance: Importance) -> Todo {
    Todo {
        id: id.to_string(),
        section: Section::P,
        title: id.to_string(),
        completed: false,
        importance,
        due_date: None,
        created_at: "c".to_string(),
        updated_at: "u".to_string(),
        completed_at: None,
        daily_date: None,
        carried_from: None,
    }
}

fn ids(v: &[Todo]) -> Vec<&str> {
    v.iter().map(|t| t.id.as_str()).collect()
}

#[test]
fn quick_add_builds_the_request() {
    let q = quick_add(Section::Sp, "  call mum ", Importance::High, "", "2026-07-26", false, true).unwrap();
    assert_eq!(q.section, Section::Sp);
    assert_eq!(q.title, "call mum");
    assert_eq!(q.importance, Some(Importance::High));
    assert_eq!(q.due_date.as_deref(), Some("2026-07-26"));
    let q = quick_add(Section::I, "x", Importance::Low, "2026-08-01", "2026-07-26", false, true).unwrap();
    assert_eq!(q.due_date.as_deref(), Some("2026-08-01"));
}

#[test]
fn quick_add_guard() {
    assert!(quick_add(Section::P, "   ", Importance::Medium, "", "d", false, true).is_none());
    assert!(quick_add(Section::P, "", Importance::Medium, "", "d", false, true).is_none());
    assert!(quick_add(Section::P, "\t\u{3000}\n", Importance::Medium, "", "d", false, true).is_none());
    assert!(quick_add(Section::P, "a", Importance::Medium, "", "d", true, true).is_none());
    assert!(quick_add(Section::P, "a", Importance::Medium, "", "d", false, false).is_none());
}

#[test]
fn plain_add_has_no_importance_or_due_date() {
    let q = plain_add(Section::Si, " read ", false).unwrap();
    assert_eq!(q.section, Section::Si);
    assert_eq!(q.title, "read");
    assert!(q.importance.is_none() && q.due_date.is_none());
    assert!(plain_add(Section::Si, " ", false).is_none());
    assert!(plain_add(Section::Si, "read", true).is_none());
}

#[test]
fn daily_add_places_the_new_todo_on_the_board() {
    let (id, req) = place_on_board("abc", "2026-07-27");
    assert_eq!(id, "abc");
    assert_eq!(req.date.as_deref(), Some("2026-07-27"));
}

#[test]
fn add_form_submits_once_and_clears_after() {
    let mut f = AddForm::new();
    assert_eq!(f.importance, Importance::Medium);
    f.title = " walk ".to_string();
    f.choose_importance("critical");
    f.choose_importance("urgent");
    assert_eq!(f.importance, Importance::Critical);
    let q = f.submit(Section::P, "2026-07-26", true).unwrap();
    assert_eq!(q.title, "walk");
    assert_eq!(q.importance, Some(Importance::Critical));
    assert!(f.submitting);
    assert!(f.submit(Section::P, "2026-07-26", true).is_none());
    f.finish();
    assert_eq!(f.title, "");
    assert_eq!(f.due_date, "");
    assert!(!f.submitting);
    assert_eq!(f.importance, Importance::Critical);
}

#[test]
fn importance_edit_sends_only_a_change() {
    assert_eq!(importance_change("high", Importance::Low), Some(Importance::High));
    assert_eq!(importance_change("low", Importance::Low), None);
    assert_eq!(importance_change("High", Importance::Low), None);
    assert_eq!(importance_change("", Importance::Low), None);
}

#[test]
fn create_button_asks_for_the_offered_board() {
    let st = DailyStatus {
        local_today: "2026-07-26".to_string(),
        has_today: true,
        has_tomorrow: false,
        button: "tomorrow".to_string(),
        previous_date: None,
    };
    assert_eq!(create_request_day(Some(&st)), "tomorrow");
    assert_eq!(create_request_day(None), "today");
}

#[test]
fn view_after_create_follows_the_board_made() {
    assert_eq!(view_after_create("tomorrow", "2026-12-31").as_deref(), Some("2027-01-01"));
    assert_eq!(view_after_create("today", "2026-12-31").as_deref(), Some("2026-12-31"));
    assert_eq!(view_after_create("tomorrow", "bad"), None);
}

#[test]
fn archive_filter_by_select_value() {
    let list = vec![
        todo("a", Importance::Low),
        todo("b", Importance::High),
        todo("c", Importance::Low),
    ];
    assert_eq!(ids(&archive_filter(list.clone(), "")), vec!["a", "b", "c"]);
    assert_eq!(ids(&archive_filter(list.clone(), "low")), vec!["a", "c"]);
    assert_eq!(ids(&archive_filter(list.clone(), "high")), vec!["b"]);
    assert!(archive_filter(list, "Low").is_empty());
    assert_eq!(archive_count_label(2), "2 archived");
    assert_eq!(archive_count_label(0), "0 archived");
    assert_eq!(archive_count_label(105), "105 archived");
}

#[test]
fn picker_places_in_order_and_closes() {
    let mut p = PickConfirm::new("2026-07-26");
    match p.confirm(vec!["x".to_string(), "y".to_string()]) {
        PickAction::Place(id, req) => {
            assert_eq!(id, "x");
            assert_eq!(req.date.as_deref(), Some("2026-07-26"));
        }
        _ => panic!("expected a placement"),
    }
    assert!(matches!(p.confirm(vec!["z".to_string()]), PickAction::Nothing));
    match p.placed_ok() {
        PickAction::Place(id, _) => assert_eq!(id, "y"),
        _ => panic!("expected a placement"),
    }
    assert!(matches!(p.placed_ok(), PickAction::Close));
    assert!(!p.saving);
    assert!(matches!(p.placed_ok(), PickAction::Nothing));
}

#[test]
fn picker_stops_at_the_first_failure() {
    let mut p = PickConfirm::new("2026-07-26");
    assert!(matches!(p.confirm(Vec::new()), PickAction::Close));
    assert!(matches!(p.confirm(vec!["x".to_string(), "y".to_string()]), PickAction::Place(..)));
    assert!(matches!(p.placed_err(), PickAction::ShowError));
    assert!(!p.saving);
    assert_eq!(p.placed, 0);
    assert!(matches!(p.placed_ok(), PickAction::Nothing));
}

#[test]
fn route_checks_before_the_database() {
    assert!(check_local_today(" 2026-07-26 ").is_ok());
    assert!(matches!(check_local_today("2026-7-26"), Err(DailyError::InvalidLocalToday)));
    assert!(check_create_request("2026-07-26", " tomorrow").is_ok());
    assert!(matches!(check_create_request("x", "today"), Err(DailyError::InvalidLocalToday)));
    assert!(matches!(check_create_request("2026-07-26", "later"), Err(DailyError::InvalidForDay)));
    assert!(check_list_date("2026-02-28").is_ok());
    assert!(matches!(check_list_date("2026-02-30"), Err(DailyError::InvalidDate)));
}

#[test]
fn trim_removes_unicode_white_space_only() {
    assert_eq!(trim("  a b \t\n"), "a b");
    assert_eq!(trim("\u{a0}\u{2003}x\u{3000}"), "x");
    assert_eq!(trim("\u{200b}x"), "\u{200b}x");
    assert_eq!(trim(" \r\n "), "");
    assert_eq!(trim(""), "");
}

#[test]
fn daily_arrows_fall_back_to_today() {
    assert_eq!(shift_date_or("2026-03-01", -1, "2026-07-26"), "2026-02-28");
    assert_eq!(shift_date_or("2026-12-31", 1, "2026-07-26"), "2027-01-01");
    assert_eq!(shift_date_or("garbage", 1, "2026-07-26"), "2026-07-26");
    assert_eq!(shift_date_or("2026-02-30", 1, "2026-07-26"), "2026-07-26");
}

#[test]
fn daily_actions_in_general() {
    let mut t = todo("a", Importance::Low);
    assert_eq!(daily_badge(&t.daily_date), None);
    assert!(remove_from_daily(&t).is_none());
    assert!(add_to_daily("a", "2026-07-26", false).is_none());
    let (id, req) = add_to_daily("a", "2026-07-26", true).unwrap();
    assert_eq!(id, "a");
    assert_eq!(req.date.as_deref(), Some("2026-07-26"));
    t.daily_date = Some("2026-07-26".to_string());
    assert_eq!(daily_badge(&t.daily_date).as_deref(), Some("On daily · 2026-07-26"));
    let (id, req) = remove_from_daily(&t).unwrap();
    assert_eq!(id, "a");
    assert_eq!(req.date, None);
}

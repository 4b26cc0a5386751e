use todo_core::client::{
    board_ready, carried_note, create_button_label, date_label, due_or, edited_due_date,
    edited_title, importance_groups, panel_todos, pick_confirm_label, title_change, todo_item_class,
    todos_url,
    ws_url, Panel,
};
use todo_core::model::{DailyStatus, Importance, Section, Todo};

fn todo(id: &str, section: Section, importance: Importance, completed: bool, daily: Option<&str>) -> Todo {
    Todo {
        id: id.to_string(),
        section,
        title: id.to_string(),
        completed,
        importance,
        due_date: None,
        created_at: "c".to_string(),
        updated_at: "u".to_string(),
        completed_at: None,
        daily_date: daily.map(str::to_string),
        carried_from: None,
    }
}

#[test]
fn urls() {
    assert_eq!(todos_url("http://h/api", None, None, None), "http://h/api/todos");
    assert_eq!(
        todos_url("/api", Some("P"), Some("importance"), None),
        "/api/todos?section=P&sort=importance"
    );
    assert_eq!(
        todos_url("/api", None, Some("importance_date"), Some("archived")),
        "/api/todos?sort=importance_date&show=archived"
    );
    assert_eq!(todos_url("/api", None, None, Some("all")), "/api/todos?show=all");
    assert_eq!(ws_url("https:", "pi:8080"), "wss://pi:8080/api/ws");
    assert_eq!(ws_url("http:", "pi:8080"), "ws://pi:8080/api/ws");
}

#[test]
fn daily_header() {
    assert_eq!(date_label("2026-07-26", "2026-07-26", true), "Today · 2026-07-26");
    assert_eq!(date_label("2026-07-26", "2026-07-26", false), "No daily board for today yet");
    assert_eq!(date_label("2026-07-27", "2026-07-26", false), "Upcoming · 2026-07-27");
    assert_eq!(date_label("2026-07-25", "2026-07-26", true), "Past · 2026-07-25");
    assert_eq!(create_button_label(Some("tomorrow")), "Create todos for tomorrow");
    assert_eq!(create_button_label(Some("today")), "Create todos for today");
    assert_eq!(create_button_label(None), "Create todos for today");
    assert_eq!(carried_note("2026-07-25"), "Carried from 2026-07-25");
}

#[test]
fn board_readiness() {
    let st = DailyStatus {
        local_today: "2026-07-26".to_string(),
        has_today: true,
        has_tomorrow: false,
        button: "tomorrow".to_string(),
        previous_date: None,
    };
    assert!(board_ready("2026-07-26", "2026-07-26", "2026-07-27", Some(&st)));
    assert!(!board_ready("2026-07-27", "2026-07-26", "2026-07-27", Some(&st)));
    assert!(!board_ready("2026-07-26", "2026-07-26", "2026-07-27", None));
    assert!(board_ready("2026-07-20", "2026-07-26", "2026-07-27", None));
}

#[test]
fn edits_worth_sending() {
    assert_eq!(edited_title("  New  ", "Old").as_deref(), Some("New"));
    assert_eq!(edited_title(" Old ", "Old"), None);
    assert_eq!(edited_title("   ", "Old"), None);
    assert_eq!(edited_due_date("", &Some("2026-01-01".to_string())), Some(None));
    assert_eq!(edited_due_date("", &None), None);
    assert_eq!(edited_due_date("2026-01-01", &Some("2026-01-01".to_string())), None);
    assert_eq!(
        edited_due_date("2026-01-02", &None),
        Some(Some("2026-01-02".to_string()))
    );
    assert_eq!(due_or("", "2026-07-26"), "2026-07-26");
    assert_eq!(due_or("2026-08-01", "2026-07-26"), "2026-08-01");
}

#[test]
fn captions_and_classes() {
    assert_eq!(todo_item_class(Importance::High, false), "todo-item priority-high");
    assert_eq!(todo_item_class(Importance::Low, true), "todo-item priority-low completed");
    assert_eq!(pick_confirm_label(true, 3), "Adding...");
    assert_eq!(pick_confirm_label(false, 0), "Done");
    assert_eq!(pick_confirm_label(false, 12), "Add 12 to day");
}

#[test]
fn panels_keep_list_order() {
    let todos = vec![
        todo("a", Section::P, Importance::Low, false, Some("2026-07-26")),
        todo("b", Section::I, Importance::High, false, None),
        todo("c", Section::P, Importance::High, true, None),
        todo("d", Section::P, Importance::Critical, false, Some("2026-07-25")),
    ];
    let p: Vec<String> = panel_todos(todos.clone(), &Panel::Section(Section::P))
        .into_iter()
        .map(|t| t.id)
        .collect();
    assert_eq!(p, vec!["a", "c", "d"]);
    let pick: Vec<String> = panel_todos(todos.clone(), &Panel::PickFor("2026-07-26"))
        .into_iter()
        .map(|t| t.id)
        .collect();
    assert_eq!(pick, vec!["b", "d"]);
    let groups: Vec<(Importance, Vec<String>)> = importance_groups(todos)
        .into_iter()
        .map(|(i, g)| (i, g.into_iter().map(|t| t.id).collect()))
        .collect();
    assert_eq!(
        groups,
        vec![
            (Importance::Critical, vec!["d".to_string()]),
            (Importance::High, vec!["b".to_string(), "c".to_string()]),
            (Importance::Low, vec!["a".to_string()]),
        ]
    );
}

#[test]
fn title_change_of_trimmed_input() {
    assert_eq!(title_change("New", "Old").as_deref(), Some("New"));
    assert_eq!(title_change("Old", "Old"), None);
    assert_eq!(title_change("", "Old"), None);
}

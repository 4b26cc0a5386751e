use todo_core::model::{CreateTodoRequest, Importance, Section, Todo, UpdateTodoRequest};
use todo_core::todos::{
    delete_outcome, new_todo, prepare_new_todo, todo_from_row, TodoError, TodoRow,
};

fn stored() -> Todo {
    Todo {
        id: "id-1".to_string(),
        section: Section::I,
        title: "Read".to_string(),
        completed: false,
        importance: Importance::Medium,
        due_date: Some("2026-02-21".to_string()),
        created_at: "2026-01-15 10:30:00".to_string(),
        updated_at: "2026-01-15 10:30:00".to_string(),
        completed_at: None,
        daily_date: Some("2026-01-15".to_string()),
        carried_from: Some("2026-01-14".to_string()),
    }
}

#[test]
fn create_trims_title_and_defaults_importance() {
    let req = CreateTodoRequest {
        section: Section::P,
        title: "  Go for a run \n".to_string(),
        importance: None,
        due_date: Some("2026-02-21".to_string()),
    };
    let t = prepare_new_todo(&req).unwrap();
    assert_eq!(t.title, "Go for a run");
    assert_eq!(t.importance, Importance::Medium);
    assert_eq!(t.section, Section::P);
    assert_eq!(t.due_date.as_deref(), Some("2026-02-21"));
    assert_eq!(t.id.len(), 36);
    assert_eq!(t.id.as_bytes()[14], b'4');
    let other = prepare_new_todo(&req).unwrap();
    assert_ne!(t.id, other.id);
}

#[test]
fn create_rejects_blank_title() {
    let req = CreateTodoRequest {
        section: Section::P,
        title: " \t ".to_string(),
        importance: Some(Importance::High),
        due_date: None,
    };
    assert_eq!(prepare_new_todo(&req).unwrap_err(), TodoError::EmptyTitle);
    assert_eq!(new_todo(&req, "", "x".to_string()).unwrap_err(), TodoError::EmptyTitle);
    let t = new_todo(&req, "Run", "x".to_string()).unwrap();
    assert_eq!(t.importance, Importance::High);
    assert_eq!(t.id, "x");
    assert_eq!(TodoError::EmptyTitle.message(), "Title cannot be empty");
    assert_eq!(TodoError::EmptyTitle.status_code(), 400);
    assert_eq!(TodoError::NotFound.message(), "Todo not found");
    assert_eq!(TodoError::NotFound.status_code(), 404);
}

#[test]
fn toggle_records_and_clears_completion() {
    let mut t = stored();
    t.toggle("2026-01-16 08:00:00");
    assert!(t.completed);
    assert_eq!(t.completed_at.as_deref(), Some("2026-01-16 08:00:00"));
    assert_eq!(t.updated_at, "2026-01-16 08:00:00");
    assert_eq!(t.carried_from, None);
    assert_eq!(t.daily_date.as_deref(), Some("2026-01-15"));
    t.toggle("2026-01-17 08:00:00");
    assert!(!t.completed);
    assert_eq!(t.completed_at, None);
    assert_eq!(t.updated_at, "2026-01-17 08:00:00");
}

#[test]
fn update_only_touches_present_fields() {
    let mut t = stored();
    let req = UpdateTodoRequest {
        title: Some("  Read more ".to_string()),
        importance: Some(Importance::Critical),
        due_date: Some(None),
        ..UpdateTodoRequest::default()
    };
    t.apply_update(&req, "2026-01-20 09:00:00").unwrap();
    assert_eq!(t.title, "Read more");
    assert_eq!(t.importance, Importance::Critical);
    assert_eq!(t.due_date, None);
    assert_eq!(t.section, Section::I);
    assert!(!t.completed);
    assert_eq!(t.updated_at, "2026-01-20 09:00:00");
    assert_eq!(t.carried_from.as_deref(), Some("2026-01-14"));

    let mut u = stored();
    u.apply_update(&UpdateTodoRequest::default(), "2026-01-20 09:00:00").unwrap();
    assert_eq!(u.updated_at, "2026-01-15 10:30:00");
}

#[test]
fn update_completion_keeps_first_completion_time() {
    let mut t = stored();
    let complete = UpdateTodoRequest { completed: Some(true), ..UpdateTodoRequest::default() };
    t.apply_update(&complete, "2026-01-20 09:00:00").unwrap();
    assert_eq!(t.completed_at.as_deref(), Some("2026-01-20 09:00:00"));
    assert_eq!(t.carried_from, None);
    t.apply_update(&complete, "2026-01-21 09:00:00").unwrap();
    assert_eq!(t.completed_at.as_deref(), Some("2026-01-20 09:00:00"));
    let reopen = UpdateTodoRequest { completed: Some(false), ..UpdateTodoRequest::default() };
    t.apply_update(&reopen, "2026-01-22 09:00:00").unwrap();
    assert!(!t.completed);
    assert_eq!(t.completed_at, None);
}

#[test]
fn update_with_blank_title_changes_nothing() {
    let mut t = stored();
    let req = UpdateTodoRequest {
        title: Some("   ".to_string()),
        completed: Some(true),
        ..UpdateTodoRequest::default()
    };
    assert_eq!(t.apply_update(&req, "2026-01-20 09:00:00").unwrap_err(), TodoError::EmptyTitle);
    assert!(!t.completed);
    assert_eq!(t.title, "Read");
}

#[test]
fn delete_outcomes() {
    assert_eq!(delete_outcome(0, "x".to_string()).unwrap_err(), TodoError::NotFound);
    assert_eq!(delete_outcome(1, "x".to_string()).unwrap().deleted, "x");
}

#[test]
fn rows_read_back_with_fallbacks() {
    let row = TodoRow {
        id: "r".to_string(),
        section: "Zz".to_string(),
        title: "t".to_string(),
        completed: 2,
        importance: "urgent".to_string(),
        due_date: None,
        created_at: "c".to_string(),
        updated_at: "u".to_string(),
        completed_at: None,
        daily_date: Some("2026-01-01".to_string()),
        carried_from: None,
    };
    let t = todo_from_row(row);
    assert_eq!(t.section, Section::P);
    assert_eq!(t.importance, Importance::Medium);
    assert!(t.completed);
    assert_eq!(t.daily_date.as_deref(), Some("2026-01-01"));
    let row = TodoRow {
        id: "r".to_string(),
        section: "Si".to_string(),
        title: "t".to_string(),
        completed: 0,
        importance: "low".to_string(),
        due_date: None,
        created_at: "c".to_string(),
        updated_at: "u".to_string(),
        completed_at: None,
        daily_date: None,
        carried_from: None,
    };
    let t = todo_from_row(row);
    assert_eq!(t.section, Section::Si);
    assert_eq!(t.importance, Importance::Low);
    assert!(!t.completed);
}

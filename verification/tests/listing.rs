use todo_core::daily::DailyError;
use todo_core::listing::{
    list_daily, list_daily_for, list_for_date, list_todos, section_counts, ListError, ShowMode, SortMode,
    TodosQuery,
};
use todo_core::model::{Importance, Section, Todo};

fn todo(id: &str, section: Section, importance: Importance, due: Option<&str>, created: &str) -> Todo {
    Todo {
        id: id.to_string(),
        section,
        title: format!("title {id}"),
        completed: false,
        importance,
        due_date: due.map(|d| d.to_string()),
        created_at: created.to_string(),
        updated_at: created.to_string(),
        completed_at: None,
        daily_date: None,
        carried_from: None,
    }
}

fn done(mut t: Todo, at: &str) -> Todo {
    t.completed = true;
    t.completed_at = Some(at.to_string());
    t
}

fn ids(v: &[Todo]) -> Vec<&str> {
    v.iter().map(|t| t.id.as_str()).collect()
}

fn sample() -> Vec<Todo> {
    vec![
        todo("a", Section::P, Importance::Low, Some("2026-03-01"), "2026-01-01 10:00:00"),
        todo("b", Section::P, Importance::Critical, None, "2026-01-02 10:00:00"),
        todo("c", Section::I, Importance::High, Some("2026-02-01"), "2026-01-03 10:00:00"),
        todo("d", Section::P, Importance::Critical, Some("2026-01-15"), "2026-01-04 10:00:00"),
        done(
            todo("e", Section::P, Importance::Medium, None, "2026-01-05 10:00:00"),
            "2026-01-05 12:00:00",
        ),
        done(
            todo("f", Section::Sp, Importance::High, None, "2026-01-06 10:00:00"),
            "2026-01-09 12:00:00",
        ),
    ]
}

const CUTOFF: &str = "2026-01-09 00:00:00";

fn query(section: Option<&str>, sort: Option<&str>, show: Option<&str>) -> TodosQuery {
    TodosQuery {
        section: section.map(str::to_string),
        sort: sort.map(str::to_string),
        show: show.map(str::to_string),
    }
}

#[test]
fn default_list_is_newest_first_without_archived() {
    let r = list_todos(sample(), &query(None, None, None), CUTOFF).unwrap();
    assert_eq!(ids(&r), vec!["f", "d", "c", "b", "a"]);
}

#[test]
fn archived_and_all_lists() {
    let r = list_todos(sample(), &query(None, None, Some("archived")), CUTOFF).unwrap();
    assert_eq!(ids(&r), vec!["e"]);
    let r = list_todos(sample(), &query(None, None, Some("all")), CUTOFF).unwrap();
    assert_eq!(ids(&r), vec!["f", "e", "d", "c", "b", "a"]);
}

#[test]
fn sort_orders() {
    let r = list_todos(sample(), &query(Some("P"), Some("importance"), None), CUTOFF).unwrap();
    assert_eq!(ids(&r), vec!["d", "b", "a"]);
    let r = list_todos(sample(), &query(None, Some("due_date"), None), CUTOFF).unwrap();
    assert_eq!(ids(&r), vec!["d", "c", "a", "f", "b"]);
    let r = list_todos(sample(), &query(None, Some("importance_date"), None), CUTOFF).unwrap();
    assert_eq!(ids(&r), vec!["d", "b", "c", "f", "a"]);
    let r = list_todos(sample(), &query(None, Some("bogus"), None), CUTOFF).unwrap();
    assert_eq!(ids(&r), vec!["f", "d", "c", "b", "a"]);
}

#[test]
fn invalid_section_is_refused() {
    let r = list_todos(sample(), &query(Some("X"), None, None), CUTOFF);
    assert_eq!(r.unwrap_err(), ListError::InvalidSection);
    assert_eq!(ListError::InvalidSection.message(), "Invalid section");
}

#[test]
fn query_modes() {
    assert_eq!(SortMode::from_query(Some("importance")), SortMode::Importance);
    assert_eq!(SortMode::from_query(Some("due_date")), SortMode::DueDate);
    assert_eq!(SortMode::from_query(Some("importance_date")), SortMode::ImportanceDate);
    assert_eq!(SortMode::from_query(None), SortMode::Newest);
    assert_eq!(ShowMode::from_query(Some("archived")), ShowMode::Archived);
    assert_eq!(ShowMode::from_query(Some("all")), ShowMode::All);
    assert_eq!(ShowMode::from_query(Some("ALL")), ShowMode::Active);
}

#[test]
fn daily_list_filters_board_and_sorts() {
    let mut todos = sample();
    for t in todos.iter_mut() {
        if t.id != "c" {
            t.daily_date = Some("2026-07-26".to_string());
        }
    }
    let r = list_for_date(todos.clone(), "2026-07-26", CUTOFF);
    assert_eq!(ids(&r), vec!["d", "b", "f", "a"]);
    let r = list_daily(todos.clone(), " 2026-07-26 ", CUTOFF).unwrap();
    assert_eq!(ids(&r), vec!["d", "b", "f", "a"]);
    assert_eq!(list_daily(todos, "2026-7-26", CUTOFF).unwrap_err(), DailyError::InvalidDate);
}

#[test]
fn section_counts_skip_archived() {
    let counts = section_counts(&sample(), CUTOFF);
    let got: Vec<(Section, usize, usize)> =
        counts.iter().map(|c| (c.section, c.total, c.completed)).collect();
    assert_eq!(
        got,
        vec![
            (Section::Sp, 1, 1),
            (Section::I, 1, 0),
            (Section::Si, 0, 0),
            (Section::P, 3, 0),
        ]
    );
}

#[test]
fn daily_list_of_trimmed_date() {
    let mut todos = sample();
    todos[0].daily_date = Some("2026-07-26".to_string());
    assert_eq!(ids(&list_daily_for(todos.clone(), "2026-07-26", CUTOFF).unwrap()), vec!["a"]);
    assert_eq!(
        list_daily_for(todos, " 2026-07-26", CUTOFF).unwrap_err(),
        DailyError::InvalidDate
    );
}

use todo_core::model::{Importance, Section, UpdateTodoRequest};

#[test]
fn sections_round_trip() {
    assert_eq!(Section::all(), &[Section::Sp, Section::I, Section::Si, Section::P]);
    for s in Section::all() {
        assert_eq!(Section::parse(s.as_str()), Some(*s));
    }
    assert_eq!(Section::Sp.as_str(), "Sp");
    assert_eq!(Section::Si.as_str(), "Si");
    assert_eq!(Section::parse("sp"), None);
    assert_eq!(Section::parse(""), None);
    assert_eq!(Section::parse("Sp "), None);
}

#[test]
fn importance_round_trip_and_labels() {
    assert_eq!(
        Importance::all(),
        &[Importance::Low, Importance::Medium, Importance::High, Importance::Critical]
    );
    for i in Importance::all() {
        assert_eq!(Importance::parse(i.as_str()), Some(*i));
    }
    assert_eq!(Importance::Critical.as_str(), "critical");
    assert_eq!(Importance::Critical.label(), "Critical");
    assert_eq!(Importance::Low.label(), "Low");
    assert_eq!(Importance::parse("High"), None);
    assert_eq!(Importance::default(), Importance::Medium);
    assert!(Importance::Low < Importance::Critical);
}

#[test]
fn update_request_default_is_empty() {
    let r = UpdateTodoRequest::default();
    assert!(r.title.is_none() && r.completed.is_none() && r.section.is_none());
    assert!(r.importance.is_none() && r.due_date.is_none());
}

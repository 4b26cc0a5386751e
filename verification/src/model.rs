//! The shared data types of the todo list.

use vstd::prelude::*;

use crate::text::str_eq;

verus! {

/// One of the four life sections a todo belongs to.
#[derive(Clone, Copy, Debug, PartialEq, Eq, Structural, Hash)]
pub enum Section {
    Sp,
    I,
    Si,
    P,
}

/// The canonical spelling of a section.
pub open spec fn section_name(s: Section) -> Seq<char> {
    match s {
        Section::Sp => seq!['S', 'p'],
        Section::I => seq!['I'],
        Section::Si => seq!['S', 'i'],
        Section::P => seq!['P'],
    }
}

/// The section spelled exactly `s` (case-sensitive), if any.
pub open spec fn section_from_name(s: Seq<char>) -> Option<Section> {
    if s == section_name(Section::Sp) {
        Some(Section::Sp)
    } else if s == section_name(Section::I) {
        Some(Section::I)
    } else if s == section_name(Section::Si) {
        Some(Section::Si)
    } else if s == section_name(Section::P) {
        Some(Section::P)
    } else {
        None
    }
}

impl Section {
    /// All sections, in display order.
    pub fn all() -> (r: &'static [Section])
        ensures
            r@ == seq![Section::Sp, Section::I, Section::Si, Section::P],
    {
        let r: &'static [Section] = &[Section::Sp, Section::I, Section::Si, Section::P];
        r
    }

    /// The section's canonical spelling.
    pub fn as_str(&self) -> (r: &'static str)
        ensures
            r@ == section_name(*self),
    {
        match self {
            Section::Sp => {
                proof {
                    reveal_strlit("Sp");
                }
                "Sp"
            },
            Section::I => {
                proof {
                    reveal_strlit("I");
                }
                "I"
            },
            Section::Si => {
                proof {
                    reveal_strlit("Si");
                }
                "Si"
            },
            Section::P => {
                proof {
                    reveal_strlit("P");
                }
                "P"
            },
        }
    }

    /// Reads a section from its exact spelling.
    pub fn parse(s: &str) -> (r: Option<Section>)
        ensures
            r == section_from_name(s@),
    {
        proof {
            reveal_strlit("Sp");
            reveal_strlit("I");
            reveal_strlit("Si");
            reveal_strlit("P");
            assert("Sp"@ =~= section_name(Section::Sp));
            assert("I"@ =~= section_name(Section::I));
            assert("Si"@ =~= section_name(Section::Si));
            assert("P"@ =~= section_name(Section::P));
        }
        if str_eq(s, "Sp") {
            Some(Section::Sp)
        } else if str_eq(s, "I") {
            Some(Section::I)
        } else if str_eq(s, "Si") {
            Some(Section::Si)
        } else if str_eq(s, "P") {
            Some(Section::P)
        } else {
            None
        }
    }
}

/// How important a todo is; `Medium` unless said otherwise.
#[derive(Clone, Copy, Debug, PartialEq, Eq, Structural, PartialOrd, Ord, Hash)]
pub enum Importance {
    Low,
    Medium,
    High,
    Critical,
}

/// The lowercase wire spelling of an importance level.
pub open spec fn importance_name(i: Importance) -> Seq<char> {
    match i {
        Importance::Low => seq!['l', 'o', 'w'],
        Importance::Medium => seq!['m', 'e', 'd', 'i', 'u', 'm'],
        Importance::High => seq!['h', 'i', 'g', 'h'],
        Importance::Critical => seq!['c', 'r', 'i', 't', 'i', 'c', 'a', 'l'],
    }
}

/// The capitalised label shown for an importance level.
pub open spec fn importance_label(i: Importance) -> Seq<char> {
    match i {
        Importance::Low => seq!['L', 'o', 'w'],
        Importance::Medium => seq!['M', 'e', 'd', 'i', 'u', 'm'],
        Importance::High => seq!['H', 'i', 'g', 'h'],
        Importance::Critical => seq!['C', 'r', 'i', 't', 'i', 'c', 'a', 'l'],
    }
}

/// The importance level spelled exactly `s` (lowercase), if any.
pub open spec fn importance_from_name(s: Seq<char>) -> Option<Importance> {
    if s == importance_name(Importance::Low) {
        Some(Importance::Low)
    } else if s == importance_name(Importance::Medium) {
        Some(Importance::Medium)
    } else if s == importance_name(Importance::High) {
        Some(Importance::High)
    } else if s == importance_name(Importance::Critical) {
        Some(Importance::Critical)
    } else {
        None
    }
}

/// Position of an importance level from least to most important.
pub open spec fn importance_level(i: Importance) -> int {
    match i {
        Importance::Low => 0,
        Importance::Medium => 1,
        Importance::High => 2,
        Importance::Critical => 3,
    }
}

impl Importance {
    /// All levels, from least to most important.
    pub fn all() -> (r: &'static [Importance])
        ensures
            r@ == seq![
                Importance::Low,
                Importance::Medium,
                Importance::High,
                Importance::Critical,
            ],
    {
        let r: &'static [Importance] = &[
            Importance::Low,
            Importance::Medium,
            Importance::High,
            Importance::Critical,
        ];
        r
    }

    /// The lowercase wire spelling.
    pub fn as_str(&self) -> (r: &'static str)
        ensures
            r@ == importance_name(*self),
    {
        match self {
            Importance::Low => {
                proof {
                    reveal_strlit("low");
                }
                "low"
            },
            Importance::Medium => {
                proof {
                    reveal_strlit("medium");
                }
                "medium"
            },
            Importance::High => {
                proof {
                    reveal_strlit("high");
                }
                "high"
            },
            Importance::Critical => {
                proof {
                    reveal_strlit("critical");
                }
                "critical"
            },
        }
    }

    /// Reads an importance level from its exact lowercase spelling.
    pub fn parse(s: &str) -> (r: Option<Importance>)
        ensures
            r == importance_from_name(s@),
    {
        proof {
            reveal_strlit("low");
            reveal_strlit("medium");
            reveal_strlit("high");
            reveal_strlit("critical");
            assert("low"@ =~= importance_name(Importance::Low));
            assert("medium"@ =~= importance_name(Importance::Medium));
            assert("high"@ =~= importance_name(Importance::High));
            assert("critical"@ =~= importance_name(Importance::Critical));
        }
        if str_eq(s, "low") {
            Some(Importance::Low)
        } else if str_eq(s, "medium") {
            Some(Importance::Medium)
        } else if str_eq(s, "high") {
            Some(Importance::High)
        } else if str_eq(s, "critical") {
            Some(Importance::Critical)
        } else {
            None
        }
    }

    /// The capitalised display label.
    pub fn label(&self) -> (r: &'static str)
        ensures
            r@ == importance_label(*self),
    {
        match self {
            Importance::Low => {
                proof {
                    reveal_strlit("Low");
                }
                "Low"
            },
            Importance::Medium => {
                proof {
                    reveal_strlit("Medium");
                }
                "Medium"
            },
            Importance::High => {
                proof {
                    reveal_strlit("High");
                }
                "High"
            },
            Importance::Critical => {
                proof {
                    reveal_strlit("Critical");
                }
                "Critical"
            },
        }
    }
}

impl Default for Importance {
    fn default() -> (r: Importance)
        ensures
            r == Importance::Medium,
    {
        Importance::Medium
    }
}

/// A stored todo, as the API returns it.
#[derive(Debug, Clone)]
pub struct Todo {
    pub id: String,
    pub section: Section,
    pub title: String,
    pub completed: bool,
    pub importance: Importance,
    /// Optional due date in YYYY-MM-DD format
    pub due_date: Option<String>,
    pub created_at: String,
    pub updated_at: String,
    /// When the todo was last completed; cleared when it is reopened
    pub completed_at: Option<String>,
    /// The daily board (YYYY-MM-DD) the todo is on; `None` when it is only in General
    pub daily_date: Option<String>,
    /// The earlier daily board it was carried forward from
    pub carried_from: Option<String>,
}

/// Body of a request that creates a todo.
#[derive(Debug)]
pub struct CreateTodoRequest {
    pub section: Section,
    pub title: String,
    pub importance: Option<Importance>,
    pub due_date: Option<String>,
}

/// Body of a partial update; only the present fields change.
/// `due_date: Some(None)` clears the due date.
#[derive(Debug)]
pub struct UpdateTodoRequest {
    pub title: Option<String>,
    pub completed: Option<bool>,
    pub section: Option<Section>,
    pub importance: Option<Importance>,
    pub due_date: Option<Option<String>>,
}

impl Default for UpdateTodoRequest {
    fn default() -> (r: UpdateTodoRequest)
        ensures
            r.title.is_none(),
            r.completed.is_none(),
            r.section.is_none(),
            r.importance.is_none(),
            r.due_date.is_none(),
    {
        UpdateTodoRequest {
            title: None,
            completed: None,
            section: None,
            importance: None,
            due_date: None,
        }
    }
}

/// Number of visible and of completed todos in one section.
#[derive(Debug, Clone)]
pub struct SectionCount {
    pub section: Section,
    pub total: usize,
    pub completed: usize,
}

/// Answer to a successful delete.
#[derive(Debug, Clone)]
pub struct DeleteResponse {
    pub deleted: String,
}

/// What the client needs to render the daily header for its local today.
#[derive(Debug, Clone)]
pub struct DailyStatus {
    pub local_today: String,
    pub has_today: bool,
    pub has_tomorrow: bool,
    /// `"today"` or `"tomorrow"`: which board the create button makes
    pub button: String,
    pub previous_date: Option<String>,
}

/// Body of a request that creates today's or tomorrow's board.
#[derive(Debug, Clone)]
pub struct CreateDailyRequest {
    pub local_today: String,
    /// `"today"` or `"tomorrow"`
    pub for_day: String,
}

/// Body of a request that puts a todo on a board (`Some`) or takes it off (`None`).
#[derive(Debug, Clone)]
pub struct SetTodoDailyRequest {
    pub date: Option<String>,
}

} // verus!

verus! {

/// Reading a section's spelling gives the section back; no two sections
/// share a spelling.
pub proof fn lemma_section_name_round_trip(s: Section)
    ensures
        section_from_name(section_name(s)) == Some(s),
{
    assert(section_name(Section::Sp) != section_name(Section::I)) by {
        assert(section_name(Section::Sp).len() != section_name(Section::I).len());
    }
    assert(section_name(Section::Sp) != section_name(Section::P)) by {
        assert(section_name(Section::Sp).len() != section_name(Section::P).len());
    }
    assert(section_name(Section::Si) != section_name(Section::I)) by {
        assert(section_name(Section::Si).len() != section_name(Section::I).len());
    }
    assert(section_name(Section::Si) != section_name(Section::P)) by {
        assert(section_name(Section::Si).len() != section_name(Section::P).len());
    }
    assert(section_name(Section::Sp) != section_name(Section::Si)) by {
        assert(section_name(Section::Sp)[1] != section_name(Section::Si)[1]);
    }
    assert(section_name(Section::I) != section_name(Section::P)) by {
        assert(section_name(Section::I)[0] != section_name(Section::P)[0]);
    }
}

/// Reading an importance level's spelling gives the level back; no two
/// levels share a spelling.
pub proof fn lemma_importance_name_round_trip(i: Importance)
    ensures
        importance_from_name(importance_name(i)) == Some(i),
{
    let (l, m, h, c) = (
        importance_name(Importance::Low),
        importance_name(Importance::Medium),
        importance_name(Importance::High),
        importance_name(Importance::Critical),
    );
    assert(l.len() == 3 && m.len() == 6 && h.len() == 4 && c.len() == 8);
    assert(l != m && l != h && l != c && m != h && m != c && h != c);
}

} // verus!

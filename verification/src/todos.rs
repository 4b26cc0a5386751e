//! The rules of creating, updating, toggling and deleting todos, and of
//! reading a stored row back into a todo.

use vstd::prelude::*;

use crate::daily::opt_text;
use crate::model::{
    importance_from_name, section_from_name, CreateTodoRequest, DeleteResponse, Importance,
    Section, Todo, UpdateTodoRequest,
};
use crate::text::{is_blank, lemma_trimmed_empty_iff_blank, trim, trimmed};

verus! {

/// Why a todo request is refused.
#[derive(Debug, Clone, Copy, PartialEq, Eq, Structural)]
pub enum TodoError {
    /// The title is empty once trimmed.
    EmptyTitle,
    /// No todo has the given id.
    NotFound,
}

impl TodoError {
    /// The message the API answers with.
    pub fn message(&self) -> (r: &'static str)
        ensures
            r@ == match *self {
                TodoError::EmptyTitle => "Title cannot be empty"@,
                TodoError::NotFound => "Todo not found"@,
            },
    {
        match self {
            TodoError::EmptyTitle => "Title cannot be empty",
            TodoError::NotFound => "Todo not found",
        }
    }

    /// The HTTP status the API answers with.
    pub fn status_code(&self) -> (r: u16)
        ensures
            r == match *self {
                TodoError::EmptyTitle => 400u16,
                TodoError::NotFound => 404u16,
            },
    {
        match self {
            TodoError::EmptyTitle => 400,
            TodoError::NotFound => 404,
        }
    }
}

/// A lowercase hexadecimal digit.
pub open spec fn is_lower_hex(c: char) -> bool {
    ('0' <= c && c <= '9') || ('a' <= c && c <= 'f')
}

/// The hyphenated text of a random (version 4) UUID: 8-4-4-4-12 lowercase
/// hex digits, version digit `4`, variant digit one of `8 9 a b`.
pub open spec fn is_uuid_v4_text(s: Seq<char>) -> bool {
    &&& s.len() == 36
    &&& forall|i: int|
        0 <= i < 36 ==> if i == 8 || i == 13 || i == 18 || i == 23 {
            #[trigger] s[i] == '-'
        } else {
            is_lower_hex(s[i])
        }
    &&& s[14] == '4'
    &&& (s[19] == '8' || s[19] == '9' || s[19] == 'a' || s[19] == 'b')
}

/// Calls `uuid::Uuid::new_v4` and its `to_string`: a random version-4 UUID
/// in the hyphenated lowercase form. Which UUID comes out is chance; the
/// contract states only its shape.
#[verifier::external_body]
fn new_todo_id() -> (r: String)
    ensures
        is_uuid_v4_text(r@),
{
    uuid::Uuid::new_v4().to_string()
}

/// The values a new todo is stored with.
#[derive(Debug)]
pub struct NewTodo {
    pub id: String,
    pub section: Section,
    pub title: String,
    pub importance: Importance,
    pub due_date: Option<String>,
}

/// The importance a request asks for, `Medium` when it names none.
pub open spec fn importance_or_default(i: Option<Importance>) -> Importance {
    match i {
        Some(i) => i,
        None => Importance::Medium,
    }
}

fn copy_opt(o: &Option<String>) -> (r: Option<String>)
    ensures
        opt_text(r) == opt_text(*o),
{
    match o {
        Some(s) => Some(s.clone()),
        None => None,
    }
}

/// The todo to store for a create request whose title, already trimmed, is
/// `title`, under the id `id`; refused when the title is empty.
pub fn new_todo(req: &CreateTodoRequest, title: &str, id: String) -> (r: Result<NewTodo, TodoError>)
    ensures
        r is Err <==> title@.len() == 0,
        r matches Err(e) ==> e == TodoError::EmptyTitle,
        r matches Ok(t) ==> {
            &&& t.id@ == id@
            &&& t.section == req.section
            &&& t.title@ == title@
            &&& t.importance == importance_or_default(req.importance)
            &&& opt_text(t.due_date) == opt_text(req.due_date)
        },
{
    if title.is_empty() {
        return Err(TodoError::EmptyTitle);
    }
    let importance = match req.importance {
        Some(i) => i,
        None => Importance::Medium,
    };
    Ok(
        NewTodo {
            id,
            section: req.section,
            title: title.to_owned(),
            importance,
            due_date: copy_opt(&req.due_date),
        },
    )
}

/// The todo to store for a create request: the title trimmed (refused when
/// nothing is left), importance `Medium` unless given, and a fresh random id.
pub fn prepare_new_todo(req: &CreateTodoRequest) -> (r: Result<NewTodo, TodoError>)
    ensures
        r is Err <==> trimmed(req.title@).len() == 0,
        r is Err <==> is_blank(req.title@),
        r matches Err(e) ==> e == TodoError::EmptyTitle,
        r matches Ok(t) ==> {
            &&& is_uuid_v4_text(t.id@)
            &&& t.section == req.section
            &&& t.title@ == trimmed(req.title@)
            &&& t.importance == importance_or_default(req.importance)
            &&& opt_text(t.due_date) == opt_text(req.due_date)
        },
{
    proof {
        lemma_trimmed_empty_iff_blank(req.title@);
    }
    let title = trim(req.title.as_str());
    if title.is_empty() {
        return Err(TodoError::EmptyTitle);
    }
    new_todo(req, title, new_todo_id())
}

/// The todo after the fields of an update are applied, with `title` the
/// already-trimmed new title. `updated_at` becomes `now` when any field is
/// given; completing keeps an earlier completion time and clears the
/// carried-from note, reopening clears the completion time.
pub open spec fn updated(old: Todo, title: Option<Seq<char>>, req: UpdateTodoRequest, now: Seq<char>, new: Todo) -> bool {
    &&& new.id@ == old.id@
    &&& new.title@ == match title {
        Some(t) => t,
        None => old.title@,
    }
    &&& new.completed == match req.completed {
        Some(c) => c,
        None => old.completed,
    }
    &&& opt_text(new.completed_at) == match req.completed {
        Some(true) => match old.completed_at {
            Some(c) => Some(c@),
            None => Some(now),
        },
        Some(false) => None,
        None => opt_text(old.completed_at),
    }
    &&& new.section == match req.section {
        Some(s) => s,
        None => old.section,
    }
    &&& new.importance == match req.importance {
        Some(i) => i,
        None => old.importance,
    }
    &&& opt_text(new.due_date) == match req.due_date {
        Some(d) => opt_text(d),
        None => opt_text(old.due_date),
    }
    &&& new.updated_at@ == if title is Some || req.completed is Some || req.section is Some
        || req.importance is Some || req.due_date is Some {
        now
    } else {
        old.updated_at@
    }
    &&& new.created_at@ == old.created_at@
    &&& opt_text(new.daily_date) == opt_text(old.daily_date)
    &&& opt_text(new.carried_from) == if req.completed == Some(true) {
        None
    } else {
        opt_text(old.carried_from)
    }
}

/// The fields a todo keeps when it is only toggled.
pub open spec fn same_except_completion(old: Todo, new: Todo) -> bool {
    &&& new.id@ == old.id@
    &&& new.section == old.section
    &&& new.title@ == old.title@
    &&& new.importance == old.importance
    &&& opt_text(new.due_date) == opt_text(old.due_date)
    &&& new.created_at@ == old.created_at@
    &&& opt_text(new.daily_date) == opt_text(old.daily_date)
}

impl Todo {
    /// Flips completion at time `now`: completing records `now` as the
    /// completion time and clears the carried-from note (the todo stays on
    /// its board); reopening clears the completion time.
    pub fn toggle(&mut self, now: &str)
        ensures
            final(self).completed == !old(self).completed,
            opt_text(final(self).completed_at) == if old(self).completed {
                None
            } else {
                Some(now@)
            },
            final(self).updated_at@ == now@,
            same_except_completion(*old(self), *final(self)),
            opt_text(final(self).carried_from) == if old(self).completed {
                opt_text(old(self).carried_from)
            } else {
                None
            },
    {
        if self.completed {
            self.completed = false;
            self.completed_at = None;
        } else {
            self.completed = true;
            self.completed_at = Some(now.to_owned());
            self.carried_from = None;
        }
        self.updated_at = now.to_owned();
    }

    /// Applies an update whose title, if any, is already trimmed (`title`);
    /// an empty title refuses the whole update and changes nothing.
    pub fn apply_update_trimmed(
        &mut self,
        title: Option<&str>,
        req: &UpdateTodoRequest,
        now: &str,
    ) -> (r: Result<(), TodoError>)
        ensures
            r is Err <==> (title matches Some(t) && t@.len() == 0),
            r matches Err(e) ==> e == TodoError::EmptyTitle && *final(self) == *old(self),
            r is Ok ==> updated(
                *old(self),
                match title {
                    Some(t) => Some(t@),
                    None => None,
                },
                *req,
                now@,
                *final(self),
            ),
    {
        let mut touched = false;
        if let Some(t) = title {
            if t.is_empty() {
                return Err(TodoError::EmptyTitle);
            }
            self.title = t.to_owned();
            touched = true;
        }
        if let Some(completed) = req.completed {
            if completed {
                self.completed = true;
                if self.completed_at.is_none() {
                    self.completed_at = Some(now.to_owned());
                }
                self.carried_from = None;
            } else {
                self.completed = false;
                self.completed_at = None;
            }
            touched = true;
        }
        if let Some(section) = req.section {
            self.section = section;
            touched = true;
        }
        if let Some(importance) = req.importance {
            self.importance = importance;
            touched = true;
        }
        if let Some(due) = &req.due_date {
            self.due_date = copy_opt(due);
            touched = true;
        }
        if touched {
            self.updated_at = now.to_owned();
        }
        Ok(())
    }

    /// Applies a partial update at time `now`, trimming the new title first.
    pub fn apply_update(&mut self, req: &UpdateTodoRequest, now: &str) -> (r: Result<(), TodoError>)
        ensures
            r is Err <==> (req.title matches Some(t) && trimmed(t@).len() == 0),
            r is Err <==> (req.title matches Some(t) && is_blank(t@)),
            r matches Err(e) ==> e == TodoError::EmptyTitle && *final(self) == *old(self),
            r is Ok ==> updated(
                *old(self),
                match req.title {
                    Some(t) => Some(trimmed(t@)),
                    None => None,
                },
                *req,
                now@,
                *final(self),
            ),
    {
        proof {
            if req.title is Some {
                lemma_trimmed_empty_iff_blank(req.title->Some_0@);
            }
        }
        let title = match &req.title {
            Some(t) => Some(trim(t.as_str())),
            None => None,
        };
        self.apply_update_trimmed(title, req, now)
    }
}

/// The answer to a delete that removed `affected` rows for `id`.
pub fn delete_outcome(affected: usize, id: String) -> (r: Result<DeleteResponse, TodoError>)
    ensures
        r is Err <==> affected == 0,
        r matches Err(e) ==> e == TodoError::NotFound,
        r matches Ok(d) ==> d.deleted@ == id@,
{
    if affected == 0 {
        Err(TodoError::NotFound)
    } else {
        Ok(DeleteResponse { deleted: id })
    }
}

/// A stored row, column by column.
#[derive(Debug)]
pub struct TodoRow {
    pub id: String,
    pub section: String,
    pub title: String,
    pub completed: i32,
    pub importance: String,
    pub due_date: Option<String>,
    pub created_at: String,
    pub updated_at: String,
    pub completed_at: Option<String>,
    pub daily_date: Option<String>,
    pub carried_from: Option<String>,
}

/// Reads a stored row back into a todo: an unknown section reads as `P`, an
/// unknown importance as `Medium`, any non-zero `completed` as completed.
pub fn todo_from_row(row: TodoRow) -> (r: Todo)
    ensures
        r.id == row.id,
        r.section == match section_from_name(row.section@) {
            Some(s) => s,
            None => Section::P,
        },
        r.title == row.title,
        r.completed == (row.completed != 0),
        r.importance == match importance_from_name(row.importance@) {
            Some(i) => i,
            None => Importance::Medium,
        },
        r.due_date == row.due_date,
        r.created_at == row.created_at,
        r.updated_at == row.updated_at,
        r.completed_at == row.completed_at,
        r.daily_date == row.daily_date,
        r.carried_from == row.carried_from,
{
    let section = match Section::parse(row.section.as_str()) {
        Some(s) => s,
        None => Section::P,
    };
    let importance = match Importance::parse(row.importance.as_str()) {
        Some(i) => i,
        None => Importance::Medium,
    };
    Todo {
        id: row.id,
        section,
        title: row.title,
        completed: row.completed != 0,
        importance,
        due_date: row.due_date,
        created_at: row.created_at,
        updated_at: row.updated_at,
        completed_at: row.completed_at,
        daily_date: row.daily_date,
        carried_from: row.carried_from,
    }
}

} // verus!

verus! {

/// A successful partial update gives every field the request carries the
/// requested value and leaves every field it does not carry as it was:
/// the section, importance, completion and due date, and the title (the
/// already-trimmed `title`).
pub proof fn lemma_update_sets_requested_fields(
    old: Todo,
    title: Option<Seq<char>>,
    req: UpdateTodoRequest,
    now: Seq<char>,
    new: Todo,
)
    requires
        updated(old, title, req, now, new),
    ensures
        req.section matches Some(s) ==> new.section == s,
        req.section is None ==> new.section == old.section,
        req.importance matches Some(i) ==> new.importance == i,
        req.importance is None ==> new.importance == old.importance,
        req.completed matches Some(c) ==> new.completed == c,
        req.completed is None ==> new.completed == old.completed,
        req.due_date matches Some(d) ==> opt_text(new.due_date) == opt_text(d),
        req.due_date is None ==> opt_text(new.due_date) == opt_text(old.due_date),
        title matches Some(t) ==> new.title@ == t,
        title is None ==> new.title@ == old.title@,
        new.id@ == old.id@,
        new.created_at@ == old.created_at@,
        opt_text(new.daily_date) == opt_text(old.daily_date),
{
}

} // verus!

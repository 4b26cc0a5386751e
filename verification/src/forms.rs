//! The web client's forms as state and events: the quick-add forms of the
//! quadrants, the archive filters, the inline importance edit, the daily
//! view's dates, the daily actions on a todo, and the board picker's
//! confirm step.

use vstd::prelude::*;

use crate::client::due_or;
use crate::daily::opt_text;
use crate::date::{date_fields, date_text, is_valid_date, shift_date, shift_days};
use crate::model::{
    importance_from_name, importance_name, CreateTodoRequest, DailyStatus, Importance, Section,
    SetTodoDailyRequest, Todo,
};
use crate::text::{
    digits_of, is_blank, lemma_trimmed_empty_iff_blank, push_digits, str_eq, trim, trimmed,
};

verus! {

/// `q` is the create request a quadrant sends: the section, the trimmed
/// title, the chosen importance, and the entered due date or, when none was
/// entered, `fallback`.
pub open spec fn is_quick_add(
    q: CreateTodoRequest,
    section: Section,
    title: Seq<char>,
    importance: Importance,
    due: Seq<char>,
    fallback: Seq<char>,
) -> bool {
    &&& q.section == section
    &&& q.title@ == trimmed(title)
    &&& q.importance == Some(importance)
    &&& opt_text(q.due_date) == Some(
        if due.len() == 0 {
            fallback
        } else {
            due
        },
    )
}

/// The request a quadrant's add button (or Enter) sends, if any. Nothing is
/// sent while the trimmed title is empty, while an earlier add is under way,
/// or while the board is not ready (the general quadrants are always ready).
/// `fallback` is the due date used when none was entered: the viewed board's
/// date on a daily quadrant, today's date on a general one.
pub fn quick_add(
    section: Section,
    title: &str,
    importance: Importance,
    due: &str,
    fallback: &str,
    submitting: bool,
    board_ready: bool,
) -> (r: Option<CreateTodoRequest>)
    ensures
        r is None <==> (trimmed(title@).len() == 0 || submitting || !board_ready),
        is_blank(title@) ==> r is None,
        r matches Some(q) ==> is_quick_add(q, section, title@, importance, due@, fallback@),
{
    proof {
        lemma_trimmed_empty_iff_blank(title@);
    }
    let t = trim(title);
    if t.is_empty() || submitting || !board_ready {
        return None;
    }
    Some(
        CreateTodoRequest {
            section,
            title: t.to_owned(),
            importance: Some(importance),
            due_date: Some(due_or(due, fallback)),
        },
    )
}

/// The request the plain add box sends, if any: the trimmed title in the
/// active section, with no importance or due date; nothing while the trimmed
/// title is empty or an earlier add is under way.
pub fn plain_add(section: Section, title: &str, submitting: bool) -> (r: Option<CreateTodoRequest>)
    ensures
        r is None <==> (trimmed(title@).len() == 0 || submitting),
        r matches Some(q) ==> {
            &&& q.section == section
            &&& q.title@ == trimmed(title@)
            &&& q.importance is None
            &&& q.due_date is None
        },
{
    let t = trim(title);
    if t.is_empty() || submitting {
        return None;
    }
    Some(CreateTodoRequest { section, title: t.to_owned(), importance: None, due_date: None })
}

/// The follow-up of an add on a daily quadrant: put the created todo `id`
/// on the viewed board `board`.
pub fn place_on_board(id: &str, board: &str) -> (r: (String, SetTodoDailyRequest))
    ensures
        r.0@ == id@,
        opt_text(r.1.date) == Some(board@),
{
    (id.to_owned(), SetTodoDailyRequest { date: Some(board.to_owned()) })
}

/// The input state of a quadrant's add form.
pub struct AddForm {
    pub title: String,
    pub importance: Importance,
    pub due_date: String,
    pub submitting: bool,
}

impl AddForm {
    /// An empty form, with importance `Medium` selected.
    pub fn new() -> (r: AddForm)
        ensures
            r.title@.len() == 0,
            r.importance == Importance::Medium,
            r.due_date@.len() == 0,
            !r.submitting,
    {
        AddForm {
            title: String::new(),
            importance: Importance::Medium,
            due_date: String::new(),
            submitting: false,
        }
    }

    /// Submit pressed: the request to send, if any (see `quick_add`). While
    /// it is under way the form is marked as submitting; the inputs stay.
    pub fn submit(&mut self, section: Section, fallback: &str, board_ready: bool) -> (r: Option<
        CreateTodoRequest,
    >)
        ensures
            r is None <==> (trimmed(old(self).title@).len() == 0 || old(self).submitting
                || !board_ready),
            r matches Some(q) ==> is_quick_add(
                q,
                section,
                old(self).title@,
                old(self).importance,
                old(self).due_date@,
                fallback@,
            ),
            final(self).title@ == old(self).title@,
            final(self).importance == old(self).importance,
            final(self).due_date@ == old(self).due_date@,
            final(self).submitting == (old(self).submitting || r is Some),
    {
        let r = quick_add(
            section,
            self.title.as_str(),
            self.importance,
            self.due_date.as_str(),
            fallback,
            self.submitting,
            board_ready,
        );
        if r.is_some() {
            self.submitting = true;
        }
        r
    }

    /// The add request has finished, whether it succeeded or not: the title
    /// and due date are cleared and the form takes input again; the chosen
    /// importance stays.
    pub fn finish(&mut self)
        ensures
            final(self).title@.len() == 0,
            final(self).due_date@.len() == 0,
            !final(self).submitting,
            final(self).importance == old(self).importance,
    {
        self.title = String::new();
        self.due_date = String::new();
        self.submitting = false;
    }

    /// The importance select changed to `value`: taken when it names a
    /// level, ignored otherwise.
    pub fn choose_importance(&mut self, value: &str)
        ensures
            final(self).importance == match importance_from_name(value@) {
                Some(i) => i,
                None => old(self).importance,
            },
            final(self).title@ == old(self).title@,
            final(self).due_date@ == old(self).due_date@,
            final(self).submitting == old(self).submitting,
    {
        if let Some(i) = Importance::parse(value) {
            self.importance = i;
        }
    }
}

/// The importance an inline edit sends, if any: the selected level when
/// `value` names one and it differs from the current level.
pub fn importance_change(value: &str, current: Importance) -> (r: Option<Importance>)
    ensures
        r == match importance_from_name(value@) {
            Some(i) => if i != current {
                Some(i)
            } else {
                None
            },
            None => None,
        },
{
    match Importance::parse(value) {
        Some(i) => if i != current {
            Some(i)
        } else {
            None
        },
        None => None,
    }
}

/// The board the daily view's create button asks for: the word the status
/// offers, or `today` before any status has arrived.
pub fn create_request_day(status: Option<&DailyStatus>) -> (r: String)
    ensures
        r@ == match status {
            Some(s) => s.button@,
            None => "today"@,
        },
{
    match status {
        Some(s) => s.button.clone(),
        None => String::from_str("today"),
    }
}

/// The date the daily view shows after a board was created: the day after
/// `today` when tomorrow's board was asked for, `today` otherwise. `None`
/// when that day cannot be written (an invalid `today`, or a year past 9999).
pub fn view_after_create(for_day: &str, today: &str) -> (r: Option<String>)
    ensures
        for_day@ == "tomorrow"@ ==> {
            &&& r is Some <==> (is_valid_date(today@) && shift_days(date_fields(today@).unwrap(), 1) is Some)
            &&& r matches Some(t) ==> ({
                let n = shift_days(date_fields(today@).unwrap(), 1).unwrap();
                t@ == date_text(n.0, n.1, n.2)
            })
        },
        for_day@ != "tomorrow"@ ==> (r matches Some(t) && t@ == today@),
{
    if str_eq(for_day, "tomorrow") {
        shift_date(today, 1)
    } else {
        Some(today.to_owned())
    }
}

/// `date` moved by `delta` days (see `shift_date`), or `fallback` (the
/// client's today) when `date` is not a valid date or the result would
/// leave the years `0000` to `9999`: what the daily view's arrows show.
pub fn shift_date_or(date: &str, delta: i32, fallback: &str) -> (r: String)
    ensures
        (is_valid_date(date@) && shift_days(date_fields(date@).unwrap(), delta as int) is Some) ==> ({
            let a = shift_days(date_fields(date@).unwrap(), delta as int).unwrap();
            r@ == date_text(a.0, a.1, a.2)
        }),
        !(is_valid_date(date@) && shift_days(date_fields(date@).unwrap(), delta as int) is Some)
            ==> r@ == fallback@,
{
    match shift_date(date, delta) {
        Some(t) => t,
        None => fallback.to_owned(),
    }
}

/// The badge a General item shows when it sits on a daily board:
/// `"On daily · {date}"`; none when it is on no board.
pub fn daily_badge(daily_date: &Option<String>) -> (r: Option<String>)
    ensures
        r is None <==> daily_date is None,
        r matches Some(b) ==> b@ == "On daily · "@ + daily_date->Some_0@,
{
    match daily_date {
        Some(d) => Some(String::from_str("On daily · ").concat(d.as_str())),
        None => None,
    }
}

/// The request a General item's "Add to Daily" sends: todo `id` onto
/// today's board. The action is offered only once today's board exists
/// (`has_today`); before that there is nothing to send.
pub fn add_to_daily(id: &str, today: &str, has_today: bool) -> (r: Option<(String, SetTodoDailyRequest)>)
    ensures
        r is None <==> !has_today,
        r matches Some(p) ==> p.0@ == id@ && opt_text(p.1.date) == Some(today@),
{
    if !has_today {
        return None;
    }
    Some(place_on_board(id, today))
}

/// The request a daily item's "Remove from Daily" sends: todo `t` off every
/// board. The action is offered only on a todo that sits on a board.
pub fn remove_from_daily(t: &Todo) -> (r: Option<(String, SetTodoDailyRequest)>)
    ensures
        r is None <==> t.daily_date is None,
        r matches Some(p) ==> p.0@ == t.id@ && p.1.date is None,
{
    match &t.daily_date {
        Some(_) => Some((t.id.clone(), SetTodoDailyRequest { date: None })),
        None => None,
    }
}

/// The archive's importance filter keyed by the select's value `f`.
pub open spec fn has_importance_named(f: Seq<char>) -> spec_fn(Todo) -> bool {
    |t: Todo| importance_name(t.importance) == f
}

/// The archived todos the archive view shows: all of them when the
/// importance select is empty, else those whose importance is spelled `f`,
/// in list order.
pub fn archive_filter(todos: Vec<Todo>, f: &str) -> (r: Vec<Todo>)
    ensures
        r@ == if f@.len() == 0 {
            todos@
        } else {
            todos@.filter(has_importance_named(f@))
        },
{
    if f.is_empty() {
        return todos;
    }
    let ghost p = has_importance_named(f@);
    let ghost orig = todos@;
    let n = todos.len();
    let mut rest = todos;
    let mut out: Vec<Todo> = Vec::new();
    let mut k: usize = 0;
    proof {
        reveal_with_fuel(Seq::filter, 1);
        assert(orig.subrange(0, 0).filter(p) =~= Seq::<Todo>::empty());
    }
    while k < n
        invariant
            n == orig.len(),
            k <= n,
            rest@ == orig.subrange(k as int, n as int),
            out@ == orig.subrange(0, k as int).filter(p),
            p == has_importance_named(f@),
        decreases n - k,
    {
        let t = rest.remove(0);
        assert(t == orig[k as int]);
        let ghost prefix = orig.subrange(0, k as int);
        let ghost next = orig.subrange(0, k + 1);
        assert(next.drop_last() =~= prefix);
        assert(next.last() == t);
        proof {
            reveal_with_fuel(Seq::filter, 1);
        }
        assert(rest@ =~= orig.subrange(k + 1, n as int));
        if str_eq(t.importance.as_str(), f) {
            out.push(t);
        }
        k = k + 1;
    }
    assert(orig.subrange(0, n as int) =~= orig);
    out
}

/// The archive's counter: `"{n} archived"`.
pub fn archive_count_label(n: usize) -> (r: String)
    ensures
        r@ == digits_of(n as nat) + " archived"@,
{
    let mut s = String::new();
    push_digits(&mut s, n as u64);
    s.append(" archived");
    s
}

/// What the board picker does after an event.
pub enum PickAction {
    /// Nothing (a confirm while saving, or a stray reply).
    Nothing,
    /// Close the picker.
    Close,
    /// Put todo `0` on the board with request `1`.
    Place(String, SetTodoDailyRequest),
    /// Show the error of the failed placement and stay open.
    ShowError,
}

/// The board picker's confirm step: the board, the ids being placed in
/// order, how many of them are placed, and whether placing is under way.
pub struct PickConfirm {
    pub target: String,
    pub ids: Vec<String>,
    pub placed: usize,
    pub saving: bool,
}

impl PickConfirm {
    /// A picker for board `target`, before confirm.
    pub fn new(target: &str) -> (r: PickConfirm)
        ensures
            r.target@ == target@,
            r.ids@.len() == 0,
            r.placed == 0,
            !r.saving,
    {
        PickConfirm { target: target.to_owned(), ids: Vec::new(), placed: 0, saving: false }
    }

    /// The request that places `ids[placed]`.
    fn next_place(&self) -> (r: PickAction)
        requires
            self.placed < self.ids@.len(),
        ensures
            r matches PickAction::Place(id, req) && id == self.ids@[self.placed as int] && opt_text(
                req.date,
            ) == Some(self.target@),
    {
        let id = self.ids[self.placed].clone();
        PickAction::Place(id, SetTodoDailyRequest { date: Some(self.target.clone()) })
    }

    /// Confirm pressed with the selected ids, in the order they are to be
    /// placed. Ignored while placing is under way; with nothing selected the
    /// picker closes; otherwise placing starts with the first id.
    pub fn confirm(&mut self, selected: Vec<String>) -> (r: PickAction)
        ensures
            old(self).saving ==> r is Nothing && *final(self) == *old(self),
            !old(self).saving && selected@.len() == 0 ==> r is Close && *final(self) == *old(self),
            !old(self).saving && selected@.len() > 0 ==> {
                &&& final(self).target == old(self).target
                &&& final(self).ids@ == selected@
                &&& final(self).placed == 0
                &&& final(self).saving
                &&& r matches PickAction::Place(id, req) && id == selected@[0] && opt_text(req.date)
                    == Some(old(self).target@)
            },
    {
        if self.saving {
            return PickAction::Nothing;
        }
        if selected.len() == 0 {
            return PickAction::Close;
        }
        self.ids = selected;
        self.placed = 0;
        self.saving = true;
        self.next_place()
    }

    /// The placement of `ids[placed]` succeeded: the next id is placed, or,
    /// after the last, placing ends and the picker closes. Ignored when no
    /// placement is under way.
    pub fn placed_ok(&mut self) -> (r: PickAction)
        ensures
            !(old(self).saving && old(self).placed < old(self).ids@.len()) ==> r is Nothing
                && *final(self) == *old(self),
            old(self).saving && old(self).placed < old(self).ids@.len() ==> {
                &&& final(self).target == old(self).target
                &&& final(self).ids == old(self).ids
                &&& final(self).placed == old(self).placed + 1
                &&& final(self).placed == final(self).ids@.len() ==> r is Close && !final(self).saving
                &&& final(self).placed < final(self).ids@.len() ==> final(self).saving && (r matches PickAction::Place(id, req) && id == final(self).ids@[final(self).placed as int] && opt_text(req.date) == Some(final(self).target@))
            },
    {
        if !(self.saving && self.placed < self.ids.len()) {
            return PickAction::Nothing;
        }
        self.placed = self.placed + 1;
        if self.placed == self.ids.len() {
            self.saving = false;
            PickAction::Close
        } else {
            self.next_place()
        }
    }

    /// The placement of `ids[placed]` failed: the ids after it are not
    /// tried, placing ends, and the picker stays open showing the error.
    pub fn placed_err(&mut self) -> (r: PickAction)
        ensures
            !old(self).saving ==> r is Nothing && *final(self) == *old(self),
            old(self).saving ==> {
                &&& r is ShowError
                &&& !final(self).saving
                &&& final(self).target == old(self).target
                &&& final(self).ids == old(self).ids
                &&& final(self).placed == old(self).placed
            },
    {
        if !self.saving {
            return PickAction::Nothing;
        }
        self.saving = false;
        PickAction::ShowError
    }
}

} // verus!

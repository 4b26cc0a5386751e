//! What the web client computes before it renders: request URLs, the daily
//! header, which todos a panel shows, and edits worth sending.

use vstd::prelude::*;

use crate::daily::opt_text;
use crate::listing::opt_str;
use crate::model::{importance_name, DailyStatus, Importance, Section, Todo};
use crate::text::{push_digits, digits_of, str_eq, text_less, text_lt, trim, trimmed};

verus! {

/// One `name=value` query parameter, when a value is given.
pub open spec fn query_param(name: Seq<char>, value: Option<Seq<char>>) -> Option<Seq<char>> {
    match value {
        Some(v) => Some(name + seq!['='] + v),
        None => None,
    }
}

/// Two optional parameter lists joined with `&`.
pub open spec fn join_params(a: Option<Seq<char>>, b: Option<Seq<char>>) -> Option<Seq<char>> {
    match (a, b) {
        (Some(x), Some(y)) => Some(x + seq!['&'] + y),
        (Some(x), None) => Some(x),
        (None, y) => y,
    }
}

/// The todo list URL under `base`: `section`, `sort` and `show` parameters
/// in that order, each only when given.
pub open spec fn todos_url_text(
    base: Seq<char>,
    section: Option<Seq<char>>,
    sort: Option<Seq<char>>,
    show: Option<Seq<char>>,
) -> Seq<char> {
    let q = join_params(
        join_params(
            query_param(seq!['s', 'e', 'c', 't', 'i', 'o', 'n'], section),
            query_param(seq!['s', 'o', 'r', 't'], sort),
        ),
        query_param(seq!['s', 'h', 'o', 'w'], show),
    );
    base + seq!['/', 't', 'o', 'd', 'o', 's'] + match q {
        Some(p) => seq!['?'] + p,
        None => Seq::empty(),
    }
}

/// Appends `&` unless this is the first parameter, then `name=value`.
fn push_param(out: &mut String, first: bool, name: &str, value: &str)
    ensures
        final(out)@ == old(out)@ + (if first {
            Seq::empty()
        } else {
            seq!['&']
        }) + name@ + seq!['='] + value@,
{
    proof {
        reveal_strlit("&");
        reveal_strlit("=");
    }
    if !first {
        out.append("&");
    }
    out.append(name);
    out.append("=");
    out.append(value);
}

/// The URL that lists todos, with the optional filters as query parameters.
pub fn todos_url(base: &str, section: Option<&str>, sort: Option<&str>, show: Option<&str>) -> (r: String)
    ensures
        r@ == todos_url_text(base@, opt_str(section), opt_str(sort), opt_str(show)),
{
    proof {
        reveal_strlit("/todos");
        reveal_strlit("?");
        reveal_strlit("section");
        reveal_strlit("sort");
        reveal_strlit("show");
    }
    let ghost sec = opt_str(section);
    let ghost srt = opt_str(sort);
    let ghost shw = opt_str(show);
    let mut out = String::from_str(base);
    out.append("/todos");
    let mut q = String::new();
    let mut first = true;
    if let Some(s) = section {
        push_param(&mut q, first, "section", s);
        first = false;
    }
    let ghost q1 = join_params(
        query_param(seq!['s', 'e', 'c', 't', 'i', 'o', 'n'], sec),
        query_param(seq!['s', 'o', 'r', 't'], None),
    );
    assert(first == q1.is_none());
    assert(q1 matches Some(p) ==> q@ =~= p);
    assert(q1.is_none() ==> q@ =~= Seq::<char>::empty());
    if let Some(s) = sort {
        push_param(&mut q, first, "sort", s);
        first = false;
    }
    let ghost q2 = join_params(
        query_param(seq!['s', 'e', 'c', 't', 'i', 'o', 'n'], sec),
        query_param(seq!['s', 'o', 'r', 't'], srt),
    );
    assert(first == q2.is_none());
    assert(q2 matches Some(p) ==> q@ =~= p);
    assert(q2.is_none() ==> q@ =~= Seq::<char>::empty());
    if let Some(s) = show {
        push_param(&mut q, first, "show", s);
        first = false;
    }
    let ghost q3 = join_params(q2, query_param(seq!['s', 'h', 'o', 'w'], shw));
    assert(first == q3.is_none());
    assert(q3 matches Some(p) ==> q@ =~= p);
    if !first {
        out.append("?");
        out.append(q.as_str());
    }
    assert(out@ =~= todos_url_text(base@, sec, srt, shw));
    out
}

/// The live-update socket URL for a page served over `protocol` from `host`:
/// `wss:` under `https:`, `ws:` otherwise.
pub fn ws_url(protocol: &str, host: &str) -> (r: String)
    ensures
        r@ == (if protocol@ == "https:"@ {
            "wss:"@
        } else {
            "ws:"@
        }) + "//"@ + host@ + "/api/ws"@,
{
    let mut out = if str_eq(protocol, "https:") {
        String::from_str("wss:")
    } else {
        String::from_str("ws:")
    };
    out.append("//");
    out.append(host);
    out.append("/api/ws");
    out
}

/// The line under the daily header for the viewed date.
pub open spec fn date_label_text(viewed: Seq<char>, today: Seq<char>, has_today: bool) -> Seq<char> {
    if viewed == today {
        if has_today {
            "Today · "@ + viewed
        } else {
            "No daily board for today yet"@
        }
    } else if text_lt(today, viewed) {
        "Upcoming · "@ + viewed
    } else {
        "Past · "@ + viewed
    }
}

/// Labels the viewed daily date relative to the client's today: today's
/// board (or that it is missing), an upcoming day, or a past day.
pub fn date_label(viewed: &str, today: &str, has_today: bool) -> (r: String)
    ensures
        r@ == date_label_text(viewed@, today@, has_today),
{
    if str_eq(viewed, today) {
        if has_today {
            String::from_str("Today · ").concat(viewed)
        } else {
            String::from_str("No daily board for today yet")
        }
    } else if text_less(today, viewed) {
        String::from_str("Upcoming · ").concat(viewed)
    } else {
        String::from_str("Past · ").concat(viewed)
    }
}

/// Whether todos can be added to the viewed board: today's and tomorrow's
/// boards only once the status says they exist; other days always.
pub fn board_ready(viewed: &str, today: &str, tomorrow: &str, status: Option<&DailyStatus>) -> (r: bool)
    ensures
        r == if viewed@ == today@ {
            status matches Some(s) && s.has_today
        } else if viewed@ == tomorrow@ {
            status matches Some(s) && s.has_tomorrow
        } else {
            true
        },
{
    if str_eq(viewed, today) {
        match status {
            Some(s) => s.has_today,
            None => false,
        }
    } else if str_eq(viewed, tomorrow) {
        match status {
            Some(s) => s.has_tomorrow,
            None => false,
        }
    } else {
        true
    }
}

/// The create button's caption for the status' `button` word.
pub fn create_button_label(button: Option<&str>) -> (r: &'static str)
    ensures
        r@ == if button matches Some(b) && b@ == "tomorrow"@ {
            "Create todos for tomorrow"@
        } else {
            "Create todos for today"@
        },
{
    match button {
        Some(b) => if str_eq(b, "tomorrow") {
            "Create todos for tomorrow"
        } else {
            "Create todos for today"
        },
        None => "Create todos for today",
    }
}

/// The note shown on a todo carried from an earlier board.
pub fn carried_note(carried_from: &str) -> (r: String)
    ensures
        r@ == "Carried from "@ + carried_from@,
{
    String::from_str("Carried from ").concat(carried_from)
}

/// The due date a quick-add sends: the entered date, or `fallback` (the
/// board's or today's date) when none was entered.
pub fn due_or(entered: &str, fallback: &str) -> (r: String)
    ensures
        r@ == if entered@.len() == 0 {
            fallback@
        } else {
            entered@
        },
{
    if entered.is_empty() {
        fallback.to_owned()
    } else {
        entered.to_owned()
    }
}

/// The title an inline edit sends for an already-trimmed input, if any:
/// nothing when it is empty or unchanged.
pub fn title_change(title: &str, current: &str) -> (r: Option<String>)
    ensures
        r matches Some(t) ==> t@ == title@,
        r is None <==> (title@.len() == 0 || title@ == current@),
{
    if title.is_empty() || str_eq(title, current) {
        None
    } else {
        Some(title.to_owned())
    }
}

/// The title an inline edit sends, if any: the input trimmed, unless that is
/// empty or unchanged.
pub fn edited_title(input: &str, current: &str) -> (r: Option<String>)
    ensures
        r matches Some(t) ==> t@ == trimmed(input@),
        r is None <==> (trimmed(input@).len() == 0 || trimmed(input@) == current@),
{
    title_change(trim(input), current)
}

/// The due-date change an inline edit sends, if any: an empty input clears
/// the date; nothing is sent when the date is unchanged.
pub fn edited_due_date(input: &str, current: &Option<String>) -> (r: Option<Option<String>>)
    ensures
        ({
            let new_date = if input@.len() == 0 {
                None
            } else {
                Some(input@)
            };
            &&& r is None <==> new_date == opt_text(*current)
            &&& r matches Some(d) ==> opt_text(d) == new_date
        }),
{
    let same = match current {
        Some(o) => !input.is_empty() && str_eq(input, o.as_str()),
        None => input.is_empty(),
    };
    if same {
        None
    } else if input.is_empty() {
        Some(None)
    } else {
        Some(Some(input.to_owned()))
    }
}

/// The CSS classes of a todo row.
pub fn todo_item_class(importance: Importance, completed: bool) -> (r: String)
    ensures
        r@ == "todo-item priority-"@ + importance_name(importance) + if completed {
            " completed"@
        } else {
            Seq::empty()
        },
{
    let mut c = String::from_str("todo-item priority-");
    c.append(importance.as_str());
    if completed {
        c.append(" completed");
    }
    c
}

/// The caption of the confirm button of the board picker.
pub fn pick_confirm_label(saving: bool, selected: u32) -> (r: String)
    ensures
        r@ == if saving {
            "Adding..."@
        } else if selected == 0 {
            "Done"@
        } else {
            "Add "@ + digits_of(selected as nat) + " to day"@
        },
{
    if saving {
        String::from_str("Adding...")
    } else if selected == 0 {
        String::from_str("Done")
    } else {
        let mut s = String::from_str("Add ");
        push_digits(&mut s, selected as u64);
        s.append(" to day");
        s
    }
}

} // verus!

verus! {

/// What a client panel keeps of a todo list.
pub enum Panel<'a> {
    /// A section's quadrant.
    Section(Section),
    /// The picker for board `0`: open todos not already on it.
    PickFor(&'a str),
    /// One importance group.
    Importance(Importance),
}

/// Whether a panel shows a todo.
pub open spec fn panel_shows(panel: Panel, t: Todo) -> bool {
    match panel {
        Panel::Section(s) => t.section == s,
        Panel::PickFor(target) => !t.completed && opt_text(t.daily_date) != Some(target@),
        Panel::Importance(i) => t.importance == i,
    }
}

/// The panel predicate as a function.
pub open spec fn shown_by(panel: Panel) -> spec_fn(Todo) -> bool {
    |t: Todo| panel_shows(panel, t)
}

fn shows(panel: &Panel, t: &Todo) -> (r: bool)
    ensures
        r == panel_shows(*panel, *t),
{
    match panel {
        Panel::Section(s) => t.section == *s,
        Panel::PickFor(target) => !t.completed && match &t.daily_date {
            Some(d) => !str_eq(d.as_str(), target),
            None => true,
        },
        Panel::Importance(i) => t.importance == *i,
    }
}

/// The todos a panel shows, in list order.
pub fn panel_todos(todos: Vec<Todo>, panel: &Panel) -> (r: Vec<Todo>)
    ensures
        r@ == todos@.filter(shown_by(*panel)),
{
    let ghost p = shown_by(*panel);
    let ghost orig = todos@;
    let n = todos.len();
    let mut rest = todos;
    let mut out: Vec<Todo> = Vec::new();
    let mut k: usize = 0;
    proof {
        reveal_with_fuel(Seq::filter, 1);
        assert(orig.subrange(0, 0).filter(p) =~= Seq::<Todo>::empty());
    }
    while k < n
        invariant
            n == orig.len(),
            k <= n,
            rest@ == orig.subrange(k as int, n as int),
            out@ == orig.subrange(0, k as int).filter(p),
            p == shown_by(*panel),
        decreases n - k,
    {
        let t = rest.remove(0);
        assert(t == orig[k as int]);
        let ghost prefix = orig.subrange(0, k as int);
        let ghost next = orig.subrange(0, k + 1);
        assert(next.drop_last() =~= prefix);
        assert(next.last() == t);
        proof {
            reveal_with_fuel(Seq::filter, 1);
        }
        assert(rest@ =~= orig.subrange(k + 1, n as int));
        if shows(panel, &t) {
            out.push(t);
        }
        k = k + 1;
    }
    assert(orig.subrange(0, n as int) =~= orig);
    out
}

/// The importance groups of the all-todos view: most important first, each
/// group keeping list order, empty groups left out.
pub fn importance_groups(todos: Vec<Todo>) -> (r: Vec<(Importance, Vec<Todo>)>)
    ensures
        forall|i: int|
            0 <= i < r@.len() ==> {
                &&& (#[trigger] r@[i]).1@ == todos@.filter(shown_by(Panel::Importance(r@[i].0)))
                &&& r@[i].1@.len() > 0
            },
        forall|i: int, j: int|
            0 <= i < j < r@.len() ==> crate::model::importance_level(#[trigger] r@[i].0)
                > crate::model::importance_level(#[trigger] r@[j].0),
        forall|imp: Importance|
            todos@.filter(shown_by(Panel::Importance(imp))).len() > 0 ==> exists|i: int|
                0 <= i < r@.len() && (#[trigger] r@[i]).0 == imp,
{
    let levels = Importance::all();
    let mut groups: Vec<(Importance, Vec<Todo>)> = Vec::new();
    let mut rest = todos;
    let ghost orig = rest@;
    let mut k: usize = 4;
    while k > 0
        invariant
            levels@ == seq![Importance::Low, Importance::Medium, Importance::High, Importance::Critical],
            k <= 4,
            forall|i: int|
                0 <= i < groups@.len() ==> {
                    &&& (#[trigger] groups@[i]).1@ == orig.filter(shown_by(Panel::Importance(groups@[i].0)))
                    &&& groups@[i].1@.len() > 0
                    &&& crate::model::importance_level(groups@[i].0) >= k
                },
            forall|i: int, j: int|
                0 <= i < j < groups@.len() ==> crate::model::importance_level(#[trigger] groups@[i].0)
                    > crate::model::importance_level(#[trigger] groups@[j].0),
            forall|imp: Importance|
                crate::model::importance_level(imp) >= k && orig.filter(
                    shown_by(Panel::Importance(imp)),
                ).len() > 0 ==> exists|i: int| 0 <= i < groups@.len() && (#[trigger] groups@[i]).0 == imp,
            rest@ == orig,
        decreases k,
    {
        let imp = levels[k - 1];
        let group = panel_todos(copy_todos(&rest), &Panel::Importance(imp));
        assert(crate::model::importance_level(imp) == k - 1);
        let ghost before = groups@;
        let ghost members = group@;
        if group.len() > 0 {
            groups.push((imp, group));
            assert(groups@[before.len() as int].0 == imp);
        }
        proof {
            assert forall|i: int| 0 <= i < before.len() implies #[trigger] groups@[i] == before[i] by {}
            assert forall|imp2: Importance|
                crate::model::importance_level(imp2) >= k - 1 && orig.filter(
                    shown_by(Panel::Importance(imp2)),
                ).len() > 0 implies exists|i: int|
                0 <= i < groups@.len() && (#[trigger] groups@[i]).0 == imp2 by {
                if crate::model::importance_level(imp2) == k - 1 {
                    assert(imp2 == imp);
                    assert(members.len() > 0);
                    assert(groups@[before.len() as int].0 == imp2);
                } else {
                    let i = choose|i: int| 0 <= i < before.len() && (#[trigger] before[i]).0 == imp2;
                    assert(groups@[i].0 == imp2);
                }
            }
        }
        k = k - 1;
    }
    assert forall|imp: Importance|
        orig.filter(shown_by(Panel::Importance(imp))).len() > 0 implies exists|i: int|
        0 <= i < groups@.len() && (#[trigger] groups@[i]).0 == imp by {
        assert(crate::model::importance_level(imp) >= 0);
    }
    groups
}

/// A copy of a todo with the same field values.
pub fn copy_todo(t: &Todo) -> (r: Todo)
    ensures
        r == *t,
{
    Todo {
        id: t.id.clone(),
        section: t.section,
        title: t.title.clone(),
        completed: t.completed,
        importance: t.importance,
        due_date: match &t.due_date {
            Some(d) => Some(d.clone()),
            None => None,
        },
        created_at: t.created_at.clone(),
        updated_at: t.updated_at.clone(),
        completed_at: match &t.completed_at {
            Some(d) => Some(d.clone()),
            None => None,
        },
        daily_date: match &t.daily_date {
            Some(d) => Some(d.clone()),
            None => None,
        },
        carried_from: match &t.carried_from {
            Some(d) => Some(d.clone()),
            None => None,
        },
    }
}

fn copy_todos(v: &Vec<Todo>) -> (r: Vec<Todo>)
    ensures
        r@ == v@,
{
    let mut out: Vec<Todo> = Vec::new();
    let mut i: usize = 0;
    while i < v.len()
        invariant
            i <= v@.len(),
            out@ == v@.subrange(0, i as int),
        decreases v@.len() - i,
    {
        out.push(copy_todo(&v[i]));
        assert(out@ =~= v@.subrange(0, i + 1));
        i = i + 1;
    }
    assert(v@.subrange(0, v@.len() as int) =~= v@);
    out
}

} // verus!

//! Which todos a list shows and in which order: the section and daily
//! filters, the archive window, and the four sort orders.

use vstd::prelude::*;
use vstd::seq_lib::{to_multiset_build, to_multiset_insert};

use crate::daily::{opt_text, DailyError};
use crate::date::{is_valid_date, valid_date};
use crate::model::{Importance, Section, SectionCount, Todo};
use crate::text::{
    lemma_text_lt_asymmetric, lemma_text_lt_total, lemma_text_lt_transitive, str_eq, text_less,
    text_lt, trim, trimmed,
};

verus! {

/// How a list is ordered.
#[derive(Debug, Clone, Copy, PartialEq, Eq, Structural)]
pub enum SortMode {
    /// Newest first (the default).
    Newest,
    /// Most important first, then newest first.
    Importance,
    /// Earliest due first, undated last, then newest first.
    DueDate,
    /// Most important first, then earliest due, undated last, then newest first.
    ImportanceDate,
}

/// Which todos a list shows, relative to the archive window.
#[derive(Debug, Clone, Copy, PartialEq, Eq, Structural)]
pub enum ShowMode {
    /// Everything not archived (the default).
    Active,
    /// Only archived todos.
    Archived,
    /// Everything.
    All,
}

/// Three-way comparison of texts in code-point order: -1, 0 or 1.
pub open spec fn text_cmp(a: Seq<char>, b: Seq<char>) -> int {
    if a == b {
        0
    } else if text_lt(a, b) {
        -1
    } else {
        1
    }
}

/// Three-way comparison of integers.
pub open spec fn int_cmp(a: int, b: int) -> int {
    if a == b {
        0
    } else if a < b {
        -1
    } else {
        1
    }
}

/// Position in the importance sort: critical first, low last.
pub open spec fn importance_rank(i: Importance) -> int {
    match i {
        Importance::Critical => 0,
        Importance::High => 1,
        Importance::Medium => 2,
        Importance::Low => 3,
    }
}

/// Due dates compared with undated todos after dated ones, dated ones by date.
pub open spec fn due_cmp(a: Option<Seq<char>>, b: Option<Seq<char>>) -> int {
    match (a, b) {
        (Some(x), Some(y)) => text_cmp(x, y),
        (Some(_), None) => -1,
        (None, Some(_)) => 1,
        (None, None) => 0,
    }
}

/// The first comparison that is not a tie.
pub open spec fn then_cmp(first: int, second: int) -> int {
    if first != 0 {
        first
    } else {
        second
    }
}

/// Three-way comparison of two todos in a sort order; negative when `a`
/// comes first.
pub open spec fn order_cmp(mode: SortMode, a: Todo, b: Todo) -> int {
    let newest = text_cmp(b.created_at@, a.created_at@);
    let importance = int_cmp(importance_rank(a.importance), importance_rank(b.importance));
    let due = due_cmp(opt_text(a.due_date), opt_text(b.due_date));
    match mode {
        SortMode::Newest => newest,
        SortMode::Importance => then_cmp(importance, newest),
        SortMode::DueDate => then_cmp(due, newest),
        SortMode::ImportanceDate => then_cmp(importance, then_cmp(due, newest)),
    }
}

/// `a` may stand before `b` in the order.
pub open spec fn order_le(mode: SortMode, a: Todo, b: Todo) -> bool {
    order_cmp(mode, a, b) <= 0
}

/// Every todo may stand before every later one.
pub open spec fn is_sorted(mode: SortMode, s: Seq<Todo>) -> bool {
    forall|i: int, j: int| 0 <= i < j < s.len() ==> order_le(mode, #[trigger] s[i], #[trigger] s[j])
}

/// A todo is archived when it was completed before the cutoff (a day before now).
pub open spec fn is_archived(t: Todo, cutoff: Seq<char>) -> bool {
    t.completed && match t.completed_at {
        Some(c) => text_lt(c@, cutoff),
        None => false,
    }
}

/// Whether the show mode lets a todo through.
pub open spec fn is_shown(show: ShowMode, t: Todo, cutoff: Seq<char>) -> bool {
    match show {
        ShowMode::Active => !is_archived(t, cutoff),
        ShowMode::Archived => is_archived(t, cutoff),
        ShowMode::All => true,
    }
}

/// Whether a list with these filters contains a todo.
pub open spec fn is_listed(
    t: Todo,
    section: Option<Section>,
    daily: Option<Seq<char>>,
    show: ShowMode,
    cutoff: Seq<char>,
) -> bool {
    &&& (section matches Some(s) ==> t.section == s)
    &&& (daily matches Some(d) ==> opt_text(t.daily_date) == Some(d))
    &&& is_shown(show, t, cutoff)
}

/// The list filter as a predicate.
pub open spec fn listed_by(
    section: Option<Section>,
    daily: Option<Seq<char>>,
    show: ShowMode,
    cutoff: Seq<char>,
) -> spec_fn(Todo) -> bool {
    |t: Todo| is_listed(t, section, daily, show, cutoff)
}

/// The text of an optional string slice.
pub open spec fn opt_str(o: Option<&str>) -> Option<Seq<char>> {
    match o {
        Some(s) => Some(s@),
        None => None,
    }
}

proof fn lemma_text_cmp(x: Seq<char>, y: Seq<char>, z: Seq<char>)
    ensures
        text_cmp(x, y) == -text_cmp(y, x),
        text_cmp(x, y) <= 0 && text_cmp(y, z) <= 0 ==> text_cmp(x, z) <= 0,
{
    lemma_text_lt_asymmetric(x, y);
    lemma_text_lt_total(x, y);
    if text_lt(x, y) && text_lt(y, z) {
        lemma_text_lt_transitive(x, y, z);
    }
}

/// Each sort order is a total preorder: comparing the other way round flips
/// the sign, and "may stand before" is transitive.
pub proof fn lemma_order_is_total_preorder(mode: SortMode, a: Todo, b: Todo, c: Todo)
    ensures
        order_cmp(mode, a, b) == -order_cmp(mode, b, a),
        order_le(mode, a, b) && order_le(mode, b, c) ==> order_le(mode, a, c),
{
    lemma_text_cmp(b.created_at@, a.created_at@, c.created_at@);
    lemma_text_cmp(c.created_at@, b.created_at@, a.created_at@);
    lemma_text_cmp(a.created_at@, c.created_at@, b.created_at@);
    lemma_text_cmp(c.created_at@, a.created_at@, b.created_at@);
    let (da, db, dc) = (opt_text(a.due_date), opt_text(b.due_date), opt_text(c.due_date));
    if da is Some && db is Some {
        lemma_text_cmp(da->0, db->0, da->0);
    }
    if da is Some && db is Some && dc is Some {
        lemma_text_cmp(da->0, db->0, dc->0);
        lemma_text_cmp(db->0, da->0, dc->0);
        lemma_text_cmp(da->0, dc->0, db->0);
    }
    if da is Some && dc is Some {
        lemma_text_cmp(da->0, dc->0, da->0);
    }
    if db is Some && dc is Some {
        lemma_text_cmp(db->0, dc->0, db->0);
    }
}

/// Reads the sort query parameter; anything unknown means newest first.
pub open spec fn sort_mode_of(sort: Option<Seq<char>>) -> SortMode {
    match sort {
        Some(s) => if s == seq!['i', 'm', 'p', 'o', 'r', 't', 'a', 'n', 'c', 'e'] {
            SortMode::Importance
        } else if s == seq!['d', 'u', 'e', '_', 'd', 'a', 't', 'e'] {
            SortMode::DueDate
        } else if s == seq![
            'i', 'm', 'p', 'o', 'r', 't', 'a', 'n', 'c', 'e', '_', 'd', 'a', 't', 'e',
        ] {
            SortMode::ImportanceDate
        } else {
            SortMode::Newest
        },
        None => SortMode::Newest,
    }
}

/// Reads the show query parameter; anything unknown means the active list.
pub open spec fn show_mode_of(show: Option<Seq<char>>) -> ShowMode {
    match show {
        Some(s) => if s == seq!['a', 'r', 'c', 'h', 'i', 'v', 'e', 'd'] {
            ShowMode::Archived
        } else if s == seq!['a', 'l', 'l'] {
            ShowMode::All
        } else {
            ShowMode::Active
        },
        None => ShowMode::Active,
    }
}

impl SortMode {
    /// The order a `sort` query parameter asks for.
    pub fn from_query(sort: Option<&str>) -> (r: SortMode)
        ensures
            r == sort_mode_of(
                match sort {
                    Some(s) => Some(s@),
                    None => None,
                },
            ),
    {
        proof {
            reveal_strlit("importance");
            reveal_strlit("due_date");
            reveal_strlit("importance_date");
            assert("importance"@ =~= seq!['i', 'm', 'p', 'o', 'r', 't', 'a', 'n', 'c', 'e']);
            assert("due_date"@ =~= seq!['d', 'u', 'e', '_', 'd', 'a', 't', 'e']);
            assert("importance_date"@ =~= seq![
                'i', 'm', 'p', 'o', 'r', 't', 'a', 'n', 'c', 'e', '_', 'd', 'a', 't', 'e',
            ]);
        }
        match sort {
            Some(s) => if str_eq(s, "importance") {
                SortMode::Importance
            } else if str_eq(s, "due_date") {
                SortMode::DueDate
            } else if str_eq(s, "importance_date") {
                SortMode::ImportanceDate
            } else {
                SortMode::Newest
            },
            None => SortMode::Newest,
        }
    }
}

impl ShowMode {
    /// The filter a `show` query parameter asks for.
    pub fn from_query(show: Option<&str>) -> (r: ShowMode)
        ensures
            r == show_mode_of(
                match show {
                    Some(s) => Some(s@),
                    None => None,
                },
            ),
    {
        proof {
            reveal_strlit("archived");
            reveal_strlit("all");
            assert("archived"@ =~= seq!['a', 'r', 'c', 'h', 'i', 'v', 'e', 'd']);
            assert("all"@ =~= seq!['a', 'l', 'l']);
        }
        match show {
            Some(s) => if str_eq(s, "archived") {
                ShowMode::Archived
            } else if str_eq(s, "all") {
                ShowMode::All
            } else {
                ShowMode::Active
            },
            None => ShowMode::Active,
        }
    }
}

fn text_compare(a: &str, b: &str) -> (r: i8)
    ensures
        r == text_cmp(a@, b@),
{
    if str_eq(a, b) {
        0
    } else if text_less(a, b) {
        -1
    } else {
        1
    }
}

fn rank_of(i: Importance) -> (r: i8)
    ensures
        r == importance_rank(i),
{
    match i {
        Importance::Critical => 0,
        Importance::High => 1,
        Importance::Medium => 2,
        Importance::Low => 3,
    }
}

fn due_compare(a: &Option<String>, b: &Option<String>) -> (r: i8)
    ensures
        r == due_cmp(opt_text(*a), opt_text(*b)),
{
    match (a, b) {
        (Some(x), Some(y)) => text_compare(x.as_str(), y.as_str()),
        (Some(_), None) => -1,
        (None, Some(_)) => 1,
        (None, None) => 0,
    }
}

/// Three-way comparison of two todos in a sort order.
pub fn order_compare(mode: SortMode, a: &Todo, b: &Todo) -> (r: i8)
    ensures
        r == order_cmp(mode, *a, *b),
{
    let newest = text_compare(b.created_at.as_str(), a.created_at.as_str());
    let ra = rank_of(a.importance);
    let rb = rank_of(b.importance);
    let importance: i8 = if ra == rb {
        0
    } else if ra < rb {
        -1
    } else {
        1
    };
    match mode {
        SortMode::Newest => newest,
        SortMode::Importance => if importance != 0 {
            importance
        } else {
            newest
        },
        SortMode::DueDate => {
            let due = due_compare(&a.due_date, &b.due_date);
            if due != 0 {
                due
            } else {
                newest
            }
        },
        SortMode::ImportanceDate => {
            if importance != 0 {
                importance
            } else {
                let due = due_compare(&a.due_date, &b.due_date);
                if due != 0 {
                    due
                } else {
                    newest
                }
            }
        },
    }
}

/// Whether a todo was completed before the cutoff.
pub fn archived(t: &Todo, cutoff: &str) -> (r: bool)
    ensures
        r == is_archived(*t, cutoff@),
{
    t.completed && match &t.completed_at {
        Some(c) => text_less(c.as_str(), cutoff),
        None => false,
    }
}

/// Whether a list with these filters contains a todo.
pub fn listed(
    t: &Todo,
    section: Option<Section>,
    daily: Option<&str>,
    show: ShowMode,
    cutoff: &str,
) -> (r: bool)
    ensures
        r == is_listed(
            *t,
            section,
            match daily {
                Some(d) => Some(d@),
                None => None,
            },
            show,
            cutoff@,
        ),
{
    let section_ok = match section {
        Some(s) => t.section == s,
        None => true,
    };
    let daily_ok = match daily {
        Some(d) => match &t.daily_date {
            Some(dd) => str_eq(dd.as_str(), d),
            None => false,
        },
        None => true,
    };
    let shown = match show {
        ShowMode::Active => !archived(t, cutoff),
        ShowMode::Archived => archived(t, cutoff),
        ShowMode::All => true,
    };
    section_ok && daily_ok && shown
}

/// Inserts `t` after every todo that may stand before it.
fn insert_sorted(out: &mut Vec<Todo>, t: Todo, mode: SortMode)
    requires
        is_sorted(mode, old(out)@),
    ensures
        is_sorted(mode, final(out)@),
        final(out)@.to_multiset() == old(out)@.to_multiset().insert(t),
{
    let n = out.len();
    let mut p: usize = 0;
    while p < n && order_compare(mode, &out[p], &t) <= 0
        invariant
            n == out@.len(),
            p <= n,
            out@ == old(out)@,
            is_sorted(mode, out@),
            forall|j: int| 0 <= j < p ==> order_le(mode, #[trigger] out@[j], t),
        decreases n - p,
    {
        p = p + 1;
    }
    proof {
        assert forall|j: int| p <= j < n implies order_le(mode, t, #[trigger] out@[j]) by {
            lemma_order_is_total_preorder(mode, out@[p as int], t, out@[j]);
            lemma_order_is_total_preorder(mode, t, out@[j], out@[p as int]);
            if j > p {
                assert(order_le(mode, out@[p as int], out@[j]));
                lemma_order_is_total_preorder(mode, out@[p as int], out@[j], t);
            }
        }
        to_multiset_insert(out@, p as int, t);
    }
    let ghost before = out@;
    out.insert(p, t);
    proof {
        assert forall|i: int, j: int| 0 <= i < j < out@.len() implies order_le(
            mode,
            #[trigger] out@[i],
            #[trigger] out@[j],
        ) by {
            if i < p && j < p {
                assert(out@[i] == before[i] && out@[j] == before[j]);
            } else if i < p && j == p {
            } else if i < p && j > p {
                assert(out@[i] == before[i] && out@[j] == before[j - 1]);
            } else if i == p {
                assert(out@[j] == before[j - 1]);
            } else {
                assert(out@[i] == before[i - 1] && out@[j] == before[j - 1]);
            }
        }
    }
}

/// The todos that a list with these filters shows, in the given order.
pub fn select_sorted(
    todos: Vec<Todo>,
    section: Option<Section>,
    daily: Option<&str>,
    show: ShowMode,
    cutoff: &str,
    mode: SortMode,
) -> (r: Vec<Todo>)
    ensures
        is_sorted(mode, r@),
        r@.to_multiset() == todos@.filter(listed_by(section, opt_str(daily), show, cutoff@)).to_multiset(),
{
    broadcast use vstd::seq_lib::group_to_multiset_ensures;

    let ghost pred = listed_by(section, opt_str(daily), show, cutoff@);
    let ghost orig = todos@;
    let n = todos.len();
    let mut rest = todos;
    let mut out: Vec<Todo> = Vec::new();
    let mut k: usize = 0;
    proof {
        reveal_with_fuel(Seq::filter, 1);
        assert(orig.subrange(0, 0).filter(pred) =~= Seq::<Todo>::empty());
    }
    while k < n
        invariant
            n == orig.len(),
            k <= n,
            rest@ == orig.subrange(k as int, n as int),
            is_sorted(mode, out@),
            out@.to_multiset() == orig.subrange(0, k as int).filter(pred).to_multiset(),
            pred == listed_by(section, opt_str(daily), show, cutoff@),
        decreases n - k,
    {
        let t = rest.remove(0);
        assert(t == orig[k as int]);
        let ghost prefix = orig.subrange(0, k as int);
        let ghost next = orig.subrange(0, k + 1);
        assert(next.drop_last() =~= prefix);
        assert(next.last() == t);
        proof {
            reveal_with_fuel(Seq::filter, 1);
        }
        assert(rest@ =~= orig.subrange(k + 1, n as int));
        if listed(&t, section, daily, show, cutoff) {
            assert(next.filter(pred) =~= prefix.filter(pred).push(t));
            proof {
                to_multiset_build(prefix.filter(pred), t);
            }
            insert_sorted(&mut out, t, mode);
        } else {
            assert(next.filter(pred) =~= prefix.filter(pred));
        }
        k = k + 1;
    }
    assert(orig.subrange(0, n as int) =~= orig);
    out
}

} // verus!

verus! {

/// Query parameters of the todo list.
#[derive(Debug, Clone)]
pub struct TodosQuery {
    pub section: Option<String>,
    pub sort: Option<String>,
    pub show: Option<String>,
}

/// Why a list request is refused.
#[derive(Debug, Clone, Copy, PartialEq, Eq, Structural)]
pub enum ListError {
    /// The section filter names no section.
    InvalidSection,
}

/// The text of an optional string.
pub open spec fn opt_string(o: Option<String>) -> Option<Seq<char>> {
    match o {
        Some(s) => Some(s@),
        None => None,
    }
}

fn as_opt_str(o: &Option<String>) -> (r: Option<&str>)
    ensures
        opt_str(r) == opt_string(*o),
{
    match o {
        Some(s) => Some(s.as_str()),
        None => None,
    }
}

/// The todo list for a query: refused when the section filter names no
/// section; otherwise the todos of that section (or all), without archived
/// ones unless asked, in the requested order. `cutoff` is the time a day
/// before now, in the stored timestamp format.
pub fn list_todos(todos: Vec<Todo>, query: &TodosQuery, cutoff: &str) -> (r: Result<
    Vec<Todo>,
    ListError,
>)
    ensures
        ({
            let sec = match opt_string(query.section) {
                Some(s) => crate::model::section_from_name(s),
                None => None,
            };
            let mode = sort_mode_of(opt_string(query.sort));
            let show = show_mode_of(opt_string(query.show));
            &&& r is Err <==> (query.section is Some && sec is None)
            &&& r matches Ok(list) ==> {
                &&& is_sorted(mode, list@)
                &&& list@.to_multiset() == todos@.filter(
                    listed_by(sec, None, show, cutoff@),
                ).to_multiset()
            }
        }),
{
    let mode = SortMode::from_query(as_opt_str(&query.sort));
    let show = ShowMode::from_query(as_opt_str(&query.show));
    match &query.section {
        Some(s) => match Section::parse(s.as_str()) {
            Some(sec) => Ok(select_sorted(todos, Some(sec), None, show, cutoff, mode)),
            None => Err(ListError::InvalidSection),
        },
        None => Ok(select_sorted(todos, None, None, show, cutoff, mode)),
    }
}

/// The todos on the board for `date`, without archived ones, most important
/// first, then earliest due (undated last), then newest.
pub fn list_for_date(todos: Vec<Todo>, date: &str, cutoff: &str) -> (r: Vec<Todo>)
    ensures
        is_sorted(SortMode::ImportanceDate, r@),
        r@.to_multiset() == todos@.filter(
            listed_by(None, Some(date@), ShowMode::Active, cutoff@),
        ).to_multiset(),
{
    select_sorted(todos, None, Some(date), ShowMode::Active, cutoff, SortMode::ImportanceDate)
}

/// Counts todos satisfying `p`.
pub open spec fn count_of(s: Seq<Todo>, p: spec_fn(Todo) -> bool) -> nat {
    s.filter(p).len()
}

/// The completed todos among those a filter lets through.
pub open spec fn completed_by(
    section: Option<Section>,
    show: ShowMode,
    cutoff: Seq<char>,
) -> spec_fn(Todo) -> bool {
    |t: Todo| is_listed(t, section, None, show, cutoff) && t.completed
}

/// Per section, in display order: how many todos are not archived, and how
/// many of those are completed.
pub fn section_counts(todos: &Vec<Todo>, cutoff: &str) -> (r: Vec<SectionCount>)
    ensures
        r@.len() == 4,
        forall|i: int|
            0 <= i < 4 ==> {
                let sec = #[trigger] r@[i].section;
                &&& sec == seq![Section::Sp, Section::I, Section::Si, Section::P][i]
                &&& r@[i].total == count_of(
                    todos@,
                    listed_by(Some(sec), None, ShowMode::Active, cutoff@),
                )
                &&& r@[i].completed == count_of(
                    todos@,
                    completed_by(Some(sec), ShowMode::Active, cutoff@),
                )
            },
{
    let sections = Section::all();
    let mut counts: Vec<SectionCount> = Vec::new();
    let mut s: usize = 0;
    while s < sections.len()
        invariant
            sections@ == seq![Section::Sp, Section::I, Section::Si, Section::P],
            s <= 4,
            counts@.len() == s,
            forall|i: int|
                0 <= i < s ==> {
                    let sec = #[trigger] counts@[i].section;
                    &&& sec == sections@[i]
                    &&& counts@[i].total == count_of(
                        todos@,
                        listed_by(Some(sec), None, ShowMode::Active, cutoff@),
                    )
                    &&& counts@[i].completed == count_of(
                        todos@,
                        completed_by(Some(sec), ShowMode::Active, cutoff@),
                    )
                },
        decreases sections.len() - s,
    {
        let section = sections[s];
        let ghost p = listed_by(Some(section), None, ShowMode::Active, cutoff@);
        let ghost q = completed_by(Some(section), ShowMode::Active, cutoff@);
        let n = todos.len();
        let mut total: usize = 0;
        let mut completed: usize = 0;
        let mut k: usize = 0;
        proof {
            reveal_with_fuel(Seq::filter, 1);
            assert(todos@.subrange(0, 0).filter(p) =~= Seq::<Todo>::empty());
            assert(todos@.subrange(0, 0).filter(q) =~= Seq::<Todo>::empty());
        }
        while k < n
            invariant
                n == todos@.len(),
                k <= n,
                p == listed_by(Some(section), None, ShowMode::Active, cutoff@),
                q == completed_by(Some(section), ShowMode::Active, cutoff@),
                total == todos@.subrange(0, k as int).filter(p).len(),
                completed == todos@.subrange(0, k as int).filter(q).len(),
                total <= k,
                completed <= k,
            decreases n - k,
        {
            let ghost prefix = todos@.subrange(0, k as int);
            let ghost next = todos@.subrange(0, k + 1);
            assert(next.drop_last() =~= prefix);
            assert(next.last() == todos@[k as int]);
            proof {
                reveal_with_fuel(Seq::filter, 1);
                lemma_filter_len_le(prefix, p);
                lemma_filter_len_le(prefix, q);
            }
            if listed(&todos[k], Some(section), None, ShowMode::Active, cutoff) {
                total = total + 1;
                if todos[k].completed {
                    completed = completed + 1;
                }
            }
            k = k + 1;
        }
        assert(todos@.subrange(0, n as int) =~= todos@);
        counts.push(SectionCount { section, total, completed });
        s = s + 1;
    }
    counts
}

proof fn lemma_filter_len_le(s: Seq<Todo>, p: spec_fn(Todo) -> bool)
    ensures
        s.filter(p).len() <= s.len(),
    decreases s.len(),
{
    reveal_with_fuel(Seq::filter, 1);
    if s.len() > 0 {
        lemma_filter_len_le(s.drop_last(), p);
    }
}

} // verus!

verus! {

/// The todos on the board for `date` (already trimmed); refused when that
/// is not a calendar date.
pub fn list_daily_for(todos: Vec<Todo>, date: &str, cutoff: &str) -> (r: Result<Vec<Todo>, DailyError>)
    ensures
        !is_valid_date(date@) ==> r == Err::<Vec<Todo>, DailyError>(DailyError::InvalidDate),
        is_valid_date(date@) ==> (r matches Ok(list) && is_sorted(
            SortMode::ImportanceDate,
            list@,
        ) && list@.to_multiset() == todos@.filter(
            listed_by(None, Some(date@), ShowMode::Active, cutoff@),
        ).to_multiset()),
{
    if !valid_date(date) {
        return Err(DailyError::InvalidDate);
    }
    Ok(list_for_date(todos, date, cutoff))
}

/// The todos on the board named by `date` after trimming it; refused when
/// that is not a calendar date.
pub fn list_daily(todos: Vec<Todo>, date: &str, cutoff: &str) -> (r: Result<Vec<Todo>, DailyError>)
    ensures
        !is_valid_date(trimmed(date@)) ==> r == Err::<Vec<Todo>, DailyError>(DailyError::InvalidDate),
        is_valid_date(trimmed(date@)) ==> (r matches Ok(list) && is_sorted(
            SortMode::ImportanceDate,
            list@,
        ) && list@.to_multiset() == todos@.filter(
            listed_by(None, Some(trimmed(date@)), ShowMode::Active, cutoff@),
        ).to_multiset()),
{
    list_daily_for(todos, trim(date), cutoff)
}

impl ListError {
    /// The message the API answers with.
    pub fn message(&self) -> (r: &'static str)
        ensures
            r@ == "Invalid section"@,
    {
        "Invalid section"
    }
}

} // verus!

verus! {

/// Every todo is in exactly one of the active and archived lists, and in the
/// list of all todos.
pub proof fn lemma_archive_partition(t: Todo, cutoff: Seq<char>)
    ensures
        is_shown(ShowMode::Active, t, cutoff) != is_shown(ShowMode::Archived, t, cutoff),
        is_shown(ShowMode::All, t, cutoff),
{
}

/// A section never counts more completed todos than todos.
pub proof fn lemma_completed_within_total(todos: Seq<Todo>, section: Section, cutoff: Seq<char>)
    ensures
        count_of(todos, completed_by(Some(section), ShowMode::Active, cutoff)) <= count_of(
            todos,
            listed_by(Some(section), None, ShowMode::Active, cutoff),
        ),
    decreases todos.len(),
{
    reveal_with_fuel(Seq::filter, 1);
    if todos.len() > 0 {
        lemma_completed_within_total(todos.drop_last(), section, cutoff);
    }
}

/// A section's count is the length of that section's default list.
pub proof fn lemma_count_is_list_length(
    todos: Seq<Todo>,
    list: Seq<Todo>,
    section: Section,
    cutoff: Seq<char>,
)
    requires
        list.to_multiset() == todos.filter(
            listed_by(Some(section), None, ShowMode::Active, cutoff),
        ).to_multiset(),
    ensures
        list.len() == count_of(todos, listed_by(Some(section), None, ShowMode::Active, cutoff)),
{
    let f = todos.filter(listed_by(Some(section), None, ShowMode::Active, cutoff));
    vstd::seq_lib::to_multiset_len(list);
    vstd::seq_lib::to_multiset_len(f);
}

} // verus!

verus! {

/// `x` is a more important level than `y`: critical over high over medium
/// over low.
pub open spec fn outranks(x: Importance, y: Importance) -> bool {
    ||| (x == Importance::Critical && y != Importance::Critical)
    ||| (x == Importance::High && (y == Importance::Medium || y == Importance::Low))
    ||| (x == Importance::Medium && y == Importance::Low)
}

/// In the importance orders a more important todo comes strictly first,
/// whatever the dates.
pub proof fn lemma_more_important_first(mode: SortMode, a: Todo, b: Todo)
    requires
        mode == SortMode::Importance || mode == SortMode::ImportanceDate,
        outranks(a.importance, b.importance),
    ensures
        order_cmp(mode, a, b) < 0,
{
}

/// In a list sorted by an importance order, no todo stands after a less
/// important one.
pub proof fn lemma_importance_list_order(mode: SortMode, s: Seq<Todo>, i: int, j: int)
    requires
        mode == SortMode::Importance || mode == SortMode::ImportanceDate,
        is_sorted(mode, s),
        0 <= i < j < s.len(),
    ensures
        !outranks(s[j].importance, s[i].importance),
{
    if outranks(s[j].importance, s[i].importance) {
        lemma_more_important_first(mode, s[j], s[i]);
        lemma_order_is_total_preorder(mode, s[i], s[j], s[i]);
        assert(order_le(mode, s[i], s[j]));
    }
}

/// Newest first: `a` comes strictly before `b` exactly when it was created
/// later, and they tie exactly when created at the same time.
pub proof fn lemma_newest_order(a: Todo, b: Todo)
    ensures
        order_cmp(SortMode::Newest, a, b) < 0 <==> text_lt(b.created_at@, a.created_at@),
        order_cmp(SortMode::Newest, a, b) == 0 <==> a.created_at@ == b.created_at@,
{
    lemma_text_lt_asymmetric(b.created_at@, a.created_at@);
    lemma_text_lt_total(b.created_at@, a.created_at@);
}

/// In the importance order, todos of one importance come newest first,
/// whatever their due dates.
pub proof fn lemma_importance_ties_newest_first(a: Todo, b: Todo)
    requires
        a.importance == b.importance,
    ensures
        order_cmp(SortMode::Importance, a, b) < 0 <==> text_lt(b.created_at@, a.created_at@),
        order_cmp(SortMode::Importance, a, b) == 0 <==> a.created_at@ == b.created_at@,
{
    lemma_text_lt_asymmetric(b.created_at@, a.created_at@);
    lemma_text_lt_total(b.created_at@, a.created_at@);
}

/// In a list sorted by importance, of two todos with the same importance
/// the older never stands first.
pub proof fn lemma_importance_list_ties(s: Seq<Todo>, i: int, j: int)
    requires
        is_sorted(SortMode::Importance, s),
        0 <= i < j < s.len(),
        s[i].importance == s[j].importance,
    ensures
        !text_lt(s[i].created_at@, s[j].created_at@),
{
    lemma_importance_ties_newest_first(s[j], s[i]);
    lemma_order_is_total_preorder(SortMode::Importance, s[i], s[j], s[i]);
    assert(order_le(SortMode::Importance, s[i], s[j]));
}

/// The due-date rules, in the due-date order and, between todos of one
/// importance, in the importance-and-date order: a dated todo comes before
/// an undated one, an earlier due date first, and equal due dates (or none)
/// newest first.
pub proof fn lemma_due_order(mode: SortMode, a: Todo, b: Todo)
    requires
        mode == SortMode::DueDate || (mode == SortMode::ImportanceDate && a.importance
            == b.importance),
    ensures
        (a.due_date is Some && b.due_date is None) ==> order_cmp(mode, a, b) < 0,
        (a.due_date is Some && b.due_date is Some && text_lt(
            a.due_date->Some_0@,
            b.due_date->Some_0@,
        )) ==> order_cmp(mode, a, b) < 0,
        opt_text(a.due_date) == opt_text(b.due_date) ==> (order_cmp(mode, a, b) < 0 <==> text_lt(
            b.created_at@,
            a.created_at@,
        )),
{
    lemma_text_lt_asymmetric(b.created_at@, a.created_at@);
    lemma_text_lt_total(b.created_at@, a.created_at@);
    if a.due_date is Some && b.due_date is Some {
        lemma_text_lt_asymmetric(a.due_date->Some_0@, b.due_date->Some_0@);
    }
}

} // verus!

verus! {

/// Which todos a list holds, in terms of the todo's own fields: the
/// section filter keeps only that section; the daily filter only todos on
/// that board; the active list drops exactly the todos completed before the
/// cutoff (a day ago), the archived list keeps exactly those, and the full
/// list keeps everything.
pub proof fn lemma_list_membership(
    t: Todo,
    section: Option<Section>,
    daily: Option<Seq<char>>,
    show: ShowMode,
    cutoff: Seq<char>,
)
    ensures
        is_listed(t, section, daily, show, cutoff) <==> ({
            let done_long_ago = t.completed && (t.completed_at matches Some(c) && text_lt(
                c@,
                cutoff,
            ));
            &&& (section matches Some(s) ==> t.section == s)
            &&& (daily matches Some(d) ==> (t.daily_date matches Some(x) && x@ == d))
            &&& (show == ShowMode::Active ==> !done_long_ago)
            &&& (show == ShowMode::Archived ==> done_long_ago)
        }),
{
}

} // verus!

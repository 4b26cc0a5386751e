//! Dated daily boards: which boards exist, which todos sit on which board,
//! and how unfinished todos are carried forward when a board is created.

use vstd::prelude::*;

use crate::date::{add_one_day, date_fields, is_valid_date, lemma_next_day_is_valid, next_day_text, valid_date};
use crate::text::digits_of;
use crate::model::DailyStatus;
use crate::text::{
    lemma_text_lt_asymmetric, lemma_text_lt_total, lemma_text_lt_transitive, str_eq, text_less,
    text_lt, trim, trimmed,
};

verus! {

/// The text of an optional string.
pub open spec fn opt_text(o: Option<String>) -> Option<Seq<char>> {
    match o {
        Some(s) => Some(s@),
        None => None,
    }
}

/// What the daily rules read and change of a todo.
#[derive(Debug)]
pub struct DailyItem {
    pub id: String,
    pub completed: bool,
    pub daily_date: Option<String>,
    pub carried_from: Option<String>,
}

/// The abstract value of a [`DailyItem`].
pub struct ItemView {
    pub id: Seq<char>,
    pub completed: bool,
    pub daily_date: Option<Seq<char>>,
    pub carried_from: Option<Seq<char>>,
}

impl View for DailyItem {
    type V = ItemView;

    open spec fn view(&self) -> ItemView {
        ItemView {
            id: self.id@,
            completed: self.completed,
            daily_date: opt_text(self.daily_date),
            carried_from: opt_text(self.carried_from),
        }
    }
}

/// The boards that exist and the daily placement of every todo.
#[derive(Debug)]
pub struct DailyBoard {
    pub days: Vec<String>,
    pub items: Vec<DailyItem>,
}

/// The abstract value of a [`DailyBoard`]: the set of board dates and the
/// todos in storage order.
pub struct BoardView {
    pub days: Set<Seq<char>>,
    pub items: Seq<ItemView>,
}

/// The set of texts held by `days`.
pub open spec fn day_set(days: Seq<String>) -> Set<Seq<char>> {
    Set::new(|d: Seq<char>| exists|i: int| 0 <= i < days.len() && #[trigger] days[i]@ == d)
}

/// The abstract values of `items`.
pub open spec fn item_views(items: Seq<DailyItem>) -> Seq<ItemView> {
    items.map_values(|it: DailyItem| it@)
}

impl View for DailyBoard {
    type V = BoardView;

    open spec fn view(&self) -> BoardView {
        BoardView { days: day_set(self.days@), items: item_views(self.items@) }
    }
}

/// Why a daily request is refused.
#[derive(Debug, Clone, Copy, PartialEq, Eq, Structural)]
pub enum DailyError {
    /// The client's `local_today` is not a calendar date.
    InvalidLocalToday,
    /// The create request asked for something other than `today` or `tomorrow`.
    InvalidForDay,
    /// Tomorrow's board was asked for before today's exists.
    TodayMissing,
    /// No todo has the given id.
    TodoNotFound,
    /// The date to put a todo on is not a calendar date.
    InvalidDate,
    /// The board to put a todo on does not exist.
    BoardMissing,
}

/// A todo that a create for `from` moves forward: still open and on that board.
pub open spec fn is_carried(it: ItemView, from: Seq<char>) -> bool {
    it.daily_date == Some(from) && !it.completed
}

/// A todo after carrying the open todos of board `from` to board `to`.
pub open spec fn carry_item(it: ItemView, from: Seq<char>, to: Seq<char>) -> ItemView {
    if is_carried(it, from) {
        ItemView {
            id: it.id,
            completed: it.completed,
            daily_date: Some(to),
            carried_from: Some(from),
        }
    } else {
        it
    }
}

/// All todos after carrying the open todos of board `from` to board `to`.
pub open spec fn carry_items(items: Seq<ItemView>, from: Seq<char>, to: Seq<char>) -> Seq<ItemView> {
    items.map_values(|it: ItemView| carry_item(it, from, to))
}

/// The ids of the todos that carrying from board `from` moves, in storage order.
pub open spec fn carried_ids(items: Seq<ItemView>, from: Seq<char>) -> Seq<Seq<char>> {
    items.filter(|it: ItemView| is_carried(it, from)).map_values(|it: ItemView| it.id)
}

/// `p` is the latest board strictly before `before`.
pub open spec fn is_latest_before(days: Set<Seq<char>>, before: Seq<char>, p: Seq<char>) -> bool {
    &&& days.contains(p)
    &&& text_lt(p, before)
    &&& forall|d: Seq<char>| #[trigger]
        days.contains(d) && text_lt(d, before) ==> d == p || text_lt(d, p)
}

/// The latest board strictly before `before` in text order, if any.
pub open spec fn latest_before(days: Set<Seq<char>>, before: Seq<char>) -> Option<Seq<char>> {
    if exists|p: Seq<char>| is_latest_before(days, before, p) {
        Some(choose|p: Seq<char>| is_latest_before(days, before, p))
    } else {
        None
    }
}

/// There is at most one latest board before a date.
pub proof fn lemma_latest_unique(days: Set<Seq<char>>, before: Seq<char>, p: Seq<char>, q: Seq<char>)
    requires
        is_latest_before(days, before, p),
        is_latest_before(days, before, q),
    ensures
        p == q,
{
    assert(days.contains(q) && text_lt(q, before));
    assert(days.contains(p) && text_lt(p, before));
    lemma_text_lt_asymmetric(p, q);
}

impl DailyItem {
    /// A copy with the same id, completion and placement.
    pub fn duplicate(&self) -> (r: DailyItem)
        ensures
            r@ == self@,
    {
        DailyItem {
            id: self.id.clone(),
            completed: self.completed,
            daily_date: match &self.daily_date {
                Some(d) => Some(d.clone()),
                None => None,
            },
            carried_from: match &self.carried_from {
                Some(d) => Some(d.clone()),
                None => None,
            },
        }
    }
}

impl DailyBoard {
    /// Whether a board exists for `date`.
    pub fn day_exists(&self, date: &str) -> (r: bool)
        ensures
            r == self@.days.contains(date@),
    {
        let n = self.days.len();
        let mut i: usize = 0;
        while i < n
            invariant
                n == self.days@.len(),
                i <= n,
                forall|j: int| 0 <= j < i ==> self.days@[j]@ != date@,
            decreases n - i,
        {
            if str_eq(self.days[i].as_str(), date) {
                assert(self.days@[i as int]@ == date@);
                return true;
            }
            i = i + 1;
        }
        false
    }

    /// Records that a board exists for `date` (nothing changes when it already does).
    pub fn insert_day(&mut self, date: &str)
        ensures
            final(self)@.days == old(self)@.days.insert(date@),
            final(self)@.items == old(self)@.items,
            final(self).items@ == old(self).items@,
    {
        if !self.day_exists(date) {
            let ghost before = self.days@;
            self.days.push(date.to_owned());
            assert(day_set(self.days@) =~= day_set(before).insert(date@)) by {
                assert forall|d: Seq<char>| day_set(before).insert(date@).contains(d) implies day_set(
                    self.days@,
                ).contains(d) by {
                    if d == date@ {
                        assert(self.days@[before.len() as int]@ == d);
                    } else {
                        let i = choose|i: int| 0 <= i < before.len() && #[trigger] before[i]@ == d;
                        assert(self.days@[i]@ == d);
                    }
                }
                assert forall|d: Seq<char>| day_set(self.days@).contains(d) implies day_set(
                    before,
                ).insert(date@).contains(d) by {
                    let i = choose|i: int| 0 <= i < self.days@.len() && #[trigger] self.days@[i]@ == d;
                    if i < before.len() {
                        assert(before[i]@ == d);
                    }
                }
            }
        } else {
            assert(old(self)@.days.insert(date@) =~= old(self)@.days);
        }
    }

    /// The latest existing board strictly before `before`, in text order
    /// (the order of `YYYY-MM-DD` dates).
    pub fn previous_date(&self, before: &str) -> (r: Option<String>)
        ensures
            opt_text(r) == latest_before(self@.days, before@),
    {
        let n = self.days.len();
        let mut best: Option<usize> = None;
        let mut i: usize = 0;
        while i < n
            invariant
                n == self.days@.len(),
                i <= n,
                best is None ==> forall|j: int|
                    0 <= j < i ==> !text_lt(#[trigger] self.days@[j]@, before@),
                best matches Some(b) ==> {
                    &&& b < i
                    &&& text_lt(self.days@[b as int]@, before@)
                    &&& forall|j: int|
                        0 <= j < i && text_lt(#[trigger] self.days@[j]@, before@) ==> self.days@[j]@
                            == self.days@[b as int]@ || text_lt(
                            self.days@[j]@,
                            self.days@[b as int]@,
                        )
                },
            decreases n - i,
        {
            if text_less(self.days[i].as_str(), before) {
                match best {
                    None => {
                        best = Some(i);
                    },
                    Some(b) => {
                        proof {
                            lemma_text_lt_total(self.days@[i as int]@, self.days@[b as int]@);
                        }
                        if text_less(self.days[b].as_str(), self.days[i].as_str()) {
                            proof {
                                assert forall|j: int|
                                    0 <= j < i + 1 && text_lt(
                                        #[trigger] self.days@[j]@,
                                        before@,
                                    ) implies self.days@[j]@ == self.days@[i as int]@ || text_lt(
                                    self.days@[j]@,
                                    self.days@[i as int]@,
                                ) by {
                                    if j < i && self.days@[j]@ != self.days@[b as int]@ {
                                        lemma_text_lt_transitive(
                                            self.days@[j]@,
                                            self.days@[b as int]@,
                                            self.days@[i as int]@,
                                        );
                                    }
                                }
                            }
                            best = Some(i);
                        }
                    },
                }
            }
            i = i + 1;
        }
        let ghost days = self@.days;
        match best {
            None => {
                proof {
                    assert forall|p: Seq<char>| !is_latest_before(days, before@, p) by {
                        if days.contains(p) {
                            let j = choose|j: int| 0 <= j < n && #[trigger] self.days@[j]@ == p;
                            assert(!text_lt(self.days@[j]@, before@));
                        }
                    }
                }
                None
            },
            Some(b) => {
                let r = self.days[b].clone();
                proof {
                    let p = self.days@[b as int]@;
                    assert(days.contains(p));
                    assert forall|d: Seq<char>| #[trigger]
                        days.contains(d) && text_lt(d, before@) implies d == p || text_lt(d, p) by {
                        let j = choose|j: int| 0 <= j < n && #[trigger] self.days@[j]@ == d;
                        assert(text_lt(self.days@[j]@, before@));
                    }
                    assert(is_latest_before(days, before@, p));
                    let q = choose|q: Seq<char>| is_latest_before(days, before@, q);
                    lemma_latest_unique(days, before@, p, q);
                }
                Some(r)
            },
        }
    }

    /// Moves every open todo on board `from` to board `to`, noting `from` as
    /// where it was carried from. Returns the ids of the moved todos.
    pub fn carry_incomplete(&mut self, from: &str, to: &str) -> (moved: Vec<String>)
        ensures
            final(self)@.days == old(self)@.days,
            final(self)@.items == carry_items(old(self)@.items, from@, to@),
            moved@.map_values(|s: String| s@) == carried_ids(old(self)@.items, from@),
    {
        let ghost old_items = self@.items;
        let n = self.items.len();
        let mut moved: Vec<String> = Vec::new();
        let mut i: usize = 0;
        while i < n
            invariant
                n == self.items@.len(),
                n == old_items.len(),
                i <= n,
                self@.days == old(self)@.days,
                old_items == old(self)@.items,
                forall|j: int|
                    0 <= j < i ==> #[trigger] item_views(self.items@)[j] == carry_item(
                        old_items[j],
                        from@,
                        to@,
                    ),
                forall|j: int| i <= j < n ==> #[trigger] item_views(self.items@)[j] == old_items[j],
                moved@.map_values(|s: String| s@) == carried_ids(old_items.subrange(0, i as int), from@),
            decreases n - i,
        {
            let hit = match &self.items[i].daily_date {
                Some(d) => str_eq(d.as_str(), from) && !self.items[i].completed,
                None => false,
            };
            let ghost prefix = old_items.subrange(0, i as int);
            let ghost next = old_items.subrange(0, i + 1);
            assert(next.drop_last() =~= prefix);
            assert(next.last() == old_items[i as int]);
            assert(item_views(self.items@)[i as int] == self.items@[i as int]@);
            assert(hit == is_carried(old_items[i as int], from@));
            proof {
                reveal_with_fuel(Seq::filter, 1);
            }
            if hit {
                let ghost before = self.items@;
                let ghost old_moved = moved@;
                let id = self.items[i].id.clone();
                assert(id@ == old_items[i as int].id);
                moved.push(id);
                self.items[i].daily_date = Some(to.to_owned());
                self.items[i].carried_from = Some(from.to_owned());
                proof {
                    assert forall|j: int| 0 <= j < n && j != i implies #[trigger] self.items@[j] == before[j] by {}
                    assert(self.items@[i as int]@ == carry_item(old_items[i as int], from@, to@));
                    assert(item_views(self.items@)[i as int] == self.items@[i as int]@);
                    assert forall|j: int| 0 <= j < n && j != i implies #[trigger] item_views(self.items@)[j] == item_views(before)[j] by {
                        assert(item_views(self.items@)[j] == self.items@[j]@);
                        assert(item_views(before)[j] == before[j]@);
                    }
                    assert(next.filter(|it: ItemView| is_carried(it, from@)) =~= prefix.filter(
                        |it: ItemView| is_carried(it, from@),
                    ).push(old_items[i as int]));
                    assert(moved@ =~= old_moved.push(id));
                    assert(moved@.map_values(|s: String| s@) =~= old_moved.map_values(|s: String| s@).push(id@));
                    assert(moved@.map_values(|s: String| s@) =~= carried_ids(next, from@));
                }
            } else {
                proof {
                    assert(next.filter(|it: ItemView| is_carried(it, from@)) =~= prefix.filter(
                        |it: ItemView| is_carried(it, from@),
                    ));
                }
            }
            i = i + 1;
        }
        assert(old_items.subrange(0, n as int) =~= old_items);
        assert(item_views(self.items@) =~= carry_items(old_items, from@, to@));
        moved
    }
}

} // verus!

verus! {

/// The word that asks for today's board.
pub open spec fn today_word() -> Seq<char> {
    seq!['t', 'o', 'd', 'a', 'y']
}

/// The word that asks for tomorrow's board.
pub open spec fn tomorrow_word() -> Seq<char> {
    seq!['t', 'o', 'm', 'o', 'r', 'r', 'o', 'w']
}

/// Which board the create button makes: tomorrow's once today's exists.
pub open spec fn button_word(has_today: bool) -> Seq<char> {
    if has_today {
        tomorrow_word()
    } else {
        today_word()
    }
}

/// The result of a create request: the board's date, whether it was made
/// now, and the board its open todos were carried from.
pub type CreateView = (Seq<char>, bool, Option<Seq<char>>);

/// The create rules. With `today` a valid date and `for_day` one of the two
/// words: asking for today's board when it exists, or for tomorrow's when
/// that exists, changes nothing; tomorrow's board needs today's; making
/// today's board carries the open todos of the latest earlier board, and
/// making tomorrow's board carries today's open todos.
pub open spec fn create_effect(b: BoardView, today: Seq<char>, for_day: Seq<char>) -> (
    BoardView,
    Result<CreateView, DailyError>,
) {
    if !is_valid_date(today) {
        (b, Err(DailyError::InvalidLocalToday))
    } else if for_day != today_word() && for_day != tomorrow_word() {
        (b, Err(DailyError::InvalidForDay))
    } else {
        let tomorrow = next_day_text(today);
        let has_today = b.days.contains(today);
        if for_day == today_word() {
            if has_today {
                (b, Ok((today, false, None)))
            } else {
                let days = b.days.insert(today);
                match latest_before(days, today) {
                    Some(p) => (
                        BoardView { days, items: carry_items(b.items, p, today) },
                        Ok((today, true, Some(p))),
                    ),
                    None => (BoardView { days, items: b.items }, Ok((today, true, None))),
                }
            }
        } else if !has_today {
            (b, Err(DailyError::TodayMissing))
        } else if b.days.contains(tomorrow) {
            (b, Ok((tomorrow, false, None)))
        } else {
            (
                BoardView {
                    days: b.days.insert(tomorrow),
                    items: carry_items(b.items, today, tomorrow),
                },
                Ok((tomorrow, true, Some(today))),
            )
        }
    }
}

/// What a successful create did.
#[derive(Debug)]
pub struct CreateOutcome {
    /// The board the request was about.
    pub date: String,
    /// Whether the board was made by this request.
    pub created: bool,
    /// The board whose open todos were moved to `date`.
    pub carried_from: Option<String>,
    /// The ids of the moved todos.
    pub moved: Vec<String>,
}

/// The abstract value of a create result.
pub open spec fn create_view(r: Result<CreateOutcome, DailyError>) -> Result<CreateView, DailyError> {
    match r {
        Ok(o) => Ok((o.date@, o.created, opt_text(o.carried_from))),
        Err(e) => Err(e),
    }
}

/// The ids a create moved: those carried from the source board, if any.
pub open spec fn create_moved(b: BoardView, r: Result<CreateView, DailyError>) -> Seq<Seq<char>> {
    match r {
        Ok((_, _, Some(from))) => carried_ids(b.items, from),
        _ => Seq::empty(),
    }
}

/// The status rules: whether today's and tomorrow's boards exist, which
/// board the create button makes, and the latest earlier board.
pub open spec fn status_matches(b: BoardView, today: Seq<char>, st: DailyStatus) -> bool {
    &&& st.local_today@ == today
    &&& st.has_today == b.days.contains(today)
    &&& st.has_tomorrow == b.days.contains(next_day_text(today))
    &&& st.button@ == button_word(st.has_today)
    &&& opt_text(st.previous_date) == latest_before(b.days, today)
}

/// A todo taken off every board (`date == None`) or put on board `d`.
pub open spec fn place_item(it: ItemView, id: Seq<char>, date: Option<Seq<char>>) -> ItemView {
    if it.id == id {
        ItemView { id: it.id, completed: it.completed, daily_date: date, carried_from: None }
    } else {
        it
    }
}

/// Some todo has this id.
pub open spec fn has_item(b: BoardView, id: Seq<char>) -> bool {
    exists|i: int| 0 <= i < b.items.len() && #[trigger] b.items[i].id == id
}

/// The placement rules: the todo must exist; putting it on a board needs a
/// valid date whose board exists; both placing and removing clear the
/// carried-from note.
pub open spec fn place_effect(b: BoardView, id: Seq<char>, date: Option<Seq<char>>) -> (
    BoardView,
    Result<(), DailyError>,
) {
    if !has_item(b, id) {
        (b, Err(DailyError::TodoNotFound))
    } else {
        match date {
            Some(d) => if !is_valid_date(d) {
                (b, Err(DailyError::InvalidDate))
            } else if !b.days.contains(d) {
                (b, Err(DailyError::BoardMissing))
            } else {
                (
                    BoardView {
                        days: b.days,
                        items: b.items.map_values(|it: ItemView| place_item(it, id, date)),
                    },
                    Ok(()),
                )
            },
            None => (
                BoardView {
                    days: b.days,
                    items: b.items.map_values(|it: ItemView| place_item(it, id, date)),
                },
                Ok(()),
            ),
        }
    }
}

impl DailyBoard {
    /// Daily status for a client whose local date is `today` (already trimmed).
    pub fn status_for(&self, today: &str) -> (r: Result<DailyStatus, DailyError>)
        ensures
            !is_valid_date(today@) ==> r == Err::<DailyStatus, DailyError>(DailyError::InvalidLocalToday),
            is_valid_date(today@) ==> (r matches Ok(st) && status_matches(self@, today@, st)),
    {
        if !valid_date(today) {
            return Err(DailyError::InvalidLocalToday);
        }
        let tomorrow = match add_one_day(today) {
            Some(t) => t,
            None => return Err(DailyError::InvalidLocalToday),
        };
        let has_today = self.day_exists(today);
        let has_tomorrow = self.day_exists(tomorrow.as_str());
        let previous_date = self.previous_date(today);
        proof {
            reveal_strlit("today");
            reveal_strlit("tomorrow");
        }
        let button = if has_today {
            "tomorrow"
        } else {
            "today"
        };
        assert(button@ =~= button_word(has_today));
        Ok(
            DailyStatus {
                local_today: today.to_owned(),
                has_today,
                has_tomorrow,
                button: button.to_owned(),
                previous_date,
            },
        )
    }

    /// Daily status for the client's `local_today`, read after trimming.
    pub fn status(&self, local_today: &str) -> (r: Result<DailyStatus, DailyError>)
        ensures
            !is_valid_date(trimmed(local_today@)) ==> r == Err::<DailyStatus, DailyError>(
                DailyError::InvalidLocalToday,
            ),
            is_valid_date(trimmed(local_today@)) ==> (r matches Ok(st) && status_matches(
                self@,
                trimmed(local_today@),
                st,
            )),
    {
        self.status_for(trim(local_today))
    }

    /// Makes today's or tomorrow's board (`for_day`, already trimmed) for a
    /// client whose local date is `today` (already trimmed), carrying open
    /// todos forward.
    pub fn create_for(&mut self, today: &str, for_day: &str) -> (r: Result<CreateOutcome, DailyError>)
        ensures
            (final(self)@, create_view(r)) == create_effect(old(self)@, today@, for_day@),
            r matches Ok(o) ==> o.moved@.map_values(|s: String| s@) == create_moved(
                old(self)@,
                create_view(r),
            ),
    {
        proof {
            reveal_strlit("today");
            reveal_strlit("tomorrow");
            assert("today"@ =~= today_word());
            assert("tomorrow"@ =~= tomorrow_word());
        }
        if !valid_date(today) {
            return Err(DailyError::InvalidLocalToday);
        }
        let tomorrow = match add_one_day(today) {
            Some(t) => t,
            None => return Err(DailyError::InvalidLocalToday),
        };
        let is_today = str_eq(for_day, "today");
        let is_tomorrow = str_eq(for_day, "tomorrow");
        if !is_today && !is_tomorrow {
            return Err(DailyError::InvalidForDay);
        }
        let has_today = self.day_exists(today);
        if is_today && has_today {
            return Ok(
                CreateOutcome {
                    date: today.to_owned(),
                    created: false,
                    carried_from: None,
                    moved: Vec::new(),
                },
            );
        }
        if is_tomorrow && !has_today {
            return Err(DailyError::TodayMissing);
        }
        if is_tomorrow && self.day_exists(tomorrow.as_str()) {
            return Ok(
                CreateOutcome { date: tomorrow, created: false, carried_from: None, moved: Vec::new() },
            );
        }
        if is_today {
            self.insert_day(today);
            match self.previous_date(today) {
                Some(prior) => {
                    let moved = self.carry_incomplete(prior.as_str(), today);
                    Ok(
                        CreateOutcome {
                            date: today.to_owned(),
                            created: true,
                            carried_from: Some(prior),
                            moved,
                        },
                    )
                },
                None => Ok(
                    CreateOutcome {
                        date: today.to_owned(),
                        created: true,
                        carried_from: None,
                        moved: Vec::new(),
                    },
                ),
            }
        } else {
            self.insert_day(tomorrow.as_str());
            let moved = self.carry_incomplete(today, tomorrow.as_str());
            Ok(
                CreateOutcome {
                    date: tomorrow,
                    created: true,
                    carried_from: Some(today.to_owned()),
                    moved,
                },
            )
        }
    }

    /// Makes today's or tomorrow's board as the client asked, after trimming
    /// both inputs.
    pub fn create(&mut self, local_today: &str, for_day: &str) -> (r: Result<CreateOutcome, DailyError>)
        ensures
            (final(self)@, create_view(r)) == create_effect(
                old(self)@,
                trimmed(local_today@),
                trimmed(for_day@),
            ),
            r matches Ok(o) ==> o.moved@.map_values(|s: String| s@) == create_moved(
                old(self)@,
                create_view(r),
            ),
    {
        let today = trim(local_today);
        let for_day = trim(for_day);
        self.create_for(today, for_day)
    }

    /// Puts the todo `id` on board `date` (already trimmed), or takes it off
    /// every board when `date` is `None`.
    pub fn set_todo_daily_for(&mut self, id: &str, date: Option<&str>) -> (r: Result<(), DailyError>)
        ensures
            (final(self)@, r) == place_effect(
                old(self)@,
                id@,
                match date {
                    Some(d) => Some(d@),
                    None => None,
                },
            ),
    {
        let ghost target: Option<Seq<char>> = match date {
            Some(d) => Some(d@),
            None => None,
        };
        let ghost old_items = self@.items;
        let n = self.items.len();
        let mut found = false;
        let mut k: usize = 0;
        while k < n
            invariant
                n == self.items@.len(),
                k <= n,
                self@ == old(self)@,
                found == exists|j: int| 0 <= j < k && #[trigger] self@.items[j].id == id@,
            decreases n - k,
        {
            assert(self@.items[k as int] == self.items@[k as int]@);
            if str_eq(self.items[k].id.as_str(), id) {
                found = true;
                assert(self@.items[k as int].id == id@);
            } else {
                assert(self@.items[k as int].id != id@);
                assert(forall|j: int| 0 <= j < k + 1 && #[trigger] self@.items[j].id == id@ ==> j < k);
            }
            k = k + 1;
        }
        if !found {
            return Err(DailyError::TodoNotFound);
        }
        if let Some(d) = date {
            if !valid_date(d) {
                return Err(DailyError::InvalidDate);
            }
            if !self.day_exists(d) {
                return Err(DailyError::BoardMissing);
            }
        }
        let mut i: usize = 0;
        while i < n
            invariant
                n == self.items@.len(),
                n == old_items.len(),
                i <= n,
                self@.days == old(self)@.days,
                old_items == old(self)@.items,
                target == match date {
                    Some(d) => Some(d@),
                    None => None::<Seq<char>>,
                },
                forall|j: int|
                    0 <= j < i ==> #[trigger] item_views(self.items@)[j] == place_item(
                        old_items[j],
                        id@,
                        target,
                    ),
                forall|j: int| i <= j < n ==> #[trigger] item_views(self.items@)[j] == old_items[j],
            decreases n - i,
        {
            assert(item_views(self.items@)[i as int] == self.items@[i as int]@);
            if str_eq(self.items[i].id.as_str(), id) {
                let ghost before = self.items@;
                self.items[i].daily_date = match date {
                    Some(d) => Some(d.to_owned()),
                    None => None,
                };
                self.items[i].carried_from = None;
                proof {
                    assert(self.items@[i as int]@ == place_item(old_items[i as int], id@, target));
                    assert forall|j: int| 0 <= j < n && j != i implies #[trigger] item_views(
                        self.items@,
                    )[j] == item_views(before)[j] by {
                        assert(self.items@[j] == before[j]);
                        assert(item_views(self.items@)[j] == self.items@[j]@);
                        assert(item_views(before)[j] == before[j]@);
                    }
                    assert(item_views(self.items@)[i as int] == self.items@[i as int]@);
                }
            }
            i = i + 1;
        }
        assert(item_views(self.items@) =~= old_items.map_values(
            |it: ItemView| place_item(it, id@, target),
        ));
        Ok(())
    }

    /// Puts the todo `id` on the board named by `date` after trimming it, or
    /// takes it off every board when `date` is `None`.
    pub fn set_todo_daily(&mut self, id: &str, date: Option<&str>) -> (r: Result<(), DailyError>)
        ensures
            (final(self)@, r) == place_effect(
                old(self)@,
                id@,
                match date {
                    Some(d) => Some(trimmed(d@)),
                    None => None,
                },
            ),
    {
        match date {
            Some(d) => self.set_todo_daily_for(id, Some(trim(d))),
            None => self.set_todo_daily_for(id, None),
        }
    }
}

} // verus!

verus! {

/// Creating a board a second time with the same request changes nothing and
/// reports the board as already made.
pub proof fn lemma_create_idempotent(b: BoardView, today: Seq<char>, for_day: Seq<char>)
    requires
        create_effect(b, today, for_day).1 is Ok,
    ensures
        ({
            let (b1, r1) = create_effect(b, today, for_day);
            let date = r1->Ok_0.0;
            create_effect(b1, today, for_day) == (b1, Ok::<CreateView, DailyError>((date, false, None)))
        }),
{
}

/// A create never adds, removes or reorders todos, never changes their ids
/// or completion, and never moves a completed todo.
pub proof fn lemma_create_keeps_completed(b: BoardView, today: Seq<char>, for_day: Seq<char>)
    ensures
        ({
            let b1 = create_effect(b, today, for_day).0;
            &&& b1.items.len() == b.items.len()
            &&& forall|i: int|
                0 <= i < b.items.len() ==> {
                    &&& #[trigger] b1.items[i].id == b.items[i].id
                    &&& b1.items[i].completed == b.items[i].completed
                    &&& b.items[i].completed ==> b1.items[i] == b.items[i]
                }
        }),
{
}

/// Every successful create leaves the board it names existing, whether it
/// made it now or found it, and even when nothing was carried.
pub proof fn lemma_create_board_exists(b: BoardView, today: Seq<char>, for_day: Seq<char>)
    requires
        create_effect(b, today, for_day).1 is Ok,
    ensures
        create_effect(b, today, for_day).0.days.contains(create_effect(b, today, for_day).1->Ok_0.0),
{
}

/// The day after a valid date is a different text.
pub proof fn lemma_next_day_differs(s: Seq<char>)
    requires
        is_valid_date(s),
    ensures
        next_day_text(s) != s,
{
    let (y, m, d) = date_fields(s).unwrap();
    if (y, m, d) != (9999int, 12int, 31int) {
        lemma_next_day_is_valid(s);
    } else {
        reveal_with_fuel(digits_of, 6);
        assert(digits_of(10000).len() == 5);
        assert(next_day_text(s).len() == 11);
    }
}

/// Making tomorrow's board takes every open todo off today's board.
pub proof fn lemma_create_tomorrow_clears_today(b: BoardView, today: Seq<char>)
    requires
        create_effect(b, today, tomorrow_word()).1 matches Ok((_, created, _)) && created,
    ensures
        forall|i: int|
            0 <= i < b.items.len() ==> !is_carried(
                #[trigger] create_effect(b, today, tomorrow_word()).0.items[i],
                today,
            ),
{
    assert(today_word() != tomorrow_word()) by {
        assert(today_word().len() != tomorrow_word().len());
    }
    lemma_next_day_differs(today);
}

/// The create button that the status offers never meets the "today first"
/// refusal: for a valid local date, creating the board the button names
/// succeeds.
pub proof fn lemma_button_create_succeeds(b: BoardView, today: Seq<char>)
    requires
        is_valid_date(today),
    ensures
        create_effect(b, today, button_word(b.days.contains(today))).1 is Ok,
{
    assert(today_word() != tomorrow_word()) by {
        assert(today_word().len() != tomorrow_word().len());
    }
}

/// Putting a todo on a board and then taking it off leaves it in General
/// only, with no daily placement and no carried-from note, and leaves the
/// other todos as they were.
pub proof fn lemma_place_then_remove(b: BoardView, id: Seq<char>, d: Seq<char>)
    requires
        place_effect(b, id, Some(d)).1 is Ok,
    ensures
        ({
            let b1 = place_effect(b, id, Some(d)).0;
            let b2 = place_effect(b1, id, None).0;
            &&& place_effect(b1, id, None).1 is Ok
            &&& b2.days == b.days
            &&& b2.items.len() == b.items.len()
            &&& forall|i: int|
                0 <= i < b.items.len() ==> #[trigger] b2.items[i] == (if b.items[i].id == id {
                    ItemView {
                        id,
                        completed: b.items[i].completed,
                        daily_date: None,
                        carried_from: None,
                    }
                } else {
                    b.items[i]
                })
        }),
{
    let b1 = place_effect(b, id, Some(d)).0;
    let i = choose|i: int| 0 <= i < b.items.len() && #[trigger] b.items[i].id == id;
    assert(b1.items[i].id == id);
}

} // verus!

verus! {

/// Query of the daily status request.
#[derive(Debug, Clone)]
pub struct DailyStatusQuery {
    pub local_today: String,
}

/// Query of the request that lists one daily board.
#[derive(Debug, Clone)]
pub struct DailyListQuery {
    pub date: String,
}

impl DailyError {
    /// The message the API answers with.
    pub fn message(&self) -> (r: &'static str)
        ensures
            r@ == match *self {
                DailyError::InvalidLocalToday => "Invalid local_today"@,
                DailyError::InvalidForDay => "for must be today or tomorrow"@,
                DailyError::TodayMissing => "Create todos for today first"@,
                DailyError::TodoNotFound => "Todo not found"@,
                DailyError::InvalidDate => "Invalid date"@,
                DailyError::BoardMissing => "Daily board does not exist for date; create today first"@,
            },
    {
        match self {
            DailyError::InvalidLocalToday => "Invalid local_today",
            DailyError::InvalidForDay => "for must be today or tomorrow",
            DailyError::TodayMissing => "Create todos for today first",
            DailyError::TodoNotFound => "Todo not found",
            DailyError::InvalidDate => "Invalid date",
            DailyError::BoardMissing => "Daily board does not exist for date; create today first",
        }
    }

    /// The HTTP status the API answers with: bad input 400, unknown todo
    /// 404, a board that must exist first 409.
    pub fn status_code(&self) -> (r: u16)
        ensures
            r == match *self {
                DailyError::InvalidLocalToday | DailyError::InvalidForDay | DailyError::InvalidDate => 400u16,
                DailyError::TodoNotFound => 404u16,
                DailyError::TodayMissing | DailyError::BoardMissing => 409u16,
            },
    {
        match self {
            DailyError::InvalidLocalToday | DailyError::InvalidForDay | DailyError::InvalidDate => 400,
            DailyError::TodoNotFound => 404,
            DailyError::TodayMissing | DailyError::BoardMissing => 409,
        }
    }
}

} // verus!

verus! {

/// The check the status route makes before it reads the boards: the trimmed
/// `local_today` must be a valid date.
pub fn check_local_today(local_today: &str) -> (r: Result<(), DailyError>)
    ensures
        r is Ok <==> is_valid_date(trimmed(local_today@)),
        r matches Err(e) ==> e == DailyError::InvalidLocalToday,
{
    if valid_date(trim(local_today)) {
        Ok(())
    } else {
        Err(DailyError::InvalidLocalToday)
    }
}

/// The checks the create route makes before it reads the boards, in the
/// order it makes them: the trimmed `local_today` must be a valid date, then
/// the trimmed `for_day` must be `today` or `tomorrow`.
pub fn check_create_request(local_today: &str, for_day: &str) -> (r: Result<(), DailyError>)
    ensures
        r == if !is_valid_date(trimmed(local_today@)) {
            Err::<(), DailyError>(DailyError::InvalidLocalToday)
        } else if trimmed(for_day@) != today_word() && trimmed(for_day@) != tomorrow_word() {
            Err::<(), DailyError>(DailyError::InvalidForDay)
        } else {
            Ok::<(), DailyError>(())
        },
{
    proof {
        reveal_strlit("today");
        reveal_strlit("tomorrow");
        assert("today"@ =~= today_word());
        assert("tomorrow"@ =~= tomorrow_word());
    }
    if !valid_date(trim(local_today)) {
        return Err(DailyError::InvalidLocalToday);
    }
    let f = trim(for_day);
    if !str_eq(f, "today") && !str_eq(f, "tomorrow") {
        return Err(DailyError::InvalidForDay);
    }
    Ok(())
}

/// The check the daily list route makes before it reads the todos: the
/// trimmed `date` must be a valid date.
pub fn check_list_date(date: &str) -> (r: Result<(), DailyError>)
    ensures
        r is Ok <==> is_valid_date(trimmed(date@)),
        r matches Err(e) ==> e == DailyError::InvalidDate,
{
    if valid_date(trim(date)) {
        Ok(())
    } else {
        Err(DailyError::InvalidDate)
    }
}

} // verus!

verus! {

/// Putting todo `id` on board `d` succeeds exactly when the todo exists, `d`
/// is a valid date and its board exists, whatever board the todo was on
/// before; the todo is then on `d` with no carried-from note, and nothing
/// else changes. Taking it off (`None`) succeeds whenever it exists and
/// leaves it on no board.
pub proof fn lemma_place_puts_todo_on_board(b: BoardView, id: Seq<char>, date: Option<Seq<char>>)
    ensures
        place_effect(b, id, date).1 is Ok <==> ((exists|i: int|
            0 <= i < b.items.len() && #[trigger] b.items[i].id == id) && (date matches Some(d)
            ==> is_valid_date(d) && b.days.contains(d))),
        place_effect(b, id, date).1 is Ok ==> ({
            let b2 = place_effect(b, id, date).0;
            &&& b2.days == b.days
            &&& b2.items.len() == b.items.len()
            &&& forall|i: int|
                0 <= i < b.items.len() && b.items[i].id == id ==> {
                    &&& (#[trigger] b2.items[i]).daily_date == date
                    &&& b2.items[i].carried_from is None
                    &&& b2.items[i].id == id
                    &&& b2.items[i].completed == b.items[i].completed
                }
            &&& forall|i: int|
                0 <= i < b.items.len() && b.items[i].id != id ==> #[trigger] b2.items[i]
                    == b.items[i]
        }),
        place_effect(b, id, date).1 is Err ==> place_effect(b, id, date).0 == b,
{
}

} // verus!

verus! {

/// What a create that makes a board does, in terms of the boards and todos:
/// the new board `d` did not exist and now does; every open todo on the
/// source board `p` moves to `d` noting `p`, and every other todo stays as
/// it was. Today's board takes its todos from the latest earlier board;
/// tomorrow's board is the day after today and takes them from today's.
pub proof fn lemma_create_carries_open_todos(b: BoardView, today: Seq<char>, for_day: Seq<char>)
    requires
        create_effect(b, today, for_day).1 matches Ok((_, made, _)) && made,
    ensures
        ({
            let b2 = create_effect(b, today, for_day).0;
            let (d, made, from) = create_effect(b, today, for_day).1->Ok_0;
            &&& !b.days.contains(d)
            &&& b2.days == b.days.insert(d)
            &&& b2.items.len() == b.items.len()
            &&& from is None ==> b2.items == b.items
            &&& from matches Some(p) ==> forall|i: int|
                0 <= i < b.items.len() ==> #[trigger] b2.items[i] == if !b.items[i].completed
                    && b.items[i].daily_date == Some(p) {
                    ItemView {
                        id: b.items[i].id,
                        completed: false,
                        daily_date: Some(d),
                        carried_from: Some(p),
                    }
                } else {
                    b.items[i]
                }
            &&& for_day == today_word() ==> {
                &&& d == today
                &&& from matches Some(p) ==> {
                    &&& b.days.contains(p)
                    &&& text_lt(p, today)
                    &&& forall|q: Seq<char>|
                        #[trigger] b.days.contains(q) && text_lt(q, today) ==> q == p || text_lt(
                            q,
                            p,
                        )
                }
            }
            &&& for_day == tomorrow_word() ==> d == next_day_text(today) && from == Some(today)
        }),
{
    assert(today_word() != tomorrow_word()) by {
        assert(today_word().len() != tomorrow_word().len());
    }
    let days = b.days.insert(today);
    if for_day == today_word() {
        if let Some(p) = latest_before(days, today) {
            assert(is_latest_before(days, today, p));
            lemma_text_lt_asymmetric(p, today);
            assert forall|q: Seq<char>|
                #[trigger] b.days.contains(q) && text_lt(q, today) implies q == p || text_lt(q, p) by {
                assert(days.contains(q));
            }
        }
    }
}

} // verus!

verus! {

/// What the daily status tells the client: whether today's board and the
/// next day's board exist, that the create button offers tomorrow's board
/// exactly when today's exists, and, when given, that the previous date is a
/// board before today with no board between it and today.
pub proof fn lemma_status_meaning(b: BoardView, today: Seq<char>, st: DailyStatus)
    requires
        status_matches(b, today, st),
    ensures
        st.has_today == b.days.contains(today),
        st.has_tomorrow == b.days.contains(next_day_text(today)),
        st.button@ == if b.days.contains(today) {
            seq!['t', 'o', 'm', 'o', 'r', 'r', 'o', 'w']
        } else {
            seq!['t', 'o', 'd', 'a', 'y']
        },
        st.previous_date matches Some(p) ==> {
            &&& b.days.contains(p@)
            &&& text_lt(p@, today)
            &&& forall|q: Seq<char>|
                #[trigger] b.days.contains(q) && text_lt(q, today) ==> q == p@ || text_lt(q, p@)
        },
{
    if st.previous_date is Some {
        let p = latest_before(b.days, today)->Some_0;
        assert(is_latest_before(b.days, today, p));
    }
}

} // verus!

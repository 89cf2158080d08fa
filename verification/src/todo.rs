//! The todo list: an ordered store of items that are told apart by their
//! position only.
//!
//! The caller loads the store, hands it to [`run`] with one [`TodoAction`],
//! and writes it back when the answer says that it changed.

use crate::indexed::{lemma_picked_alike, positions};
use crate::text::{decimal, decimal_text, lowercase, lowercased, same_text};
use vstd::prelude::*;
use vstd::string::*;

verus! {

/// How urgent an item is.
#[derive(Clone, Copy, Debug, PartialEq, Eq, Structural)]
pub enum Priority {
    Low,
    Medium,
    High,
}

/// One entry of the list.
#[derive(Clone, Debug)]
pub struct TodoItem {
    pub text: String,
    pub done: bool,
    pub priority: Priority,
    pub category: Option<String>,
}

/// A [`TodoItem`] as a plain value.
pub struct TodoItemView {
    pub text: Seq<char>,
    pub done: bool,
    pub priority: Priority,
    pub category: Option<Seq<char>>,
}

impl View for TodoItem {
    type V = TodoItemView;

    open spec fn view(&self) -> TodoItemView {
        TodoItemView {
            text: self.text@,
            done: self.done,
            priority: self.priority,
            category: self.category.deep_view(),
        }
    }
}

impl DeepView for TodoItem {
    type V = TodoItemView;

    open spec fn deep_view(&self) -> TodoItemView {
        self@
    }
}

/// What can be asked of the list.
#[derive(Clone, Debug)]
#[allow(inconsistent_fields)]
pub enum TodoAction {
    /// Append a new item.
    Add { text: String, priority: String, category: Option<String> },
    /// Show the items, all of them or those that pass the filters.
    List { priority: Option<String>, category: Option<String> },
    /// Mark the item at a position as done.
    Done { id: usize },
    /// Delete the item at a position.
    Remove { id: usize },
}

/// What [`run`] did.
#[derive(Debug)]
pub enum TodoReport {
    /// An item was appended; the store changed.
    Added,
    /// The lines to show; the store did not change.
    Listed(Vec<String>),
    /// An item was marked as done; the store changed.
    MarkedDone,
    /// An item was deleted; the store changed.
    Removed,
}

/// Why an action was not carried out.
#[derive(Clone, Copy, Debug, PartialEq, Eq, Structural)]
pub enum TodoError {
    /// The position is not that of an item.
    InvalidId,
}

/// The priority that a lower-case word names: `low` and `high` name
/// themselves, every other word stands for `Medium`.
pub open spec fn priority_named(word: Seq<char>) -> Priority {
    if word == "low"@ {
        Priority::Low
    } else if word == "high"@ {
        Priority::High
    } else {
        Priority::Medium
    }
}

/// The priority that a word names, whatever its case.
pub open spec fn priority_of(word: Seq<char>) -> Priority {
    priority_named(lowercased(word))
}

/// The name under which a priority is shown.
pub open spec fn priority_label(priority: Priority) -> Seq<char> {
    match priority {
        Priority::Low => "Low"@,
        Priority::Medium => "Medium"@,
        Priority::High => "High"@,
    }
}

/// Whether an item passes the filters of a listing: its priority is the one
/// asked for, if one was, and its category is exactly the one asked for, if
/// one was. An item without a category passes no category filter.
pub open spec fn passes(
    item: TodoItemView,
    priority: Option<Priority>,
    category: Option<Seq<char>>,
) -> bool {
    &&& priority matches Some(p) ==> item.priority == p
    &&& category matches Some(c) ==> item.category == Some(c)
}

/// The line that shows the item at a position: the position, a checkbox, the
/// text, the priority and the category, with `-` for an item without one.
pub open spec fn line(position: nat, item: TodoItemView) -> Seq<char> {
    decimal(position) + " "@ + (if item.done {
        "[x]"@
    } else {
        "[ ]"@
    }) + " "@ + item.text + " (Priority: "@ + priority_label(item.priority) + ", Category: "@ + (
    match item.category {
        Some(c) => c,
        None => "-"@,
    }) + ")"@
}

/// For a position, the line to show, or `None` where the item is filtered out.
pub open spec fn shown_line(
    items: Seq<TodoItemView>,
    priority: Option<Priority>,
    category: Option<Seq<char>>,
) -> spec_fn(int) -> Option<Seq<char>> {
    |i: int|
        if passes(items[i], priority, category) {
            Some(line(i as nat, items[i]))
        } else {
            None
        }
}

/// The lines of a listing: one for each item that passes the filters, in the
/// order of the store, each under the position that the item has in the store.
pub open spec fn listing(
    items: Seq<TodoItemView>,
    priority: Option<Priority>,
    category: Option<Seq<char>>,
) -> Seq<Seq<char>> {
    positions(items.len()).filter_map(shown_line(items, priority, category))
}

/// The priority that a lower-case word names.
pub fn priority_from_lowercase(word: &str) -> (priority: Priority)
    ensures
        priority == priority_named(word@),
{
    if same_text(word, "low") {
        Priority::Low
    } else if same_text(word, "high") {
        Priority::High
    } else {
        Priority::Medium
    }
}

/// The priority that a word names, whatever its case; `Medium` for a word
/// that names none.
pub fn match_priority(s: &str) -> (priority: Priority)
    ensures
        priority == priority_of(s@),
{
    let lower = lowercase(s);
    priority_from_lowercase(lower.as_str())
}

/// Appends a new item, not yet done, to the store.
pub fn add(todos: &mut Vec<TodoItem>, text: String, priority: &str, category: Option<String>)
    ensures
        final(todos).deep_view() == old(todos).deep_view().push(
            TodoItemView {
                text: text@,
                done: false,
                priority: priority_of(priority@),
                category: category.deep_view(),
            },
        ),
{
    let priority = match_priority(priority);
    let item = TodoItem { text, done: false, priority, category };
    todos.push(item);
    assert(todos.deep_view() =~= old(todos).deep_view().push(item@));
}

/// Writes the line that shows `item` at `position`.
pub fn render_line(position: usize, item: &TodoItem) -> (text: String)
    ensures
        text@ == line(position as nat, item@),
{
    let mut text = decimal_text(position as u64);
    text.append(" ");
    text.append(if item.done { "[x]" } else { "[ ]" });
    text.append(" ");
    text.append(item.text.as_str());
    text.append(" (Priority: ");
    text.append(
        match item.priority {
            Priority::Low => "Low",
            Priority::Medium => "Medium",
            Priority::High => "High",
        },
    );
    text.append(", Category: ");
    text.append(
        match &item.category {
            Some(c) => c.as_str(),
            None => "-",
        },
    );
    text.append(")");
    text
}

/// Whether `item` is in the category `wanted`.
fn in_category(item: &TodoItem, wanted: &str) -> (r: bool)
    ensures
        r == (item@.category == Some(wanted@)),
{
    match &item.category {
        Some(c) => same_text(c.as_str(), wanted),
        None => false,
    }
}

/// Lists the items that pass the filters. A priority filter is a word, read
/// as [`match_priority`] reads it; a category filter must equal the item's
/// category character for character.
pub fn list(todos: &Vec<TodoItem>, priority: Option<&str>, category: Option<&str>) -> (lines: Vec<
    String,
>)
    ensures
        lines.deep_view() == listing(
            todos.deep_view(),
            match priority {
                Some(p) => Some(priority_of(p@)),
                None => None,
            },
            match category {
                Some(c) => Some(c@),
                None => None,
            },
        ),
{
    let wanted: Option<Priority> = match priority {
        Some(p) => Some(match_priority(p)),
        None => None,
    };
    let ghost items = todos.deep_view();
    let ghost wanted_category: Option<Seq<char>> = match category {
        Some(c) => Some(c@),
        None => None,
    };
    let ghost each = shown_line(items, wanted, wanted_category);
    let ghost all = positions(items.len());
    let mut lines: Vec<String> = Vec::new();
    let mut i: usize = 0;
    assert(lines.deep_view() =~= all.take(0).filter_map(each));
    while i < todos.len()
        invariant
            i <= todos.len(),
            items == todos.deep_view(),
            all == positions(items.len()),
            each == shown_line(items, wanted, wanted_category),
            wanted_category == match category {
                Some(c) => Some(c@),
                None => None,
            },
            lines.deep_view() == all.take(i as int).filter_map(each),
        decreases todos.len() - i,
    {
        let item = &todos[i];
        let priority_ok = match wanted {
            Some(p) => item.priority == p,
            None => true,
        };
        let category_ok = match category {
            Some(c) => in_category(item, c),
            None => true,
        };
        proof {
            all.lemma_filter_map_take_succ(each, i as int);
            assert(items[i as int] == item@);
        }
        if priority_ok && category_ok {
            let ghost before = lines.deep_view();
            let text = render_line(i, item);
            lines.push(text);
            assert(lines.deep_view() =~= before + seq![text@]);
        }
        i = i + 1;
    }
    assert(all.take(i as int) =~= all);
    lines
}

/// Marks the item at position `id` as done. A position past the end is an
/// error, and the store stays as it was.
pub fn mark_done(todos: &mut Vec<TodoItem>, id: usize) -> (r: Result<(), TodoError>)
    ensures
        id < old(todos).len() ==> r == Ok::<(), TodoError>(()) && final(todos).deep_view() == old(
            todos,
        ).deep_view().update(
            id as int,
            TodoItemView {
                text: old(todos)[id as int]@.text,
                done: true,
                priority: old(todos)[id as int]@.priority,
                category: old(todos)[id as int]@.category,
            },
        ),
        id >= old(todos).len() ==> r == Err::<(), TodoError>(TodoError::InvalidId) && *final(todos)
            == *old(todos),
{
    if id < todos.len() {
        todos[id].done = true;
        Ok(())
    } else {
        Err(TodoError::InvalidId)
    }
}

/// Deletes the item at position `id`; the items behind it move up by one. A
/// position past the end is an error, and the store stays as it was.
pub fn remove(todos: &mut Vec<TodoItem>, id: usize) -> (r: Result<(), TodoError>)
    ensures
        id < old(todos).len() ==> r == Ok::<(), TodoError>(()) && final(todos)@ == old(
            todos,
        )@.remove(id as int),
        id >= old(todos).len() ==> r == Err::<(), TodoError>(TodoError::InvalidId) && *final(todos)
            == *old(todos),
{
    if id < todos.len() {
        todos.remove(id);
        Ok(())
    } else {
        Err(TodoError::InvalidId)
    }
}

/// The filter that an optional word stands for.
pub open spec fn priority_filter(word: Option<String>) -> Option<Priority> {
    match word {
        Some(w) => Some(priority_of(w@)),
        None => None,
    }
}

/// Carries out one action on the store.
///
/// `Add` appends an item and `List` leaves the store alone: both always
/// succeed. `Done` and `Remove` succeed exactly when their position is that of
/// an item; otherwise they answer [`TodoError::InvalidId`] and change nothing.
/// The store needs to be written back after every answer but `Listed` and an
/// error.
pub fn run(todos: &mut Vec<TodoItem>, action: TodoAction) -> (r: Result<TodoReport, TodoError>)
    ensures
        match action {
            TodoAction::Add { text, priority, category } => {
                &&& r matches Ok(TodoReport::Added)
                &&& final(todos).deep_view() == old(todos).deep_view().push(
                    TodoItemView {
                        text: text@,
                        done: false,
                        priority: priority_of(priority@),
                        category: category.deep_view(),
                    },
                )
            },
            TodoAction::List { priority, category } => {
                &&& *final(todos) == *old(todos)
                &&& r matches Ok(TodoReport::Listed(lines))
                &&& lines.deep_view() == listing(
                    old(todos).deep_view(),
                    priority_filter(priority),
                    category.deep_view(),
                )
            },
            TodoAction::Done { id } => if id < old(todos).len() {
                &&& r matches Ok(TodoReport::MarkedDone)
                &&& final(todos).deep_view() == old(todos).deep_view().update(
                    id as int,
                    TodoItemView {
                        text: old(todos)[id as int]@.text,
                        done: true,
                        priority: old(todos)[id as int]@.priority,
                        category: old(todos)[id as int]@.category,
                    },
                )
            } else {
                &&& r matches Err(TodoError::InvalidId)
                &&& *final(todos) == *old(todos)
            },
            TodoAction::Remove { id } => if id < old(todos).len() {
                &&& r matches Ok(TodoReport::Removed)
                &&& final(todos)@ == old(todos)@.remove(id as int)
            } else {
                &&& r matches Err(TodoError::InvalidId)
                &&& *final(todos) == *old(todos)
            },
        },
{
    match action {
        TodoAction::Add { text, priority, category } => {
            self::add(todos, text, priority.as_str(), category);
            Ok(TodoReport::Added)
        },
        TodoAction::List { priority, category } => {
            let by_priority: Option<&str> = match &priority {
                Some(p) => Some(p.as_str()),
                None => None,
            };
            let by_category: Option<&str> = match &category {
                Some(c) => Some(c.as_str()),
                None => None,
            };
            Ok(TodoReport::Listed(list(todos, by_priority, by_category)))
        },
        TodoAction::Done { id } => match mark_done(todos, id) {
            Ok(()) => Ok(TodoReport::MarkedDone),
            Err(e) => Err(e),
        },
        TodoAction::Remove { id } => match remove(todos, id) {
            Ok(()) => Ok(TodoReport::Removed),
            Err(e) => Err(e),
        },
    }
}

proof fn lemma_unfiltered_upto(items: Seq<TodoItemView>, m: int)
    requires
        0 <= m <= items.len(),
    ensures
        positions(items.len()).take(m).filter_map(shown_line(items, None, None)) == Seq::new(
            m as nat,
            |i: int| line(i as nat, items[i]),
        ),
    decreases m,
{
    let each = shown_line(items, None, None);
    let all = positions(items.len());
    if m > 0 {
        lemma_unfiltered_upto(items, m - 1);
        all.lemma_filter_map_take_succ(each, m - 1);
    }
    assert(all.take(m).filter_map(each) =~= Seq::new(m as nat, |i: int| line(i as nat, items[i])));
}

/// A listing without filters shows every item, each under its position.
pub proof fn lemma_unfiltered_listing_shows_all(items: Seq<TodoItemView>)
    ensures
        listing(items, None, None) == Seq::new(items.len(), |i: int| line(i as nat, items[i])),
{
    lemma_unfiltered_upto(items, items.len() as int);
    assert(positions(items.len()).take(items.len() as int) =~= positions(items.len()));
}

/// Appending an item leaves the lines of the earlier items as they were; the
/// new item is listed last, under the position that equals the number of
/// items before it, if it passes the filters.
pub proof fn lemma_appended_item_is_listed_last(
    items: Seq<TodoItemView>,
    item: TodoItemView,
    priority: Option<Priority>,
    category: Option<Seq<char>>,
)
    ensures
        listing(items.push(item), priority, category) == if passes(item, priority, category) {
            listing(items, priority, category).push(line(items.len(), item))
        } else {
            listing(items, priority, category)
        },
{
    let n = items.len();
    let before = shown_line(items, priority, category);
    let after = shown_line(items.push(item), priority, category);
    lemma_picked_alike(n, before, n + 1, after, n as int);
    positions(n + 1).lemma_filter_map_take_succ(after, n as int);
    assert(positions(n).take(n as int) =~= positions(n));
    assert(positions(n + 1).take(n as int + 1) =~= positions(n + 1));
    assert(items.push(item)[n as int] == item);
    assert(listing(items.push(item), priority, category) =~= if passes(item, priority, category) {
        listing(items, priority, category).push(line(n, item))
    } else {
        listing(items, priority, category)
    });
}

} // verus!

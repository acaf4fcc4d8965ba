//! What a page shows of a state: the todos under the filter, the counts,
//! and the words of the footer.

use crate::model::Model;
use crate::rules::ModelView;
use crate::text::{decimal, decimal_string};
use crate::todo::{todo_views, Todo};
use vstd::prelude::*;
use vstd::string::*;

verus! {

/// The noun that follows a count of open todos: singular for one, plural
/// for any other count.
pub open spec fn item_word(active_count: nat) -> Seq<char> {
    if active_count == 1 {
        "item"@
    } else {
        "items"@
    }
}

/// The footer's words for a count of open todos: the count in decimal, the
/// noun, and `left`.
pub open spec fn items_left(active_count: nat) -> Seq<char> {
    decimal(active_count) + " "@ + item_word(active_count) + " left"@
}

/// Picks the noun that follows a count of open todos.
pub fn item_label(active_count: usize) -> (r: &'static str)
    ensures
        r@ == item_word(active_count as nat),
{
    if active_count == 1 {
        "item"
    } else {
        "items"
    }
}

/// Writes the footer's words for a count of open todos.
pub fn items_left_label(active_count: usize) -> (r: String)
    ensures
        r@ == items_left(active_count as nat),
{
    let mut r = decimal_string(active_count);
    r.append(" ");
    r.append(item_label(active_count));
    r.append(" left");
    r
}

/// What a page shows of a state.
#[derive(Debug)]
pub struct ViewModel {
    /// The todos under the filter, in the order of their identifiers.
    pub visible_todos: Vec<Todo>,
    /// How many todos there are; with none, a page shows neither list nor
    /// footer.
    pub total_count: usize,
    /// How many todos are open.
    pub active_count: usize,
    /// How many todos are completed.
    pub completed_count: usize,
    /// Whether there are todos and none of them is open.
    pub all_completed: bool,
    /// Whether some todo is completed.
    pub has_completed: bool,
    /// The footer's words for the open todos.
    pub items_left: String,
}

impl ViewModel {
    /// Whether this is what a page shows of the state `m`.
    pub open spec fn shows(self, m: ModelView) -> bool {
        &&& todo_views(self.visible_todos@) == m.visible_todos()
        &&& self.total_count == m.total_count()
        &&& self.active_count == m.active_count()
        &&& self.completed_count == m.completed_count()
        &&& self.all_completed == m.all_completed()
        &&& self.has_completed == m.has_completed()
        &&& self.items_left@ == items_left(m.active_count())
    }
}

/// Works out what a page shows of `model`.
pub fn view(model: &Model) -> (vm: ViewModel)
    ensures
        vm.shows(model@),
        vm.active_count + vm.completed_count == vm.total_count,
{
    let total_count = model.total_count();
    let active_count = model.active_count();
    let completed_count = total_count - active_count;
    ViewModel {
        visible_todos: model.visible_todos(),
        total_count,
        active_count,
        completed_count,
        all_completed: total_count > 0 && active_count == 0,
        has_completed: completed_count > 0,
        items_left: items_left_label(active_count),
    }
}

} // verus!

//! The state as it is kept, with each rule as a method.

use crate::id::fresh_id;
use crate::order::lemma_ascending;
use crate::rules::{lemma_all_shown, open_todo, shown_by, ModelView};
use crate::store::{every_completed, in_order, remove_completed, set_all_completed};
use crate::text::trimmed;
use crate::todo::{todo_views, Filter, SelectedTodo, Todo, TodoView};
use std::collections::BTreeMap;
use vstd::prelude::*;
use vstd::string::*;

verus! {

/// The state of the task list.
pub struct Model {
    todos: BTreeMap<u128, Todo>,
    new_todo_title: String,
    selected_todo: Option<SelectedTodo>,
    filter: Filter,
}

impl View for Model {
    type V = ModelView;

    closed spec fn view(&self) -> ModelView {
        ModelView {
            todos: self.todos@.map_values(|t: Todo| t@),
            new_todo_title: self.new_todo_title@,
            selected_todo: match self.selected_todo {
                Some(s) => Some(s@),
                None => None,
            },
            filter: self.filter,
        }
    }
}

impl Model {
    /// A state without todos, text or edit, showing all.
    pub fn new() -> (r: Model)
        ensures
            r@ == ModelView::empty(),
            r@.wf(),
    {
        let r = Model {
            todos: BTreeMap::new(),
            new_todo_title: String::new(),
            selected_todo: None,
            filter: Filter::All,
        };
        assert(r@.todos =~= Map::<u128, TodoView>::empty());
        r
    }

    /// The text typed for a new todo.
    pub fn new_todo_title(&self) -> (r: &str)
        ensures
            r@ == self@.new_todo_title,
    {
        self.new_todo_title.as_str()
    }

    /// The todo under edit, if there is one.
    pub fn selected_todo(&self) -> (r: Option<&SelectedTodo>)
        ensures
            match r {
                Some(s) => self@.selected_todo == Some(s@),
                None => self@.selected_todo is None,
            },
    {
        self.selected_todo.as_ref()
    }

    /// The filter in force.
    pub fn filter(&self) -> (r: Filter)
        ensures
            r == self@.filter,
    {
        self.filter
    }

    /// The todo kept under `id`, if there is one.
    pub fn todo(&self, id: u128) -> (r: Option<&Todo>)
        ensures
            match r {
                Some(todo) => self@.todos.contains_key(id) && todo@ == self@.todos[id],
                None => !self@.todos.contains_key(id),
            },
    {
        self.todos.get(&id)
    }

    /// Tells whether the todo under edit is `id`.
    pub fn is_selected(&self, id: u128) -> (r: bool)
        ensures
            r == self@.is_selected(id),
    {
        match &self.selected_todo {
            Some(s) => s.id == id,
            None => false,
        }
    }

    /// The location changed to `path`.
    pub fn url_changed(&mut self, path: &str)
        ensures
            final(self)@ == old(self)@.url_changed(path@),
            old(self)@.wf() ==> final(self)@.wf(),
    {
        self.filter = Filter::from_path(path);
    }

    /// The text typed for a new todo changed to `title`.
    pub fn new_todo_title_changed(&mut self, title: String)
        ensures
            final(self)@ == old(self)@.new_todo_title_changed(title@),
            old(self)@.wf() ==> final(self)@.wf(),
    {
        self.new_todo_title = title;
    }

    /// The typed text becomes a todo under `id`, unless it is blank.
    pub fn create_todo(&mut self, id: u128)
        ensures
            final(self)@ == old(self)@.create_todo(id),
            old(self)@.wf() ==> final(self)@.wf(),
    {
        let title = trimmed(self.new_todo_title.as_str());
        if !title.as_str().is_empty() {
            self.todos.insert(id, Todo { id, title, completed: false });
            self.new_todo_title = String::new();
            assert(self@.todos =~= old(self)@.create_todo(id).todos);
        }
        proof {
            if old(self)@.wf() {
                old(self)@.lemma_rules_keep_wf();
            }
        }
    }

    /// The todo `id` flips its completion flag.
    pub fn toggle_todo(&mut self, id: u128)
        ensures
            final(self)@ == old(self)@.toggle_todo(id),
            old(self)@.wf() ==> final(self)@.wf(),
    {
        match self.todos.remove(&id) {
            Some(mut todo) => {
                todo.completed = !todo.completed;
                self.todos.insert(id, todo);
            },
            None => {},
        }
        proof {
            assert(self@.todos =~= old(self)@.toggle_todo(id).todos);
            if old(self)@.wf() {
                old(self)@.lemma_rules_keep_wf();
            }
        }
    }

    /// The todo `id` goes.
    pub fn remove_todo(&mut self, id: u128)
        ensures
            final(self)@ == old(self)@.remove_todo(id),
            old(self)@.wf() ==> final(self)@.wf(),
    {
        self.todos.remove(&id);
        if self.is_selected(id) {
            self.selected_todo = None;
        }
        proof {
            assert(self@.todos =~= old(self)@.remove_todo(id).todos);
            if old(self)@.wf() {
                old(self)@.lemma_rules_keep_wf();
            }
        }
    }

    /// All todos are completed, or reopened if all were completed.
    pub fn check_or_uncheck_all(&mut self)
        ensures
            final(self)@ == old(self)@.check_or_uncheck_all(),
            old(self)@.wf() ==> final(self)@.wf(),
    {
        let completed = !every_completed(&self.todos);
        assert(completed == !old(self)@.every_todo_completed()) by {
            assert(old(self)@.todos.dom() =~= old(self).todos@.dom());
            if old(self)@.every_todo_completed() {
                assert forall|id: u128| #[trigger]
                    self.todos@.contains_key(id) implies self.todos@[id].completed by {
                    assert(old(self)@.todos.contains_key(id));
                }
            }
        }
        set_all_completed(&mut self.todos, completed);
        proof {
            assert(self@.todos =~= old(self)@.check_or_uncheck_all().todos);
            if old(self)@.wf() {
                old(self)@.lemma_rules_keep_wf();
            }
        }
    }

    /// The completed todos go.
    pub fn clear_completed(&mut self)
        ensures
            final(self)@ == old(self)@.clear_completed(),
            old(self)@.wf() ==> final(self)@.wf(),
    {
        remove_completed(&mut self.todos);
        let dangling = match &self.selected_todo {
            Some(s) => !self.todos.contains_key(&s.id),
            None => false,
        };
        if dangling {
            self.selected_todo = None;
        }
        proof {
            let kept = old(self)@.clear_completed().todos;
            assert forall|id: u128| self@.todos.contains_key(id) <==> kept.contains_key(id) by {
                assert(self.todos@.contains_key(id) <==> old(self).todos@.contains_key(id) && !old(
                    self,
                ).todos@[id].completed);
            }
            assert(self@.todos =~= kept);
            if old(self)@.wf() {
                old(self)@.lemma_rules_keep_wf();
            }
        }
    }

    /// A todo is picked for editing, or the edit is dropped.
    pub fn select_todo(&mut self, id: Option<u128>)
        ensures
            final(self)@ == old(self)@.select_todo(id),
            old(self)@.wf() ==> final(self)@.wf(),
    {
        match id {
            None => {
                self.selected_todo = None;
            },
            Some(id) => {
                let found = match self.todos.get(&id) {
                    Some(todo) => Some(todo.title.clone()),
                    None => None,
                };
                match found {
                    Some(title) => {
                        self.selected_todo = Some(SelectedTodo { id, title });
                    },
                    None => {},
                }
            },
        }
        proof {
            if old(self)@.wf() {
                old(self)@.lemma_rules_keep_wf();
            }
        }
    }

    /// The title typed for the todo under edit changed to `title`.
    pub fn selected_todo_title_changed(&mut self, title: String)
        ensures
            final(self)@ == old(self)@.selected_todo_title_changed(title@),
            old(self)@.wf() ==> final(self)@.wf(),
    {
        match self.selected_todo.take() {
            Some(s) => {
                self.selected_todo = Some(SelectedTodo { id: s.id, title });
            },
            None => {},
        }
        proof {
            if old(self)@.wf() {
                old(self)@.lemma_rules_keep_wf();
            }
        }
    }

    /// The edit ends and its text becomes the todo's title; a blank text
    /// removes the todo.
    pub fn save_selected_todo(&mut self)
        ensures
            final(self)@ == old(self)@.save_selected_todo(),
            old(self)@.wf() ==> final(self)@.wf(),
    {
        match self.selected_todo.take() {
            Some(s) => {
                let title = trimmed(s.title.as_str());
                match self.todos.remove(&s.id) {
                    Some(mut todo) => {
                        if !title.as_str().is_empty() {
                            todo.title = title;
                            self.todos.insert(s.id, todo);
                        }
                    },
                    None => {},
                }
                assert(self@.todos =~= old(self)@.save_selected_todo().todos);
            },
            None => {},
        }
        proof {
            if old(self)@.wf() {
                old(self)@.lemma_rules_keep_wf();
            }
        }
    }

    /// Adds the four sample todos under the given identifiers.
    pub fn add_mock_data_with(self, a: u128, b: u128, c: u128, d: u128) -> (r: Model)
        ensures
            r@ == self@.add_mock_data(a, b, c, d),
            self@.wf() ==> r@.wf(),
    {
        let mut r = self;
        r.todos.insert(a, Todo { id: a, title: String::from_str("Do Right"), completed: false });
        r.todos.insert(b, Todo { id: b, title: String::from_str("Be The Crew"), completed: false });
        r.todos.insert(c, Todo { id: c, title: String::from_str("Own It"), completed: false });
        r.todos.insert(
            d,
            Todo { id: d, title: String::from_str("Chew The Strap"), completed: false },
        );
        proof {
            assert(r@.todos =~= self@.add_mock_data(a, b, c, d).todos);
            if self@.wf() {
                self@.lemma_rules_keep_wf();
            }
        }
        r
    }

    /// Adds the four sample todos, each under a fresh identifier.
    pub fn add_mock_data(self) -> (r: Model)
        ensures
            exists|a: u128, b: u128, c: u128, d: u128|
                r@ == #[trigger] self@.add_mock_data(a, b, c, d),
            self@.wf() ==> r@.wf(),
    {
        let a = fresh_id();
        let b = fresh_id();
        let c = fresh_id();
        let d = fresh_id();
        self.add_mock_data_with(a, b, c, d)
    }

    /// The entries in the order of their identifiers.
    fn in_order(&self) -> (r: Vec<(u128, &Todo)>)
        ensures
            r@.len() == self@.listing().len(),
            r@.len() == self@.todos.dom().len(),
            forall|i: int| 0 <= i < r@.len() ==> (#[trigger] r@[i]).1@ == self@.listing()[i],
    {
        let r = in_order(&self.todos);
        proof {
            assert(self@.todos.dom() =~= self.todos@.dom());
            lemma_ascending(self@.todos.dom());
        }
        r
    }

    /// Copies of the todos that `filter` shows, in the order of their
    /// identifiers.
    fn shown(&self, filter: Filter) -> (r: Vec<Todo>)
        ensures
            todo_views(r@) == self@.listing().filter(shown_by(filter)),
    {
        let entries = self.in_order();
        let ghost listing = self@.listing();
        let mut out: Vec<Todo> = Vec::new();
        let mut i: usize = 0;
        assert(todo_views(out@) =~= listing.take(0).filter(shown_by(filter)));
        while i < entries.len()
            invariant
                i <= entries@.len(),
                entries@.len() == listing.len(),
                forall|j: int| 0 <= j < entries@.len() ==> (#[trigger] entries@[j]).1@ == listing[j],
                todo_views(out@) == listing.take(i as int).filter(shown_by(filter)),
            decreases entries@.len() - i,
        {
            let todo = entries[i].1;
            proof {
                listing.lemma_take_succ_push(i as int);
                Seq::lemma_filter_push(listing.take(i as int), listing[i as int], shown_by(filter));
            }
            if filter.shows(todo) {
                let ghost earlier = out@;
                out.push(todo.clone());
                assert(todo_views(out@) =~= todo_views(earlier).push(todo@));
            }
            i = i + 1;
        }
        proof {
            listing.lemma_take_len();
        }
        out
    }

    /// All todos, in the order of their identifiers.
    pub fn todos(&self) -> (r: Vec<Todo>)
        ensures
            todo_views(r@) == self@.listing(),
    {
        proof {
            lemma_all_shown(self@.listing());
        }
        self.shown(Filter::All)
    }

    /// The todos that the filter shows, in the order of their identifiers.
    pub fn visible_todos(&self) -> (r: Vec<Todo>)
        ensures
            todo_views(r@) == self@.visible_todos(),
    {
        self.shown(self.filter)
    }

    /// How many todos there are.
    pub fn total_count(&self) -> (r: usize)
        ensures
            r == self@.total_count(),
    {
        proof {
            assert(self@.todos.dom() =~= self.todos@.dom());
            lemma_ascending(self@.todos.dom());
        }
        self.todos.len()
    }

    /// How many todos are open.
    pub fn active_count(&self) -> (r: usize)
        ensures
            r == self@.active_count(),
            r <= self@.total_count(),
    {
        let entries = self.in_order();
        let ghost listing = self@.listing();
        let mut count: usize = 0;
        let mut i: usize = 0;
        assert(listing.take(0).filter(open_todo()) =~= Seq::<TodoView>::empty());
        while i < entries.len()
            invariant
                i <= entries@.len(),
                entries@.len() == listing.len(),
                forall|j: int| 0 <= j < entries@.len() ==> (#[trigger] entries@[j]).1@ == listing[j],
                count == listing.take(i as int).filter(open_todo()).len(),
                count <= i,
            decreases entries@.len() - i,
        {
            proof {
                listing.lemma_take_succ_push(i as int);
                Seq::lemma_filter_push(listing.take(i as int), listing[i as int], open_todo());
            }
            if !entries[i].1.completed {
                count = count + 1;
            }
            i = i + 1;
        }
        proof {
            listing.lemma_take_len();
        }
        count
    }

    /// How many todos are completed.
    pub fn completed_count(&self) -> (r: usize)
        ensures
            r == self@.completed_count(),
    {
        self.total_count() - self.active_count()
    }

    /// Tells whether there are todos and none of them is open.
    pub fn all_completed(&self) -> (r: bool)
        ensures
            r == self@.all_completed(),
    {
        self.total_count() > 0 && self.active_count() == 0
    }

    /// Tells whether some todo is completed.
    pub fn has_completed(&self) -> (r: bool)
        ensures
            r == self@.has_completed(),
    {
        self.completed_count() > 0
    }

    /// Tells whether there is no todo.
    pub fn is_empty(&self) -> (r: bool)
        ensures
            r == (self@.total_count() == 0),
    {
        self.total_count() == 0
    }
}

} // verus!

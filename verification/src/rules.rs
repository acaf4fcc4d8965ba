//! The state as a mathematical value, and each rule that takes one state to
//! the next.

use crate::msg::Msg;
use crate::order::ascending;
use crate::text::{lemma_trim_span, lemma_trim_twice, trim};
use crate::todo::{Filter, SelectedTodoView, TodoView};
use vstd::prelude::*;

verus! {

/// The todos that `filter` shows, as a predicate.
pub open spec fn shown_by(filter: Filter) -> spec_fn(TodoView) -> bool {
    |t: TodoView| filter.admits(t.completed)
}

/// The todos that are not completed, as a predicate.
pub open spec fn open_todo() -> spec_fn(TodoView) -> bool {
    |t: TodoView| !t.completed
}

/// The todos that are completed, as a predicate.
pub open spec fn completed_todo() -> spec_fn(TodoView) -> bool {
    |t: TodoView| t.completed
}

/// Whether `title` can be a todo's title: it is not empty and has no white
/// space at either end.
pub open spec fn is_title(title: Seq<char>) -> bool {
    title.len() > 0 && trim(title) == title
}

/// The state: the todos by identifier, the text typed for a new todo, the
/// todo under edit and the filter.
pub struct ModelView {
    pub todos: Map<u128, TodoView>,
    pub new_todo_title: Seq<char>,
    pub selected_todo: Option<SelectedTodoView>,
    pub filter: Filter,
}

impl ModelView {
    /// The state before anything happened.
    pub open spec fn empty() -> ModelView {
        ModelView {
            todos: Map::empty(),
            new_todo_title: Seq::empty(),
            selected_todo: None,
            filter: Filter::All,
        }
    }

    /// What holds of every state: the todos are finitely many, each is kept
    /// under its own identifier and has a title, and the todo under edit is
    /// one of them.
    pub open spec fn wf(self) -> bool {
        &&& self.todos.dom().finite()
        &&& forall|id: u128| #[trigger]
            self.todos.contains_key(id) ==> self.todos[id].id == id && is_title(
                self.todos[id].title,
            )
        &&& self.selected_todo matches Some(s) ==> self.todos.contains_key(s.id)
    }

    /// The location changed to `path`: only the filter follows.
    pub open spec fn url_changed(self, path: Seq<char>) -> ModelView {
        ModelView { filter: Filter::of_path(path), ..self }
    }

    /// The text typed for a new todo is replaced as it stands.
    pub open spec fn new_todo_title_changed(self, title: Seq<char>) -> ModelView {
        ModelView { new_todo_title: title, ..self }
    }

    /// The typed text, trimmed, becomes an open todo under `id` and the text
    /// is cleared; a blank text changes nothing.
    pub open spec fn create_todo(self, id: u128) -> ModelView {
        let title = trim(self.new_todo_title);
        if title.len() == 0 {
            self
        } else {
            ModelView {
                todos: self.todos.insert(id, TodoView { id, title, completed: false }),
                new_todo_title: Seq::empty(),
                ..self
            }
        }
    }

    /// The todo `id` flips its completion flag; an unknown `id` changes
    /// nothing.
    pub open spec fn toggle_todo(self, id: u128) -> ModelView {
        if self.todos.contains_key(id) {
            let todo = self.todos[id];
            ModelView {
                todos: self.todos.insert(id, TodoView { completed: !todo.completed, ..todo }),
                ..self
            }
        } else {
            self
        }
    }

    /// Whether the todo under edit is `id`.
    pub open spec fn is_selected(self, id: u128) -> bool {
        self.selected_todo matches Some(s) && s.id == id
    }

    /// The todo `id` goes, and the edit with it if it was under edit.
    pub open spec fn remove_todo(self, id: u128) -> ModelView {
        ModelView {
            todos: self.todos.remove(id),
            selected_todo: if self.is_selected(id) {
                None
            } else {
                self.selected_todo
            },
            ..self
        }
    }

    /// Whether no todo is open.
    pub open spec fn every_todo_completed(self) -> bool {
        forall|id: u128| #[trigger] self.todos.contains_key(id) ==> self.todos[id].completed
    }

    /// Every todo takes the same flag: open if none was open, completed
    /// otherwise.
    pub open spec fn check_or_uncheck_all(self) -> ModelView {
        let completed = !self.every_todo_completed();
        ModelView {
            todos: Map::new(
                |id: u128| self.todos.contains_key(id),
                |id: u128| TodoView { completed, ..self.todos[id] },
            ),
            ..self
        }
    }

    /// The completed todos go, and the edit with them if it was of one.
    pub open spec fn clear_completed(self) -> ModelView {
        ModelView {
            todos: Map::new(
                |id: u128| self.todos.contains_key(id) && !self.todos[id].completed,
                |id: u128| self.todos[id],
            ),
            selected_todo: match self.selected_todo {
                Some(s) => if self.todos.contains_key(s.id) && !self.todos[s.id].completed {
                    Some(s)
                } else {
                    None
                },
                None => None,
            },
            ..self
        }
    }

    /// No identifier drops the edit; a known one opens that todo for edit
    /// with its title as the text; an unknown one changes nothing.
    pub open spec fn select_todo(self, id: Option<u128>) -> ModelView {
        match id {
            None => ModelView { selected_todo: None, ..self },
            Some(id) => if self.todos.contains_key(id) {
                ModelView {
                    selected_todo: Some(SelectedTodoView { id, title: self.todos[id].title }),
                    ..self
                }
            } else {
                self
            },
        }
    }

    /// The text of the edit is replaced; without an edit nothing changes.
    pub open spec fn selected_todo_title_changed(self, title: Seq<char>) -> ModelView {
        match self.selected_todo {
            Some(s) => ModelView {
                selected_todo: Some(SelectedTodoView { title, ..s }),
                ..self
            },
            None => self,
        }
    }

    /// The edit ends: its text, trimmed, becomes the todo's title, and a
    /// blank text removes the todo. Without an edit nothing changes.
    pub open spec fn save_selected_todo(self) -> ModelView {
        match self.selected_todo {
            Some(s) => {
                let title = trim(s.title);
                if title.len() == 0 || !self.todos.contains_key(s.id) {
                    self.remove_todo(s.id)
                } else {
                    ModelView {
                        todos: self.todos.insert(s.id, TodoView { title, ..self.todos[s.id] }),
                        selected_todo: None,
                        ..self
                    }
                }
            },
            None => self,
        }
    }

    /// The state after `msg`. `fresh` is the identifier that a new todo
    /// gets; no other message reads it.
    pub open spec fn reduce(self, msg: Msg, fresh: u128) -> ModelView {
        match msg {
            Msg::UrlChanged(path) => self.url_changed(path@),
            Msg::NewTodoTitleChanged(title) => self.new_todo_title_changed(title@),
            Msg::CreateTodo => self.create_todo(fresh),
            Msg::ToggleTodo(id) => self.toggle_todo(id),
            Msg::RemoveTodo(id) => self.remove_todo(id),
            Msg::CheckOrUncheckAll => self.check_or_uncheck_all(),
            Msg::ClearCompleted => self.clear_completed(),
            Msg::SelectTodo(id) => self.select_todo(id),
            Msg::SelectedTodoTitleChanged(title) => self.selected_todo_title_changed(title@),
            Msg::SaveSelectedTodo => self.save_selected_todo(),
        }
    }

    /// The state with the four sample todos added under the given
    /// identifiers, each of them open.
    pub open spec fn add_mock_data(self, a: u128, b: u128, c: u128, d: u128) -> ModelView {
        let todos = self.todos.insert(a, TodoView { id: a, title: "Do Right"@, completed: false });
        let todos = todos.insert(b, TodoView { id: b, title: "Be The Crew"@, completed: false });
        let todos = todos.insert(c, TodoView { id: c, title: "Own It"@, completed: false });
        let todos = todos.insert(
            d,
            TodoView { id: d, title: "Chew The Strap"@, completed: false },
        );
        ModelView { todos, ..self }
    }

    /// The todos in the order of their identifiers.
    pub open spec fn listing(self) -> Seq<TodoView> {
        ascending(self.todos.dom()).map_values(|id: u128| self.todos[id])
    }

    /// The todos that the filter shows, in the order of their identifiers.
    pub open spec fn visible_todos(self) -> Seq<TodoView> {
        self.listing().filter(shown_by(self.filter))
    }

    /// How many todos there are.
    pub open spec fn total_count(self) -> nat {
        self.listing().len()
    }

    /// How many todos are open.
    pub open spec fn active_count(self) -> nat {
        self.listing().filter(open_todo()).len()
    }

    /// How many todos are completed: all but the open ones.
    pub open spec fn completed_count(self) -> nat {
        (self.total_count() - self.active_count()) as nat
    }

    /// Whether there are todos and none of them is open.
    pub open spec fn all_completed(self) -> bool {
        self.total_count() > 0 && self.active_count() == 0
    }

    /// Whether some todo is completed.
    pub open spec fn has_completed(self) -> bool {
        self.completed_count() > 0
    }
}

/// The filter that shows all leaves a list of todos as it is.
pub proof fn lemma_all_shown(todos: Seq<TodoView>)
    ensures
        todos.filter(shown_by(Filter::All)) == todos,
    decreases todos.len(),
{
    if todos.len() == 0 {
        assert(todos.filter(shown_by(Filter::All)) =~= todos);
    } else {
        let front = todos.drop_last();
        lemma_all_shown(front);
        assert(todos =~= front.push(todos.last()));
        Seq::lemma_filter_push(front, todos.last(), shown_by(Filter::All));
    }
}

/// A text that is not blank trims to a title.
pub proof fn lemma_trim_gives_title(text: Seq<char>)
    requires
        trim(text).len() > 0,
    ensures
        is_title(trim(text)),
{
    lemma_trim_twice(text);
}

/// The titles of the sample todos are titles.
pub proof fn lemma_mock_titles()
    ensures
        is_title("Do Right"@),
        is_title("Be The Crew"@),
        is_title("Own It"@),
        is_title("Chew The Strap"@),
{
    reveal_strlit("Do Right");
    reveal_strlit("Be The Crew");
    reveal_strlit("Own It");
    reveal_strlit("Chew The Strap");
    lemma_trim_span("Do Right"@, 0, 8);
    lemma_trim_span("Be The Crew"@, 0, 11);
    lemma_trim_span("Own It"@, 0, 6);
    lemma_trim_span("Chew The Strap"@, 0, 14);
    assert("Do Right"@.subrange(0, 8) =~= "Do Right"@);
    assert("Be The Crew"@.subrange(0, 11) =~= "Be The Crew"@);
    assert("Own It"@.subrange(0, 6) =~= "Own It"@);
    assert("Chew The Strap"@.subrange(0, 14) =~= "Chew The Strap"@);
}

impl ModelView {
    /// Every rule takes a well-formed state to a well-formed state.
    pub proof fn lemma_rules_keep_wf(self)
        requires
            self.wf(),
        ensures
            forall|path: Seq<char>| (#[trigger] self.url_changed(path)).wf(),
            forall|title: Seq<char>| (#[trigger] self.new_todo_title_changed(title)).wf(),
            forall|id: u128| (#[trigger] self.create_todo(id)).wf(),
            forall|id: u128| (#[trigger] self.toggle_todo(id)).wf(),
            forall|id: u128| (#[trigger] self.remove_todo(id)).wf(),
            self.check_or_uncheck_all().wf(),
            self.clear_completed().wf(),
            forall|id: Option<u128>| (#[trigger] self.select_todo(id)).wf(),
            forall|title: Seq<char>| (#[trigger] self.selected_todo_title_changed(title)).wf(),
            self.save_selected_todo().wf(),
            forall|a: u128, b: u128, c: u128, d: u128|
                (#[trigger] self.add_mock_data(a, b, c, d)).wf(),
    {
        if trim(self.new_todo_title).len() > 0 {
            lemma_trim_gives_title(self.new_todo_title);
        }
        assert(self.check_or_uncheck_all().todos.dom() =~= self.todos.dom());
        assert(self.clear_completed().todos.dom().subset_of(self.todos.dom()));
        if let Some(s) = self.selected_todo {
            if trim(s.title).len() > 0 {
                lemma_trim_gives_title(s.title);
            }
        }
        lemma_mock_titles();
    }

    /// A message takes a well-formed state to a well-formed state, whatever
    /// identifier a new todo gets.
    pub proof fn lemma_reduce_keeps_wf(self, msg: Msg, fresh: u128)
        requires
            self.wf(),
        ensures
            self.reduce(msg, fresh).wf(),
    {
        self.lemma_rules_keep_wf();
    }
}

} // verus!

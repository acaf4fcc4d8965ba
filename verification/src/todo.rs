//! The records of the task list: a todo, the todo under edit, and the filter
//! that picks what is shown.

use crate::text::str_eq;
use vstd::prelude::*;

verus! {

/// One task.
#[derive(Debug, PartialEq, Eq)]
pub struct Todo {
    pub id: u128,
    pub title: String,
    pub completed: bool,
}

/// What a [`Todo`] stands for.
pub struct TodoView {
    pub id: u128,
    pub title: Seq<char>,
    pub completed: bool,
}

impl View for Todo {
    type V = TodoView;

    open spec fn view(&self) -> TodoView {
        TodoView { id: self.id, title: self.title@, completed: self.completed }
    }
}

impl Clone for Todo {
    fn clone(&self) -> (r: Todo)
        ensures
            r == *self,
    {
        Todo { id: self.id, title: self.title.clone(), completed: self.completed }
    }
}

/// What a list of todos stands for.
pub open spec fn todo_views(todos: Seq<Todo>) -> Seq<TodoView> {
    todos.map_values(|t: Todo| t@)
}

/// The todo under edit: its identifier and the title as typed so far.
#[derive(Debug, PartialEq, Eq)]
pub struct SelectedTodo {
    pub id: u128,
    pub title: String,
}

/// What a [`SelectedTodo`] stands for.
pub struct SelectedTodoView {
    pub id: u128,
    pub title: Seq<char>,
}

impl Clone for SelectedTodo {
    fn clone(&self) -> (r: SelectedTodo)
        ensures
            r == *self,
    {
        SelectedTodo { id: self.id, title: self.title.clone() }
    }
}

impl View for SelectedTodo {
    type V = SelectedTodoView;

    open spec fn view(&self) -> SelectedTodoView {
        SelectedTodoView { id: self.id, title: self.title@ }
    }
}

/// Which todos a page shows.
#[derive(Clone, Copy, Debug, PartialEq, Eq, Structural)]
pub enum Filter {
    All,
    Active,
    Completed,
}

impl Filter {
    /// Whether a todo with this completion flag is shown.
    pub open spec fn admits(self, completed: bool) -> bool {
        match self {
            Filter::All => true,
            Filter::Active => !completed,
            Filter::Completed => completed,
        }
    }

    /// The filter that a location's path asks for.
    pub open spec fn of_path(path: Seq<char>) -> Filter {
        if path == "/active"@ {
            Filter::Active
        } else if path == "/completed"@ {
            Filter::Completed
        } else {
            Filter::All
        }
    }

    /// The path that asks for this filter.
    pub open spec fn to_path(self) -> Seq<char> {
        match self {
            Filter::All => "/"@,
            Filter::Active => "/active"@,
            Filter::Completed => "/completed"@,
        }
    }

    /// Gives the path that asks for this filter; [`Filter::from_path`]
    /// reads the filter back from it.
    pub fn path(self) -> (r: &'static str)
        ensures
            r@ == self.to_path(),
            Filter::of_path(r@) == self,
    {
        proof {
            reveal_strlit("/");
            reveal_strlit("/active");
            reveal_strlit("/completed");
            assert("/"@.len() == 1 && "/active"@.len() == 7 && "/completed"@.len() == 10);
        }
        match self {
            Filter::All => "/",
            Filter::Active => "/active",
            Filter::Completed => "/completed",
        }
    }

    /// Tells whether `todo` is shown under this filter.
    pub fn shows(self, todo: &Todo) -> (b: bool)
        ensures
            b == self.admits(todo.completed),
    {
        match self {
            Filter::All => true,
            Filter::Active => !todo.completed,
            Filter::Completed => todo.completed,
        }
    }

    /// Reads the filter off a location's path: `/active` and `/completed`
    /// name their filters, every other path shows all.
    pub fn from_path(path: &str) -> (f: Filter)
        ensures
            f == Filter::of_path(path@),
    {
        if str_eq(path, "/active") {
            Filter::Active
        } else if str_eq(path, "/completed") {
            Filter::Completed
        } else {
            Filter::All
        }
    }
}

} // verus!

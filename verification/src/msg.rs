//! The messages that the task list reacts to.

use crate::text::str_eq;
use vstd::prelude::*;

verus! {

/// The key that turns the typed text into a todo.
pub const ENTER_KEY: &'static str = "Enter";

/// An event that changes the state.
#[derive(Debug, PartialEq, Eq)]
pub enum Msg {
    /// The location changed; the message carries its path.
    UrlChanged(String),
    /// The text typed for a new todo changed.
    NewTodoTitleChanged(String),
    /// The typed text is to become a todo.
    CreateTodo,
    /// A todo's completion flag is to flip.
    ToggleTodo(u128),
    /// A todo is to go.
    RemoveTodo(u128),
    /// All todos are to be completed, or reopened if all are completed.
    CheckOrUncheckAll,
    /// The completed todos are to go.
    ClearCompleted,
    /// A todo is picked for editing, or the edit is dropped.
    SelectTodo(Option<u128>),
    /// The title typed for the todo under edit changed.
    SelectedTodoTitleChanged(String),
    /// The title typed for the todo under edit is to be kept.
    SaveSelectedTodo,
}

impl Msg {
    /// The message that a key pressed in the field for a new todo stands
    /// for: the enter key asks for the todo, no other key asks for anything.
    pub fn for_new_todo_key(key: &str) -> (r: Option<Msg>)
        ensures
            key@ == ENTER_KEY@ ==> r == Some(Msg::CreateTodo),
            key@ != ENTER_KEY@ ==> r is None,
    {
        if str_eq(key, ENTER_KEY) {
            Some(Msg::CreateTodo)
        } else {
            None
        }
    }
}

} // verus!

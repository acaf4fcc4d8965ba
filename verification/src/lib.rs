//! The state and rules of a task list: todos kept in the order of their
//! identifiers, the messages that change them, and what a page shows of them.

mod id;
pub mod laws;
pub mod model;
pub mod msg;
pub mod order;
pub mod page;
pub mod rules;
mod store;
pub mod text;
pub mod todo;
pub mod update;

pub use model::Model;
pub use msg::{Msg, ENTER_KEY};
pub use page::{item_label, items_left_label, view, ViewModel};
pub use todo::{Filter, SelectedTodo, Todo};
pub use update::{init, update, update_with_id};

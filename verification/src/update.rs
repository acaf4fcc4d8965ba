//! The reducer: one message, one step of the state.

use crate::id::fresh_id;
use crate::model::Model;
use crate::msg::Msg;
use crate::rules::ModelView;
use vstd::prelude::*;

verus! {

/// Applies `msg` to `model`. A todo that `msg` creates is kept under
/// `fresh`; no other message reads it.
pub fn update_with_id(msg: Msg, model: &mut Model, fresh: u128)
    ensures
        final(model)@ == old(model)@.reduce(msg, fresh),
        old(model)@.wf() ==> final(model)@.wf(),
{
    match msg {
        Msg::UrlChanged(path) => model.url_changed(path.as_str()),
        Msg::NewTodoTitleChanged(title) => model.new_todo_title_changed(title),
        Msg::CreateTodo => model.create_todo(fresh),
        Msg::ToggleTodo(id) => model.toggle_todo(id),
        Msg::RemoveTodo(id) => model.remove_todo(id),
        Msg::CheckOrUncheckAll => model.check_or_uncheck_all(),
        Msg::ClearCompleted => model.clear_completed(),
        Msg::SelectTodo(id) => model.select_todo(id),
        Msg::SelectedTodoTitleChanged(title) => model.selected_todo_title_changed(title),
        Msg::SaveSelectedTodo => model.save_selected_todo(),
    }
}

/// Applies `msg` to `model`. A todo that `msg` creates is kept under an
/// identifier made for it, so the state that results is the one that
/// [`update_with_id`] gives for some identifier; for every other message
/// it is the one that [`update_with_id`] gives whatever the identifier.
pub fn update(msg: Msg, model: &mut Model)
    ensures
        exists|fresh: u128| final(model)@ == #[trigger] old(model)@.reduce(msg, fresh),
        !(msg is CreateTodo) ==> forall|fresh: u128|
            final(model)@ == #[trigger] old(model)@.reduce(msg, fresh),
        old(model)@.wf() ==> final(model)@.wf(),
{
    let fresh: u128 = match &msg {
        Msg::CreateTodo => fresh_id(),
        _ => 0,
    };
    update_with_id(msg, model, fresh);
    assert(model@ == old(model)@.reduce(msg, fresh));
}

/// The state at the start: no text, no edit, all shown, and the four
/// sample todos, each under an identifier made for it.
pub fn init() -> (model: Model)
    ensures
        exists|a: u128, b: u128, c: u128, d: u128|
            model@ == #[trigger] ModelView::empty().add_mock_data(a, b, c, d),
        model@.wf(),
{
    Model::new().add_mock_data()
}

} // verus!

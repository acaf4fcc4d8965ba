//! What holds of the rules, whatever the state and the messages.

use crate::msg::Msg;
use crate::order::{ascending, increasing, lemma_ascending, lemma_ascending_unique};
use crate::rules::{completed_todo, open_todo, ModelView};
use crate::text::trim;
use crate::todo::TodoView;
use vstd::prelude::*;

verus! {

/// Only the creation of a todo reads the fresh identifier: every other
/// message gives one state, whatever identifier is at hand.
pub proof fn lemma_fresh_serves_creation_only(m: ModelView, msg: Msg, a: u128, b: u128)
    requires
        !(msg is CreateTodo),
    ensures
        m.reduce(msg, a) == m.reduce(msg, b),
{
}

/// Dropping the edit twice gives the state that dropping it once gives.
pub proof fn lemma_deselect_twice(m: ModelView, a: u128, b: u128)
    ensures
        m.select_todo(None).select_todo(None) == m.select_todo(None),
        m.reduce(Msg::SelectTodo(None), a).reduce(Msg::SelectTodo(None), b) == m.reduce(
            Msg::SelectTodo(None),
            a,
        ),
{
}

/// Picking a todo for edit and saving at once ends the edit, and changes
/// nothing else where the todo exists: its title stays as it was.
pub proof fn lemma_select_then_save(m: ModelView, id: u128)
    requires
        m.wf(),
    ensures
        m.select_todo(Some(id)).save_selected_todo().selected_todo is None,
        m.todos.contains_key(id) ==> m.select_todo(Some(id)).save_selected_todo() == (ModelView {
            selected_todo: None,
            ..m
        }),
        m.todos.contains_key(id) ==> m.select_todo(Some(id)).save_selected_todo().todos[id].title
            == m.todos[id].title,
{
    if m.todos.contains_key(id) {
        let after = m.select_todo(Some(id)).save_selected_todo();
        assert(after.todos =~= m.todos);
    }
}

/// The state after the messages `msgs`, taken in turn from `m`; `ids[i]` is
/// the identifier at hand for `msgs[i]`.
pub open spec fn run(m: ModelView, msgs: Seq<Msg>, ids: Seq<u128>) -> ModelView
    decreases msgs.len(),
{
    if msgs.len() == 0 {
        m
    } else {
        run(m, msgs.drop_last(), ids.drop_last()).reduce(msgs.last(), ids.last())
    }
}

/// After any messages a well-formed state is well formed; so a todo under
/// edit is always one of the todos.
pub proof fn lemma_run_keeps_wf(m: ModelView, msgs: Seq<Msg>, ids: Seq<u128>)
    requires
        m.wf(),
    ensures
        run(m, msgs, ids).wf(),
        run(m, msgs, ids).selected_todo matches Some(s) ==> run(m, msgs, ids).todos.contains_key(
            s.id,
        ),
    decreases msgs.len(),
{
    if msgs.len() > 0 {
        lemma_run_keeps_wf(m, msgs.drop_last(), ids.drop_last());
        run(m, msgs.drop_last(), ids.drop_last()).lemma_reduce_keeps_wf(msgs.last(), ids.last());
    }
}

/// Of a list of todos, the open ones and the completed ones are all.
pub proof fn lemma_open_or_completed(todos: Seq<TodoView>)
    ensures
        todos.filter(open_todo()).len() + todos.filter(completed_todo()).len() == todos.len(),
    decreases todos.len(),
{
    if todos.len() == 0 {
        assert(todos.filter(open_todo()) =~= Seq::<TodoView>::empty());
        assert(todos.filter(completed_todo()) =~= Seq::<TodoView>::empty());
    } else {
        let front = todos.drop_last();
        lemma_open_or_completed(front);
        assert(todos =~= front.push(todos.last()));
        Seq::lemma_filter_push(front, todos.last(), open_todo());
        Seq::lemma_filter_push(front, todos.last(), completed_todo());
    }
}

/// The open todos and the completed todos add up to all todos, and the
/// completed count is the number of completed todos.
pub proof fn lemma_counts_add_up(m: ModelView)
    ensures
        m.active_count() + m.completed_count() == m.total_count(),
        m.completed_count() == m.listing().filter(completed_todo()).len(),
{
    lemma_open_or_completed(m.listing());
}

/// The listing of a well-formed state holds each todo once, and nothing
/// else, in the increasing order of the identifiers.
pub proof fn lemma_listing(m: ModelView)
    requires
        m.wf(),
    ensures
        m.listing().len() == m.todos.dom().len(),
        forall|i: int|
            0 <= i < m.listing().len() ==> m.todos.contains_key((#[trigger] m.listing()[i]).id)
                && m.todos[m.listing()[i].id] == m.listing()[i],
        forall|i: int, j: int|
            0 <= i < j < m.listing().len() ==> m.listing()[i].id < m.listing()[j].id,
        forall|id: u128| #[trigger]
            m.todos.contains_key(id) ==> m.listing().contains(m.todos[id]),
{
    let ids = ascending(m.todos.dom());
    lemma_ascending(m.todos.dom());
    assert forall|i: int| 0 <= i < ids.len() implies m.todos.contains_key(#[trigger] ids[i]) by {
        assert(ids.contains(ids[i]));
    }
    assert forall|id: u128| #[trigger] m.todos.contains_key(id) implies m.listing().contains(
        m.todos[id],
    ) by {
        assert(ids.contains(id));
        let i = choose|i: int| 0 <= i < ids.len() && ids[i] == id;
        assert(m.listing()[i] == m.todos[id]);
    }
}

/// A list of todos with increasing identifiers that holds each todo of a
/// well-formed state, and nothing else, is the state's listing.
pub proof fn lemma_listing_unique(m: ModelView, todos: Seq<TodoView>)
    requires
        m.wf(),
        forall|i: int, j: int| 0 <= i < j < todos.len() ==> todos[i].id < todos[j].id,
        forall|i: int|
            0 <= i < todos.len() ==> m.todos.contains_key((#[trigger] todos[i]).id)
                && m.todos[todos[i].id] == todos[i],
        forall|id: u128| #[trigger] m.todos.contains_key(id) ==> todos.contains(m.todos[id]),
    ensures
        todos == m.listing(),
{
    let ids = todos.map_values(|t: TodoView| t.id);
    assert(increasing(ids));
    assert forall|id: u128| ids.contains(id) <==> m.todos.dom().contains(id) by {
        if m.todos.contains_key(id) {
            let i = choose|i: int| 0 <= i < todos.len() && todos[i] == m.todos[id];
            assert(ids[i] == id);
        }
        if ids.contains(id) {
            let i = choose|i: int| 0 <= i < ids.len() && ids[i] == id;
            assert(todos[i].id == id);
        }
    }
    assert(ids.to_set() =~= m.todos.dom());
    lemma_ascending_unique(m.todos.dom(), ids);
    assert(todos =~= m.listing());
}

/// No todo of a well-formed state is open exactly when the count of open
/// todos is zero.
pub proof fn lemma_every_completed_iff_none_active(m: ModelView)
    requires
        m.wf(),
    ensures
        m.every_todo_completed() <==> m.active_count() == 0,
{
    let listing = m.listing();
    lemma_listing(m);
    if m.every_todo_completed() {
        assert forall|i: int| 0 <= i < listing.len() implies !open_todo()(
            #[trigger] listing[i],
        ) by {
            assert(m.todos.contains_key(listing[i].id));
        }
        listing.lemma_all_neg_filter_empty(open_todo());
    } else {
        let id = choose|id: u128| m.todos.contains_key(id) && !m.todos[id].completed;
        assert(listing.contains(m.todos[id]));
        listing.lemma_filter_contains_rev(open_todo(), m.todos[id]);
    }
}

/// A todo made under an identifier that is not in use is one more todo, and
/// leaves the others as they were.
pub proof fn lemma_create_adds_one(m: ModelView, id: u128)
    requires
        m.wf(),
        trim(m.new_todo_title).len() > 0,
        !m.todos.contains_key(id),
    ensures
        m.create_todo(id).total_count() == m.total_count() + 1,
        m.create_todo(id).todos[id] == (TodoView {
            id,
            title: trim(m.new_todo_title),
            completed: false,
        }),
        forall|other: u128| #[trigger]
            m.todos.contains_key(other) ==> m.create_todo(id).todos.contains_key(other)
                && m.create_todo(id).todos[other] == m.todos[other],
{
    m.lemma_rules_keep_wf();
    lemma_listing(m);
    lemma_listing(m.create_todo(id));
}

/// A todo made under an identifier above all others is the last of the
/// listing, after the todos that were there.
pub proof fn lemma_create_appends(m: ModelView, id: u128)
    requires
        m.wf(),
        trim(m.new_todo_title).len() > 0,
        forall|other: u128| m.todos.contains_key(other) ==> other < id,
    ensures
        m.create_todo(id).listing() == m.listing().push(
            TodoView { id, title: trim(m.new_todo_title), completed: false },
        ),
{
    let after = m.create_todo(id);
    let todos = m.listing().push(TodoView { id, title: trim(m.new_todo_title), completed: false });
    m.lemma_rules_keep_wf();
    lemma_listing(m);
    assert forall|other: u128| #[trigger] after.todos.contains_key(other) implies todos.contains(
        after.todos[other],
    ) by {
        if other == id {
            assert(todos[todos.len() - 1] == after.todos[id]);
        } else {
            let i = choose|i: int| 0 <= i < m.listing().len() && m.listing()[i] == m.todos[other];
            assert(todos[i] == after.todos[other]);
        }
    }
    lemma_listing_unique(after, todos);
}

} // verus!

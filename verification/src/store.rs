//! The todos as they are stored: a B-tree map from identifier to todo, read
//! and rewritten as a whole.

use crate::order::{ascending, increasing, lemma_ascending, lemma_ascending_unique};
use crate::todo::Todo;
use std::collections::BTreeMap;
use vstd::prelude::*;
use vstd::seq_lib::lemma_seq_contains_after_push;
use vstd::std_specs::btree::*;
use vstd::std_specs::cmp::OrdSpec;
use vstd::std_specs::iter::IteratorSpec;

verus! {

/// Lists the entries of `todos`, smallest identifier first.
pub(crate) fn in_order(todos: &BTreeMap<u128, Todo>) -> (r: Vec<(u128, &Todo)>)
    ensures
        r@.len() == ascending(todos@.dom()).len(),
        forall|i: int|
            0 <= i < r@.len() ==> {
                &&& (#[trigger] r@[i]).0 == ascending(todos@.dom())[i]
                &&& todos@.contains_key(r@[i].0)
                &&& *r@[i].1 == todos@[r@[i].0]
            },
{
    let mut out: Vec<(u128, &Todo)> = Vec::new();
    let entries = todos.iter();
    let ghost es = entries.remaining();
    let ghost keys = es.map_values(|kv: (&u128, &Todo)| *kv.0);
    for entry in it: entries
        invariant
            it.seq() == es,
            out@.len() == it.index(),
            forall|i: int|
                0 <= i < out@.len() ==> (#[trigger] out@[i]).0 == *es[i].0 && *out@[i].1
                    == *es[i].1,
    {
        out.push((*entry.0, entry.1));
    }
    proof {
        axiom_increasing_seq_meaning::<u128>(keys);
        assert forall|i: int, j: int| 0 <= i < j < keys.len() implies keys[i] < keys[j] by {
            assert(OrdSpec::cmp_spec(&keys[i], &keys[j]) is Less);
        }
        assert(increasing(keys));
        assert forall|k: u128| keys.contains(k) <==> todos@.contains_key(k) by {
            if todos@.contains_key(k) {
                let i = choose|i: int| 0 <= i < es.len() && es[i] == (&k, &todos@[k]);
                assert(keys[i] == k);
            }
        }
        assert(keys.to_set() =~= todos@.dom());
        lemma_ascending_unique(todos@.dom(), keys);
    }
    out
}

/// Tells whether no todo of `todos` is open.
pub(crate) fn every_completed(todos: &BTreeMap<u128, Todo>) -> (r: bool)
    ensures
        r == forall|id: u128| #[trigger] todos@.contains_key(id) ==> todos@[id].completed,
{
    let entries = in_order(todos);
    let ghost ids = ascending(todos@.dom());
    proof {
        lemma_ascending(todos@.dom());
    }
    let mut i: usize = 0;
    while i < entries.len()
        invariant
            i <= entries@.len(),
            entries@.len() == ids.len(),
            forall|j: int|
                0 <= j < entries@.len() ==> {
                    &&& (#[trigger] entries@[j]).0 == ids[j]
                    &&& todos@.contains_key(entries@[j].0)
                    &&& *entries@[j].1 == todos@[entries@[j].0]
                },
            forall|j: int| 0 <= j < i ==> todos@[#[trigger] ids[j]].completed,
        decreases entries@.len() - i,
    {
        if !entries[i].1.completed {
            return false;
        }
        i = i + 1;
    }
    assert forall|id: u128| #[trigger] todos@.contains_key(id) implies todos@[id].completed by {
        assert(ids.contains(id));
    }
    true
}

/// Gives every todo of `todos` the flag `completed`.
pub(crate) fn set_all_completed(todos: &mut BTreeMap<u128, Todo>, completed: bool)
    ensures
        final(todos)@.dom() == old(todos)@.dom(),
        forall|id: u128| #[trigger]
            old(todos)@.contains_key(id) ==> final(todos)@[id] == (Todo {
                completed,
                ..old(todos)@[id]
            }),
{
    let ghost before = todos@;
    let ghost ids = ascending(before.dom());
    let mut keys: Vec<u128> = Vec::new();
    let entries = in_order(todos);
    let mut k: usize = 0;
    while k < entries.len()
        invariant
            k <= entries@.len(),
            entries@.len() == ids.len(),
            keys@.len() == k,
            forall|j: int| 0 <= j < entries@.len() ==> (#[trigger] entries@[j]).0 == ids[j],
            forall|j: int| 0 <= j < k ==> keys@[j] == ids[j],
        decreases entries@.len() - k,
    {
        keys.push(entries[k].0);
        k = k + 1;
    }
    proof {
        lemma_ascending(before.dom());
        assert(keys@ =~= ids);
    }
    let mut i: usize = 0;
    while i < keys.len()
        invariant
            i <= keys@.len(),
            keys@ == ids,
            ids.no_duplicates(),
            forall|id: u128| ids.contains(id) <==> before.contains_key(id),
            todos@.dom() == before.dom(),
            forall|j: int|
                0 <= j < ids.len() ==> todos@[#[trigger] ids[j]] == (if j < i {
                    Todo { completed, ..before[ids[j]] }
                } else {
                    before[ids[j]]
                }),
        decreases keys@.len() - i,
    {
        let id = keys[i];
        assert(ids.contains(id));
        let ghost middle = todos@;
        match todos.remove(&id) {
            Some(mut todo) => {
                todo.completed = completed;
                todos.insert(id, todo);
            },
            None => {},
        }
        assert(todos@.dom() =~= before.dom());
        assert forall|j: int| 0 <= j < ids.len() implies todos@[#[trigger] ids[j]] == (if j < i
            + 1 {
            Todo { completed, ..before[ids[j]] }
        } else {
            before[ids[j]]
        }) by {
            if j != i {
                assert(ids[j] != id);
                assert(todos@[ids[j]] == middle[ids[j]]);
            }
        }
        i = i + 1;
    }
    assert forall|id: u128| #[trigger] before.contains_key(id) implies todos@[id] == (Todo {
        completed,
        ..before[id]
    }) by {
        assert(ids.contains(id));
    }
}

/// Removes the completed todos from `todos`.
pub(crate) fn remove_completed(todos: &mut BTreeMap<u128, Todo>)
    ensures
        forall|id: u128|
            final(todos)@.contains_key(id) <==> #[trigger] old(todos)@.contains_key(id) && !old(
                todos,
            )@[id].completed,
        forall|id: u128| #[trigger]
            final(todos)@.contains_key(id) ==> final(todos)@[id] == old(todos)@[id],
{
    let ghost before = todos@;
    let ghost ids = ascending(before.dom());
    let mut done: Vec<u128> = Vec::new();
    let entries = in_order(todos);
    let mut k: usize = 0;
    while k < entries.len()
        invariant
            k <= entries@.len(),
            entries@.len() == ids.len(),
            forall|j: int|
                0 <= j < entries@.len() ==> {
                    &&& (#[trigger] entries@[j]).0 == ids[j]
                    &&& before.contains_key(entries@[j].0)
                    &&& *entries@[j].1 == before[entries@[j].0]
                },
            forall|j: int|
                0 <= j < done@.len() ==> before.contains_key(#[trigger] done@[j])
                    && before[done@[j]].completed,
            forall|j: int|
                0 <= j < k && before[ids[j]].completed ==> done@.contains(#[trigger] ids[j]),
        decreases entries@.len() - k,
    {
        if entries[k].1.completed {
            let ghost earlier = done@;
            done.push(entries[k].0);
            assert(done@[done@.len() - 1] == ids[k as int]);
            assert forall|j: int| 0 <= j < k + 1 && before[ids[j]].completed implies done@.contains(
                #[trigger] ids[j],
            ) by {
                if j < k {
                    let at = choose|at: int| 0 <= at < earlier.len() && earlier[at] == ids[j];
                    assert(done@[at] == ids[j]);
                }
            }
        }
        k = k + 1;
    }
    proof {
        lemma_ascending(before.dom());
        assert forall|id: u128|
            done@.contains(id) <==> #[trigger] before.contains_key(id)
                && before[id].completed by {
            if before.contains_key(id) && before[id].completed {
                assert(ids.contains(id));
                let j = choose|j: int| 0 <= j < ids.len() && ids[j] == id;
                assert(done@.contains(ids[j]));
            }
        }
    }
    let mut i: usize = 0;
    while i < done.len()
        invariant
            i <= done@.len(),
            forall|id: u128|
                done@.contains(id) <==> #[trigger] before.contains_key(id) && before[id].completed,
            forall|id: u128| #[trigger]
                todos@.contains_key(id) <==> before.contains_key(id) && !done@.take(
                    i as int,
                ).contains(id),
            forall|id: u128| #[trigger] todos@.contains_key(id) ==> todos@[id] == before[id],
        decreases done@.len() - i,
    {
        let id = done[i];
        todos.remove(&id);
        proof {
            done@.lemma_take_succ_push(i as int);
            assert forall|other: u128| #[trigger]
                todos@.contains_key(other) <==> before.contains_key(other) && !done@.take(
                    i + 1,
                ).contains(other) by {
                lemma_seq_contains_after_push(done@.take(i as int), id, other);
            }
        }
        i = i + 1;
    }
    proof {
        done@.lemma_take_len();
    }
    assert forall|id: u128|
        todos@.contains_key(id) <==> #[trigger] before.contains_key(id)
            && !before[id].completed by {}
}

} // verus!

//! Identifiers in ascending order: the order in which a list of todos is
//! read.

use vstd::multiset::*;
use vstd::prelude::*;
use vstd::relations::*;
use vstd::seq_lib::*;

verus! {

/// Whether each identifier of `s` is below all that follow it.
pub open spec fn increasing(s: Seq<u128>) -> bool {
    forall|i: int, j: int| 0 <= i < j < s.len() ==> s[i] < s[j]
}

/// The order of identifiers, as a relation.
pub open spec fn at_most() -> spec_fn(u128, u128) -> bool {
    |a: u128, b: u128| a <= b
}

/// The identifiers of `ids`, smallest first.
pub open spec fn ascending(ids: Set<u128>) -> Seq<u128> {
    ids.to_sorted_seq(at_most())
}

/// A finite set lists into as many items as it has members.
proof fn lemma_to_seq_len(ids: Set<u128>)
    requires
        ids.finite(),
    ensures
        ids.to_seq().len() == ids.len(),
    decreases ids.len(),
{
    if ids.len() != 0 {
        let x = ids.choose();
        lemma_to_seq_len(ids.remove(x));
    }
}

/// Two lists without repetition that hold the same items hold each item
/// equally often.
proof fn lemma_same_items_same_counts(a: Seq<u128>, b: Seq<u128>)
    requires
        a.no_duplicates(),
        b.no_duplicates(),
        a.to_set() == b.to_set(),
    ensures
        a.to_multiset() == b.to_multiset(),
{
    broadcast use group_multiset_axioms;

    a.to_multiset_ensures();
    b.to_multiset_ensures();
    a.lemma_multiset_has_no_duplicates();
    b.lemma_multiset_has_no_duplicates();
    assert forall|x: u128| a.to_multiset().count(x) == b.to_multiset().count(x) by {
        assert(a.contains(x) <==> a.to_set().contains(x));
        assert(b.contains(x) <==> b.to_set().contains(x));
    }
    assert(a.to_multiset() =~= b.to_multiset());
}

/// The ascending list of a finite set holds each member once, and nothing
/// else, in increasing order.
pub proof fn lemma_ascending(ids: Set<u128>)
    requires
        ids.finite(),
    ensures
        increasing(ascending(ids)),
        ascending(ids).no_duplicates(),
        ascending(ids).to_set() == ids,
        ascending(ids).len() == ids.len(),
        forall|k: u128| ascending(ids).contains(k) <==> ids.contains(k),
{
    broadcast use group_multiset_axioms;

    let listed = ids.to_seq();
    let sorted = ascending(ids);
    lemma_to_seq_len(ids);
    ids.lemma_to_seq_to_set_id();
    listed.lemma_no_dup_set_cardinality();
    assert(total_ordering(at_most()));
    listed.lemma_sort_by_ensures(at_most());
    listed.to_multiset_ensures();
    sorted.to_multiset_ensures();
    listed.lemma_multiset_has_no_duplicates();
    sorted.lemma_multiset_has_no_duplicates_conv();
    assert forall|k: u128| sorted.contains(k) <==> ids.contains(k) by {
        assert(listed.contains(k) <==> listed.to_set().contains(k));
        assert(listed.to_multiset().count(k) == sorted.to_multiset().count(k));
    }
    assert(sorted.to_set() =~= ids);
    assert forall|i: int, j: int| 0 <= i < j < sorted.len() implies sorted[i] < sorted[j] by {
        assert(at_most()(sorted[i], sorted[j]));
    }
}

/// There is one increasing list of a set's members: any such list is the
/// ascending one.
pub proof fn lemma_ascending_unique(ids: Set<u128>, s: Seq<u128>)
    requires
        increasing(s),
        s.to_set() == ids,
    ensures
        s == ascending(ids),
{
    seq_to_set_is_finite(s);
    lemma_ascending(ids);
    let sorted = ascending(ids);
    assert(s.no_duplicates());
    lemma_same_items_same_counts(s, sorted);
    assert(total_ordering(at_most()));
    assert(sorted_by(s, at_most()));
    assert(sorted_by(sorted, at_most())) by {
        assert forall|i: int, j: int| 0 <= i < j < sorted.len() implies #[trigger] at_most()(
            sorted[i],
            sorted[j],
        ) by {}
    }
    lemma_sorted_unique(s, sorted, at_most());
}

} // verus!

//! What is picked out of a sequence, and that it does not depend on the
//! order of the sequence.

use vstd::multiset::Multiset;
use vstd::prelude::*;
use vstd::seq_lib::{to_multiset_build, to_multiset_contains, to_multiset_remove};

verus! {

/// What `pick` finds in the items of a sequence, in the order of the
/// items; an item in which it finds nothing adds nothing.
pub open spec fn chosen<A, B>(items: Seq<A>, pick: spec_fn(A) -> Option<B>) -> Seq<B>
    decreases items.len(),
{
    if items.len() == 0 {
        Seq::empty()
    } else {
        match pick(items.last()) {
            Some(found) => chosen(items.drop_last(), pick).push(found),
            None => chosen(items.drop_last(), pick),
        }
    }
}

/// A multiset with one thing more, if there is one.
pub open spec fn with_found<B>(bag: Multiset<B>, found: Option<B>) -> Multiset<B> {
    match found {
        Some(thing) => bag.insert(thing),
        None => bag,
    }
}

/// No more is picked out of a sequence than it has items.
pub proof fn lemma_chosen_len<A, B>(items: Seq<A>, pick: spec_fn(A) -> Option<B>)
    ensures
        chosen(items, pick).len() <= items.len(),
    decreases items.len(),
{
    if items.len() > 0 {
        lemma_chosen_len(items.drop_last(), pick);
    }
}

/// No more is picked out of the beginning of a sequence than out of the
/// whole.
pub proof fn lemma_chosen_of_part<A, B>(items: Seq<A>, k: int, pick: spec_fn(A) -> Option<B>)
    requires
        0 <= k <= items.len(),
    ensures
        chosen(items.take(k), pick).len() <= chosen(items, pick).len(),
    decreases items.len(),
{
    if k == items.len() {
        assert(items.take(k) == items);
    } else {
        lemma_chosen_of_part(items.drop_last(), k, pick);
        assert(items.drop_last().take(k) == items.take(k));
    }
}

/// What is picked out of a sequence is what is picked out of the
/// sequence without one item, and what is found in that item.
proof fn lemma_chosen_without<A, B>(items: Seq<A>, j: int, pick: spec_fn(A) -> Option<B>)
    requires
        0 <= j < items.len(),
    ensures
        chosen(items, pick).to_multiset() == with_found(
            chosen(items.remove(j), pick).to_multiset(),
            pick(items[j]),
        ),
    decreases items.len(),
{
    broadcast use vstd::multiset::group_multiset_axioms;

    let shorter = items.drop_last();
    if j == items.len() - 1 {
        assert(items.remove(j) == shorter);
        if let Some(found) = pick(items.last()) {
            to_multiset_build(chosen(shorter, pick), found);
        }
    } else {
        lemma_chosen_without(shorter, j, pick);
        let rest = items.remove(j);
        assert(rest.drop_last() == shorter.remove(j));
        assert(rest.last() == items.last());
        let inner = chosen(shorter.remove(j), pick);
        if let Some(found) = pick(items.last()) {
            to_multiset_build(chosen(shorter, pick), found);
            to_multiset_build(inner, found);
            assert(with_found(inner.to_multiset(), pick(items[j])).insert(found) =~= with_found(
                inner.to_multiset().insert(found),
                pick(items[j]),
            ));
        }
    }
}

/// What is picked out of a sequence does not depend on the order of the
/// sequence, but for its own order.
pub proof fn lemma_chosen_ignores_order<A, B>(a: Seq<A>, b: Seq<A>, pick: spec_fn(A) -> Option<B>)
    requires
        a.to_multiset() == b.to_multiset(),
    ensures
        chosen(a, pick).to_multiset() == chosen(b, pick).to_multiset(),
        chosen(a, pick).len() == chosen(b, pick).len(),
    decreases a.len(),
{
    a.to_multiset_ensures();
    b.to_multiset_ensures();
    if a.len() == 0 {
        assert(b.len() == 0);
    } else {
        let last = a.last();
        let rest = a.drop_last();
        assert(a == rest.push(last));
        to_multiset_build(rest, last);
        to_multiset_contains(b, last);
        assert(b.to_multiset().count(last) > 0);
        let j = choose|j: int| 0 <= j < b.len() && b[j] == last;
        to_multiset_remove(b, j);
        assert(rest.to_multiset() =~= b.remove(j).to_multiset());
        lemma_chosen_ignores_order(rest, b.remove(j), pick);
        lemma_chosen_without(b, j, pick);
        if let Some(found) = pick(last) {
            to_multiset_build(chosen(rest, pick), found);
        }
    }
    chosen(a, pick).to_multiset_ensures();
    chosen(b, pick).to_multiset_ensures();
}

} // verus!

//! Finding the first item of a list that meets a condition.

use vstd::prelude::*;

verus! {

/// The first item of `items` that meets `pred`.
pub open spec fn first_where<T>(items: Seq<T>, pred: spec_fn(T) -> bool) -> Option<T>
    decreases items.len(),
{
    if items.len() == 0 {
        None
    } else if pred(items[0]) {
        Some(items[0])
    } else {
        first_where(items.drop_first(), pred)
    }
}

/// An item that meets the condition, with none before it that does, is the first.
pub proof fn lemma_first_where_found<T>(items: Seq<T>, pred: spec_fn(T) -> bool, i: int)
    requires
        0 <= i < items.len(),
        pred(items[i]),
        forall|j: int| 0 <= j < i ==> !pred(#[trigger] items[j]),
    ensures
        first_where(items, pred) == Some(items[i]),
    decreases items.len(),
{
    if i > 0 {
        assert(!pred(items[0]));
        let rest = items.drop_first();
        assert forall|j: int| 0 <= j < i - 1 implies !pred(#[trigger] rest[j]) by {
            assert(rest[j] == items[j + 1]);
        }
        assert(rest[i - 1] == items[i]);
        lemma_first_where_found(rest, pred, i - 1);
    }
}

/// Where no item meets the condition there is no first.
pub proof fn lemma_first_where_none<T>(items: Seq<T>, pred: spec_fn(T) -> bool)
    requires
        forall|j: int| 0 <= j < items.len() ==> !pred(#[trigger] items[j]),
    ensures
        first_where(items, pred) is None,
    decreases items.len(),
{
    if items.len() > 0 {
        assert(!pred(items[0]));
        let rest = items.drop_first();
        assert forall|j: int| 0 <= j < rest.len() implies !pred(#[trigger] rest[j]) by {
            assert(rest[j] == items[j + 1]);
        }
        lemma_first_where_none(rest, pred);
    }
}

/// What is found meets the condition and comes from the list.
pub proof fn lemma_first_where_is_member<T>(items: Seq<T>, pred: spec_fn(T) -> bool)
    requires
        first_where(items, pred) is Some,
    ensures
        pred(first_where(items, pred)->0),
        items.contains(first_where(items, pred)->0),
    decreases items.len(),
{
    if items.len() > 0 {
        if pred(items[0]) {
            assert(items[0] == first_where(items, pred)->0);
        } else {
            let rest = items.drop_first();
            lemma_first_where_is_member(rest, pred);
            let found = first_where(rest, pred)->0;
            let k = choose|k: int| 0 <= k < rest.len() && rest[k] == found;
            assert(items[k + 1] == found);
        }
    }
}

} // verus!

//! What passes a filter.

use vstd::prelude::*;

verus! {

/// Of no items, nothing passes.
pub proof fn filter_begins<T>(items: Seq<T>, pass: spec_fn(T) -> bool)
    ensures
        items.take(0).filter(pass) == Seq::<T>::empty(),
{
    reveal(Seq::filter);
}

/// One more item follows those that passed before it, where it passes.
pub proof fn filter_goes_on<T>(items: Seq<T>, pass: spec_fn(T) -> bool, i: int)
    requires
        0 <= i < items.len(),
    ensures
        items.take(i + 1).filter(pass) == if pass(items[i]) {
            items.take(i).filter(pass).push(items[i])
        } else {
            items.take(i).filter(pass)
        },
{
    reveal(Seq::filter);
    assert(items.take(i + 1).drop_last() =~= items.take(i));
    assert(items.take(i + 1).last() == items[i]);
}

/// A filter that nothing passes leaves nothing.
pub proof fn nothing_passes<T>(items: Seq<T>, pass: spec_fn(T) -> bool)
    requires
        forall|i: int| 0 <= i < items.len() ==> !pass(#[trigger] items[i]),
    ensures
        items.filter(pass) == Seq::<T>::empty(),
    decreases items.len(),
{
    reveal(Seq::filter);
    if items.len() > 0 {
        let fewer = items.drop_last();
        assert forall|i: int| 0 <= i < fewer.len() implies !pass(#[trigger] fewer[i]) by {
            assert(items[i] == fewer[i]);
        }
        nothing_passes(fewer, pass);
        assert(!pass(items[items.len() - 1]));
    }
}

/// A filter that everything passes leaves everything.
pub proof fn everything_passes<T>(items: Seq<T>, pass: spec_fn(T) -> bool)
    requires
        forall|i: int| 0 <= i < items.len() ==> pass(#[trigger] items[i]),
    ensures
        items.filter(pass) == items,
    decreases items.len(),
{
    reveal(Seq::filter);
    if items.len() > 0 {
        let fewer = items.drop_last();
        assert forall|i: int| 0 <= i < fewer.len() implies pass(#[trigger] fewer[i]) by {
            assert(items[i] == fewer[i]);
        }
        everything_passes(fewer, pass);
        assert(pass(items[items.len() - 1]));
    }
    assert(items.filter(pass) =~= items);
}

} // verus!

//! The ends of sequences, and how filtering goes on when a sequence grows.

use vstd::prelude::*;

verus! {

/// The first `n` items of a sequence, or all where there are fewer.
pub open spec fn at_most<T>(items: Seq<T>, n: int) -> Seq<T> {
    if n <= 0 {
        Seq::empty()
    } else if n < items.len() {
        items.take(n)
    } else {
        items
    }
}

/// The last `n` items of a sequence, or all where there are fewer.
pub open spec fn last_of<T>(items: Seq<T>, n: nat) -> Seq<T> {
    if n < items.len() {
        items.skip(items.len() - n)
    } else {
        items
    }
}

/// What the filter keeps of one item more.
pub proof fn filter_grows<T>(items: Seq<T>, i: int, pred: spec_fn(T) -> bool)
    requires
        0 <= i < items.len(),
    ensures
        items.take(i + 1).filter(pred) == if pred(items[i]) {
            items.take(i).filter(pred).push(items[i])
        } else {
            items.take(i).filter(pred)
        },
{
    reveal(Seq::filter);
    assert(items.take(i + 1).drop_last() =~= items.take(i));
}

/// What a filtering map keeps of one item more.
pub proof fn filter_map_grows<T, U>(items: Seq<T>, i: int, f: spec_fn(T) -> Option<U>)
    requires
        0 <= i < items.len(),
    ensures
        items.take(i + 1).filter_map(f) == match f(items[i]) {
            Some(u) => items.take(i).filter_map(f).push(u),
            None => items.take(i).filter_map(f),
        },
{
    assert(items.take(i + 1).drop_last() =~= items.take(i));
    match f(items[i]) {
        Some(u) => {
            assert(items.take(i).filter_map(f) + seq![u] =~= items.take(i).filter_map(f).push(u));
        },
        None => {},
    }
}

/// The first `n` items are a beginning of the sequence, as long as it can be
/// without being longer than `n`.
pub proof fn first_items_are_a_beginning<T>(items: Seq<T>, n: int)
    ensures
        at_most(items, n).len() <= items.len(),
        at_most(items, n).len() == items.len() || at_most(items, n).len() == n || (n < 0 && at_most(
            items,
            n,
        ).len() == 0),
        n >= 0 ==> at_most(items, n).len() <= n,
        n < 0 ==> at_most(items, n).len() == 0,
        forall|i: int| 0 <= i < at_most(items, n).len() ==> at_most(items, n)[i] == items[i],
{
}

/// The last `n` items are an end of the sequence, as long as it can be without
/// being longer than `n`.
pub proof fn last_items_are_an_end<T>(items: Seq<T>, n: nat)
    ensures
        last_of(items, n).len() <= items.len(),
        last_of(items, n).len() <= n,
        last_of(items, n).len() == items.len() || last_of(items, n).len() == n,
        forall|i: int|
            0 <= i < last_of(items, n).len() ==> last_of(items, n)[i] == items[i + items.len()
                - last_of(items, n).len()],
{
}

} // verus!

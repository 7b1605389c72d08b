//! Facts about filtered sequences that the loops of the library rest on.

use vstd::prelude::*;

verus! {

/// What comes before the first occurrence of `end`, or everything where there is none.
pub open spec fn before<T>(items: Seq<T>, end: T) -> Seq<T> {
    match items.index_of_first(end) {
        Some(i) => items.take(i),
        None => items,
    }
}

/// The item at `n` among those that satisfy `keep`.
pub open spec fn nth_kept<T>(items: Seq<T>, keep: spec_fn(T) -> bool, n: int) -> Option<T> {
    let kept = items.filter(keep);
    if 0 <= n < kept.len() {
        Some(kept[n])
    } else {
        None
    }
}

/// The numbers below `n`.
pub open spec fn numbers(n: nat) -> Seq<int> {
    Seq::new(n, |i: int| i)
}

/// A prefix that `end` follows, or that is everything, and that does not hold `end`.
pub proof fn lemma_before<T>(items: Seq<T>, end: T, n: int)
    requires
        0 <= n <= items.len(),
        forall|i: int| 0 <= i < n ==> items[i] != end,
        n == items.len() || items[n] == end,
    ensures
        before(items, end) == items.take(n),
{
    items.index_of_first_ensures(end);
    if n == items.len() {
        assert(items.take(n) =~= items);
    } else {
        assert(items.contains(end));
        let i = items.index_of_first(end).unwrap();
        assert(i == n);
    }
}

/// Filtering one item more.
pub proof fn lemma_filter_step<T>(items: Seq<T>, keep: spec_fn(T) -> bool, n: int)
    requires
        0 <= n < items.len(),
    ensures
        items.take(n + 1).filter(keep) == if keep(items[n]) {
            items.take(n).filter(keep).push(items[n])
        } else {
            items.take(n).filter(keep)
        },
{
    reveal(Seq::filter);
    assert(items.take(n + 1).drop_last() =~= items.take(n));
}

/// What is kept of a prefix comes first in what is kept of the whole.
pub proof fn lemma_filter_prefix<T>(items: Seq<T>, keep: spec_fn(T) -> bool, n: int)
    requires
        0 <= n <= items.len(),
    ensures
        items.filter(keep) == items.take(n).filter(keep) + items.skip(n).filter(keep),
{
    Seq::filter_distributes_over_add(items.take(n), items.skip(n), keep);
    assert(items.take(n) + items.skip(n) =~= items);
}

/// Filtering none of the items, and all of them.
pub proof fn lemma_filter_ends<T>(items: Seq<T>, keep: spec_fn(T) -> bool)
    ensures
        items.take(0).filter(keep) == Seq::<T>::empty(),
        items.take(items.len() as int) == items,
{
    reveal(Seq::filter);
    assert(items.take(0) =~= Seq::<T>::empty());
    assert(items.take(items.len() as int) =~= items);
}

/// What an item is mapped to is among what the items are mapped to.
pub proof fn lemma_mapped<A, B>(items: Seq<A>, f: spec_fn(A) -> Option<B>, n: int)
    requires
        0 <= n < items.len(),
        f(items[n]) is Some,
    ensures
        items.filter_map(f).contains(f(items[n]).unwrap()),
    decreases items.len(),
{
    let mapped = items.filter_map(f);
    let last = items.len() - 1;
    if n == last {
        assert(mapped[mapped.len() - 1] == f(items[n]).unwrap());
    } else {
        let rest = items.drop_last();
        lemma_mapped(rest, f, n);
        let i = choose|i: int|
            0 <= i < rest.filter_map(f).len() && rest.filter_map(f)[i] == f(items[n]).unwrap();
        assert(mapped[i] == f(items[n]).unwrap());
    }
}

/// An item that satisfies `keep` is the one after as many as satisfy it before.
pub proof fn law_kept_in_order<T>(items: Seq<T>, keep: spec_fn(T) -> bool, k: int)
    requires
        0 <= k < items.len(),
        keep(items[k]),
    ensures
        nth_kept(items, keep, items.take(k).filter(keep).len() as int) == Some(items[k]),
{
    lemma_filter_step(items, keep, k);
    lemma_filter_prefix(items, keep, k + 1);
}

/// Where as many items satisfy `keep` as there are positions below `n`, or fewer, nothing
/// is at `n`; and what is at a position satisfies `keep` and is one of the items.
pub proof fn law_nothing_else_is_kept<T>(items: Seq<T>, keep: spec_fn(T) -> bool, n: int)
    ensures
        n >= items.filter(keep).len() ==> nth_kept(items, keep, n) is None,
        nth_kept(items, keep, n) matches Some(item) ==> keep(item) && items.contains(item),
{
    items.filter_lemma(keep);
    if nth_kept(items, keep, n) is Some {
        let kept = items.filter(keep);
        assert(kept.contains(kept[n]));
        items.lemma_filter_contains_rev(keep, kept[n]);
    }
}

/// What comes before the first `end` holds no `end`, is how the items start, and is
/// everything or is followed by `end`.
pub proof fn law_before<T>(items: Seq<T>, end: T)
    ensures
        !before(items, end).contains(end),
        before(items, end).len() <= items.len(),
        before(items, end) == items.take(before(items, end).len() as int),
        before(items, end).len() < items.len() ==> items[before(items, end).len() as int] == end,
{
    items.index_of_first_ensures(end);
    assert(items.take(items.len() as int) =~= items);
}

/// Where no item satisfies `keep`, none is kept.
pub proof fn lemma_none_kept<T>(items: Seq<T>, keep: spec_fn(T) -> bool)
    requires
        forall|i: int| 0 <= i < items.len() ==> !keep(#[trigger] items[i]),
    ensures
        items.filter(keep).len() == 0,
{
    let kept = items.filter(keep);
    items.filter_lemma(keep);
    if kept.len() > 0 {
        assert(kept.contains(kept[0]));
        items.lemma_filter_contains_rev(keep, kept[0]);
        let i = choose|i: int| 0 <= i < items.len() && items[i] == kept[0];
        assert(!keep(items[i]));
    }
}

/// The numbers below `n` are zero to `n - 1`, in this order.
pub proof fn law_numbers(n: nat, i: int)
    ensures
        numbers(n).len() == n,
        0 <= i < n ==> numbers(n)[i] == i,
{
}

} // verus!

//! Helpers that relate executable collections to their mathematical models.

use vstd::prelude::*;

verus! {

/// The models of the items of a sequence, in the same order.
pub open spec fn views<T: View>(items: Seq<T>) -> Seq<T::V> {
    items.map_values(|item: T| item@)
}

/// Taking models commutes with appending one item.
pub proof fn lemma_views_push<T: View>(items: Seq<T>, item: T)
    ensures
        views(items.push(item)) == views(items).push(item@),
{
    assert(views(items.push(item)) =~= views(items).push(item@));
}

/// Taking models commutes with taking a subrange.
pub proof fn lemma_views_subrange<T: View>(items: Seq<T>, from: int, to: int)
    requires
        0 <= from <= to <= items.len(),
    ensures
        views(items.subrange(from, to)) == views(items).subrange(from, to),
{
    assert(views(items.subrange(from, to)) =~= views(items).subrange(from, to));
}

/// A sequence after one more item was appended to it under a capacity: when the
/// capacity is exceeded the oldest item leaves.
pub open spec fn bounded_push<T>(items: Seq<T>, item: T, capacity: nat) -> Seq<T> {
    if items.len() + 1 > capacity {
        items.push(item).subrange(1, items.len() as int + 1)
    } else {
        items.push(item)
    }
}

/// A bounded push never leaves more than the capacity, given no more than it before.
pub proof fn lemma_bounded_push_len<T>(items: Seq<T>, item: T, capacity: nat)
    requires
        items.len() <= capacity,
        capacity >= 1,
    ensures
        bounded_push(items, item, capacity).len() <= capacity,
        bounded_push(items, item, capacity).len() >= 1,
        bounded_push(items, item, capacity).last() == item,
{
}

/// A sequence after more items were appended to it one by one under a
/// capacity.
pub open spec fn bounded_extend<T>(items: Seq<T>, more: Seq<T>, capacity: nat) -> Seq<T>
    decreases more.len(),
{
    if more.len() == 0 {
        items
    } else {
        bounded_push(bounded_extend(items, more.drop_last(), capacity), more.last(), capacity)
    }
}

/// The last `n` items of a sequence, or all of them where it has fewer.
pub open spec fn last_items<T>(items: Seq<T>, n: nat) -> Seq<T> {
    if items.len() <= n {
        items
    } else {
        items.skip(items.len() - n)
    }
}

/// A bounded log holds the newest entries: after any number of items were
/// appended one by one under a capacity, what is left are the last items, as
/// many as the capacity allows, of all that was ever there, in order.
pub proof fn lemma_bounded_extend<T>(items: Seq<T>, more: Seq<T>, capacity: nat)
    requires
        items.len() <= capacity,
        capacity >= 1,
    ensures
        bounded_extend(items, more, capacity) == last_items(items + more, capacity),
        bounded_extend(items, more, capacity).len() <= capacity,
    decreases more.len(),
{
    if more.len() == 0 {
        assert(items + more =~= items);
    } else {
        let head = more.drop_last();
        lemma_bounded_extend(items, head, capacity);
        let before = bounded_extend(items, head, capacity);
        assert((items + head).push(more.last()) =~= items + more);
        assert(bounded_push(before, more.last(), capacity) =~= last_items(items + more, capacity));
    }
}

/// Taking models commutes with a bounded push.
pub proof fn lemma_views_bounded_push<T: View>(items: Seq<T>, item: T, capacity: nat)
    ensures
        views(bounded_push(items, item, capacity)) == bounded_push(
            views(items),
            item@,
            capacity,
        ),
{
    lemma_views_push(items, item);
    if items.len() + 1 > capacity {
        lemma_views_subrange(items.push(item), 1, items.len() as int + 1);
    }
}

/// Whether `i` is the least index below `len` at which `holds` is true.
pub open spec fn is_first(holds: spec_fn(int) -> bool, len: int, i: int) -> bool {
    &&& 0 <= i < len
    &&& holds(i)
    &&& forall|j: int| 0 <= j < i ==> !#[trigger] holds(j)
}

/// The least index below `len` at which `holds` is true, if there is one.
pub open spec fn first_index(holds: spec_fn(int) -> bool, len: int) -> Option<int> {
    if exists|i: int| is_first(holds, len, i) {
        Some(choose|i: int| is_first(holds, len, i))
    } else {
        None
    }
}

/// A least index is the least index.
pub proof fn lemma_first_index_is(holds: spec_fn(int) -> bool, len: int, i: int)
    requires
        is_first(holds, len, i),
    ensures
        first_index(holds, len) == Some(i),
{
    let c = choose|c: int| is_first(holds, len, c);
    if c < i {
        assert(!holds(c));
    } else if i < c {
        assert(!holds(i));
    }
}

/// Where the property holds nowhere, there is no least index.
pub proof fn lemma_first_index_none(holds: spec_fn(int) -> bool, len: int)
    requires
        forall|j: int| 0 <= j < len ==> !#[trigger] holds(j),
    ensures
        first_index(holds, len) is None,
{
}

/// What `first_index` returns is a least index, and it returns one whenever the
/// property holds somewhere.
pub proof fn lemma_first_index(holds: spec_fn(int) -> bool, len: int)
    ensures
        match first_index(holds, len) {
            Some(i) => is_first(holds, len, i),
            None => forall|j: int| 0 <= j < len ==> !#[trigger] holds(j),
        },
{
    if first_index(holds, len) is None {
        assert forall|j: int| 0 <= j < len implies !#[trigger] holds(j) by {
            if holds(j) {
                lemma_least_exists(holds, len, j);
            }
        }
    }
}

/// Below any index at which the property holds lies a least one.
proof fn lemma_least_exists(holds: spec_fn(int) -> bool, len: int, k: int)
    requires
        0 <= k < len,
        holds(k),
    ensures
        exists|i: int| is_first(holds, len, i),
    decreases k,
{
    if forall|j: int| 0 <= j < k ==> !#[trigger] holds(j) {
        assert(is_first(holds, len, k));
    } else {
        let j = choose|j: int| 0 <= j < k && #[trigger] holds(j);
        lemma_least_exists(holds, len, j);
    }
}

/// A sequence without its item at `at`, the last item moved into its place.
pub open spec fn swap_removed<T>(items: Seq<T>, at: int) -> Seq<T> {
    items.update(at, items.last()).drop_last()
}

/// Taking models commutes with a swapping removal.
pub proof fn lemma_views_swap_removed<T: View>(items: Seq<T>, at: int)
    requires
        0 <= at < items.len(),
    ensures
        views(swap_removed(items, at)) == swap_removed(views(items), at),
{
    assert(views(swap_removed(items, at)) =~= swap_removed(views(items), at));
}

} // verus!

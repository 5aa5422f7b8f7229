//! Stable sorting of keyed items.

use vstd::prelude::*;

verus! {

/// Where an item with key `key` goes among the first `count` of `items`, which are
/// in ascending order: after every item whose key is not greater.
pub open spec fn slot<T>(items: Seq<(u32, T)>, key: u32, count: int) -> int
    decreases count,
{
    if count <= 0 || count > items.len() {
        0
    } else if items[count - 1].0 <= key {
        count
    } else {
        slot(items, key, count - 1)
    }
}

/// The first `count` of `items` in ascending order of their keys; items with
/// equal keys keep their order.
pub open spec fn sorted_prefix<T>(items: Seq<(u32, T)>, count: int) -> Seq<(u32, T)>
    decreases count,
{
    if count <= 0 || count > items.len() {
        Seq::empty()
    } else {
        let earlier = sorted_prefix(items, count - 1);
        earlier.insert(slot(earlier, items[count - 1].0, earlier.len() as int), items[count - 1])
    }
}

/// `items` in ascending order of their keys; items with equal keys keep their order.
pub open spec fn stable_sorted<T>(items: Seq<(u32, T)>) -> Seq<(u32, T)> {
    sorted_prefix(items, items.len() as int)
}

/// Whether the keys of `items` ascend.
pub open spec fn ascending<T>(items: Seq<(u32, T)>) -> bool {
    forall|i: int, j: int| 0 <= i < j < items.len() ==> items[i].0 <= items[j].0
}

/// Finds where an item with key `key` goes among `items`.
pub fn find_slot<T>(items: &Vec<(u32, T)>, key: u32) -> (position: usize)
    ensures
        position == slot(items@, key, items@.len() as int),
        position <= items@.len(),
{
    let mut position: usize = items.len();
    while position > 0
        invariant
            position <= items.len(),
            slot(items@, key, items@.len() as int) == slot(items@, key, position as int),
        decreases position,
    {
        if items[position - 1].0 <= key {
            return position;
        }
        position = position - 1;
    }
    position
}

/// Sorts `items` in ascending order of their keys; items with equal keys keep
/// their order.
pub fn sort_by_key<T>(items: Vec<(u32, T)>) -> (sorted: Vec<(u32, T)>)
    ensures
        sorted@ == stable_sorted(items@),
{
    let ghost given = items@;
    let mut sorted: Vec<(u32, T)> = Vec::new();
    for item in iter: items
        invariant
            iter.seq() == given,
            sorted@ == sorted_prefix(given, iter.index() as int),
    {
        let position: usize = find_slot(&sorted, item.0);
        sorted.insert(position, item);
    }
    sorted
}

/// The slot lies within the items counted.
pub proof fn lemma_slot_bounds<T>(items: Seq<(u32, T)>, key: u32, count: int)
    requires
        0 <= count <= items.len(),
    ensures
        0 <= slot(items, key, count) <= count,
        forall|i: int| slot(items, key, count) <= i < count ==> key < (#[trigger] items[i]).0,
        slot(items, key, count) > 0 ==> items[slot(items, key, count) - 1].0 <= key,
    decreases count,
{
    if count > 0 && items[count - 1].0 > key {
        lemma_slot_bounds(items, key, count - 1);
    }
}

/// A sorted prefix holds as many items as were sorted, in ascending order.
pub proof fn lemma_sorted_prefix<T>(items: Seq<(u32, T)>, count: int)
    requires
        0 <= count <= items.len(),
    ensures
        sorted_prefix(items, count).len() == count,
        ascending(sorted_prefix(items, count)),
        sorted_prefix(items, count).to_multiset() == items.subrange(0, count).to_multiset(),
    decreases count,
{
    if count > 0 {
        lemma_sorted_prefix(items, count - 1);
        let earlier = sorted_prefix(items, count - 1);
        let item = items[count - 1];
        let position = slot(earlier, item.0, earlier.len() as int);
        lemma_slot_bounds(earlier, item.0, earlier.len() as int);
        let now = sorted_prefix(items, count);
        assert(now == earlier.insert(position, item));
        assert forall|i: int, j: int| 0 <= i < j < now.len() implies now[i].0 <= now[j].0 by {
            if j < position {
                assert(now[i] == earlier[i] && now[j] == earlier[j]);
            } else if j == position {
                assert(now[i] == earlier[i]);
                if position > 0 {
                    assert(earlier[i].0 <= earlier[position - 1].0 || i == position - 1);
                }
            } else if i < position {
                assert(now[i] == earlier[i] && now[j] == earlier[j - 1]);
            } else if i == position {
                assert(now[j] == earlier[j - 1]);
            } else {
                assert(now[i] == earlier[i - 1] && now[j] == earlier[j - 1]);
            }
        }
        vstd::seq_lib::to_multiset_insert(earlier, position, item);
        assert(items.subrange(0, count) =~= items.subrange(0, count - 1).push(item));
        vstd::seq_lib::to_multiset_build(items.subrange(0, count - 1), item);
        assert(now.to_multiset() =~= items.subrange(0, count).to_multiset());
    } else {
        assert(items.subrange(0, count) =~= sorted_prefix(items, count));
    }
}

/// Sorting gives the same items, each as often as before, in ascending order of
/// their keys.
pub proof fn lemma_stable_sorted<T>(items: Seq<(u32, T)>)
    ensures
        stable_sorted(items).len() == items.len(),
        ascending(stable_sorted(items)),
        stable_sorted(items).to_multiset() == items.to_multiset(),
{
    lemma_sorted_prefix(items, items.len() as int);
    assert(items.subrange(0, items.len() as int) =~= items);
}

/// What holds of all items holds of all sorted items.
pub proof fn lemma_sorted_keeps<T>(items: Seq<(u32, T)>, holds: spec_fn((u32, T)) -> bool, count: int)
    requires
        0 <= count <= items.len(),
        forall|i: int| 0 <= i < items.len() ==> holds(#[trigger] items[i]),
    ensures
        forall|i: int|
            0 <= i < sorted_prefix(items, count).len() ==> holds(
                #[trigger] sorted_prefix(items, count)[i],
            ),
    decreases count,
{
    if count > 0 {
        lemma_sorted_keeps(items, holds, count - 1);
        lemma_sorted_prefix(items, count - 1);
        let earlier = sorted_prefix(items, count - 1);
        let item = items[count - 1];
        let position = slot(earlier, item.0, earlier.len() as int);
        lemma_slot_bounds(earlier, item.0, earlier.len() as int);
        let now = sorted_prefix(items, count);
        assert(now == earlier.insert(position, item));
        assert forall|i: int| 0 <= i < now.len() implies holds(#[trigger] now[i]) by {
            if i < position {
                assert(now[i] == earlier[i]);
            } else if i == position {
                assert(now[i] == item);
            } else {
                assert(now[i] == earlier[i - 1]);
            }
        }
    }
}

/// The items of `items` with their second parts changed by `change`.
pub open spec fn with_values<T, U>(items: Seq<(u32, T)>, change: spec_fn(T) -> U) -> Seq<(u32, U)> {
    Seq::new(items.len(), |i: int| (items[i].0, change(items[i].1)))
}

/// Sorting looks at the keys alone: it commutes with a change of the values.
pub proof fn lemma_sorted_with_values<T, U>(
    items: Seq<(u32, T)>,
    change: spec_fn(T) -> U,
    count: int,
)
    requires
        0 <= count <= items.len(),
    ensures
        sorted_prefix(with_values(items, change), count) == with_values(
            sorted_prefix(items, count),
            change,
        ),
    decreases count,
{
    if count > 0 {
        lemma_sorted_with_values(items, change, count - 1);
        lemma_sorted_prefix(items, count - 1);
        let earlier = sorted_prefix(items, count - 1);
        let changed = with_values(earlier, change);
        let item = items[count - 1];
        lemma_slot_with_values(earlier, change, item.0, earlier.len() as int);
        let position = slot(earlier, item.0, earlier.len() as int);
        lemma_slot_bounds(earlier, item.0, earlier.len() as int);
        assert(with_values(earlier.insert(position, item), change) =~= changed.insert(
            position,
            (item.0, change(item.1)),
        ));
    }
}

proof fn lemma_slot_with_values<T, U>(
    items: Seq<(u32, T)>,
    change: spec_fn(T) -> U,
    key: u32,
    count: int,
)
    requires
        0 <= count <= items.len(),
    ensures
        slot(with_values(items, change), key, count) == slot(items, key, count),
    decreases count,
{
    if count > 0 && items[count - 1].0 > key {
        lemma_slot_with_values(items, change, key, count - 1);
    }
}

} // verus!

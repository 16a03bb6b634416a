//! Counts, selections and sorted lists, in terms of the items themselves.

use vstd::prelude::*;

use crate::order::{before, collect, count_of, is_stable_order, is_stable_sort, same_items_are_as_many};
use crate::text::text_lt;

verus! {

proof fn one_more_is_filtered<T>(items: Seq<T>, wanted: spec_fn(T) -> bool, count: int)
    requires
        0 < count <= items.len(),
    ensures
        items.take(count).filter(wanted) == if wanted(items[count - 1]) {
            items.take(count - 1).filter(wanted).push(items[count - 1])
        } else {
            items.take(count - 1).filter(wanted)
        },
{
    reveal(Seq::filter);
    assert(items.take(count).drop_last() =~= items.take(count - 1));
}

/// How many of the first positions are kept is how many of the first items are wanted.
pub proof fn kept_positions_are_wanted_items<T>(
    items: Seq<T>,
    wanted: spec_fn(T) -> bool,
    count: int,
    keep: spec_fn(int) -> bool,
)
    requires
        0 <= count <= items.len(),
        forall|i: int| 0 <= i < count ==> #[trigger] keep(i) == wanted(items[i]),
    ensures
        count_of(count, keep) == items.take(count).filter(wanted).len(),
    decreases count,
{
    if count > 0 {
        kept_positions_are_wanted_items(items, wanted, count - 1, keep);
        one_more_is_filtered(items, wanted, count);
        assert(keep(count - 1) == wanted(items[count - 1]));
    } else {
        reveal(Seq::filter);
        assert(items.take(0) =~= Seq::empty());
    }
}

/// How many positions are kept is how many items are wanted.
pub proof fn kept_is_wanted<T>(items: Seq<T>, wanted: spec_fn(T) -> bool, keep: spec_fn(int) -> bool)
    requires
        forall|i: int| 0 <= i < items.len() ==> #[trigger] keep(i) == wanted(items[i]),
    ensures
        count_of(items.len() as int, keep) == items.filter(wanted).len(),
{
    kept_positions_are_wanted_items(items, wanted, items.len() as int, keep);
    assert(items.take(items.len() as int) =~= items);
}

/// What is selected by position is what is wanted of the items, in their order.
pub proof fn selected_is_wanted<T, U>(
    items: Seq<T>,
    wanted: spec_fn(T) -> bool,
    of: spec_fn(T) -> U,
    count: int,
    keep: spec_fn(int) -> bool,
    item: spec_fn(int) -> U,
)
    requires
        0 <= count <= items.len(),
        forall|i: int| 0 <= i < count ==> #[trigger] keep(i) == wanted(items[i]),
        forall|i: int| 0 <= i < count ==> #[trigger] item(i) == of(items[i]),
    ensures
        collect(count, keep, item) == items.take(count).filter(wanted).map_values(of),
    decreases count,
{
    if count > 0 {
        selected_is_wanted(items, wanted, of, count - 1, keep, item);
        one_more_is_filtered(items, wanted, count);
        assert(keep(count - 1) == wanted(items[count - 1]));
        assert(item(count - 1) == of(items[count - 1]));
        let before = items.take(count - 1).filter(wanted);
        assert(before.push(items[count - 1]).map_values(of) =~= before.map_values(of).push(of(items[count - 1])));
    } else {
        reveal(Seq::filter);
        assert(items.take(0) =~= Seq::empty());
        assert(collect(0, keep, item) =~= Seq::<U>::empty());
    }
}

/// A sorted list is as long as the list, holds what the list holds and nothing else, and its keys
/// do not descend.
pub proof fn sorted_lists_hold_the_items<T>(items: Seq<T>, keys: Seq<Seq<char>>, sorted: Seq<T>)
    requires
        is_stable_sort(items, keys, sorted),
        keys.len() == items.len(),
        items.len() <= usize::MAX,
    ensures
        sorted.len() == items.len(),
        forall|x: T| #[trigger] sorted.contains(x) <==> items.contains(x),
{
    let order = choose|order: Seq<usize>| #[trigger]
        is_stable_order(keys, order) && sorted == Seq::new(order.len(), |i: int| items[order[i] as int]);
    assert forall|x: T| #[trigger] sorted.contains(x) <==> items.contains(x) by {
        if sorted.contains(x) {
            let i = choose|i: int| 0 <= i < sorted.len() && sorted[i] == x;
            assert(items[order[i] as int] == x);
        }
        if items.contains(x) {
            let p = choose|p: int| 0 <= p < items.len() && items[p] == x;
            assert(order.contains(p as usize));
            let i = choose|i: int| 0 <= i < order.len() && order[i] == p as usize;
            assert(sorted[i] == x);
        }
    }
}

/// In a sorted list of items with keys of their own the keys ascend.
pub proof fn sorted_keys_ascend<T>(items: Seq<T>, keys: Seq<Seq<char>>, key: spec_fn(T) -> Seq<char>, sorted: Seq<T>)
    requires
        is_stable_sort(items, keys, sorted),
        keys.len() == items.len(),
        forall|i: int| 0 <= i < items.len() ==> #[trigger] keys[i] == key(items[i]),
        keys.no_duplicates(),
    ensures
        forall|i: int, j: int|
            0 <= i < j < sorted.len() ==> text_lt(key(#[trigger] sorted[i]), key(#[trigger] sorted[j])),
{
    let order = choose|order: Seq<usize>| #[trigger]
        is_stable_order(keys, order) && sorted == Seq::new(order.len(), |i: int| items[order[i] as int]);
    assert forall|i: int, j: int| 0 <= i < j < sorted.len() implies text_lt(
        key(#[trigger] sorted[i]),
        key(#[trigger] sorted[j]),
    ) by {
        assert(before(keys, order[i] as int, order[j] as int));
        assert(keys[order[i] as int] == key(sorted[i]));
        assert(keys[order[j] as int] == key(sorted[j]));
    }
}

/// What is filtered is what is wanted of a list.
pub proof fn filtered_items_are_the_wanted<T>(items: Seq<T>, wanted: spec_fn(T) -> bool, x: T)
    ensures
        items.filter(wanted).contains(x) <==> items.contains(x) && wanted(x),
    decreases items.len(),
{
    reveal(Seq::filter);
    if items.len() > 0 {
        let rest = items.drop_last();
        filtered_items_are_the_wanted(rest, wanted, x);
        let kept = rest.filter(wanted);
        if wanted(items.last()) {
            let all = kept.push(items.last());
            if all.contains(x) && x != items.last() {
                let i = choose|i: int| 0 <= i < all.len() && all[i] == x;
                assert(kept[i] == x);
            }
            if kept.contains(x) {
                let i = choose|i: int| 0 <= i < kept.len() && kept[i] == x;
                assert(all[i] == x);
            }
            assert(all[kept.len() as int] == items.last());
        }
        if items.contains(x) && x != items.last() {
            let p = choose|p: int| 0 <= p < items.len() && items[p] == x;
            assert(rest[p] == x);
        }
        if rest.contains(x) {
            let p = choose|p: int| 0 <= p < rest.len() && rest[p] == x;
            assert(items[p] == x);
        }
        assert(items[items.len() - 1] == items.last());
    }
}

proof fn filtered_items_stay_apart<T>(items: Seq<T>, wanted: spec_fn(T) -> bool)
    requires
        items.no_duplicates(),
    ensures
        items.filter(wanted).no_duplicates(),
    decreases items.len(),
{
    reveal(Seq::filter);
    if items.len() > 0 {
        let rest = items.drop_last();
        assert(rest.no_duplicates());
        filtered_items_stay_apart(rest, wanted);
        if wanted(items.last()) {
            assert forall|i: int| 0 <= i < rest.filter(wanted).len() implies #[trigger] rest.filter(wanted)[i]
                != items.last() by {
                let kept = rest.filter(wanted)[i];
                filtered_items_are_the_wanted(rest, wanted, kept);
                assert(rest.filter(wanted).contains(kept));
                let p = choose|p: int| 0 <= p < rest.len() && rest[p] == kept;
                assert(items[p] == kept);
            }
        }
    }
}

/// Lists that hold the same items, each once, hold as many items of every sort.
pub proof fn same_items_count_alike<T>(a: Seq<T>, b: Seq<T>, wanted: spec_fn(T) -> bool)
    requires
        a.no_duplicates(),
        b.no_duplicates(),
        forall|x: T| #[trigger] a.contains(x) <==> b.contains(x),
    ensures
        a.filter(wanted).len() == b.filter(wanted).len(),
{
    filtered_items_stay_apart(a, wanted);
    filtered_items_stay_apart(b, wanted);
    assert forall|x: T| #[trigger] a.filter(wanted).contains(x) <==> b.filter(wanted).contains(x) by {
        filtered_items_are_the_wanted(a, wanted, x);
        filtered_items_are_the_wanted(b, wanted, x);
    }
    same_items_are_as_many(a.filter(wanted), b.filter(wanted));
}

} // verus!

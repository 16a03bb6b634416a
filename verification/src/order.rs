//! Stable order by key: sorted positions, an index over keys and sorted sets of strings.

use vstd::prelude::*;

use crate::sort::{enumerations_agree, goes_before, ints, ints_hold_the_positions, rank_order, reorder, Ranked};
use crate::text::{less, same, text_lt, text_lt_asymmetric, text_lt_irreflexive, text_lt_total, text_lt_transitive, texts};

verus! {

/// Whether position `a` stands before position `b`: by key, and by position where the
/// keys are equal.
pub open spec fn before(keys: Seq<Seq<char>>, a: int, b: int) -> bool {
    text_lt(keys[a], keys[b]) || (keys[a] == keys[b] && a < b)
}

/// Whether `order` lists each position of `keys` once, ascending by key and, among equal
/// keys, by position: the stable order of `keys`.
pub open spec fn is_stable_order(keys: Seq<Seq<char>>, order: Seq<usize>) -> bool {
    &&& order.len() == keys.len()
    &&& forall|i: int| 0 <= i < order.len() ==> (#[trigger] order[i]) < keys.len()
    &&& forall|i: int, j: int|
        0 <= i < j < order.len() ==> before(keys, #[trigger] order[i] as int, #[trigger] order[j] as int)
    &&& forall|p: usize| p < keys.len() ==> #[trigger] order.contains(p)
}

/// Whether `sorted` holds the items of `items` in the stable order of their keys.
pub open spec fn is_stable_sort<T>(items: Seq<T>, keys: Seq<Seq<char>>, sorted: Seq<T>) -> bool {
    exists|order: Seq<usize>| #[trigger]
        is_stable_order(keys, order) && sorted == Seq::new(
            order.len(),
            |i: int| items[order[i] as int],
        )
}

/// Whether a list of strings is strictly ascending.
pub open spec fn ascending(items: Seq<Seq<char>>) -> bool {
    forall|i: int, j: int| 0 <= i < j < items.len() ==> text_lt(#[trigger] items[i], #[trigger] items[j])
}

/// The ascending positions at which `keys` holds `key`.
pub open spec fn positions_of(keys: Seq<Seq<char>>, key: Seq<char>, upto: int) -> Seq<int>
    decreases upto,
{
    if upto <= 0 {
        Seq::empty()
    } else if keys[upto - 1] == key {
        positions_of(keys, key, upto - 1).push(upto - 1)
    } else {
        positions_of(keys, key, upto - 1)
    }
}

/// Two strictly ascending lists with the same members are the same list.
pub proof fn ascending_lists_are_determined_by_their_members(
    a: Seq<Seq<char>>,
    b: Seq<Seq<char>>,
)
    requires
        ascending(a),
        ascending(b),
        forall|x: Seq<char>| a.contains(x) <==> b.contains(x),
    ensures
        a == b,
    decreases a.len(),
{
    if a.len() == 0 {
        if b.len() > 0 {
            assert(b.contains(b[0]));
        }
        assert(a =~= b);
    } else {
        assert(a.contains(a[0]));
        assert(b.len() > 0);
        assert(b.contains(b[0]));
        let i = choose|i: int| 0 <= i < a.len() && a[i] == b[0];
        let j = choose|j: int| 0 <= j < b.len() && b[j] == a[0];
        if i > 0 && j > 0 {
            text_lt_asymmetric(a[0], a[i]);
            assert(text_lt(b[0], b[j]));
            assert(false);
        }
        assert(a[0] == b[0]);
        let a1 = a.drop_first();
        let b1 = b.drop_first();
        assert(ascending(a1)) by {
            assert forall|i: int, j: int| 0 <= i < j < a1.len() implies text_lt(
                #[trigger] a1[i],
                #[trigger] a1[j],
            ) by {
                assert(text_lt(a[i + 1], a[j + 1]));
            }
        }
        assert(ascending(b1)) by {
            assert forall|i: int, j: int| 0 <= i < j < b1.len() implies text_lt(
                #[trigger] b1[i],
                #[trigger] b1[j],
            ) by {
                assert(text_lt(b[i + 1], b[j + 1]));
            }
        }
        assert forall|x: Seq<char>| a1.contains(x) <==> b1.contains(x) by {
            if a1.contains(x) {
                let k = choose|k: int| 0 <= k < a1.len() && a1[k] == x;
                assert(a[k + 1] == x);
                assert(a.contains(x));
                assert(text_lt(a[0], a[k + 1]));
                text_lt_irreflexive(a[0]);
                let m = choose|m: int| 0 <= m < b.len() && b[m] == x;
                assert(m != 0);
                assert(b1[m - 1] == x);
            }
            if b1.contains(x) {
                let k = choose|k: int| 0 <= k < b1.len() && b1[k] == x;
                assert(b[k + 1] == x);
                assert(b.contains(x));
                assert(text_lt(b[0], b[k + 1]));
                text_lt_irreflexive(b[0]);
                let m = choose|m: int| 0 <= m < a.len() && a[m] == x;
                assert(m != 0);
                assert(a1[m - 1] == x);
            }
        }
        ascending_lists_are_determined_by_their_members(a1, b1);
        assert(a =~= seq![a[0]] + a1);
        assert(b =~= seq![b[0]] + b1);
    }
}

/// `positions_of` lists exactly the positions below the bound that hold the key,
/// ascending.
pub proof fn positions_of_are_ascending_and_complete(keys: Seq<Seq<char>>, key: Seq<char>, upto: int)
    ensures
        forall|i: int|
            0 <= i < positions_of(keys, key, upto).len() ==> 0 <= #[trigger] positions_of(
                keys,
                key,
                upto,
            )[i] < upto && keys[positions_of(keys, key, upto)[i]] == key,
        forall|i: int, j: int|
            0 <= i < j < positions_of(keys, key, upto).len() ==> #[trigger] positions_of(
                keys,
                key,
                upto,
            )[i] < #[trigger] positions_of(keys, key, upto)[j],
        forall|p: int|
            0 <= p < upto && keys[p] == key ==> #[trigger] positions_of(keys, key, upto).contains(
                p,
            ),
    decreases upto,
{
    if upto > 0 {
        positions_of_are_ascending_and_complete(keys, key, upto - 1);
        let prev = positions_of(keys, key, upto - 1);
        let now = positions_of(keys, key, upto);
        assert forall|p: int| 0 <= p < upto && keys[p] == key implies #[trigger] now.contains(p) by {
            if p == upto - 1 {
                assert(now[prev.len() as int] == p);
            } else {
                assert(prev.contains(p));
                let i = choose|i: int| 0 <= i < prev.len() && prev[i] == p;
                assert(now[i] == p);
            }
        }
    }
}

impl Ranked for String {
    open spec fn before(a: String, b: String) -> bool {
        text_lt(a@, b@)
    }

    proof fn before_is_irreflexive(a: String) {
        text_lt_irreflexive(a@);
    }

    proof fn before_is_transitive(a: String, b: String, c: String) {
        text_lt_transitive(a@, b@, c@);
    }

    proof fn before_is_weak(a: String, b: String, c: String) {
        text_lt_total(a@, b@);
        if text_lt(b@, a@) {
            text_lt_transitive(b@, a@, c@);
        }
    }

    fn is_before(a: &String, b: &String) -> (result: bool) {
        less(a.as_str(), b.as_str())
    }
}

/// The positions of `keys` in the stable order of the keys.
pub fn stable_order(keys: &Vec<String>) -> (order: Vec<usize>)
    ensures
        is_stable_order(texts(keys@), order@),
{
    let order = rank_order(keys);
    proof {
        let k = texts(keys@);
        assert forall|i: int, j: int| 0 <= i < j < order@.len() implies before(
            k,
            #[trigger] order@[i] as int,
            #[trigger] order@[j] as int,
        ) by {
            assert(goes_before(keys@, order@[i] as int, order@[j] as int));
            text_lt_total(k[order@[i] as int], k[order@[j] as int]);
        }
    }
    order
}

/// Sorts items by their keys; items with equal keys keep their relative order.
pub fn stable_sort<T>(items: Vec<T>, keys: &Vec<String>) -> (sorted: Vec<T>)
    requires
        items.len() == keys.len(),
    ensures
        is_stable_sort(items@, texts(keys@), sorted@),
        sorted.len() == items.len(),
{
    let order = stable_order(keys);
    proof {
        assert forall|i: int, j: int| 0 <= i < j < order.len() implies #[trigger] order@[i] != #[trigger] order@[j] by {
            assert(before(texts(keys@), order@[i] as int, order@[j] as int));
            text_lt_irreflexive(texts(keys@)[order@[i] as int]);
        }
    }
    reorder(items, &order)
}

// ---------------------------------------------------------------------------------------
// Selections
// ---------------------------------------------------------------------------------------

/// The items at the positions below `count` that are kept, in the order of the positions.
pub open spec fn collect<T>(
    count: int,
    keep: spec_fn(int) -> bool,
    item: spec_fn(int) -> T,
) -> Seq<T>
    decreases count,
{
    if count <= 0 {
        Seq::empty()
    } else if keep(count - 1) {
        collect(count - 1, keep, item).push(item(count - 1))
    } else {
        collect(count - 1, keep, item)
    }
}

/// How many positions below `count` are kept.
pub open spec fn count_of(count: int, keep: spec_fn(int) -> bool) -> nat
    decreases count,
{
    if count <= 0 {
        0
    } else if keep(count - 1) {
        count_of(count - 1, keep) + 1
    } else {
        count_of(count - 1, keep)
    }
}

/// No more positions are kept than there are.
pub proof fn count_of_is_bounded(count: int, keep: spec_fn(int) -> bool)
    requires
        count >= 0,
    ensures
        count_of(count, keep) <= count,
    decreases count,
{
    if count > 0 {
        count_of_is_bounded(count - 1, keep);
    }
}

/// The first failure among the first `count` positions.
pub open spec fn first_failure<E>(count: int, failure: spec_fn(int) -> Option<E>) -> Option<E>
    decreases count,
{
    if count <= 0 {
        None
    } else {
        match first_failure(count - 1, failure) {
            Some(error) => Some(error),
            None => failure(count - 1),
        }
    }
}

/// A first failure stays the first however many positions follow.
pub proof fn first_failure_remains<E>(a: int, b: int, failure: spec_fn(int) -> Option<E>)
    requires
        a <= b,
        first_failure(a, failure) is Some,
    ensures
        first_failure(b, failure) == first_failure(a, failure),
    decreases b - a,
{
    if a < b {
        first_failure_remains(a, b - 1, failure);
    }
}

/// Without a failure no position fails.
pub proof fn no_failure_anywhere<E>(count: int, failure: spec_fn(int) -> Option<E>)
    requires
        first_failure(count, failure) is None,
    ensures
        forall|i: int| 0 <= i < count ==> (#[trigger] failure(i)) is None,
    decreases count,
{
    if count > 0 {
        no_failure_anywhere(count - 1, failure);
    }
}

/// The first kept position below `count`.
pub open spec fn first_kept(count: int, keep: spec_fn(int) -> bool) -> Option<int>
    decreases count,
{
    if count <= 0 {
        None
    } else {
        match first_kept(count - 1, keep) {
            Some(i) => Some(i),
            None => if keep(count - 1) {
                Some(count - 1)
            } else {
                None
            },
        }
    }
}

/// The first kept position is kept, and none before it is.
pub proof fn first_kept_is_first(count: int, keep: spec_fn(int) -> bool)
    ensures
        match first_kept(count, keep) {
            Some(i) => 0 <= i < count && keep(i) && forall|j: int| 0 <= j < i ==> !#[trigger] keep(j),
            None => forall|j: int| 0 <= j < count ==> !#[trigger] keep(j),
        },
    decreases count,
{
    if count > 0 {
        first_kept_is_first(count - 1, keep);
    }
}

/// A first kept position stays the first however many positions follow.
pub proof fn first_kept_remains(a: int, b: int, keep: spec_fn(int) -> bool)
    requires
        a <= b,
        first_kept(a, keep) is Some,
    ensures
        first_kept(b, keep) == first_kept(a, keep),
    decreases b - a,
{
    if a < b {
        first_kept_remains(a, b - 1, keep);
    }
}

/// Where no position is counted, none is kept.
pub proof fn count_of_none(count: int, keep: spec_fn(int) -> bool)
    requires
        count_of(count, keep) == 0,
    ensures
        forall|i: int| 0 <= i < count ==> !#[trigger] keep(i),
    decreases count,
{
    if count > 0 {
        count_of_none(count - 1, keep);
    }
}

/// Where nothing is kept, nothing is counted.
pub proof fn count_of_nothing(count: int, keep: spec_fn(int) -> bool)
    requires
        forall|i: int| 0 <= i < count ==> !#[trigger] keep(i),
    ensures
        count_of(count, keep) == 0,
    decreases count,
{
    if count > 0 {
        count_of_nothing(count - 1, keep);
    }
}

/// A selection holds exactly the kept items.
pub proof fn collect_holds_the_kept_items<T>(
    count: int,
    keep: spec_fn(int) -> bool,
    item: spec_fn(int) -> T,
    value: T,
)
    ensures
        collect(count, keep, item).contains(value) <==> exists|i: int|
            0 <= i < count && #[trigger] keep(i) && item(i) == value,
    decreases count,
{
    if count > 0 {
        collect_holds_the_kept_items(count - 1, keep, item, value);
        let prev = collect(count - 1, keep, item);
        let now = collect(count, keep, item);
        if now.contains(value) {
            let k = choose|k: int| 0 <= k < now.len() && now[k] == value;
            if k < prev.len() {
                assert(prev[k] == value);
                assert(prev.contains(value));
            } else {
                assert(keep(count - 1));
            }
        }
        if exists|i: int| 0 <= i < count && #[trigger] keep(i) && item(i) == value {
            let i = choose|i: int| 0 <= i < count && #[trigger] keep(i) && item(i) == value;
            if i == count - 1 {
                assert(now[now.len() - 1] == value);
            } else {
                assert(prev.contains(value));
                let k = choose|k: int| 0 <= k < prev.len() && prev[k] == value;
                assert(now[k] == value);
            }
        }
    }
}

/// A selection holds a kept item at the place that counts the kept ones before it.
pub proof fn kept_items_stand_in_order<T>(count: int, keep: spec_fn(int) -> bool, item: spec_fn(int) -> T, i: int)
    requires
        0 <= i < count,
        keep(i),
    ensures
        count_of(i, keep) < collect(count, keep, item).len(),
        collect(count, keep, item)[count_of(i, keep) as int] == item(i),
    decreases count,
{
    selections_are_counted(i, keep, item);
    if i < count - 1 {
        kept_items_stand_in_order(count - 1, keep, item, i);
    }
}

/// A selection holds as many items as are kept.
pub proof fn selections_are_counted<T>(count: int, keep: spec_fn(int) -> bool, item: spec_fn(int) -> T)
    ensures
        collect(count, keep, item).len() == count_of(count, keep),
    decreases count,
{
    if count > 0 {
        selections_are_counted(count - 1, keep, item);
    }
}

/// No fewer positions are kept below a greater bound.
pub proof fn counts_grow(a: int, b: int, keep: spec_fn(int) -> bool)
    requires
        a <= b,
    ensures
        count_of(a, keep) <= count_of(b, keep),
    decreases b - a,
{
    if a < b {
        counts_grow(a, b - 1, keep);
    }
}

/// Every place of a selection is that of some kept item.
pub proof fn selected_from(count: int, keep: spec_fn(int) -> bool, place: int) -> (i: int)
    requires
        0 <= place < count_of(count, keep),
    ensures
        0 <= i < count,
        keep(i),
        count_of(i, keep) == place,
    decreases count,
{
    if count > 0 && place < count_of(count - 1, keep) {
        selected_from(count - 1, keep, place)
    } else {
        count - 1
    }
}

/// Selections of the same items at the same positions are the same.
pub proof fn equal_selections_are_equal<T>(
    count: int,
    keep: spec_fn(int) -> bool,
    other: spec_fn(int) -> bool,
    item: spec_fn(int) -> T,
    other_item: spec_fn(int) -> T,
)
    requires
        forall|i: int| 0 <= i < count ==> #[trigger] keep(i) == other(i),
        forall|i: int| 0 <= i < count && #[trigger] keep(i) ==> item(i) == other_item(i),
    ensures
        collect(count, keep, item) == collect(count, other, other_item),
    decreases count,
{
    if count > 0 {
        equal_selections_are_equal(count - 1, keep, other, item, other_item);
        assert(keep(count - 1) == other(count - 1));
    }
}

/// Whether `sorted` lists each of the given strings once, ascending.
pub open spec fn is_sorted_set(sorted: Seq<Seq<char>>, members: Seq<Seq<char>>) -> bool {
    &&& ascending(sorted)
    &&& forall|x: Seq<char>| #[trigger] sorted.contains(x) <==> members.contains(x)
}

/// The ascending list of a collection's strings is unique.
pub proof fn sorted_set_is_unique(a: Seq<Seq<char>>, b: Seq<Seq<char>>, members: Seq<Seq<char>>)
    requires
        is_sorted_set(a, members),
        is_sorted_set(b, members),
    ensures
        a == b,
{
    assert forall|x: Seq<char>| a.contains(x) <==> b.contains(x) by {
        assert(a.contains(x) <==> members.contains(x));
        assert(b.contains(x) <==> members.contains(x));
    }
    ascending_lists_are_determined_by_their_members(a, b);
}

/// Lists that hold the same items, each once, are equally long.
pub proof fn same_items_are_as_many<T>(a: Seq<T>, b: Seq<T>)
    requires
        a.no_duplicates(),
        b.no_duplicates(),
        forall|x: T| #[trigger] a.contains(x) <==> b.contains(x),
    ensures
        a.len() == b.len(),
{
    a.unique_seq_to_set();
    b.unique_seq_to_set();
    assert(a.to_set() =~= b.to_set()) by {
        assert forall|x: T| a.to_set().contains(x) <==> b.to_set().contains(x) by {
            assert(a.contains(x) <==> b.contains(x));
        }
    }
}

/// The ascending list of strings, each once.
pub open spec fn sorted_list(members: Seq<Seq<char>>) -> Seq<Seq<char>> {
    choose|sorted: Seq<Seq<char>>| is_sorted_set(sorted, members)
}

/// Whatever lists strings each once, ascending, is the list.
pub proof fn sorted_list_is(sorted: Seq<Seq<char>>, members: Seq<Seq<char>>)
    requires
        is_sorted_set(sorted, members),
    ensures
        sorted_list(members) == sorted,
{
    sorted_set_is_unique(sorted, sorted_list(members), members);
}

/// The stable order of keys is unique.
pub proof fn stable_orders_agree(keys: Seq<Seq<char>>, a: Seq<usize>, b: Seq<usize>)
    requires
        is_stable_order(keys, a),
        is_stable_order(keys, b),
        keys.len() <= usize::MAX,
    ensures
        a == b,
{
    let lt = |x: int, y: int| before(keys, x, y);
    assert forall|x: int, y: int| #[trigger] lt(x, y) implies !lt(y, x) by {
        text_lt_irreflexive(keys[x]);
        if text_lt(keys[x], keys[y]) {
            text_lt_asymmetric(keys[x], keys[y]);
        }
    }
    ints_hold_the_positions(a, keys.len() as int);
    ints_hold_the_positions(b, keys.len() as int);
    assert forall|i: int, j: int| 0 <= i < j < ints(a).len() implies lt(#[trigger] ints(a)[i], #[trigger] ints(a)[j]) by {
        assert(before(keys, a[i] as int, a[j] as int));
    }
    assert forall|i: int, j: int| 0 <= i < j < ints(b).len() implies lt(#[trigger] ints(b)[i], #[trigger] ints(b)[j]) by {
        assert(before(keys, b[i] as int, b[j] as int));
    }
    enumerations_agree(lt, ints(a), ints(b));
    assert forall|i: int| 0 <= i < a.len() implies a[i] == b[i] by {
        assert(ints(a)[i] == ints(b)[i]);
    }
    assert(a =~= b);
}

/// What items hold.
pub open spec fn views<T: View>(items: Seq<T>) -> Seq<T::V> {
    Seq::new(items.len(), |i: int| items[i]@)
}

/// Sorting items sorts what they hold.
pub proof fn stable_sort_of_views<T: View>(items: Seq<T>, keys: Seq<Seq<char>>, sorted: Seq<T>)
    requires
        is_stable_sort(items, keys, sorted),
        keys.len() == items.len(),
    ensures
        is_stable_sort(views(items), keys, views(sorted)),
{
    let order = choose|order: Seq<usize>| #[trigger]
        is_stable_order(keys, order) && sorted == Seq::new(order.len(), |i: int| items[order[i] as int]);
    assert(views(sorted) =~= Seq::new(order.len(), |i: int| views(items)[order[i] as int]));
}

// ---------------------------------------------------------------------------------------
// An index over keys
// ---------------------------------------------------------------------------------------

/// The positions of a list of keys, ordered for lookup.
pub struct TextIndex {
    keys: Vec<String>,
    order: Vec<usize>,
}

/// The last position below `upto` that holds the key.
pub open spec fn last_position(keys: Seq<Seq<char>>, key: Seq<char>, upto: int) -> Option<int>
    decreases upto,
{
    if upto <= 0 {
        None
    } else if keys[upto - 1] == key {
        Some(upto - 1)
    } else {
        last_position(keys, key, upto - 1)
    }
}

/// The last position is the last that holds the key; there is none where no position
/// holds it.
pub proof fn last_position_is_last(keys: Seq<Seq<char>>, key: Seq<char>, upto: int)
    ensures
        match last_position(keys, key, upto) {
            Some(p) => 0 <= p < upto && keys[p] == key && forall|j: int|
                p < j < upto ==> #[trigger] keys[j] != key,
            None => forall|j: int| 0 <= j < upto ==> #[trigger] keys[j] != key,
        },
    decreases upto,
{
    if upto > 0 {
        last_position_is_last(keys, key, upto - 1);
    }
}

/// Whether `positions` are the positions of a key, ascending.
pub open spec fn lists_positions(
    keys: Seq<Seq<char>>,
    key: Seq<char>,
    positions: Seq<usize>,
) -> bool {
    Seq::new(positions.len(), |i: int| positions[i] as int) == positions_of(keys, key, keys.len() as int)
}

proof fn ascending_positions_are_unique(a: Seq<int>, b: Seq<int>)
    requires
        forall|i: int, j: int| 0 <= i < j < a.len() ==> #[trigger] a[i] < #[trigger] a[j],
        forall|i: int, j: int| 0 <= i < j < b.len() ==> #[trigger] b[i] < #[trigger] b[j],
        forall|x: int| a.contains(x) <==> b.contains(x),
    ensures
        a == b,
    decreases a.len(),
{
    if a.len() == 0 {
        if b.len() > 0 {
            assert(b.contains(b[0]));
        }
        assert(a =~= b);
    } else {
        assert(a.contains(a[0]));
        assert(b.len() > 0);
        assert(b.contains(b[0]));
        assert(a[0] == b[0]);
        let a1 = a.drop_first();
        let b1 = b.drop_first();
        assert forall|x: int| a1.contains(x) <==> b1.contains(x) by {
            if a1.contains(x) {
                let k = choose|k: int| 0 <= k < a1.len() && a1[k] == x;
                assert(a[k + 1] == x);
                assert(a.contains(x));
                let m = choose|m: int| 0 <= m < b.len() && b[m] == x;
                assert(a[0] < a[k + 1]);
                assert(b1[m - 1] == x);
            }
            if b1.contains(x) {
                let k = choose|k: int| 0 <= k < b1.len() && b1[k] == x;
                assert(b[k + 1] == x);
                assert(b.contains(x));
                let m = choose|m: int| 0 <= m < a.len() && a[m] == x;
                assert(b[0] < b[k + 1]);
                assert(a1[m - 1] == x);
            }
        }
        assert forall|i: int, j: int| 0 <= i < j < a1.len() implies #[trigger] a1[i] < #[trigger] a1[j] by {
            assert(a[i + 1] < a[j + 1]);
        }
        assert forall|i: int, j: int| 0 <= i < j < b1.len() implies #[trigger] b1[i] < #[trigger] b1[j] by {
            assert(b[i + 1] < b[j + 1]);
        }
        ascending_positions_are_unique(a1, b1);
        assert(a =~= seq![a[0]] + a1);
        assert(b =~= seq![b[0]] + b1);
    }
}

impl TextIndex {
    /// The keys in the order of their positions.
    pub closed spec fn keys(&self) -> Seq<Seq<char>> {
        texts(self.keys@)
    }

    #[verifier::type_invariant]
    spec fn wf(self) -> bool {
        is_stable_order(texts(self.keys@), self.order@)
    }

    /// An index over the given keys.
    pub fn new(keys: Vec<String>) -> (result: TextIndex)
        ensures
            result.keys() == texts(keys@),
    {
        let order = stable_order(&keys);
        TextIndex { keys, order }
    }

    /// The first place of the order whose key is not before the given key.
    fn place(&self, key: &str) -> (result: usize)
        ensures
            result <= self.order@.len(),
            forall|j: int|
                0 <= j < result ==> text_lt(self.keys()[#[trigger] self.order@[j] as int], key@),
            forall|j: int|
                result <= j < self.order@.len() ==> !text_lt(self.keys()[#[trigger] self.order@[j] as int], key@),
    {
        proof {
            use_type_invariant(&*self);
        }
        let mut lo: usize = 0;
        let mut hi: usize = self.order.len();
        while lo < hi
            invariant
                lo <= hi <= self.order@.len(),
                is_stable_order(texts(self.keys@), self.order@),
                forall|j: int|
                    0 <= j < lo ==> text_lt(self.keys()[#[trigger] self.order@[j] as int], key@),
                forall|j: int|
                    hi <= j < self.order@.len() ==> !text_lt(self.keys()[#[trigger] self.order@[j] as int], key@),
            decreases hi - lo,
        {
            let mid: usize = lo + (hi - lo) / 2;
            let p: usize = self.order[mid];
            let ghost k = self.keys();
            if less(self.keys[p].as_str(), key) {
                proof {
                    assert forall|j: int| 0 <= j < mid + 1 implies text_lt(
                        k[#[trigger] self.order@[j] as int],
                        key@,
                    ) by {
                        if lo <= j && j < mid {
                            assert(before(k, self.order@[j] as int, self.order@[mid as int] as int));
                            if text_lt(k[self.order@[j] as int], k[p as int]) {
                                text_lt_transitive(k[self.order@[j] as int], k[p as int], key@);
                            }
                        }
                    }
                }
                lo = mid + 1;
            } else {
                proof {
                    assert forall|j: int| mid <= j < self.order@.len() implies !text_lt(
                        k[#[trigger] self.order@[j] as int],
                        key@,
                    ) by {
                        if mid < j && j < hi {
                            assert(before(k, self.order@[mid as int] as int, self.order@[j] as int));
                            if text_lt(k[self.order@[j] as int], key@) && text_lt(k[p as int], k[self.order@[j] as int]) {
                                text_lt_transitive(k[p as int], k[self.order@[j] as int], key@);
                            }
                        }
                    }
                }
                hi = mid;
            }
        }
        lo
    }

    /// The ascending positions that hold a key.
    pub fn positions(&self, key: &str) -> (result: Vec<usize>)
        ensures
            lists_positions(self.keys(), key@, result@),
            forall|i: int| 0 <= i < result.len() ==> (#[trigger] result@[i]) < self.keys().len(),
    {
        proof {
            use_type_invariant(&*self);
        }
        let ghost k = self.keys();
        let start: usize = self.place(key);
        let mut result: Vec<usize> = Vec::new();
        let mut at: usize = start;
        while at < self.order.len() && same(self.keys[self.order[at]].as_str(), key)
            invariant
                start <= at <= self.order@.len(),
                k == self.keys(),
                is_stable_order(texts(self.keys@), self.order@),
                result@ == self.order@.subrange(start as int, at as int),
                forall|j: int| start <= j < at ==> k[#[trigger] self.order@[j] as int] == key@,
            decreases self.order@.len() - at,
        {
            result.push(self.order[at]);
            at = at + 1;
            assert(result@ =~= self.order@.subrange(start as int, at as int));
        }
        proof {
            let found = Seq::new(result@.len(), |i: int| result@[i] as int);
            let all = positions_of(k, key@, k.len() as int);
            positions_of_are_ascending_and_complete(k, key@, k.len() as int);
            assert forall|i: int, j: int| 0 <= i < j < found.len() implies #[trigger] found[i] < #[trigger] found[j] by {
                assert(before(k, self.order@[start + i] as int, self.order@[start + j] as int));
                text_lt_irreflexive(key@);
            }
            assert forall|x: int| found.contains(x) <==> all.contains(x) by {
                if found.contains(x) {
                    let i = choose|i: int| 0 <= i < found.len() && found[i] == x;
                    assert(self.order@[start + i] == x);
                    assert(k[x] == key@);
                    assert(all.contains(x));
                }
                if all.contains(x) {
                    let i = choose|i: int| 0 <= i < all.len() && all[i] == x;
                    assert(k[all[i]] == key@);
                    assert(self.order@.contains(x as usize));
                    let j = choose|j: int| 0 <= j < self.order@.len() && self.order@[j] == x as usize;
                    text_lt_irreflexive(key@);
                    assert(start <= j);
                    if at <= j {
                        assert(k[self.order@[at as int] as int] != key@);
                        if at < j {
                            assert(before(k, self.order@[at as int] as int, self.order@[j] as int));
                        }
                        text_lt_total(k[self.order@[at as int] as int], key@);
                        assert(false);
                    }
                    assert(found[j - start] == x);
                }
            }
            ascending_positions_are_unique(found, all);
        }
        result
    }

    /// The last position that holds a key.
    pub fn last(&self, key: &str) -> (result: Option<usize>)
        ensures
            match result {
                Some(p) => last_position(self.keys(), key@, self.keys().len() as int) == Some(p as int) && p
                    < self.keys().len() && self.keys()[p as int] == key@,
                None => last_position(self.keys(), key@, self.keys().len() as int) is None,
            },
    {
        let ghost k = self.keys();
        let found = self.positions(key);
        proof {
            positions_of_are_ascending_and_complete(k, key@, k.len() as int);
            last_position_is_last(k, key@, k.len() as int);
            let all = positions_of(k, key@, k.len() as int);
            assert forall|j: int| 0 <= j < k.len() && k[j] == key@ implies all.contains(j) by {}
            match last_position(k, key@, k.len() as int) {
                Some(p) => {
                    assert(all.contains(p));
                    let i = choose|i: int| 0 <= i < all.len() && all[i] == p;
                    assert(all.len() > 0);
                    let z = all[all.len() - 1];
                    assert(k[z] == key@);
                    if i < all.len() - 1 {
                        assert(all[i] < all[all.len() - 1]);
                        assert(k[z] != key@);
                    }
                    assert(found@[found.len() - 1] as int == all[all.len() - 1]);
                },
                None => {
                    if all.len() > 0 {
                        assert(k[all[0]] == key@);
                    }
                },
            }
        }
        if found.len() == 0 {
            None
        } else {
            Some(found[found.len() - 1])
        }
    }

    /// Whether a key occurs.
    pub fn contains(&self, key: &str) -> (result: bool)
        ensures
            result == self.keys().contains(key@),
    {
        let ghost k = self.keys();
        let found = self.last(key);
        proof {
            last_position_is_last(k, key@, k.len() as int);
        }
        found.is_some()
    }

    /// The keys, each once, ascending.
    pub fn distinct(&self) -> (result: Vec<String>)
        ensures
            is_sorted_set(texts(result@), self.keys()),
    {
        proof {
            use_type_invariant(&*self);
        }
        let ghost k = self.keys();
        let mut result: Vec<String> = Vec::new();
        let mut at: usize = 0;
        while at < self.order.len()
            invariant
                at <= self.order@.len(),
                k == self.keys(),
                is_stable_order(texts(self.keys@), self.order@),
                ascending(texts(result@)),
                forall|i: int| 0 <= i < result@.len() ==> k.contains(#[trigger] result@[i]@),
                forall|j: int| 0 <= j < at ==> texts(result@).contains(k[#[trigger] self.order@[j] as int]),
                result@.len() > 0 <==> at > 0,
                at > 0 ==> result@[result@.len() - 1]@ == k[self.order@[at - 1] as int],
            decreases self.order@.len() - at,
        {
            let p: usize = self.order[at];
            let fresh: bool = if result.len() == 0 {
                true
            } else {
                self.keys[p] != result[result.len() - 1]
            };
            let ghost old_result = result@;
            proof {
                assert(k[p as int] == self.keys@[p as int]@);
                if at > 0 {
                    assert(before(k, self.order@[at - 1] as int, p as int));
                }
            }
            if fresh {
                result.push(self.keys[p].clone());
                proof {
                    assert forall|i: int, j: int| 0 <= i < j < texts(result@).len() implies text_lt(
                        #[trigger] texts(result@)[i],
                        #[trigger] texts(result@)[j],
                    ) by {
                        if j < old_result.len() {
                            assert(text_lt(texts(old_result)[i], texts(old_result)[j]));
                        } else {
                            let last = old_result.len() - 1;
                            if i < last {
                                assert(text_lt(texts(old_result)[i], texts(old_result)[last]));
                                text_lt_transitive(texts(old_result)[i], texts(old_result)[last], k[p as int]);
                            }
                        }
                    }
                    assert forall|i: int| 0 <= i < result@.len() implies k.contains(#[trigger] result@[i]@) by {
                        if i == old_result.len() {
                            assert(k[p as int] == result@[i]@);
                        }
                    }
                }
            }
            proof {
                assert forall|j: int| 0 <= j < at + 1 implies texts(result@).contains(
                    k[#[trigger] self.order@[j] as int],
                ) by {
                    if j < at {
                        let m = choose|m: int|
                            0 <= m < texts(old_result).len() && texts(old_result)[m] == k[self.order@[j] as int];
                        assert(texts(result@)[m] == k[self.order@[j] as int]);
                    } else {
                        assert(texts(result@)[result@.len() - 1] == k[p as int]);
                    }
                }
            }
            at = at + 1;
        }
        proof {
            assert forall|x: Seq<char>| #[trigger] texts(result@).contains(x) <==> k.contains(x) by {
                if texts(result@).contains(x) {
                    let i = choose|i: int| 0 <= i < texts(result@).len() && texts(result@)[i] == x;
                    assert(k.contains(result@[i]@));
                }
                if k.contains(x) {
                    let p = choose|p: int| 0 <= p < k.len() && k[p] == x;
                    assert(self.order@.contains(p as usize));
                    let j = choose|j: int| 0 <= j < self.order@.len() && self.order@[j] == p as usize;
                    assert(texts(result@).contains(k[self.order@[j] as int]));
                }
            }
        }
        result
    }
}

/// The given strings, each once, ascending.
pub fn sorted_set(items: Vec<String>) -> (result: Vec<String>)
    ensures
        is_sorted_set(texts(result@), texts(items@)),
{
    let index = TextIndex::new(items);
    index.distinct()
}

} // verus!

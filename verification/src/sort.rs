//! Stable sorting by keys of any ordered kind.

use vstd::prelude::*;

verus! {

/// Keys with an order in which keys may tie.
pub trait Ranked: Sized {
    /// Whether `a` stands before `b`.
    spec fn before(a: Self, b: Self) -> bool;

    /// No key stands before itself.
    proof fn before_is_irreflexive(a: Self)
        ensures
            !Self::before(a, a),
    ;

    /// The order is transitive.
    proof fn before_is_transitive(a: Self, b: Self, c: Self)
        requires
            Self::before(a, b),
            Self::before(b, c),
        ensures
            Self::before(a, c),
    ;

    /// Ties are transitive: what lies between two keys is told from one of them.
    proof fn before_is_weak(a: Self, b: Self, c: Self)
        requires
            Self::before(a, c),
        ensures
            Self::before(a, b) || Self::before(b, c),
    ;

    /// Whether `a` stands before `b`.
    fn is_before(a: &Self, b: &Self) -> (result: bool)
        ensures
            result == Self::before(*a, *b),
    ;
}

/// Whether position `i` stands before position `j`: by key, and by position where the
/// keys tie.
pub open spec fn goes_before<K: Ranked>(keys: Seq<K>, i: int, j: int) -> bool {
    K::before(keys[i], keys[j]) || (!K::before(keys[j], keys[i]) && i < j)
}

/// Whether `order` lists each position of `keys` once, in the order of the keys, ties in
/// the order of the positions.
pub open spec fn is_rank_order<K: Ranked>(keys: Seq<K>, order: Seq<usize>) -> bool {
    &&& order.len() == keys.len()
    &&& forall|i: int| 0 <= i < order.len() ==> (#[trigger] order[i]) < keys.len()
    &&& forall|i: int, j: int|
        0 <= i < j < order.len() ==> goes_before(keys, #[trigger] order[i] as int, #[trigger] order[j] as int)
    &&& forall|p: usize| p < keys.len() ==> #[trigger] order.contains(p)
}

/// Whether `sorted` holds the items in the order of their keys, ties as they stood.
pub open spec fn is_ranked_sort<K: Ranked, T>(items: Seq<T>, keys: Seq<K>, sorted: Seq<T>) -> bool {
    exists|order: Seq<usize>| #[trigger]
        is_rank_order(keys, order) && sorted == Seq::new(order.len(), |i: int| items[order[i] as int])
}

/// The order of positions is transitive.
pub proof fn goes_before_is_transitive<K: Ranked>(keys: Seq<K>, a: int, b: int, c: int)
    requires
        goes_before(keys, a, b),
        goes_before(keys, b, c),
    ensures
        goes_before(keys, a, c),
{
    let x = keys[a];
    let y = keys[b];
    let z = keys[c];
    if K::before(x, y) && K::before(y, z) {
        K::before_is_transitive(x, y, z);
    } else if K::before(x, y) {
        K::before_is_weak(x, z, y);
    } else if K::before(y, z) {
        K::before_is_weak(y, x, z);
    } else if K::before(z, x) {
        K::before_is_weak(z, y, x);
    }
}

/// Of two positions at most one stands before the other.
pub proof fn goes_before_is_asymmetric<K: Ranked>(keys: Seq<K>, a: int, b: int)
    requires
        goes_before(keys, a, b),
    ensures
        !goes_before(keys, b, a),
{
    let x = keys[a];
    let y = keys[b];
    K::before_is_irreflexive(x);
    if K::before(x, y) && K::before(y, x) {
        K::before_is_transitive(x, y, x);
    }
}

/// Two enumerations of the same positions in the same order are the same.
pub proof fn enumerations_agree(lt: spec_fn(int, int) -> bool, a: Seq<int>, b: Seq<int>)
    requires
        forall|x: int, y: int| #[trigger] lt(x, y) ==> !lt(y, x),
        forall|i: int, j: int| 0 <= i < j < a.len() ==> lt(#[trigger] a[i], #[trigger] a[j]),
        forall|i: int, j: int| 0 <= i < j < b.len() ==> lt(#[trigger] b[i], #[trigger] b[j]),
        forall|x: int| a.contains(x) <==> b.contains(x),
    ensures
        a == b,
    decreases a.len(),
{
    if a.len() == 0 {
        if b.len() > 0 {
            assert(b.contains(b[0]));
        }
        assert(a =~= b);
    } else {
        assert(a.contains(a[0]));
        assert(b.len() > 0);
        assert(b.contains(b[0]));
        let i = choose|i: int| 0 <= i < a.len() && a[i] == b[0];
        let j = choose|j: int| 0 <= j < b.len() && b[j] == a[0];
        if i > 0 && j > 0 {
            assert(lt(a[0], a[i]));
            assert(lt(b[0], b[j]));
            assert(false);
        }
        assert(a[0] == b[0]);
        let a1 = a.drop_first();
        let b1 = b.drop_first();
        assert forall|i: int, j: int| 0 <= i < j < a1.len() implies lt(#[trigger] a1[i], #[trigger] a1[j]) by {
            assert(lt(a[i + 1], a[j + 1]));
        }
        assert forall|i: int, j: int| 0 <= i < j < b1.len() implies lt(#[trigger] b1[i], #[trigger] b1[j]) by {
            assert(lt(b[i + 1], b[j + 1]));
        }
        assert forall|x: int| a1.contains(x) <==> b1.contains(x) by {
            if a1.contains(x) {
                let k = choose|k: int| 0 <= k < a1.len() && a1[k] == x;
                assert(a[k + 1] == x);
                assert(a.contains(x));
                assert(lt(a[0], a[k + 1]));
                let m = choose|m: int| 0 <= m < b.len() && b[m] == x;
                assert(m != 0);
                assert(b1[m - 1] == x);
            }
            if b1.contains(x) {
                let k = choose|k: int| 0 <= k < b1.len() && b1[k] == x;
                assert(b[k + 1] == x);
                assert(b.contains(x));
                assert(lt(b[0], b[k + 1]));
                let m = choose|m: int| 0 <= m < a.len() && a[m] == x;
                assert(m != 0);
                assert(a1[m - 1] == x);
            }
        }
        enumerations_agree(lt, a1, b1);
        assert(a =~= seq![a[0]] + a1);
        assert(b =~= seq![b[0]] + b1);
    }
}

/// The positions of an order as integers.
pub open spec fn ints(order: Seq<usize>) -> Seq<int> {
    Seq::new(order.len(), |i: int| order[i] as int)
}

pub proof fn ints_hold_the_positions(order: Seq<usize>, count: int)
    requires
        order.len() == count,
        forall|i: int| 0 <= i < order.len() ==> (#[trigger] order[i]) < count,
        forall|p: usize| p < count ==> #[trigger] order.contains(p),
        count <= usize::MAX,
    ensures
        forall|x: int| #[trigger] ints(order).contains(x) <==> 0 <= x < count,
{
    assert forall|x: int| #[trigger] ints(order).contains(x) <==> 0 <= x < count by {
        if ints(order).contains(x) {
            let i = choose|i: int| 0 <= i < ints(order).len() && ints(order)[i] == x;
            assert(order[i] == x);
        }
        if 0 <= x < count {
            assert(order.contains(x as usize));
            let i = choose|i: int| 0 <= i < order.len() && order[i] == x as usize;
            assert(ints(order)[i] == x);
        }
    }
}

/// The order of positions by their keys depends on how the keys are ordered alone.
pub proof fn rank_orders_agree<K: Ranked>(keys: Seq<K>, others: Seq<K>, a: Seq<usize>, b: Seq<usize>)
    requires
        is_rank_order(keys, a),
        is_rank_order(others, b),
        keys.len() == others.len(),
        keys.len() <= usize::MAX,
        forall|x: int, y: int|
            0 <= x < keys.len() && 0 <= y < keys.len() ==> #[trigger] K::before(keys[x], keys[y]) == K::before(
                others[x],
                others[y],
            ),
    ensures
        a == b,
{
    let lt = |x: int, y: int| goes_before(keys, x, y);
    assert forall|x: int, y: int| #[trigger] lt(x, y) implies !lt(y, x) by {
        goes_before_is_asymmetric(keys, x, y);
    }
    ints_hold_the_positions(a, keys.len() as int);
    ints_hold_the_positions(b, keys.len() as int);
    assert forall|i: int, j: int| 0 <= i < j < ints(a).len() implies lt(#[trigger] ints(a)[i], #[trigger] ints(a)[j]) by {
        assert(goes_before(keys, a[i] as int, a[j] as int));
    }
    assert forall|i: int, j: int| 0 <= i < j < ints(b).len() implies lt(#[trigger] ints(b)[i], #[trigger] ints(b)[j]) by {
        let x = b[i] as int;
        let y = b[j] as int;
        assert(goes_before(others, x, y));
        assert(K::before(keys[x], keys[y]) == K::before(others[x], others[y]));
        assert(K::before(keys[y], keys[x]) == K::before(others[y], others[x]));
    }
    enumerations_agree(lt, ints(a), ints(b));
    assert forall|i: int| 0 <= i < a.len() implies a[i] == b[i] by {
        assert(ints(a)[i] == ints(b)[i]);
    }
    assert(a =~= b);
}

/// Merges two runs of positions.
fn merge_runs<K: Ranked>(keys: &Vec<K>, left: &Vec<usize>, right: &Vec<usize>) -> (result: Vec<usize>)
    requires
        forall|i: int| 0 <= i < left.len() ==> (#[trigger] left@[i]) < keys.len(),
        forall|i: int| 0 <= i < right.len() ==> (#[trigger] right@[i]) < keys.len(),
        forall|i: int, j: int|
            0 <= i < j < left.len() ==> goes_before(keys@, #[trigger] left@[i] as int, #[trigger] left@[j] as int),
        forall|i: int, j: int|
            0 <= i < j < right.len() ==> goes_before(keys@, #[trigger] right@[i] as int, #[trigger] right@[j] as int),
        forall|i: int, j: int|
            0 <= i < left.len() && 0 <= j < right.len() ==> #[trigger] left@[i] < #[trigger] right@[j],
        left.len() + right.len() <= usize::MAX,
    ensures
        result.len() == left.len() + right.len(),
        forall|i: int| 0 <= i < result.len() ==> (#[trigger] result@[i]) < keys.len(),
        forall|i: int, j: int|
            0 <= i < j < result.len() ==> goes_before(keys@, #[trigger] result@[i] as int, #[trigger] result@[j] as int),
        forall|p: usize| #[trigger] result@.contains(p) <==> left@.contains(p) || right@.contains(p),
{
    let ghost k = keys@;
    let mut result: Vec<usize> = Vec::new();
    let mut l: usize = 0;
    let mut r: usize = 0;
    while l < left.len() || r < right.len()
        invariant
            k == keys@,
            l <= left.len(),
            r <= right.len(),
            left.len() + right.len() <= usize::MAX,
            result.len() == l + r,
            forall|i: int| 0 <= i < left.len() ==> (#[trigger] left@[i]) < keys.len(),
            forall|i: int| 0 <= i < right.len() ==> (#[trigger] right@[i]) < keys.len(),
            forall|i: int, j: int|
                0 <= i < j < left.len() ==> goes_before(k, #[trigger] left@[i] as int, #[trigger] left@[j] as int),
            forall|i: int, j: int|
                0 <= i < j < right.len() ==> goes_before(k, #[trigger] right@[i] as int, #[trigger] right@[j] as int),
            forall|i: int, j: int|
                0 <= i < left.len() && 0 <= j < right.len() ==> #[trigger] left@[i] < #[trigger] right@[j],
            forall|i: int| 0 <= i < result.len() ==> (#[trigger] result@[i]) < keys.len(),
            forall|i: int, j: int|
                0 <= i < j < result.len() ==> goes_before(k, #[trigger] result@[i] as int, #[trigger] result@[j] as int),
            forall|i: int, j: int|
                0 <= i < result.len() && l <= j < left.len() ==> goes_before(
                    k,
                    #[trigger] result@[i] as int,
                    #[trigger] left@[j] as int,
                ),
            forall|i: int, j: int|
                0 <= i < result.len() && r <= j < right.len() ==> goes_before(
                    k,
                    #[trigger] result@[i] as int,
                    #[trigger] right@[j] as int,
                ),
            forall|i: int| 0 <= i < l ==> result@.contains(#[trigger] left@[i]),
            forall|i: int| 0 <= i < r ==> result@.contains(#[trigger] right@[i]),
            forall|i: int|
                0 <= i < result.len() ==> left@.contains(#[trigger] result@[i]) || right@.contains(result@[i]),
        decreases left.len() - l + right.len() - r,
    {
        let take_left: bool = if l == left.len() {
            false
        } else if r == right.len() {
            true
        } else {
            !K::is_before(&keys[right[r]], &keys[left[l]])
        };
        let ghost old_result = result@;
        if take_left {
            let p: usize = left[l];
            proof {
                if r < right.len() {
                    assert(goes_before(k, p as int, right@[r as int] as int));
                    assert forall|j: int| r <= j < right.len() implies goes_before(k, p as int, #[trigger] right@[j] as int) by {
                        if j > r {
                            goes_before_is_transitive(k, p as int, right@[r as int] as int, right@[j] as int);
                        }
                    }
                }
            }
            result.push(p);
            l = l + 1;
            proof {
                assert(result@[old_result.len() as int] == p);
                assert forall|i: int| 0 <= i < l implies result@.contains(#[trigger] left@[i]) by {
                    if i < l - 1 {
                        let m = choose|m: int| 0 <= m < old_result.len() && old_result[m] == left@[i];
                        assert(result@[m] == left@[i]);
                    }
                }
                assert forall|i: int| 0 <= i < r implies result@.contains(#[trigger] right@[i]) by {
                    let m = choose|m: int| 0 <= m < old_result.len() && old_result[m] == right@[i];
                    assert(result@[m] == right@[i]);
                }
            }
        } else {
            let p: usize = right[r];
            proof {
                if l < left.len() {
                    assert(goes_before(k, p as int, left@[l as int] as int));
                    assert forall|j: int| l <= j < left.len() implies goes_before(k, p as int, #[trigger] left@[j] as int) by {
                        if j > l {
                            goes_before_is_transitive(k, p as int, left@[l as int] as int, left@[j] as int);
                        }
                    }
                }
            }
            result.push(p);
            r = r + 1;
            proof {
                assert(result@[old_result.len() as int] == p);
                assert forall|i: int| 0 <= i < l implies result@.contains(#[trigger] left@[i]) by {
                    let m = choose|m: int| 0 <= m < old_result.len() && old_result[m] == left@[i];
                    assert(result@[m] == left@[i]);
                }
                assert forall|i: int| 0 <= i < r implies result@.contains(#[trigger] right@[i]) by {
                    if i < r - 1 {
                        let m = choose|m: int| 0 <= m < old_result.len() && old_result[m] == right@[i];
                        assert(result@[m] == right@[i]);
                    }
                }
            }
        }
    }
    result
}

/// The positions `lo..hi` in the order of their keys.
fn sort_range<K: Ranked>(keys: &Vec<K>, lo: usize, hi: usize) -> (result: Vec<usize>)
    requires
        lo <= hi <= keys.len(),
    ensures
        result.len() == hi - lo,
        forall|i: int| 0 <= i < result.len() ==> lo <= (#[trigger] result@[i]) < hi,
        forall|i: int, j: int|
            0 <= i < j < result.len() ==> goes_before(keys@, #[trigger] result@[i] as int, #[trigger] result@[j] as int),
        forall|p: usize| lo <= p < hi ==> #[trigger] result@.contains(p),
    decreases hi - lo,
{
    let mut result: Vec<usize> = Vec::new();
    if hi - lo == 0 {
        return result;
    }
    if hi - lo == 1 {
        result.push(lo);
        assert(result@[0] == lo);
        return result;
    }
    let mid: usize = lo + (hi - lo) / 2;
    let left = sort_range(keys, lo, mid);
    let right = sort_range(keys, mid, hi);
    let result = merge_runs(keys, &left, &right);
    proof {
        assert forall|i: int| 0 <= i < result.len() implies lo <= (#[trigger] result@[i]) < hi by {
            assert(result@.contains(result@[i]));
        }
    }
    result
}

/// The positions of `keys` in the order of the keys, ties in the order of the positions.
pub fn rank_order<K: Ranked>(keys: &Vec<K>) -> (order: Vec<usize>)
    ensures
        is_rank_order(keys@, order@),
{
    sort_range(keys, 0, keys.len())
}

/// Rearranges items into the given order.
pub fn reorder<T>(items: Vec<T>, order: &Vec<usize>) -> (result: Vec<T>)
    requires
        order.len() == items.len(),
        forall|i: int| 0 <= i < order.len() ==> (#[trigger] order@[i]) < items.len(),
        forall|i: int, j: int| 0 <= i < j < order.len() ==> #[trigger] order@[i] != #[trigger] order@[j],
    ensures
        result@ == Seq::new(order@.len(), |i: int| items@[order@[i] as int]),
{
    let ghost source = items@;
    let mut slots: Vec<Option<T>> = Vec::new();
    for item in it: items
        invariant
            it.seq() == source,
            slots.len() == it.index(),
            forall|j: int| 0 <= j < slots.len() ==> slots@[j] == Some(source[j]),
    {
        slots.push(Some(item));
    }
    let mut result: Vec<T> = Vec::new();
    let mut i: usize = 0;
    while i < order.len()
        invariant
            i <= order.len(),
            result.len() == i,
            slots.len() == source.len(),
            source.len() == order.len(),
            forall|i: int| 0 <= i < order.len() ==> (#[trigger] order@[i]) < source.len(),
            forall|i: int, j: int| 0 <= i < j < order.len() ==> #[trigger] order@[i] != #[trigger] order@[j],
            forall|j: int| 0 <= j < i ==> result@[j] == source[order@[j] as int],
            forall|j: int| i <= j < order.len() ==> slots@[#[trigger] order@[j] as int] == Some(source[order@[j] as int]),
        decreases order.len() - i,
    {
        let p: usize = order[i];
        let ghost before_take = slots@;
        let taken: Option<T> = slots[p].take();
        match taken {
            Some(item) => {
                result.push(item);
            },
            None => {
                assert(before_take[p as int] == Some(source[p as int]));
            },
        }
        i = i + 1;
    }
    assert(result@ =~= Seq::new(order@.len(), |i: int| source[order@[i] as int]));
    result
}

/// Sorts items by their keys; items whose keys tie keep their relative order.
pub fn ranked_sort<K: Ranked, T>(items: Vec<T>, keys: &Vec<K>) -> (sorted: Vec<T>)
    requires
        items.len() == keys.len(),
    ensures
        is_ranked_sort(items@, keys@, sorted@),
        sorted.len() == items.len(),
{
    let order = rank_order(keys);
    proof {
        assert forall|i: int, j: int| 0 <= i < j < order.len() implies #[trigger] order@[i] != #[trigger] order@[j] by {
            assert(goes_before(keys@, order@[i] as int, order@[j] as int));
            K::before_is_irreflexive(keys@[order@[i] as int]);
        }
    }
    reorder(items, &order)
}

/// Sorts ranked items; items that tie keep their relative order.
pub fn sort_ranked<K: Ranked>(items: Vec<K>) -> (sorted: Vec<K>)
    ensures
        is_ranked_sort(items@, items@, sorted@),
        sorted.len() == items.len(),
{
    let order = rank_order(&items);
    proof {
        assert forall|i: int, j: int| 0 <= i < j < order.len() implies #[trigger] order@[i] != #[trigger] order@[j] by {
            assert(goes_before(items@, order@[i] as int, order@[j] as int));
            K::before_is_irreflexive(items@[order@[i] as int]);
        }
    }
    reorder(items, &order)
}

} // verus!

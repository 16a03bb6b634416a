//! JSON values with the texts that they are written as: lists of them in the order of their
//! texts, each value once.

use vstd::prelude::*;

use crate::json::{Json, JsonModel};
use crate::order::{
    before, collect, collect_holds_the_kept_items, counts_grow, is_sorted_set, is_stable_order, is_stable_sort,
    kept_items_stand_in_order, selected_from, selections_are_counted, stable_sort, stable_sort_of_views, views,
};
use crate::text::{text_lt, text_lt_transitive, texts};

verus! {

/// A JSON value and the text that it is written as.
#[derive(Debug, Clone, PartialEq)]
pub struct WrittenJson {
    pub text: String,
    pub value: Json,
}

/// What a value and its text hold.
#[verifier::ext_equal]
pub struct WrittenModel {
    pub text: Seq<char>,
    pub value: JsonModel,
}

impl View for WrittenJson {
    type V = WrittenModel;

    open spec fn view(&self) -> WrittenModel {
        WrittenModel { text: self.text@, value: self.value@ }
    }
}

/// The texts of values.
pub open spec fn texts_of(items: Seq<WrittenModel>) -> Seq<Seq<char>> {
    Seq::new(items.len(), |i: int| items[i].text)
}

/// Values without their texts.
pub open spec fn values_of(items: Seq<WrittenModel>) -> Seq<JsonModel> {
    Seq::new(items.len(), |i: int| items[i].value)
}

/// Whether a value stands among others.
pub open spec fn holds_value(items: Seq<WrittenModel>, value: JsonModel) -> bool {
    exists|i: int| 0 <= i < items.len() && (#[trigger] items[i]).value.value() == value.value()
}

/// Which values differ from the one before them.
pub open spec fn differs_from_previous(sorted: Seq<WrittenModel>) -> spec_fn(int) -> bool {
    |i: int| i == 0 || sorted[i].value.value() != sorted[i - 1].value.value()
}

/// The values without those that repeat the one before them.
pub open spec fn without_repeats(sorted: Seq<WrittenModel>) -> Seq<WrittenModel> {
    collect(sorted.len() as int, differs_from_previous(sorted), |i: int| sorted[i])
}

/// Whether a list holds values in the order of their texts, without those that repeat the one
/// before them.
pub open spec fn is_ordered_once(items: Seq<WrittenModel>, result: Seq<WrittenModel>) -> bool {
    exists|sorted: Seq<WrittenModel>| #[trigger]
        is_stable_sort(items, texts_of(items), sorted) && result == without_repeats(sorted)
}

impl WrittenJson {
    /// A copy.
    pub fn copy(&self) -> (result: WrittenJson)
        ensures
            result@ == self@,
    {
        WrittenJson { text: self.text.clone(), value: self.value.copy() }
    }
}

/// A copy of a list.
pub fn copy_written(items: &Vec<WrittenJson>) -> (result: Vec<WrittenJson>)
    ensures
        views(result@) == views(items@),
{
    let mut copied: Vec<WrittenJson> = Vec::new();
    let mut i: usize = 0;
    while i < items.len()
        invariant
            i <= items.len(),
            copied.len() == i,
            forall|k: int| 0 <= k < i ==> (#[trigger] copied@[k])@ == items@[k]@,
        decreases items.len() - i,
    {
        copied.push(items[i].copy());
        i = i + 1;
    }
    assert(views(copied@) =~= views(items@));
    copied
}

/// Whether a value stands among others.
pub fn contains_value(items: &Vec<WrittenJson>, value: &Json) -> (result: bool)
    ensures
        result == holds_value(views(items@), value@),
{
    let ghost all = views(items@);
    let mut i: usize = 0;
    while i < items.len()
        invariant
            i <= items.len(),
            all == views(items@),
            forall|k: int| 0 <= k < i ==> (#[trigger] all[k]).value.value() != value@.value(),
        decreases items.len() - i,
    {
        assert(all[i as int] == items@[i as int]@);
        if items[i].value.same_value(value) {
            return true;
        }
        i = i + 1;
    }
    false
}

/// Values in the order of their texts, without those that repeat the one before them.
pub fn ordered_once(items: Vec<WrittenJson>) -> (result: Vec<WrittenJson>)
    ensures
        is_ordered_once(views(items@), views(result@)),
{
    let ghost all = views(items@);
    let mut keys: Vec<String> = Vec::new();
    let mut i: usize = 0;
    while i < items.len()
        invariant
            i <= items.len(),
            keys.len() == i,
            forall|k: int| 0 <= k < i ==> (#[trigger] keys@[k])@ == items@[k].text@,
        decreases items.len() - i,
    {
        keys.push(items[i].text.clone());
        i = i + 1;
    }
    assert(texts(keys@) =~= texts_of(all));
    let ghost source = items@;
    let sorted = stable_sort(items, &keys);
    let ghost rows = views(sorted@);
    proof {
        stable_sort_of_views(source, texts_of(all), sorted@);
    }
    let ghost keep = differs_from_previous(rows);
    let ghost item = |i: int| rows[i];
    let mut kept: Vec<WrittenJson> = Vec::new();
    let mut i: usize = 0;
    assert(views(kept@) =~= Seq::empty());
    while i < sorted.len()
        invariant
            i <= sorted.len(),
            rows == views(sorted@),
            keep == differs_from_previous(rows),
            item == |i: int| rows[i],
            views(kept@) == collect(i as int, keep, item),
        decreases sorted.len() - i,
    {
        assert(rows[i as int] == sorted@[i as int]@);
        assert(i > 0 ==> rows[i - 1] == sorted@[i - 1]@);
        let differs: bool = i == 0 || !sorted[i].value.same_value(&sorted[i - 1].value);
        assert(differs == keep(i as int));
        if differs {
            let ghost earlier = views(kept@);
            kept.push(sorted[i].copy());
            assert(views(kept@) =~= earlier.push(rows[i as int]));
        }
        i = i + 1;
    }
    assert(views(kept@) == without_repeats(rows));
    kept
}

// ---------------------------------------------------------------------------------------
// Laws
// ---------------------------------------------------------------------------------------

/// Whether each value is written in one way only: what shares a text or a value is the same.
/// A list that holds a floating-point zero under both signs is not.
pub open spec fn is_written_in_one_way(items: Seq<WrittenModel>) -> bool {
    forall|i: int, j: int|
        0 <= i < items.len() && 0 <= j < items.len() && ((#[trigger] items[i]).text == (#[trigger] items[j]).text
            || items[i].value.value() == items[j].value.value()) ==> items[i] == items[j]
}

proof fn sorting_keeps_the_items(items: Seq<WrittenModel>, sorted: Seq<WrittenModel>)
    requires
        is_stable_sort(items, texts_of(items), sorted),
        items.len() <= usize::MAX,
    ensures
        forall|x: WrittenModel| #[trigger] sorted.contains(x) <==> items.contains(x),
        forall|i: int, j: int|
            0 <= i < j < sorted.len() ==> (#[trigger] sorted[i]).text == (#[trigger] sorted[j]).text || text_lt(
                sorted[i].text,
                sorted[j].text,
            ),
{
    let keys = texts_of(items);
    let order = choose|order: Seq<usize>| #[trigger]
        is_stable_order(keys, order) && sorted == Seq::new(order.len(), |i: int| items[order[i] as int]);
    assert forall|x: WrittenModel| #[trigger] sorted.contains(x) <==> items.contains(x) by {
        if sorted.contains(x) {
            let i = choose|i: int| 0 <= i < sorted.len() && sorted[i] == x;
            assert(order[i] < keys.len());
            assert(items[order[i] as int] == x);
        }
        if items.contains(x) {
            let p = choose|p: int| 0 <= p < items.len() && items[p] == x;
            assert(order.contains(p as usize));
            let i = choose|i: int| 0 <= i < order.len() && order[i] == p as usize;
            assert(sorted[i] == x);
        }
    }
    assert forall|i: int, j: int| 0 <= i < j < sorted.len() implies (#[trigger] sorted[i]).text == (
    #[trigger] sorted[j]).text || text_lt(sorted[i].text, sorted[j].text) by {
        assert(before(keys, order[i] as int, order[j] as int));
        assert(order[i] < keys.len() && order[j] < keys.len());
        assert(sorted[i] == items[order[i] as int] && sorted[j] == items[order[j] as int]);
    }
}

proof fn some_kept_item_has_the_value(sorted: Seq<WrittenModel>, i: int)
    requires
        0 <= i < sorted.len(),
    ensures
        holds_value(without_repeats(sorted), sorted[i].value),
    decreases i,
{
    let keep = differs_from_previous(sorted);
    let item = |i: int| sorted[i];
    if keep(i) {
        collect_holds_the_kept_items(sorted.len() as int, keep, item, sorted[i]);
        assert(item(i) == sorted[i]);
        assert(without_repeats(sorted).contains(sorted[i]));
    } else {
        some_kept_item_has_the_value(sorted, i - 1);
    }
}

/// A list in order holds the values that were listed, and no others; each of its items was
/// listed.
pub proof fn ordering_keeps_the_values(items: Seq<WrittenModel>, result: Seq<WrittenModel>)
    requires
        is_ordered_once(items, result),
        items.len() <= usize::MAX,
    ensures
        forall|i: int| 0 <= i < result.len() ==> items.contains(#[trigger] result[i]),
        forall|value: JsonModel| #[trigger] holds_value(result, value) <==> holds_value(items, value),
{
    let sorted = choose|sorted: Seq<WrittenModel>| #[trigger]
        is_stable_sort(items, texts_of(items), sorted) && result == without_repeats(sorted);
    sorting_keeps_the_items(items, sorted);
    let keep = differs_from_previous(sorted);
    let item = |i: int| sorted[i];
    assert forall|i: int| 0 <= i < result.len() implies items.contains(#[trigger] result[i]) by {
        collect_holds_the_kept_items(sorted.len() as int, keep, item, result[i]);
        assert(result.contains(result[i]));
        let k = choose|k: int| 0 <= k < sorted.len() && #[trigger] keep(k) && item(k) == result[i];
        assert(sorted.contains(sorted[k]));
    }
    assert forall|value: JsonModel| #[trigger] holds_value(result, value) <==> holds_value(items, value) by {
        if holds_value(result, value) {
            let i = choose|i: int| 0 <= i < result.len() && (#[trigger] result[i]).value.value() == value.value();
            assert(items.contains(result[i]));
            let p = choose|p: int| 0 <= p < items.len() && items[p] == result[i];
            assert(items[p].value.value() == value.value());
        }
        if holds_value(items, value) {
            let p = choose|p: int| 0 <= p < items.len() && (#[trigger] items[p]).value.value() == value.value();
            assert(items.contains(items[p]));
            assert(sorted.contains(items[p]));
            let k = choose|k: int| 0 <= k < sorted.len() && sorted[k] == items[p];
            some_kept_item_has_the_value(sorted, k);
            let i = choose|i: int|
                0 <= i < result.len() && (#[trigger] result[i]).value.value() == sorted[k].value.value();
            assert(result[i].value.value() == value.value());
        }
    }
}

/// Where each value is written in one way only, a list in order holds each text once, ascending.
pub proof fn ordered_texts_ascend(items: Seq<WrittenModel>, result: Seq<WrittenModel>)
    requires
        is_ordered_once(items, result),
        is_written_in_one_way(items),
        items.len() <= usize::MAX,
    ensures
        is_sorted_set(texts_of(result), texts_of(items)),
{
    let sorted = choose|sorted: Seq<WrittenModel>| #[trigger]
        is_stable_sort(items, texts_of(items), sorted) && result == without_repeats(sorted);
    sorting_keeps_the_items(items, sorted);
    ordering_keeps_the_values(items, result);
    let keep = differs_from_previous(sorted);
    let item = |i: int| sorted[i];
    let ordered = texts_of(result);
    let listed = texts_of(items);
    selections_are_counted(sorted.len() as int, keep, item);
    assert forall|i: int, j: int| 0 <= i < j < ordered.len() implies text_lt(#[trigger] ordered[i], #[trigger] ordered[j]) by {
        let p = selected_from(sorted.len() as int, keep, i);
        let q = selected_from(sorted.len() as int, keep, j);
        kept_items_stand_in_order(sorted.len() as int, keep, item, p);
        kept_items_stand_in_order(sorted.len() as int, keep, item, q);
        assert(result[i] == sorted[p] && result[j] == sorted[q]);
        if q <= p {
            counts_grow(q, p, keep);
        }
        assert(sorted[p].text == sorted[q - 1].text || text_lt(sorted[p].text, sorted[q - 1].text)) by {
            if p < q - 1 {
                assert(sorted[p].text == sorted[q - 1].text || text_lt(sorted[p].text, sorted[q - 1].text));
            }
        }
        assert(keep(q));
        assert(sorted.contains(sorted[q]) && sorted.contains(sorted[q - 1]));
        let x = choose|x: int| 0 <= x < items.len() && items[x] == sorted[q];
        let y = choose|y: int| 0 <= y < items.len() && items[y] == sorted[q - 1];
        assert(items[x].text != items[y].text);
        assert(text_lt(sorted[q - 1].text, sorted[q].text));
        if text_lt(sorted[p].text, sorted[q - 1].text) {
            text_lt_transitive(sorted[p].text, sorted[q - 1].text, sorted[q].text);
        }
    }
    assert forall|x: Seq<char>| #[trigger] ordered.contains(x) <==> listed.contains(x) by {
        if ordered.contains(x) {
            let i = choose|i: int| 0 <= i < ordered.len() && ordered[i] == x;
            assert(items.contains(result[i]));
            let p = choose|p: int| 0 <= p < items.len() && items[p] == result[i];
            assert(listed[p] == x);
        }
        if listed.contains(x) {
            let p = choose|p: int| 0 <= p < listed.len() && listed[p] == x;
            assert(holds_value(items, items[p].value));
            assert(holds_value(result, items[p].value));
            let i = choose|i: int|
                0 <= i < result.len() && (#[trigger] result[i]).value.value() == items[p].value.value();
            assert(items.contains(result[i]));
            let q = choose|q: int| 0 <= q < items.len() && items[q] == result[i];
            assert(items[q] == items[p]);
            assert(ordered[i] == x);
        }
    }
}

proof fn repeats_are_dropped(sorted: Seq<WrittenModel>, count: int)
    requires
        0 < count <= sorted.len(),
        forall|i: int| 0 <= i < sorted.len() ==> (#[trigger] sorted[i]).value.value() == sorted[0].value.value(),
    ensures
        collect(count, differs_from_previous(sorted), |i: int| sorted[i]) == seq![sorted[0]],
    decreases count,
{
    let keep = differs_from_previous(sorted);
    let item = |i: int| sorted[i];
    if count == 1 {
        assert(keep(0));
        assert(collect(0, keep, item) =~= Seq::empty());
        assert(collect(1, keep, item) =~= seq![sorted[0]]);
    } else {
        repeats_are_dropped(sorted, count - 1);
        assert(sorted[count - 1].value.value() == sorted[count - 2].value.value());
        assert(!keep(count - 1));
    }
}

/// Of items that hold the same value one is left.
pub proof fn equal_values_are_one(items: Seq<WrittenModel>, result: Seq<WrittenModel>)
    requires
        0 < items.len() <= usize::MAX,
        forall|i: int| 0 <= i < items.len() ==> (#[trigger] items[i]).value.value() == items[0].value.value(),
        is_ordered_once(items, result),
    ensures
        result.len() == 1,
        items.contains(result[0]),
{
    let sorted = choose|sorted: Seq<WrittenModel>| #[trigger]
        is_stable_sort(items, texts_of(items), sorted) && result == without_repeats(sorted);
    sorting_keeps_the_items(items, sorted);
    assert forall|i: int| 0 <= i < sorted.len() implies (#[trigger] sorted[i]).value.value() == items[0].value.value() by {
        assert(sorted.contains(sorted[i]));
        let p = choose|p: int| 0 <= p < items.len() && items[p] == sorted[i];
    }
    assert(items.contains(items[0]));
    assert(sorted.contains(items[0]));
    repeats_are_dropped(sorted, sorted.len() as int);
    assert(sorted.contains(sorted[0]));
}

} // verus!

//! The union of conditions.

use vstd::prelude::*;

use crate::json::{Json, JsonModel};
use crate::order::views;
use crate::written::{equal_values_are_one, is_ordered_once, ordered_once, values_of, WrittenJson, WrittenModel};

verus! {

/// The union of conditions.
#[derive(Debug, Clone)]
pub enum ConditionUnion {
    /// There is no condition.
    Always,
    /// There is one.
    One(Json),
    /// There are several; any of them holds.
    Any(Vec<Json>),
}

/// Whether a union is that of conditions.
pub open spec fn is_union(conditions: Seq<JsonModel>, union: ConditionUnion) -> bool {
    match union {
        ConditionUnion::Always => conditions.len() == 0,
        ConditionUnion::One(condition) => conditions.len() == 1 && condition@ == conditions[0],
        ConditionUnion::Any(list) => conditions.len() > 1 && views(list@) == conditions,
    }
}

/// The union of conditions in their canonical form: in the order of their texts, each once.
pub fn condition_union(conditions: Vec<WrittenJson>) -> (result: ConditionUnion)
    ensures
        exists|kept: Seq<WrittenModel>| #[trigger]
            is_ordered_once(views(conditions@), kept) && is_union(values_of(kept), result),
{
    let kept = ordered_once(conditions);
    let ghost rows = kept@;
    let ghost all = values_of(views(kept@));
    assert(views(kept@).len() == kept@.len());
    let mut list: Vec<Json> = Vec::new();
    assert(views(list@) =~= all.take(0));
    for item in it: kept
        invariant
            it.seq() == rows,
            all == values_of(views(rows)),
            views(list@) == all.take(it.index() as int),
    {
        let ghost earlier = views(list@);
        let ghost place = it.index() as int;
        assert(item == rows[place]);
        assert(all[place] == views(rows)[place].value);
        assert(views(rows)[place] == rows[place]@);
        list.push(item.value);
        assert(views(list@) =~= earlier.push(all[place]));
        assert(all.take(place + 1) =~= all.take(place).push(all[place]));
    }
    assert(views(list@) =~= all);
    assert(views(list@).len() == list@.len());
    if list.len() == 0 {
        return ConditionUnion::Always;
    }
    if list.len() == 1 {
        let ghost listed = list@;
        match list.pop() {
            Some(condition) => {
                assert(views(listed)[0] == condition@);
                return ConditionUnion::One(condition);
            },
            None => {
                return ConditionUnion::Always;
            },
        }
    }
    ConditionUnion::Any(list)
}

/// The union of conditions that hold the same value is one of them.
pub proof fn equal_conditions_are_one(conditions: Seq<WrittenModel>, kept: Seq<WrittenModel>, union: ConditionUnion)
    requires
        0 < conditions.len() <= usize::MAX,
        forall|i: int|
            0 <= i < conditions.len() ==> (#[trigger] conditions[i]).value.value() == conditions[0].value.value(),
        is_ordered_once(conditions, kept),
        is_union(values_of(kept), union),
    ensures
        union matches ConditionUnion::One(condition) && values_of(conditions).contains(condition@),
{
    equal_values_are_one(conditions, kept);
    let p = choose|p: int| 0 <= p < conditions.len() && conditions[p] == kept[0];
    assert(values_of(conditions)[p] == kept[0].value);
    assert(values_of(kept)[0] == kept[0].value);
}

} // verus!

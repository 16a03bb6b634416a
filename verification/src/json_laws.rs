//! What fields and values of JSON are.

use vstd::prelude::*;

use crate::json::{field_from, seen, JsonModel, NEGATIVE_ZERO};

verus! {

proof fn field_stands_first(fields: Seq<(Seq<char>, JsonModel)>, name: Seq<char>, from: int)
    requires
        0 <= from <= fields.len(),
    ensures
        match field_from(fields, name, from) {
            Some(value) => exists|i: int|
                from <= i < fields.len() && (#[trigger] fields[i]).0 == name && fields[i].1 == value && forall|j: int|
                    from <= j < i ==> (#[trigger] fields[j]).0 != name,
            None => forall|i: int| from <= i < fields.len() ==> (#[trigger] fields[i]).0 != name,
        },
    decreases fields.len() - from,
{
    if from < fields.len() {
        if fields[from].0 == name {
            assert(fields[from].1 == fields[from].1);
        } else {
            field_stands_first(fields, name, from + 1);
            if let Some(value) = field_from(fields, name, from + 1) {
                let i = choose|i: int|
                    from + 1 <= i < fields.len() && (#[trigger] fields[i]).0 == name && fields[i].1 == value && forall|
                        j: int,
                    |
                        from + 1 <= j < i ==> (#[trigger] fields[j]).0 != name;
                assert(fields[i].0 == name);
            }
        }
    }
}

/// A field of an object is found by its name, and nothing else is; what is no object has no field.
pub proof fn fields_are_found_by_name(fields: Seq<(Seq<char>, JsonModel)>, i: int, name: Seq<char>)
    requires
        forall|a: int, b: int| 0 <= a < b < fields.len() ==> (#[trigger] fields[a]).0 != (#[trigger] fields[b]).0,
        0 <= i < fields.len(),
    ensures
        JsonModel::Object(fields).field(fields[i].0) == Some(fields[i].1),
        JsonModel::Object(fields).field(name) is None <==> forall|j: int|
            0 <= j < fields.len() ==> (#[trigger] fields[j]).0 != name,
        JsonModel::Null.field(name) is None,
        JsonModel::Text(name).field(name) is None,
{
    field_stands_first(fields, fields[i].0, 0);
    field_stands_first(fields, name, 0);
}

/// By value, zero and negative zero are one, and nothing else is: flags, numbers and texts are
/// equal by value where they are equal, lists where they are equally long and equal by value item
/// by item.
pub proof fn values_are_equal_item_by_item(a: JsonModel, b: JsonModel)
    ensures
        a is Text && a.value() == b.value() ==> a == b,
        a is Bool && a.value() == b.value() ==> a == b,
        a is Unsigned && a.value() == b.value() ==> a == b,
        a is Negative && a.value() == b.value() ==> a == b,
        a is Null && a.value() == b.value() ==> a == b,
        a matches JsonModel::Float(x) ==> b matches JsonModel::Float(y) ==> (a.value() == b.value() <==> x == y || (x
            == 0 || x == NEGATIVE_ZERO) && (y == 0 || y == NEGATIVE_ZERO)),
        a matches JsonModel::Array(x) ==> b matches JsonModel::Array(y) ==> (a.value() == b.value() <==> x.len()
            == y.len() && forall|i: int| 0 <= i < x.len() ==> (#[trigger] x[i]).value() == y[i].value()),
        a matches JsonModel::Object(x) ==> b matches JsonModel::Object(y) ==> (a.value() == b.value() <==> x.len()
            == y.len() && forall|i: int|
            0 <= i < x.len() ==> (#[trigger] x[i]).0 == y[i].0 && x[i].1.value() == y[i].1.value()),
        a == b ==> a.value() == b.value(),
{
    if a is Array && b is Array {
        lists_are_equal_item_by_item(a->Array_0, b->Array_0);
    }
    if a is Object && b is Object {
        objects_are_equal_field_by_field(a->Object_0, b->Object_0);
    }
}

proof fn lists_are_equal_item_by_item(x: Seq<JsonModel>, y: Seq<JsonModel>)
    ensures
        JsonModel::Array(x).value() == JsonModel::Array(y).value() <==> x.len() == y.len() && forall|i: int|
            0 <= i < x.len() ==> (#[trigger] x[i]).value() == y[i].value(),
{
    reveal_with_fuel(seen, 2);
    let left = JsonModel::Array(x).value()->Array_0;
    let right = JsonModel::Array(y).value()->Array_0;
    assert(left.len() == x.len() && right.len() == y.len());
    if left == right {
        assert forall|i: int| 0 <= i < x.len() implies (#[trigger] x[i]).value() == y[i].value() by {
            assert(left[i] == seen(x[i], false));
            assert(right[i] == seen(y[i], false));
        }
    }
    if x.len() == y.len() && forall|i: int| 0 <= i < x.len() ==> (#[trigger] x[i]).value() == y[i].value() {
        assert forall|i: int| 0 <= i < x.len() implies left[i] == right[i] by {
            assert(x[i].value() == y[i].value());
            assert(left[i] == seen(x[i], false));
            assert(right[i] == seen(y[i], false));
        }
        assert(left =~= right);
    }
}

proof fn objects_are_equal_field_by_field(x: Seq<(Seq<char>, JsonModel)>, y: Seq<(Seq<char>, JsonModel)>)
    ensures
        JsonModel::Object(x).value() == JsonModel::Object(y).value() <==> x.len() == y.len() && forall|i: int|
            0 <= i < x.len() ==> (#[trigger] x[i]).0 == y[i].0 && x[i].1.value() == y[i].1.value(),
{
    reveal_with_fuel(seen, 2);
    let left = JsonModel::Object(x).value()->Object_0;
    let right = JsonModel::Object(y).value()->Object_0;
    assert(left.len() == x.len() && right.len() == y.len());
    if left == right {
        assert forall|i: int| 0 <= i < x.len() implies (#[trigger] x[i]).0 == y[i].0 && x[i].1.value()
            == y[i].1.value() by {
            assert(left[i] == (x[i].0, seen(x[i].1, false)));
            assert(right[i] == (y[i].0, seen(y[i].1, false)));
        }
    }
    if x.len() == y.len() && forall|i: int|
        0 <= i < x.len() ==> (#[trigger] x[i]).0 == y[i].0 && x[i].1.value() == y[i].1.value() {
        assert forall|i: int| 0 <= i < x.len() implies left[i] == right[i] by {
            assert(x[i].0 == y[i].0 && x[i].1.value() == y[i].1.value());
            assert(left[i] == (x[i].0, seen(x[i].1, false)));
            assert(right[i] == (y[i].0, seen(y[i].1, false)));
        }
        assert(left =~= right);
    }
}

} // verus!

//! JSON values as the store reads them.

use vstd::prelude::*;

use crate::text::same;

verus! {

/// A JSON value. A number is an unsigned or a negative 64-bit integer, or else a finite 64-bit
/// floating-point number, which is kept as its bits. The fields of an object stand in ascending
/// order of their names, each name once.
#[derive(Debug)]
pub enum Json {
    Null,
    Bool(bool),
    Unsigned(u64),
    Negative(i64),
    Float(u64),
    Text(String),
    Array(Vec<Json>),
    Object(Vec<(String, Json)>),
}

/// What a JSON value holds.
#[verifier::ext_equal]
pub enum JsonModel {
    Null,
    Bool(bool),
    Unsigned(u64),
    Negative(i64),
    Float(u64),
    Text(Seq<char>),
    Array(Seq<JsonModel>),
    Object(Seq<(Seq<char>, JsonModel)>),
}

impl View for Json {
    type V = JsonModel;

    open spec fn view(&self) -> JsonModel {
        json_model(*self)
    }
}

/// What a JSON value holds.
pub open spec fn json_model(value: Json) -> JsonModel
    decreases value,
{
    match value {
        Json::Null => JsonModel::Null,
        Json::Bool(flag) => JsonModel::Bool(flag),
        Json::Unsigned(number) => JsonModel::Unsigned(number),
        Json::Negative(number) => JsonModel::Negative(number),
        Json::Float(bits) => JsonModel::Float(bits),
        Json::Text(text) => JsonModel::Text(text@),
        Json::Array(items) => JsonModel::Array(
            Seq::new(
                items@.len(),
                |i: int|
                    if 0 <= i < items@.len() {
                        json_model(items@[i])
                    } else {
                        JsonModel::Null
                    },
            ),
        ),
        Json::Object(fields) => JsonModel::Object(
            Seq::new(
                fields@.len(),
                |i: int|
                    if 0 <= i < fields@.len() {
                        (fields@[i].0@, json_model(fields@[i].1))
                    } else {
                        (Seq::<char>::empty(), JsonModel::Null)
                    },
            ),
        ),
    }
}

/// What an optional JSON value holds.
pub open spec fn opt_json(value: Option<Json>) -> Option<JsonModel> {
    match value {
        Some(json) => Some(json@),
        None => None,
    }
}

/// The value of the first field with the given name among the fields from `from` on.
pub open spec fn field_from(
    fields: Seq<(Seq<char>, JsonModel)>,
    name: Seq<char>,
    from: int,
) -> Option<JsonModel>
    decreases fields.len() - from,
{
    if from < 0 || from >= fields.len() {
        None
    } else if fields[from].0 == name {
        Some(fields[from].1)
    } else {
        field_from(fields, name, from + 1)
    }
}

/// The bits of the floating-point zero with a sign.
pub const NEGATIVE_ZERO: u64 = 0x8000_0000_0000_0000;

/// What a JSON value is told by: exactly by what it holds, or by its value, to which the sign of
/// a floating-point zero does not belong.
pub open spec fn seen(model: JsonModel, exactly: bool) -> JsonModel
    decreases model,
{
    match model {
        JsonModel::Float(bits) => if !exactly && bits == NEGATIVE_ZERO {
            JsonModel::Float(0)
        } else {
            model
        },
        JsonModel::Array(items) => JsonModel::Array(
            Seq::new(
                items.len(),
                |i: int|
                    if 0 <= i < items.len() {
                        seen(items[i], exactly)
                    } else {
                        JsonModel::Null
                    },
            ),
        ),
        JsonModel::Object(fields) => JsonModel::Object(
            Seq::new(
                fields.len(),
                |i: int|
                    if 0 <= i < fields.len() {
                        (fields[i].0, seen(fields[i].1, exactly))
                    } else {
                        (Seq::<char>::empty(), JsonModel::Null)
                    },
            ),
        ),
        _ => model,
    }
}

proof fn exactly_seen(model: JsonModel)
    ensures
        seen(model, true) == model,
    decreases model,
{
    match model {
        JsonModel::Array(items) => {
            assert forall|i: int| 0 <= i < items.len() implies seen(#[trigger] items[i], true) == items[i] by {
                exactly_seen(items[i]);
            }
            assert(seen(model, true)->Array_0 =~= items);
        },
        JsonModel::Object(fields) => {
            assert forall|i: int| 0 <= i < fields.len() implies seen((#[trigger] fields[i]).1, true) == fields[i].1 by {
                exactly_seen(fields[i].1);
            }
            assert(seen(model, true)->Object_0 =~= fields);
        },
        _ => {},
    }
}

impl JsonModel {
    /// The value: the same for floating-point zeros of either sign.
    pub open spec fn value(self) -> JsonModel {
        seen(self, false)
    }

    /// The field of an object with the given name; nothing for other values.
    pub open spec fn field(self, name: Seq<char>) -> Option<JsonModel> {
        match self {
            JsonModel::Object(fields) => field_from(fields, name, 0),
            _ => None,
        }
    }

    /// The text of a field that holds text.
    pub open spec fn text_field(self, name: Seq<char>) -> Option<Seq<char>> {
        match self.field(name) {
            Some(JsonModel::Text(text)) => Some(text),
            _ => None,
        }
    }

    /// The number of a field that holds an unsigned number.
    pub open spec fn unsigned_field(self, name: Seq<char>) -> Option<u64> {
        match self.field(name) {
            Some(JsonModel::Unsigned(number)) => Some(number),
            _ => None,
        }
    }

    /// The flag of a field that holds one.
    pub open spec fn bool_field(self, name: Seq<char>) -> Option<bool> {
        match self.field(name) {
            Some(JsonModel::Bool(flag)) => Some(flag),
            _ => None,
        }
    }
}

impl Json {
    /// The field of an object with the given name; nothing for other values.
    pub fn get(&self, name: &str) -> (result: Option<&Json>)
        ensures
            match result {
                Some(value) => self@.field(name@) == Some(value@),
                None => self@.field(name@) is None,
            },
    {
        match self {
            Json::Object(fields) => {
                let ghost model = self@->Object_0;
                let mut i: usize = 0;
                while i < fields.len()
                    invariant
                        i <= fields.len(),
                        *self == Json::Object(*fields),
                        model == self@->Object_0,
                        field_from(model, name@, 0) == field_from(model, name@, i as int),
                    decreases fields.len() - i,
                {
                    assert(model[i as int] == (fields@[i as int].0@, fields@[i as int].1@));
                    if same(fields[i].0.as_str(), name) {
                        return Some(&fields[i].1);
                    }
                    i = i + 1;
                }
                None
            },
            _ => None,
        }
    }

    /// The text that the value holds, where it holds text.
    pub fn as_str(&self) -> (result: Option<&str>)
        ensures
            match result {
                Some(text) => self@ == JsonModel::Text(text@),
                None => self@ !is Text,
            },
    {
        match self {
            Json::Text(text) => Some(text.as_str()),
            _ => None,
        }
    }

    /// The text of the field with the given name, where it holds text.
    pub fn get_str(&self, name: &str) -> (result: Option<&str>)
        ensures
            match result {
                Some(text) => self@.text_field(name@) == Some(text@),
                None => self@.text_field(name@) is None,
            },
    {
        match self.get(name) {
            Some(value) => value.as_str(),
            None => None,
        }
    }

    /// The number of the field with the given name, where it holds an unsigned number.
    pub fn get_unsigned(&self, name: &str) -> (result: Option<u64>)
        ensures
            result == self@.unsigned_field(name@),
    {
        match self.get(name) {
            Some(Json::Unsigned(number)) => Some(*number),
            _ => None,
        }
    }

    /// The flag of the field with the given name, where it holds one.
    pub fn get_bool(&self, name: &str) -> (result: Option<bool>)
        ensures
            result == self@.bool_field(name@),
    {
        match self.get(name) {
            Some(Json::Bool(flag)) => Some(*flag),
            _ => None,
        }
    }

    /// Whether the value is an object.
    pub fn is_object(&self) -> (result: bool)
        ensures
            result == (self@ is Object),
    {
        match self {
            Json::Object(_) => true,
            _ => false,
        }
    }

    /// Whether two values are the same.
    pub fn same_value(&self, other: &Json) -> (result: bool)
        ensures
            result == (self@.value() == other@.value()),
    {
        self.seen_as(other, false)
    }

    /// Whether two values hold exactly the same, and so are written alike.
    pub fn same_text(&self, other: &Json) -> (result: bool)
        ensures
            result == (self@ == other@),
    {
        proof {
            exactly_seen(self@);
            exactly_seen(other@);
        }
        self.seen_as(other, true)
    }

    fn seen_as(&self, other: &Json, exactly: bool) -> (result: bool)
        ensures
            result == (seen(self@, exactly) == seen(other@, exactly)),
        decreases *self,
    {
        match (self, other) {
            (Json::Null, Json::Null) => true,
            (Json::Bool(a), Json::Bool(b)) => *a == *b,
            (Json::Unsigned(a), Json::Unsigned(b)) => *a == *b,
            (Json::Negative(a), Json::Negative(b)) => *a == *b,
            (Json::Float(a), Json::Float(b)) => *a == *b || (!exactly && (*a == 0 || *a == NEGATIVE_ZERO) && (*b == 0
                || *b == NEGATIVE_ZERO)),
            (Json::Text(a), Json::Text(b)) => *a == *b,
            (Json::Array(a), Json::Array(b)) => {
                let ghost left = seen(self@, exactly)->Array_0;
                let ghost right = seen(other@, exactly)->Array_0;
                if a.len() != b.len() {
                    assert(left.len() != right.len());
                    return false;
                }
                let mut i: usize = 0;
                while i < a.len()
                    invariant
                        i <= a.len(),
                        a.len() == b.len(),
                        *self == Json::Array(*a),
                        *other == Json::Array(*b),
                        left == seen(self@, exactly)->Array_0,
                        right == seen(other@, exactly)->Array_0,
                        forall|j: int| 0 <= j < i ==> left[j] == right[j],
                    decreases a.len() - i,
                {
                    assert(self@->Array_0[i as int] == a@[i as int]@);
                    assert(other@->Array_0[i as int] == b@[i as int]@);
                    assert(left[i as int] == seen(a@[i as int]@, exactly));
                    assert(right[i as int] == seen(b@[i as int]@, exactly));
                    assert(decreases_to!(*self => a@[i as int]));
                    if !a[i].seen_as(&b[i], exactly) {
                        return false;
                    }
                    i = i + 1;
                }
                assert(left =~= right);
                true
            },
            (Json::Object(a), Json::Object(b)) => {
                let ghost left = seen(self@, exactly)->Object_0;
                let ghost right = seen(other@, exactly)->Object_0;
                if a.len() != b.len() {
                    assert(left.len() != right.len());
                    return false;
                }
                let mut i: usize = 0;
                while i < a.len()
                    invariant
                        i <= a.len(),
                        a.len() == b.len(),
                        *self == Json::Object(*a),
                        *other == Json::Object(*b),
                        left == seen(self@, exactly)->Object_0,
                        right == seen(other@, exactly)->Object_0,
                        forall|j: int| 0 <= j < i ==> left[j] == right[j],
                    decreases a.len() - i,
                {
                    assert(self@->Object_0[i as int] == (a@[i as int].0@, a@[i as int].1@));
                    assert(other@->Object_0[i as int] == (b@[i as int].0@, b@[i as int].1@));
                    assert(left[i as int] == (a@[i as int].0@, seen(a@[i as int].1@, exactly)));
                    assert(right[i as int] == (b@[i as int].0@, seen(b@[i as int].1@, exactly)));
                    assert(decreases_to!(*self => a@[i as int].1));
                    if a[i].0 != b[i].0 {
                        return false;
                    }
                    if !a[i].1.seen_as(&b[i].1, exactly) {
                        return false;
                    }
                    i = i + 1;
                }
                assert(left =~= right);
                true
            },
            _ => false,
        }
    }

    /// A copy of the value.
    pub fn copy(&self) -> (result: Json)
        ensures
            result@ == self@,
        decreases *self,
    {
        match self {
            Json::Null => Json::Null,
            Json::Bool(flag) => Json::Bool(*flag),
            Json::Unsigned(number) => Json::Unsigned(*number),
            Json::Negative(number) => Json::Negative(*number),
            Json::Float(bits) => Json::Float(*bits),
            Json::Text(text) => Json::Text(text.clone()),
            Json::Array(items) => {
                let mut copies: Vec<Json> = Vec::new();
                let mut i: usize = 0;
                while i < items.len()
                    invariant
                        i <= items.len(),
                        *self == Json::Array(*items),
                        copies.len() == i,
                        forall|j: int| 0 <= j < i ==> copies@[j]@ == items@[j]@,
                    decreases items.len() - i,
                {
                    assert(self@->Array_0[i as int] == items@[i as int]@);
                    assert(decreases_to!(*self => items@[i as int]));
                    copies.push(items[i].copy());
                    i = i + 1;
                }
                let result = Json::Array(copies);
                assert(result@->Array_0 =~= self@->Array_0);
                result
            },
            Json::Object(fields) => {
                let mut copies: Vec<(String, Json)> = Vec::new();
                let mut i: usize = 0;
                while i < fields.len()
                    invariant
                        i <= fields.len(),
                        *self == Json::Object(*fields),
                        copies.len() == i,
                        forall|j: int|
                            0 <= j < i ==> copies@[j].0@ == fields@[j].0@ && copies@[j].1@
                                == fields@[j].1@,
                    decreases fields.len() - i,
                {
                    assert(self@->Object_0[i as int] == (fields@[i as int].0@, fields@[i as int].1@));
                    assert(decreases_to!(*self => fields@[i as int].1));
                    copies.push((fields[i].0.clone(), fields[i].1.copy()));
                    i = i + 1;
                }
                let result = Json::Object(copies);
                assert(result@->Object_0 =~= self@->Object_0);
                result
            },
        }
    }
}

impl Clone for Json {
    fn clone(&self) -> (result: Json)
        ensures
            result@ == self@,
    {
        self.copy()
    }
}

impl PartialEq for Json {
    fn eq(&self, other: &Json) -> (result: bool) {
        self.same_value(other)
    }
}

impl vstd::std_specs::cmp::PartialEqSpecImpl for Json {
    open spec fn obeys_eq_spec() -> bool {
        true
    }

    open spec fn eq_spec(&self, other: &Json) -> bool {
        self@.value() == other@.value()
    }
}

/// The value of an optional JSON value.
pub open spec fn opt_value(model: Option<JsonModel>) -> Option<JsonModel> {
    match model {
        Some(json) => Some(json.value()),
        None => None,
    }
}

/// Whether two optional values are the same.
pub fn same_opt_json(a: &Option<Json>, b: &Option<Json>) -> (result: bool)
    ensures
        result == (opt_value(opt_json(*a)) == opt_value(opt_json(*b))),
{
    match (a, b) {
        (Some(a), Some(b)) => a.same_value(b),
        (None, None) => true,
        _ => false,
    }
}

/// A copy of an optional value.
pub fn copy_opt_json(value: &Option<Json>) -> (result: Option<Json>)
    ensures
        opt_json(result) == opt_json(*value),
{
    match value {
        Some(json) => Some(json.copy()),
        None => None,
    }
}

} // verus!

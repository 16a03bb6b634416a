//! The report of coverage that a scan stores: what its workers reported, as one JSON value.

use vstd::prelude::*;

use crate::coverage::{counters_fit, is_merge, merge_coverage, WorkerCoverage, WorkerModel};
use crate::ingest::{flag_default, flag_or, unsigned_default, unsigned_or};
use crate::json::{field_from, Json, JsonModel};
use crate::order::{ascending, views};
use crate::text::{less, same, text_lt, text_lt_irreflexive, text_lt_total, text_lt_transitive};
use crate::written::{values_of, WrittenJson, WrittenModel};

verus! {

// ---------------------------------------------------------------------------------------
// Fields
// ---------------------------------------------------------------------------------------

/// The names of fields.
pub open spec fn names_of(fields: Seq<(Seq<char>, JsonModel)>) -> Seq<Seq<char>> {
    Seq::new(fields.len(), |i: int| fields[i].0)
}

/// Where a field belongs among fields in ascending order, from a place on.
pub open spec fn place_for(fields: Seq<(Seq<char>, JsonModel)>, name: Seq<char>, from: int) -> int
    decreases fields.len() - from,
{
    if from < 0 || from >= fields.len() || !text_lt(fields[from].0, name) {
        from
    } else {
        place_for(fields, name, from + 1)
    }
}

/// Fields with one set: in its place where it is there, else where it belongs.
pub open spec fn with_field(fields: Seq<(Seq<char>, JsonModel)>, name: Seq<char>, value: JsonModel) -> Seq<
    (Seq<char>, JsonModel),
> {
    let place = place_for(fields, name, 0);
    if place < fields.len() && fields[place].0 == name {
        fields.update(place, (name, value))
    } else {
        fields.insert(place, (name, value))
    }
}

/// What fields hold.
pub open spec fn held(fields: Seq<(String, Json)>) -> Seq<(Seq<char>, JsonModel)> {
    Seq::new(fields.len(), |i: int| (fields[i].0@, fields[i].1@))
}

proof fn place_is_in_range(fields: Seq<(Seq<char>, JsonModel)>, name: Seq<char>, from: int)
    requires
        0 <= from <= fields.len(),
    ensures
        from <= place_for(fields, name, from) <= fields.len(),
        forall|i: int| from <= i < place_for(fields, name, from) ==> text_lt((#[trigger] fields[i]).0, name),
        place_for(fields, name, from) < fields.len() ==> !text_lt(fields[place_for(fields, name, from)].0, name),
    decreases fields.len() - from,
{
    if from < fields.len() && text_lt(fields[from].0, name) {
        place_is_in_range(fields, name, from + 1);
    }
}

/// Sets a field.
pub fn set_field(fields: &mut Vec<(String, Json)>, name: &str, value: Json)
    ensures
        held(final(fields)@) == with_field(held(old(fields)@), name@, value@),
{
    let ghost before = held(fields@);
    let mut place: usize = 0;
    while place < fields.len() && less(fields[place].0.as_str(), name)
        invariant
            place <= fields.len(),
            before == held(fields@),
            place_for(before, name@, 0) == place_for(before, name@, place as int),
        decreases fields.len() - place,
    {
        place = place + 1;
    }
    assert(place < fields.len() ==> before[place as int].0 == fields@[place as int].0@);
    assert(place_for(before, name@, 0) == place);
    if place < fields.len() && same(fields[place].0.as_str(), name) {
        fields.set(place, (String::from_str(name), value));
    } else {
        fields.insert(place, (String::from_str(name), value));
    }
    assert(held(fields@) =~= with_field(before, name@, value@));
}

// ---------------------------------------------------------------------------------------
// Reports
// ---------------------------------------------------------------------------------------

/// What a worker reports in a JSON value; the levels and the reasons are those that are listed.
pub open spec fn report_model(value: JsonModel, completeness: Seq<WrittenModel>, reasons: Seq<WrittenModel>) -> WorkerModel {
    WorkerModel {
        profiles: unsigned_or(value, "profiles"@, 0),
        files_discovered: unsigned_or(value, "files_discovered"@, 0),
        files_analyzed: unsigned_or(value, "files_analyzed"@, 0),
        files_skipped: unsigned_or(value, "files_skipped"@, 0),
        dependency_sites: unsigned_or(value, "dependency_sites"@, 0),
        resolved: unsigned_or(value, "resolved"@, 0),
        candidates: unsigned_or(value, "candidates"@, 0),
        external: unsigned_or(value, "external"@, 0),
        unresolved: unsigned_or(value, "unresolved"@, 0),
        unsupported_syntax: unsigned_or(value, "unsupported_syntax"@, 0),
        project_code_executed: flag_or(value, "project_code_executed"@, false),
        completeness,
        reasons,
    }
}

/// The report of a worker.
pub fn worker_report(value: &Json, completeness: Vec<WrittenJson>, reasons: Vec<WrittenJson>) -> (result:
    WorkerCoverage)
    ensures
        result@ == report_model(value@, views(completeness@), views(reasons@)),
{
    WorkerCoverage {
        profiles: unsigned_default(value, "profiles", 0),
        files_discovered: unsigned_default(value, "files_discovered", 0),
        files_analyzed: unsigned_default(value, "files_analyzed", 0),
        files_skipped: unsigned_default(value, "files_skipped", 0),
        dependency_sites: unsigned_default(value, "dependency_sites", 0),
        resolved: unsigned_default(value, "resolved", 0),
        candidates: unsigned_default(value, "candidates", 0),
        external: unsigned_default(value, "external", 0),
        unresolved: unsigned_default(value, "unresolved", 0),
        unsupported_syntax: unsigned_default(value, "unsupported_syntax", 0),
        project_code_executed: flag_default(value, "project_code_executed", false),
        completeness,
        reasons,
    }
}

/// Merges the reports of two workers where their counters can be added.
pub fn merge_reports(left: &WorkerCoverage, right: &WorkerCoverage) -> (result: Option<WorkerCoverage>)
    ensures
        match result {
            Some(merged) => is_merge(merged@, left@, right@),
            None => !counters_fit(left@, right@),
        },
{
    let fit: bool = left.profiles <= u64::MAX - right.profiles
        && left.files_discovered <= u64::MAX - right.files_discovered
        && left.files_analyzed <= u64::MAX - right.files_analyzed
        && left.files_skipped <= u64::MAX - right.files_skipped
        && left.dependency_sites <= u64::MAX - right.dependency_sites
        && left.resolved <= u64::MAX - right.resolved
        && left.candidates <= u64::MAX - right.candidates
        && left.external <= u64::MAX - right.external
        && left.unresolved <= u64::MAX - right.unresolved
        && left.unsupported_syntax <= u64::MAX - right.unsupported_syntax;
    if fit {
        Some(merge_coverage(left, right))
    } else {
        None
    }
}

/// The fields of an object; none of any other value.
pub open spec fn object_fields(value: JsonModel) -> Seq<(Seq<char>, JsonModel)> {
    match value {
        JsonModel::Object(fields) => fields,
        _ => Seq::empty(),
    }
}

/// Fields with the first `count` of further ones set.
pub open spec fn with_fields(
    fields: Seq<(Seq<char>, JsonModel)>,
    added: Seq<(Seq<char>, JsonModel)>,
    count: int,
) -> Seq<(Seq<char>, JsonModel)>
    decreases count,
{
    if count <= 0 {
        fields
    } else {
        with_field(with_fields(fields, added, count - 1), added[count - 1].0, added[count - 1].1)
    }
}

/// The fields of a report.
pub open spec fn report_fields(report: WorkerModel) -> Seq<(Seq<char>, JsonModel)> {
    seq![
        ("profiles"@, JsonModel::Unsigned(report.profiles)),
        ("files_discovered"@, JsonModel::Unsigned(report.files_discovered)),
        ("files_analyzed"@, JsonModel::Unsigned(report.files_analyzed)),
        ("files_skipped"@, JsonModel::Unsigned(report.files_skipped)),
        ("dependency_sites"@, JsonModel::Unsigned(report.dependency_sites)),
        ("resolved"@, JsonModel::Unsigned(report.resolved)),
        ("candidates"@, JsonModel::Unsigned(report.candidates)),
        ("external"@, JsonModel::Unsigned(report.external)),
        ("unresolved"@, JsonModel::Unsigned(report.unresolved)),
        ("unsupported_syntax"@, JsonModel::Unsigned(report.unsupported_syntax)),
        ("project_code_executed"@, JsonModel::Bool(report.project_code_executed)),
        ("completeness"@, JsonModel::Array(values_of(report.completeness))),
        ("reasons"@, JsonModel::Array(values_of(report.reasons))),
    ]
}

/// Fields with a report set.
pub open spec fn with_report(fields: Seq<(Seq<char>, JsonModel)>, report: WorkerModel) -> Seq<(Seq<char>, JsonModel)> {
    let added = report_fields(report);
    with_fields(fields, added, added.len() as int)
}

fn listed_values(items: &Vec<WrittenJson>) -> (result: Json)
    ensures
        result@ == JsonModel::Array(values_of(views(items@))),
{
    let mut values: Vec<Json> = Vec::new();
    let mut i: usize = 0;
    while i < items.len()
        invariant
            i <= items.len(),
            values.len() == i,
            forall|k: int| 0 <= k < i ==> (#[trigger] values@[k])@ == items@[k].value@,
        decreases items.len() - i,
    {
        values.push(items[i].value.copy());
        i = i + 1;
    }
    let result = Json::Array(values);
    assert(result@->Array_0 =~= values_of(views(items@)));
    result
}

/// A stored value with a report set in it. Fields that no report has stay as they are, and a
/// stored value that is no object is replaced.
pub fn stored_report(stored: Json, report: &WorkerCoverage) -> (result: Json)
    ensures
        result@ == JsonModel::Object(with_report(object_fields(stored@), report@)),
{
    let ghost before = object_fields(stored@);
    let mut fields: Vec<(String, Json)> = match stored {
        Json::Object(fields) => {
            assert(held(fields@) =~= before);
            fields
        },
        _ => {
            let fields: Vec<(String, Json)> = Vec::new();
            assert(held(fields@) =~= before);
            fields
        },
    };
    let ghost added = report_fields(report@);
    set_field(&mut fields, "profiles", Json::Unsigned(report.profiles));
    set_field(&mut fields, "files_discovered", Json::Unsigned(report.files_discovered));
    set_field(&mut fields, "files_analyzed", Json::Unsigned(report.files_analyzed));
    set_field(&mut fields, "files_skipped", Json::Unsigned(report.files_skipped));
    set_field(&mut fields, "dependency_sites", Json::Unsigned(report.dependency_sites));
    set_field(&mut fields, "resolved", Json::Unsigned(report.resolved));
    set_field(&mut fields, "candidates", Json::Unsigned(report.candidates));
    set_field(&mut fields, "external", Json::Unsigned(report.external));
    set_field(&mut fields, "unresolved", Json::Unsigned(report.unresolved));
    set_field(&mut fields, "unsupported_syntax", Json::Unsigned(report.unsupported_syntax));
    set_field(&mut fields, "project_code_executed", Json::Bool(report.project_code_executed));
    set_field(&mut fields, "completeness", listed_values(&report.completeness));
    set_field(&mut fields, "reasons", listed_values(&report.reasons));
    assert(held(fields@) == with_fields(before, added, added.len() as int)) by {
        reveal_with_fuel(with_fields, 14);
    }
    let result = Json::Object(fields);
    assert(result@->Object_0 =~= held(fields@));
    result
}

// ---------------------------------------------------------------------------------------
// Laws
// ---------------------------------------------------------------------------------------

proof fn field_is_found(fields: Seq<(Seq<char>, JsonModel)>, name: Seq<char>, place: int, from: int)
    requires
        ascending(names_of(fields)),
        0 <= from <= place < fields.len(),
        fields[place].0 == name,
    ensures
        field_from(fields, name, from) == Some(fields[place].1),
    decreases place - from,
{
    if from < place {
        let names = names_of(fields);
        assert(text_lt(names[from], names[place]));
        text_lt_irreflexive(name);
        field_is_found(fields, name, place, from + 1);
    }
}

proof fn no_field_is_found(fields: Seq<(Seq<char>, JsonModel)>, name: Seq<char>, from: int)
    requires
        0 <= from <= fields.len(),
        forall|i: int| from <= i < fields.len() ==> (#[trigger] fields[i]).0 != name,
    ensures
        field_from(fields, name, from) is None,
    decreases fields.len() - from,
{
    if from < fields.len() {
        no_field_is_found(fields, name, from + 1);
    }
}

proof fn field_is_that_of(
    a: Seq<(Seq<char>, JsonModel)>,
    b: Seq<(Seq<char>, JsonModel)>,
    name: Seq<char>,
)
    requires
        ascending(names_of(a)),
        ascending(names_of(b)),
        forall|i: int| 0 <= i < a.len() && (#[trigger] a[i]).0 == name ==> b.contains(a[i]),
        forall|i: int| 0 <= i < b.len() && (#[trigger] b[i]).0 == name ==> a.contains(b[i]),
    ensures
        JsonModel::Object(a).field(name) == JsonModel::Object(b).field(name),
{
    if exists|i: int| 0 <= i < a.len() && (#[trigger] a[i]).0 == name {
        let i = choose|i: int| 0 <= i < a.len() && (#[trigger] a[i]).0 == name;
        field_is_found(a, name, i, 0);
        let j = choose|j: int| 0 <= j < b.len() && b[j] == a[i];
        field_is_found(b, name, j, 0);
    } else {
        no_field_is_found(a, name, 0);
        assert forall|j: int| 0 <= j < b.len() implies (#[trigger] b[j]).0 != name by {
            if b[j].0 == name {
                let i = choose|i: int| 0 <= i < a.len() && a[i] == b[j];
                assert(a[i].0 == name);
            }
        }
        no_field_is_found(b, name, 0);
    }
}

/// A field that is set is read back, no other field changes, and the fields stay in their
/// order.
pub proof fn set_fields_are_read_back(
    fields: Seq<(Seq<char>, JsonModel)>,
    name: Seq<char>,
    value: JsonModel,
    other: Seq<char>,
)
    requires
        ascending(names_of(fields)),
    ensures
        ascending(names_of(with_field(fields, name, value))),
        JsonModel::Object(with_field(fields, name, value)).field(name) == Some(value),
        other != name ==> JsonModel::Object(with_field(fields, name, value)).field(other) == JsonModel::Object(
            fields,
        ).field(other),
{
    let after = with_field(fields, name, value);
    let place = place_for(fields, name, 0);
    place_is_in_range(fields, name, 0);
    let replaced = place < fields.len() && fields[place].0 == name;
    let names = names_of(fields);
    let later = names_of(after);
    assert forall|i: int, j: int| 0 <= i < j < later.len() implies text_lt(#[trigger] later[i], #[trigger] later[j]) by {
        if replaced {
            assert(later =~= names);
        } else {
            let from_i = if i < place { i } else { i - 1 };
            let from_j = if j < place { j } else { j - 1 };
            if i != place && j != place {
                assert(text_lt(names[from_i], names[from_j]));
            } else if j == place {
                assert(text_lt(fields[i].0, name));
            } else {
                assert(j > place);
                text_lt_total(fields[place].0, name);
                if from_j > place {
                    assert(text_lt(names[place], names[from_j]));
                    text_lt_transitive(name, names[place], names[from_j]);
                }
            }
        }
    }
    assert(after[place] == (name, value));
    field_is_found(after, name, place, 0);
    if other != name {
        assert forall|i: int| 0 <= i < after.len() && (#[trigger] after[i]).0 == other implies fields.contains(
            after[i],
        ) by {
            if replaced || i < place {
                assert(after[i] == fields[i]);
            } else {
                assert(after[i] == fields[i - 1]);
            }
        }
        assert forall|i: int| 0 <= i < fields.len() && (#[trigger] fields[i]).0 == other implies after.contains(
            fields[i],
        ) by {
            if replaced || i < place {
                assert(after[i] == fields[i]);
            } else {
                assert(after[i + 1] == fields[i]);
            }
        }
        field_is_that_of(after, fields, other);
    }
}

proof fn set_all_fields_are_read_back(
    fields: Seq<(Seq<char>, JsonModel)>,
    added: Seq<(Seq<char>, JsonModel)>,
    count: int,
    other: Seq<char>,
)
    requires
        ascending(names_of(fields)),
        0 <= count <= added.len(),
        forall|i: int, j: int| 0 <= i < j < added.len() ==> (#[trigger] added[i]).0 != (#[trigger] added[j]).0,
    ensures
        ascending(names_of(with_fields(fields, added, count))),
        forall|i: int|
            0 <= i < count ==> JsonModel::Object(with_fields(fields, added, count)).field((#[trigger] added[i]).0)
                == Some(added[i].1),
        (forall|i: int| 0 <= i < count ==> (#[trigger] added[i]).0 != other) ==> JsonModel::Object(
            with_fields(fields, added, count),
        ).field(other) == JsonModel::Object(fields).field(other),
    decreases count,
{
    if count > 0 {
        let before = with_fields(fields, added, count - 1);
        let (name, value) = added[count - 1];
        set_all_fields_are_read_back(fields, added, count - 1, other);
        set_fields_are_read_back(before, name, value, other);
        assert forall|i: int| 0 <= i < count implies JsonModel::Object(with_fields(fields, added, count)).field(
            (#[trigger] added[i]).0,
        ) == Some(added[i].1) by {
            if i < count - 1 {
                set_fields_are_read_back(before, name, value, added[i].0);
            }
        }
    }
}

/// A number that tells the names of the fields of a report apart: their length and their
/// first letter.
spec fn name_code(name: Seq<char>) -> int {
    name.len() * 256 + name[0] as int
}

proof fn report_names_differ(report: WorkerModel)
    ensures
        ({
            let added = report_fields(report);
            forall|i: int, j: int| 0 <= i < j < added.len() ==> (#[trigger] added[i]).0 != (#[trigger] added[j]).0
        }),
{
    reveal_strlit("profiles");
    reveal_strlit("files_discovered");
    reveal_strlit("files_analyzed");
    reveal_strlit("files_skipped");
    reveal_strlit("dependency_sites");
    reveal_strlit("resolved");
    reveal_strlit("candidates");
    reveal_strlit("external");
    reveal_strlit("unresolved");
    reveal_strlit("unsupported_syntax");
    reveal_strlit("project_code_executed");
    reveal_strlit("completeness");
    reveal_strlit("reasons");
    let added = report_fields(report);
    let codes = seq![
        name_code("profiles"@),
        name_code("files_discovered"@),
        name_code("files_analyzed"@),
        name_code("files_skipped"@),
        name_code("dependency_sites"@),
        name_code("resolved"@),
        name_code("candidates"@),
        name_code("external"@),
        name_code("unresolved"@),
        name_code("unsupported_syntax"@),
        name_code("project_code_executed"@),
        name_code("completeness"@),
        name_code("reasons"@),
    ];
    assert(codes[0] == 2160);
    assert(codes[1] == 4198);
    assert(codes[2] == 3686);
    assert(codes[3] == 3430);
    assert(codes[4] == 4196);
    assert(codes[5] == 2162);
    assert(codes[6] == 2659);
    assert(codes[7] == 2149);
    assert(codes[8] == 2677);
    assert(codes[9] == 4725);
    assert(codes[10] == 5488);
    assert(codes[11] == 3171);
    assert(codes[12] == 1906);
    assert forall|i: int, j: int| 0 <= i < j < added.len() implies (#[trigger] added[i]).0 != (#[trigger] added[j]).0 by {
        assert(name_code(added[i].0) == codes[i]);
        assert(name_code(added[j].0) == codes[j]);
        assert(codes[i] != codes[j]);
    }
}

/// A stored report is read back as it was merged, with its levels and its reasons, and what a
/// scan stored besides is kept.
pub proof fn stored_reports_are_read_back(
    fields: Seq<(Seq<char>, JsonModel)>,
    report: WorkerModel,
    other: Seq<char>,
)
    requires
        ascending(names_of(fields)),
    ensures
        ({
            let stored = JsonModel::Object(with_report(fields, report));
            &&& report_model(stored, report.completeness, report.reasons) == report
            &&& stored.field("completeness"@) == Some(JsonModel::Array(values_of(report.completeness)))
            &&& stored.field("reasons"@) == Some(JsonModel::Array(values_of(report.reasons)))
            &&& !names_of(report_fields(report)).contains(other) ==> stored.field(other)
                == JsonModel::Object(fields).field(other)
        }),
{
    let added = report_fields(report);
    let stored = JsonModel::Object(with_report(fields, report));
    report_names_differ(report);
    set_all_fields_are_read_back(fields, added, added.len() as int, other);
    assert forall|i: int| 0 <= i < added.len() implies stored.field((#[trigger] added[i]).0) == Some(added[i].1) by {}
    assert(stored.field(added[0].0) == Some(added[0].1));
    assert(stored.field(added[1].0) == Some(added[1].1));
    assert(stored.field(added[2].0) == Some(added[2].1));
    assert(stored.field(added[3].0) == Some(added[3].1));
    assert(stored.field(added[4].0) == Some(added[4].1));
    assert(stored.field(added[5].0) == Some(added[5].1));
    assert(stored.field(added[6].0) == Some(added[6].1));
    assert(stored.field(added[7].0) == Some(added[7].1));
    assert(stored.field(added[8].0) == Some(added[8].1));
    assert(stored.field(added[9].0) == Some(added[9].1));
    assert(stored.field(added[10].0) == Some(added[10].1));
    assert(stored.field(added[11].0) == Some(added[11].1));
    assert(stored.field(added[12].0) == Some(added[12].1));
    if !names_of(added).contains(other) {
        assert forall|i: int| 0 <= i < added.len() implies (#[trigger] added[i]).0 != other by {
            assert(names_of(added)[i] == added[i].0);
        }
    }
}

} // verus!

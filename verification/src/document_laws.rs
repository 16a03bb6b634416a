//! What the documents say that identities and reports are made of.

use vstd::prelude::*;

use crate::coverage_report::worker_report;
use crate::identities::{
    axis_conflict_document, correlation_conflict_document, correlation_document, effective_input_document,
    effective_profile_document, runtime_import_document, runtime_session_document, snapshot_identity_document,
};
use crate::json::{Json, JsonModel};
use crate::matrix_refresh::json_texts;
use crate::profile_matrix::{
    correlation_for_edge, correlation_for_site, phase_coverage_for_effective_profile, PhaseCoverageRecord,
    ProfileCorrelationRecord, ProfileMatrixRecord,
};
use crate::text::texts;

verus! {

/// Whether a document lists strings under a name, in their order.
pub open spec fn lists(document: JsonModel, name: Seq<char>, values: Seq<String>) -> bool {
    exists|items: Seq<JsonModel>| #[trigger]
        document->Object_0.contains((name, JsonModel::Array(items))) && items.len() == values.len() && forall|i: int|
            0 <= i < items.len() ==> #[trigger] items[i] == JsonModel::Text(values[i]@)
}

proof fn listed_strings_are_listed(document: JsonModel, name: Seq<char>, values: Seq<String>, at: int)
    requires
        document is Object,
        0 <= at < document->Object_0.len(),
        document->Object_0[at] == (name, json_texts(texts(values))),
    ensures
        lists(document, name, values),
{
    let items = json_texts(texts(values))->Array_0;
    assert(document->Object_0[at] == (name, JsonModel::Array(items)));
    assert(document->Object_0.contains((name, JsonModel::Array(items))));
}

/// The document of a snapshot names its graph, its parent, its profiles and its revision; with
/// runtime sessions it names them too, under the next schema.
pub proof fn snapshot_documents_name_their_parts(
    parent: Option<&str>,
    revision: Option<&str>,
    profile_ids: &Vec<String>,
    graph: Json,
    sessions: &Vec<String>,
    result: Json,
)
    requires
        call_ensures(snapshot_identity_document, (parent, revision, profile_ids, graph, sessions), result),
    ensures
        result@ is Object,
        result@->Object_0.contains(("graph"@, graph@)),
        parent is Some ==> result@->Object_0.contains(("parent_snapshot_id"@, JsonModel::Text(parent->0@))),
        parent is None ==> result@->Object_0.contains(("parent_snapshot_id"@, JsonModel::Null)),
        lists(result@, "profile_ids"@, profile_ids@),
        revision is Some ==> result@->Object_0.contains(("source_revision"@, JsonModel::Text(revision->0@))),
        revision is None ==> result@->Object_0.contains(("source_revision"@, JsonModel::Null)),
        sessions@.len() == 0 ==> result@->Object_0.len() == 5 && result@->Object_0.contains(
            ("schema"@, JsonModel::Text("completed-snapshot-v1"@)),
        ),
        sessions@.len() > 0 ==> result@->Object_0.len() == 6 && result@->Object_0.contains(
            ("schema"@, JsonModel::Text("completed-snapshot-v2"@)),
        ) && lists(result@, "runtime_session_ids"@, sessions@),
{
    let fields = result@->Object_0;
    assert(texts(sessions@).len() == sessions@.len());
    assert(fields[0] == ("graph"@, graph@));
    assert(fields[1].0 == "parent_snapshot_id"@);
    assert(fields[2] == ("profile_ids"@, json_texts(texts(profile_ids@))));
    listed_strings_are_listed(result@, "profile_ids"@, profile_ids@, 2);
    assert(fields.contains(fields[1]));
    if sessions@.len() == 0 {
        assert(fields[3] == ("schema"@, JsonModel::Text("completed-snapshot-v1"@)));
        assert(fields.contains(fields[4]));
    } else {
        assert(fields[3] == ("runtime_session_ids"@, json_texts(texts(sessions@))));
        listed_strings_are_listed(result@, "runtime_session_ids"@, sessions@, 3);
        assert(fields[4] == ("schema"@, JsonModel::Text("completed-snapshot-v2"@)));
        assert(fields.contains(fields[5]));
    }
}

/// The documents of the matrix name what they identify, under the schema of the matrix.
pub proof fn matrix_documents_name_their_parts(
    root: &str,
    input_document: Json,
    input: &str,
    profile_document: Json,
    profile: &str,
    source: &str,
    kind: &str,
    specifier: &str,
    document: Json,
)
    requires
        call_ensures(effective_input_document, (root,), input_document),
        call_ensures(effective_profile_document, (input,), profile_document),
        call_ensures(correlation_document, (profile, source, kind, specifier), document),
    ensures
        input_document@ is Object,
        input_document@->Object_0.len() == 2,
        input_document@->Object_0.contains(("root_profile_id"@, JsonModel::Text(root@))),
        input_document@->Object_0.contains(("schema_version"@, JsonModel::Text("profile-matrix-v1"@))),
        profile_document@ is Object,
        profile_document@->Object_0.len() == 2,
        profile_document@->Object_0.contains(("effective_input_id"@, JsonModel::Text(input@))),
        profile_document@->Object_0.contains(("schema_version"@, JsonModel::Text("profile-matrix-v1"@))),
        document@ is Object,
        document@->Object_0.len() == 5,
        document@->Object_0.contains(("effective_profile_id"@, JsonModel::Text(profile@))),
        document@->Object_0.contains(("kind"@, JsonModel::Text(kind@))),
        document@->Object_0.contains(("schema_version"@, JsonModel::Text("profile-matrix-v1"@))),
        document@->Object_0.contains(("source"@, JsonModel::Text(source@))),
        document@->Object_0.contains(("specifier"@, JsonModel::Text(specifier@))),
{
    assert(crate::profile_matrix::PROFILE_MATRIX_SCHEMA_VERSION@ == "profile-matrix-v1"@);
    let a = input_document@->Object_0;
    assert(a.contains(a[0]) && a.contains(a[1]));
    let b = profile_document@->Object_0;
    assert(b.contains(b[0]) && b.contains(b[1]));
    let c = document@->Object_0;
    assert(c.contains(c[0]) && c.contains(c[1]) && c.contains(c[2]) && c.contains(c[3]) && c.contains(c[4]));
}

/// The documents of conflicts name their codes and what is in conflict.
pub proof fn conflict_documents_name_their_parts(
    profile: &str,
    parent: &str,
    axes: &Vec<String>,
    document: Json,
    correlation: &str,
    other: Json,
)
    requires
        call_ensures(axis_conflict_document, (profile, parent, axes), document),
        call_ensures(correlation_conflict_document, (correlation,), other),
    ensures
        document@ is Object,
        document@->Object_0.len() == 4,
        document@->Object_0.contains(("code"@, JsonModel::Text("PROFILE_MATRIX_PROFILE_CONFLICT"@))),
        lists(document@, "fields"@, axes@),
        document@->Object_0.contains(("parent_profile_id"@, JsonModel::Text(parent@))),
        document@->Object_0.contains(("profile_id"@, JsonModel::Text(profile@))),
        other@ is Object,
        other@->Object_0.len() == 2,
        other@->Object_0.contains(("code"@, JsonModel::Text("BUILD_EVIDENCE_CONFLICT"@))),
        other@->Object_0.contains(("correlation_id"@, JsonModel::Text(correlation@))),
{
    let a = document@->Object_0;
    assert(a.contains(a[0]) && a.contains(a[2]) && a.contains(a[3]));
    listed_strings_are_listed(document@, "fields"@, axes@, 1);
    let b = other@->Object_0;
    assert(b.contains(b[0]) && b.contains(b[1]));
}

/// The documents of runtime sessions name the session and what it is told by.
pub proof fn session_documents_name_their_parts(
    parent: &str,
    session: &str,
    sessions: &Vec<String>,
    document: Json,
    source: &str,
    trace: &str,
    other: Json,
)
    requires
        call_ensures(runtime_import_document, (parent, session, sessions), document),
        call_ensures(runtime_session_document, (source, trace), other),
    ensures
        document@ is Object,
        document@->Object_0.len() == 3,
        document@->Object_0.contains(("parent_snapshot_id"@, JsonModel::Text(parent@))),
        lists(document@, "runtime_session_ids"@, sessions@),
        document@->Object_0.contains(("session_id"@, JsonModel::Text(session@))),
        other@ is Object,
        other@->Object_0.len() == 2,
        other@->Object_0.contains(("source_session_id"@, JsonModel::Text(source@))),
        other@->Object_0.contains(("trace_digest"@, JsonModel::Text(trace@))),
{
    let a = document@->Object_0;
    assert(a.contains(a[0]) && a.contains(a[2]));
    listed_strings_are_listed(document@, "runtime_session_ids"@, sessions@, 1);
    let b = other@->Object_0;
    assert(b.contains(b[0]) && b.contains(b[1]));
}

/// Whether a counter is what a report says under a name, or zero where it says nothing there.
pub open spec fn is_counter_of(counter: u64, report: JsonModel, name: Seq<char>) -> bool {
    &&& report.unsigned_field(name) matches Some(number) ==> counter == number
    &&& report.unsigned_field(name) is None ==> counter == 0
}

/// A report is read by the names of its counters.
pub proof fn reports_are_read_by_name(
    value: &Json,
    completeness: Vec<crate::written::WrittenJson>,
    reasons: Vec<crate::written::WrittenJson>,
    result: crate::coverage::WorkerCoverage,
)
    requires
        call_ensures(worker_report, (value, completeness, reasons), result),
    ensures
        is_counter_of(result.profiles, value@, "profiles"@),
        is_counter_of(result.files_discovered, value@, "files_discovered"@),
        is_counter_of(result.files_analyzed, value@, "files_analyzed"@),
        is_counter_of(result.files_skipped, value@, "files_skipped"@),
        is_counter_of(result.dependency_sites, value@, "dependency_sites"@),
        is_counter_of(result.resolved, value@, "resolved"@),
        is_counter_of(result.candidates, value@, "candidates"@),
        is_counter_of(result.external, value@, "external"@),
        is_counter_of(result.unresolved, value@, "unresolved"@),
        is_counter_of(result.unsupported_syntax, value@, "unsupported_syntax"@),
        result.project_code_executed <==> value@.bool_field("project_code_executed"@) == Some(true),
{
}

/// Whether a list by phase holds a string in some phase.
pub open spec fn is_in_a_phase(list: Seq<(String, Vec<String>)>, value: Seq<char>) -> bool {
    exists|p: int, k: int| 0 <= p < list.len() && 0 <= k < list[p].1@.len() && (#[trigger] list[p].1@[k])@ == value
}

proof fn held_strings_are_in_a_phase(list: Seq<(String, Vec<String>)>, value: Seq<char>)
    ensures
        crate::profile_matrix::holds_text(list, value) <==> is_in_a_phase(list, value),
{
    if crate::profile_matrix::holds_text(list, value) {
        let p = choose|p: int| 0 <= p < list.len() && texts((#[trigger] list[p]).1@).contains(value);
        let own = texts(list[p].1@);
        let k = choose|k: int| 0 <= k < own.len() && own[k] == value;
        assert(list[p].1@[k]@ == value);
    }
    if is_in_a_phase(list, value) {
        let (p, k) = choose|p: int, k: int|
            0 <= p < list.len() && 0 <= k < list[p].1@.len() && (#[trigger] list[p].1@[k])@ == value;
        assert(texts(list[p].1@)[k] == value);
        assert(texts(list[p].1@).contains(value));
    }
}

/// An edge is looked up among the edges of the correlations, and the first that has it is found.
pub proof fn edges_are_found_in_their_correlation(
    matrix: &ProfileMatrixRecord,
    edge_id: &str,
    result: Option<&ProfileCorrelationRecord>,
    c: int,
)
    requires
        call_ensures(correlation_for_edge, (matrix, edge_id), result),
        0 <= c < matrix.correlations@.len(),
        is_in_a_phase(matrix.correlations@[c].edge_ids_by_phase@, edge_id@),
        forall|j: int|
            0 <= j < c ==> !is_in_a_phase((#[trigger] matrix.correlations@[j]).edge_ids_by_phase@, edge_id@),
    ensures
        result is Some,
        *result->0 == matrix.correlations@[c],
{
    held_strings_are_in_a_phase(matrix.correlations@[c].edge_ids_by_phase@, edge_id@);
    assert forall|j: int| 0 <= j < c implies !crate::profile_matrix::holds_text(
        (#[trigger] matrix.correlations@[j]).edge_ids_by_phase@,
        edge_id@,
    ) by {
        held_strings_are_in_a_phase(matrix.correlations@[j].edge_ids_by_phase@, edge_id@);
    }
    assert(matrix.correlations@[c] == matrix.correlations@[c]);
}

/// A site is looked up among the sites of the correlations, and the first that has it is found.
pub proof fn sites_are_found_in_their_correlation(
    matrix: &ProfileMatrixRecord,
    site_id: &str,
    result: Option<&ProfileCorrelationRecord>,
    c: int,
)
    requires
        call_ensures(correlation_for_site, (matrix, site_id), result),
        0 <= c < matrix.correlations@.len(),
        is_in_a_phase(matrix.correlations@[c].site_ids_by_phase@, site_id@),
        forall|j: int|
            0 <= j < c ==> !is_in_a_phase((#[trigger] matrix.correlations@[j]).site_ids_by_phase@, site_id@),
    ensures
        result is Some,
        *result->0 == matrix.correlations@[c],
{
    held_strings_are_in_a_phase(matrix.correlations@[c].site_ids_by_phase@, site_id@);
    assert forall|j: int| 0 <= j < c implies !crate::profile_matrix::holds_text(
        (#[trigger] matrix.correlations@[j]).site_ids_by_phase@,
        site_id@,
    ) by {
        held_strings_are_in_a_phase(matrix.correlations@[j].site_ids_by_phase@, site_id@);
    }
    assert(matrix.correlations@[c] == matrix.correlations@[c]);
}

/// What is found has what was looked up.
pub proof fn found_correlations_have_what_was_asked(
    matrix: &ProfileMatrixRecord,
    edge_id: &str,
    edge: Option<&ProfileCorrelationRecord>,
    site_id: &str,
    site: Option<&ProfileCorrelationRecord>,
)
    requires
        call_ensures(correlation_for_edge, (matrix, edge_id), edge),
        call_ensures(correlation_for_site, (matrix, site_id), site),
    ensures
        edge matches Some(found) ==> matrix.correlations@.contains(*found) && is_in_a_phase(
            found.edge_ids_by_phase@,
            edge_id@,
        ),
        site matches Some(found) ==> matrix.correlations@.contains(*found) && is_in_a_phase(
            found.site_ids_by_phase@,
            site_id@,
        ),
{
    if let Some(found) = edge {
        held_strings_are_in_a_phase(found.edge_ids_by_phase@, edge_id@);
    }
    if let Some(found) = site {
        held_strings_are_in_a_phase(found.site_ids_by_phase@, site_id@);
    }
}

proof fn coverage_is_found(
    entries: Seq<crate::profile_matrix::ProfileMatrixEntryRecord>,
    id: Seq<char>,
    from: int,
    e: int,
)
    requires
        0 <= from <= e < entries.len(),
        entries[e].id@ == id,
        forall|j: int| 0 <= j < e ==> (#[trigger] entries[j]).id@ != id,
    ensures
        crate::profile_matrix::entry_coverage_from(entries, id, from) == crate::profile_matrix::coverage_models(
            entries[e].phase_coverage@,
        ),
    decreases e - from,
{
    if from < e {
        assert(entries[from].id@ != id);
        coverage_is_found(entries, id, from + 1, e);
    }
}

proof fn no_coverage_is_found(
    entries: Seq<crate::profile_matrix::ProfileMatrixEntryRecord>,
    id: Seq<char>,
    from: int,
)
    requires
        0 <= from <= entries.len(),
        forall|j: int| 0 <= j < entries.len() ==> (#[trigger] entries[j]).id@ != id,
    ensures
        crate::profile_matrix::entry_coverage_from(entries, id, from).len() == 0,
    decreases entries.len() - from,
{
    if from < entries.len() {
        assert(entries[from].id@ != id);
        no_coverage_is_found(entries, id, from + 1);
    }
}

/// The coverage of an effective profile is that of its entry, phase by phase; without an entry there
/// is none.
pub proof fn coverage_is_that_of_the_entry(
    matrix: &ProfileMatrixRecord,
    id: &str,
    result: Vec<(String, PhaseCoverageRecord)>,
    e: int,
    p: int,
)
    requires
        call_ensures(phase_coverage_for_effective_profile, (matrix, id), result),
    ensures
        (forall|j: int| 0 <= j < matrix.entries@.len() ==> (#[trigger] matrix.entries@[j]).id@ != id@)
            ==> result@.len() == 0,
        0 <= e < matrix.entries@.len() && matrix.entries@[e].id@ == id@ && (forall|j: int|
            0 <= j < e ==> (#[trigger] matrix.entries@[j]).id@ != id@) ==> {
            let own = matrix.entries@[e].phase_coverage@;
            &&& result@.len() == own.len()
            &&& 0 <= p < own.len() ==> result@[p].0@ == own[p].0@ && result@[p].1.sites == own[p].1.sites
                && result@[p].1.edges == own[p].1.edges && result@[p].1.evidence == own[p].1.evidence
                && result@[p].1.resolved == own[p].1.resolved && result@[p].1.candidates == own[p].1.candidates
                && result@[p].1.external == own[p].1.external && result@[p].1.unresolved == own[p].1.unresolved
                && texts(result@[p].1.profile_ids@) == texts(own[p].1.profile_ids@) && texts(
                result@[p].1.completeness@,
            ) == texts(own[p].1.completeness@)
        },
{
    let shown = crate::profile_matrix::coverage_models(result@);
    if forall|j: int| 0 <= j < matrix.entries@.len() ==> (#[trigger] matrix.entries@[j]).id@ != id@ {
        no_coverage_is_found(matrix.entries@, id@, 0);
        assert(shown.len() == result@.len());
    }
    if 0 <= e < matrix.entries@.len() && matrix.entries@[e].id@ == id@ && (forall|j: int|
        0 <= j < e ==> (#[trigger] matrix.entries@[j]).id@ != id@) {
        coverage_is_found(matrix.entries@, id@, 0, e);
        let own = matrix.entries@[e].phase_coverage@;
        let listed = crate::profile_matrix::coverage_models(own);
        assert(shown.len() == result@.len() && listed.len() == own.len());
        if 0 <= p < own.len() {
            assert(shown[p] == (result@[p].0@, result@[p].1@));
            assert(listed[p] == (own[p].0@, own[p].1@));
        }
    }
}

} // verus!

//! Refreshing the profile matrix of a snapshot: its derived diagnostics and their evidence.

use vstd::prelude::*;

use crate::json::{Json, JsonModel};
use crate::order::{
    collect, is_stable_order, is_stable_sort, sorted_list, sorted_list_is, sorted_set, stable_sort,
    TextIndex,
};
use crate::profile_matrix::{
    ProfileAxisConflictRecord, ProfileCorrelationRecord, ProfileMatrixEntryRecord, ProfileMatrixRecord,
    PROFILE_MATRIX_SCHEMA_VERSION,
};
use crate::records::{DiagnosticModel, DiagnosticRecord, EvidenceModel, EvidenceRecord, GraphSnapshot};
use crate::sort::{is_rank_order, is_ranked_sort, ranked_sort, Ranked};
use crate::text::{less, same, text_lt, text_lt_irreflexive, text_lt_total, text_lt_transitive, texts};

verus! {

// ---------------------------------------------------------------------------------------
// What is retained
// ---------------------------------------------------------------------------------------

/// Whether a diagnostic was derived from the matrix.
pub open spec fn is_derived(diagnostic: DiagnosticRecord) -> bool {
    diagnostic@.properties.text_field("profile_matrix_schema"@) == Some(PROFILE_MATRIX_SCHEMA_VERSION@)
}

/// Which diagnostics were not derived from the matrix.
pub open spec fn is_retained(diagnostics: Seq<DiagnosticRecord>) -> spec_fn(int) -> bool {
    |i: int| !is_derived(diagnostics[i])
}

/// An item of a sequence.
pub open spec fn item_at<T>(items: Seq<T>) -> spec_fn(int) -> T {
    |i: int| items[i]
}

/// The diagnostics that were not derived from the matrix, in order.
pub open spec fn retained_diagnostics(diagnostics: Seq<DiagnosticRecord>) -> Seq<DiagnosticRecord> {
    collect(diagnostics.len() as int, is_retained(diagnostics), item_at(diagnostics))
}

/// The identities of diagnostics.
pub open spec fn diagnostic_ids(diagnostics: Seq<DiagnosticRecord>) -> Seq<Seq<char>> {
    Seq::new(diagnostics.len(), |i: int| diagnostics[i].id@)
}

/// Which evidence stays: that of sites and edges, and that of the given diagnostics.
pub open spec fn evidence_is_retained(
    evidence: Seq<EvidenceRecord>,
    diagnostics: Seq<DiagnosticRecord>,
) -> spec_fn(int) -> bool {
    |i: int|
        evidence[i].owner_type@ != "diagnostic"@ || diagnostic_ids(diagnostics).contains(evidence[i].owner_id@)
}

/// The evidence that stays, in order.
pub open spec fn retained_evidence(
    evidence: Seq<EvidenceRecord>,
    diagnostics: Seq<DiagnosticRecord>,
) -> Seq<EvidenceRecord> {
    collect(evidence.len() as int, evidence_is_retained(evidence, diagnostics), item_at(evidence))
}

/// A number plus another, or the greatest there is.
pub open spec fn saturated(value: int) -> i64 {
    if value > i64::MAX {
        i64::MAX
    } else {
        value as i64
    }
}

/// The greatest ordinal of the first `count` diagnostics; -1 where there is none.
pub open spec fn greatest_ordinal(diagnostics: Seq<DiagnosticRecord>, count: int) -> i64
    decreases count,
{
    if count <= 0 {
        -1i64
    } else if count == 1 {
        diagnostics[0].ordinal
    } else if diagnostics[count - 1].ordinal > greatest_ordinal(diagnostics, count - 1) {
        diagnostics[count - 1].ordinal
    } else {
        greatest_ordinal(diagnostics, count - 1)
    }
}

/// Where derived diagnostics go: behind the retained ones, with the ordinals from the
/// next on.
#[derive(Debug, Clone, Copy, PartialEq, Eq)]
pub struct RefreshMark {
    pub retained_diagnostics: usize,
    pub next_ordinal: i64,
}

/// Whether what an earlier matrix derived was dropped, and nothing else.
pub open spec fn is_begun(before: GraphSnapshot, begun: GraphSnapshot, mark: RefreshMark) -> bool {
    &&& begun.diagnostics@ == retained_diagnostics(before.diagnostics@)
    &&& begun.evidence@ == retained_evidence(before.evidence@, retained_diagnostics(before.diagnostics@))
    &&& begun == (GraphSnapshot { diagnostics: begun.diagnostics, evidence: begun.evidence, ..before })
    &&& mark.retained_diagnostics == begun.diagnostics@.len()
    &&& mark.next_ordinal == saturated(greatest_ordinal(begun.diagnostics@, begun.diagnostics@.len() as int) + 1)
}

/// Drops what an earlier matrix derived: its diagnostics and their evidence. Nothing
/// else changes.
pub fn begin_matrix_refresh(snapshot: &mut GraphSnapshot) -> (mark: RefreshMark)
    ensures
        is_begun(*old(snapshot), *final(snapshot), mark),
{
    let mut diagnostics: Vec<DiagnosticRecord> = Vec::new();
    core::mem::swap(&mut diagnostics, &mut snapshot.diagnostics);
    let ghost source = diagnostics@;
    let mut kept: Vec<DiagnosticRecord> = Vec::new();
    let mut ids: Vec<String> = Vec::new();
    let mut greatest: i64 = -1;
    for diagnostic in it: diagnostics
        invariant
            it.seq() == source,
            kept@ == collect(it.index() as int, is_retained(source), item_at(source)),
            ids.len() == kept.len(),
            forall|k: int| 0 <= k < kept.len() ==> (#[trigger] ids@[k])@ == kept@[k].id@,
            greatest == greatest_ordinal(kept@, kept@.len() as int),
    {
        assert(diagnostic == source[it.index() as int]);
        let derived: bool = match diagnostic.properties.get_str("profile_matrix_schema") {
            Some(schema) => same(schema, PROFILE_MATRIX_SCHEMA_VERSION),
            None => false,
        };
        if !derived {
            let ghost earlier = kept@;
            ids.push(diagnostic.id.clone());
            if kept.len() == 0 || diagnostic.ordinal > greatest {
                greatest = diagnostic.ordinal;
            }
            kept.push(diagnostic);
            proof {
                greatest_ordinal_of_prefix(earlier, kept@, earlier.len() as int);
            }
        }
    }
    assert(texts(ids@) =~= diagnostic_ids(kept@));
    let index = TextIndex::new(ids);
    let mut evidence: Vec<EvidenceRecord> = Vec::new();
    core::mem::swap(&mut evidence, &mut snapshot.evidence);
    let ghost evidence_source = evidence@;
    let mut kept_evidence: Vec<EvidenceRecord> = Vec::new();
    for item in it: evidence
        invariant
            it.seq() == evidence_source,
            index.keys() == diagnostic_ids(kept@),
            kept_evidence@ == collect(
                it.index() as int,
                evidence_is_retained(evidence_source, kept@),
                item_at(evidence_source),
            ),
    {
        assert(item == evidence_source[it.index() as int]);
        if !same(item.owner_type.as_str(), "diagnostic") || index.contains(item.owner_id.as_str()) {
            kept_evidence.push(item);
        }
    }
    let mark = RefreshMark {
        retained_diagnostics: kept.len(),
        next_ordinal: if greatest == i64::MAX {
            i64::MAX
        } else {
            greatest + 1
        },
    };
    snapshot.diagnostics = kept;
    snapshot.evidence = kept_evidence;
    mark
}

proof fn greatest_ordinal_of_prefix(a: Seq<DiagnosticRecord>, b: Seq<DiagnosticRecord>, count: int)
    requires
        0 <= count <= a.len() <= b.len(),
        forall|i: int| 0 <= i < a.len() ==> a[i] == b[i],
    ensures
        greatest_ordinal(a, count) == greatest_ordinal(b, count),
    decreases count,
{
    if count > 0 {
        greatest_ordinal_of_prefix(a, b, count - 1);
    }
}

// ---------------------------------------------------------------------------------------
// Owned evidence
// ---------------------------------------------------------------------------------------

/// What pieces of evidence hold.
pub open spec fn evidence_models(evidence: Seq<EvidenceRecord>) -> Seq<EvidenceModel> {
    Seq::new(evidence.len(), |i: int| evidence[i]@)
}

/// What diagnostics hold.
pub open spec fn diagnostic_models(diagnostics: Seq<DiagnosticRecord>) -> Seq<DiagnosticModel> {
    Seq::new(diagnostics.len(), |i: int| diagnostics[i]@)
}

/// Whether two pieces of evidence differ at most in their owner and their ordinal.
pub open spec fn same_observation(a: EvidenceModel, b: EvidenceModel) -> bool {
    a == (EvidenceModel { owner_type: a.owner_type, owner_id: a.owner_id, ordinal: a.ordinal, ..b })
}

/// Evidence under a diagnostic.
pub open spec fn owned_by_diagnostic(item: EvidenceModel, diagnostic_id: Seq<char>, ordinal: int) -> EvidenceModel {
    EvidenceModel { owner_type: "diagnostic"@, owner_id: diagnostic_id, ordinal: ordinal as i64, ..item }
}

/// The first `count` pieces of evidence under a diagnostic: each observation once, in
/// order, numbered from zero.
pub open spec fn owned_evidence(
    matching: Seq<EvidenceModel>,
    diagnostic_id: Seq<char>,
    count: int,
) -> Seq<EvidenceModel>
    decreases count,
{
    if count <= 0 {
        Seq::empty()
    } else {
        let earlier = owned_evidence(matching, diagnostic_id, count - 1);
        if exists|i: int| 0 <= i < earlier.len() && same_observation(#[trigger] earlier[i], matching[count - 1]) {
            earlier
        } else {
            earlier.push(owned_by_diagnostic(matching[count - 1], diagnostic_id, earlier.len() as int))
        }
    }
}

fn is_same_observation(a: &EvidenceRecord, b: &EvidenceRecord) -> (result: bool)
    ensures
        result == same_observation(a@, b@),
{
    let result = a.kind == b.kind && a.extractor == b.extractor && a.extractor_version == b.extractor_version
        && a.path == b.path && a.start_line == b.start_line && a.start_column == b.start_column && a.end_line
        == b.end_line && a.end_column == b.end_column && crate::text::same_option(&a.detail, &b.detail)
        && a.properties.same_text(&b.properties);
    proof {
        let moved = EvidenceModel {
            owner_type: a@.owner_type,
            owner_id: a@.owner_id,
            ordinal: a@.ordinal,
            ..b@
        };
        if result {
            assert(a@ =~= moved);
        }
    }
    result
}

/// Appends evidence under a diagnostic: each observation once.
pub fn append_owned_evidence(
    evidence: &mut Vec<EvidenceRecord>,
    matching: Vec<EvidenceRecord>,
    diagnostic_id: &str,
)
    ensures
        evidence_models(final(evidence)@) == evidence_models(old(evidence)@) + owned_evidence(
            evidence_models(matching@),
            diagnostic_id@,
            matching@.len() as int,
        ),
{
    let ghost start = evidence_models(evidence@);
    let ghost source = evidence_models(matching@);
    let ghost records = matching@;
    let mut owned: Vec<EvidenceRecord> = Vec::new();
    assert(evidence_models(owned@) =~= owned_evidence(source, diagnostic_id@, 0));
    for item in it: matching
        invariant
            it.seq() == records,
            source == evidence_models(records),
            evidence_models(owned@) == owned_evidence(source, diagnostic_id@, it.index() as int),
    {
        let ghost at = it.index() as int;
        let ghost earlier = owned_evidence(source, diagnostic_id@, at);
        assert(source[at] == item@);
        let mut seen: bool = false;
        let mut i: usize = 0;
        while i < owned.len()
            invariant
                i <= owned.len(),
                earlier == evidence_models(owned@),
                seen == exists|k: int| 0 <= k < i && same_observation(#[trigger] earlier[k], item@),
            decreases owned.len() - i,
        {
            assert(earlier[i as int] == owned@[i as int]@);
            if is_same_observation(&owned[i], &item) {
                seen = true;
            }
            i = i + 1;
        }
        if !seen {
            let mut moved = item;
            moved.owner_type = String::from_str("diagnostic");
            moved.owner_id = String::from_str(diagnostic_id);
            moved.ordinal = owned.len() as i64;
            assert(moved@ =~= owned_by_diagnostic(item@, diagnostic_id@, earlier.len() as int));
            owned.push(moved);
            assert(evidence_models(owned@) =~= earlier.push(moved@));
        }
    }
    let ghost fresh = owned@;
    evidence.append(&mut owned);
    assert(evidence_models(evidence@) =~= start + evidence_models(fresh));
}

// ---------------------------------------------------------------------------------------
// Derived diagnostics
// ---------------------------------------------------------------------------------------

/// A list of strings as JSON.
pub open spec fn json_texts(values: Seq<Seq<char>>) -> JsonModel {
    JsonModel::Array(Seq::new(values.len(), |i: int| JsonModel::Text(values[i])))
}

/// Lists of strings by phase as JSON.
pub open spec fn json_texts_by_phase(list: Seq<(String, Vec<String>)>) -> JsonModel {
    JsonModel::Object(Seq::new(list.len(), |i: int| (list[i].0@, json_texts(texts(list[i].1@)))))
}

/// Values by phase as JSON.
pub open spec fn json_values_by_phase(list: Seq<(String, Json)>) -> JsonModel {
    JsonModel::Object(Seq::new(list.len(), |i: int| (list[i].0@, list[i].1@)))
}

/// The phases of a list by phase.
pub open spec fn phases_of(list: Seq<(String, Vec<String>)>) -> Seq<Seq<char>> {
    Seq::new(list.len(), |i: int| list[i].0@)
}

/// The texts of the first `count` phases together.
pub open spec fn all_texts(list: Seq<(String, Vec<String>)>, count: int) -> Seq<Seq<char>>
    decreases count,
{
    if count <= 0 {
        Seq::empty()
    } else {
        all_texts(list, count - 1) + texts(list[count - 1].1@)
    }
}

/// Which evidence belongs to sites of a correlation.
pub open spec fn supports_correlation(
    evidence: Seq<EvidenceModel>,
    site_ids: Seq<Seq<char>>,
) -> spec_fn(int) -> bool {
    |i: int| evidence[i].owner_type == "site"@ && site_ids.contains(evidence[i].owner_id)
}

/// Which evidence of a correlation's sites names a build run.
pub open spec fn names_build_run(
    evidence: Seq<EvidenceModel>,
    site_ids: Seq<Seq<char>>,
) -> spec_fn(int) -> bool {
    |i: int|
        supports_correlation(evidence, site_ids)(i) && evidence[i].kind == "build"@
            && evidence[i].properties.text_field("build_run_id"@) is Some
}

/// The build run that a piece of evidence names.
pub open spec fn build_run_at(evidence: Seq<EvidenceModel>) -> spec_fn(int) -> Seq<char> {
    |i: int| evidence[i].properties.text_field("build_run_id"@)->0
}

/// The diagnostic of a correlation whose observations conflict with its prediction.
pub open spec fn conflict_diagnostic(
    correlation: ProfileCorrelationRecord,
    evidence: Seq<EvidenceModel>,
) -> DiagnosticModel {
    let site_ids = all_texts(correlation.site_ids_by_phase@, correlation.site_ids_by_phase@.len() as int);
    let runs = sorted_list(
        collect(evidence.len() as int, names_build_run(evidence, site_ids), build_run_at(evidence)),
    );
    DiagnosticModel {
        ordinal: 0,
        id: correlation.diagnostic_id->0@,
        severity: "warning"@,
        code: "BUILD_EVIDENCE_CONFLICT"@,
        message:
            "observed dependency evidence conflicts with the selected static or semantic prediction"@,
        path: None,
        adapter: None,
        start_line: None,
        start_column: None,
        end_line: None,
        end_column: None,
        properties: JsonModel::Object(
            seq![
                (
                    "build_run_id"@,
                    if runs.len() > 0 {
                        JsonModel::Text(runs[0])
                    } else {
                        JsonModel::Null
                    },
                ),
                ("build_run_ids"@, json_texts(runs)),
                ("conditions_by_phase"@, json_values_by_phase(correlation.conditions_by_phase@)),
                ("difference_reasons"@, json_texts(texts(correlation.difference_reasons@))),
                ("effective_profile_id"@, JsonModel::Text(correlation.effective_profile_id@)),
                ("phases"@, json_texts(phases_of(correlation.site_ids_by_phase@))),
                ("profile_correlation_id"@, JsonModel::Text(correlation.id@)),
                ("profile_matrix_schema"@, JsonModel::Text(PROFILE_MATRIX_SCHEMA_VERSION@)),
                ("site_ids_by_phase"@, json_texts_by_phase(correlation.site_ids_by_phase@)),
                ("targets_by_phase"@, json_texts_by_phase(correlation.targets_by_phase@)),
            ],
        ),
    }
}

/// The diagnostic of a child profile whose axes conflict with those of its parent.
pub open spec fn axis_diagnostic(
    entry_id: Seq<char>,
    input: Seq<char>,
    conflict: crate::matrix_build::AxisModel,
) -> DiagnosticModel {
    DiagnosticModel {
        ordinal: 0,
        id: conflict.diagnostic_id,
        severity: "warning"@,
        code: "PROFILE_MATRIX_PROFILE_CONFLICT"@,
        message: "child profile effective axes conflict with its declared parent profile"@,
        path: None,
        adapter: None,
        start_line: None,
        start_column: None,
        end_line: None,
        end_column: None,
        properties: JsonModel::Object(
            seq![
                ("effective_input_id"@, JsonModel::Text(input)),
                ("effective_profile_id"@, JsonModel::Text(entry_id)),
                ("fields"@, json_texts(conflict.fields)),
                ("parent_profile_id"@, JsonModel::Text(conflict.parent_profile_id)),
                ("profile_id"@, JsonModel::Text(conflict.profile_id)),
                ("profile_matrix_schema"@, JsonModel::Text(PROFILE_MATRIX_SCHEMA_VERSION@)),
            ],
        ),
    }
}

/// Which evidence was observed by a build of a profile.
pub open spec fn is_build_of_profile(evidence: Seq<EvidenceModel>, profile_id: Seq<char>) -> spec_fn(int) -> bool {
    |i: int|
        evidence[i].kind == "build"@ && evidence[i].properties.text_field("profile_id"@) == Some(profile_id)
}

/// Diagnostics and evidence of a snapshot.
#[verifier::ext_equal]
pub struct Findings {
    pub diagnostics: Seq<DiagnosticModel>,
    pub evidence: Seq<EvidenceModel>,
}

/// Findings with one diagnostic and the evidence that matches it.
pub open spec fn with_diagnostic(
    findings: Findings,
    diagnostic: DiagnosticModel,
    keep: spec_fn(int) -> bool,
) -> Findings {
    let matching = collect(findings.evidence.len() as int, keep, item_at(findings.evidence));
    Findings {
        diagnostics: findings.diagnostics.push(diagnostic),
        evidence: findings.evidence + owned_evidence(matching, diagnostic.id, matching.len() as int),
    }
}

/// Findings with the diagnostic of a correlation, where it is a conflict.
pub open spec fn with_correlation(findings: Findings, correlation: ProfileCorrelationRecord) -> Findings {
    if correlation.status@ == "conflict"@ && correlation.diagnostic_id is Some {
        with_diagnostic(
            findings,
            conflict_diagnostic(correlation, findings.evidence),
            supports_correlation(
                findings.evidence,
                all_texts(correlation.site_ids_by_phase@, correlation.site_ids_by_phase@.len() as int),
            ),
        )
    } else {
        findings
    }
}

/// Findings with the diagnostics of the first `count` correlations.
pub open spec fn with_correlations(
    findings: Findings,
    correlations: Seq<ProfileCorrelationRecord>,
    count: int,
) -> Findings
    decreases count,
{
    if count <= 0 {
        findings
    } else {
        with_correlation(with_correlations(findings, correlations, count - 1), correlations[count - 1])
    }
}

/// Findings with the diagnostics of the first `count` axis conflicts of an entry.
pub open spec fn with_axis_conflicts(
    findings: Findings,
    entry: ProfileMatrixEntryRecord,
    count: int,
) -> Findings
    decreases count,
{
    if count <= 0 {
        findings
    } else {
        let earlier = with_axis_conflicts(findings, entry, count - 1);
        let conflict = entry.axis_conflicts@[count - 1]@;
        with_diagnostic(
            earlier,
            axis_diagnostic(entry.id@, entry.effective_input_id@, conflict),
            is_build_of_profile(earlier.evidence, conflict.profile_id),
        )
    }
}

/// Findings with the diagnostics of the axis conflicts of the first `count` entries.
pub open spec fn with_entries(
    findings: Findings,
    entries: Seq<ProfileMatrixEntryRecord>,
    count: int,
) -> Findings
    decreases count,
{
    if count <= 0 {
        findings
    } else {
        let earlier = with_entries(findings, entries, count - 1);
        with_axis_conflicts(earlier, entries[count - 1], entries[count - 1].axis_conflicts@.len() as int)
    }
}

/// Findings with everything that a matrix derives: the conflicts of correlations, then
/// those of profile axes.
pub open spec fn with_matrix(findings: Findings, matrix: ProfileMatrixRecord) -> Findings {
    with_entries(
        with_correlations(findings, matrix.correlations@, matrix.correlations@.len() as int),
        matrix.entries@,
        matrix.entries@.len() as int,
    )
}

fn text_json(value: &str) -> (result: Json)
    ensures
        result@ == JsonModel::Text(value@),
{
    Json::Text(String::from_str(value))
}

pub(crate) fn texts_json(values: &Vec<String>) -> (result: Json)
    ensures
        result@ == json_texts(texts(values@)),
{
    let mut items: Vec<Json> = Vec::new();
    let mut i: usize = 0;
    while i < values.len()
        invariant
            i <= values.len(),
            items.len() == i,
            forall|k: int| 0 <= k < i ==> (#[trigger] items@[k])@ == JsonModel::Text(values@[k]@),
        decreases values.len() - i,
    {
        items.push(Json::Text(values[i].clone()));
        i = i + 1;
    }
    let result = Json::Array(items);
    assert(result@->Array_0 =~= json_texts(texts(values@))->Array_0);
    result
}

fn texts_by_phase_json(list: &Vec<(String, Vec<String>)>) -> (result: Json)
    ensures
        result@ == json_texts_by_phase(list@),
{
    let mut fields: Vec<(String, Json)> = Vec::new();
    let mut i: usize = 0;
    while i < list.len()
        invariant
            i <= list.len(),
            fields.len() == i,
            forall|k: int|
                0 <= k < i ==> (#[trigger] fields@[k]).0@ == list@[k].0@ && fields@[k].1@ == json_texts(
                    texts(list@[k].1@),
                ),
        decreases list.len() - i,
    {
        fields.push((list[i].0.clone(), texts_json(&list[i].1)));
        i = i + 1;
    }
    let result = Json::Object(fields);
    assert(result@->Object_0 =~= json_texts_by_phase(list@)->Object_0);
    result
}

fn values_by_phase_json(list: &Vec<(String, Json)>) -> (result: Json)
    ensures
        result@ == json_values_by_phase(list@),
{
    let mut fields: Vec<(String, Json)> = Vec::new();
    let mut i: usize = 0;
    while i < list.len()
        invariant
            i <= list.len(),
            fields.len() == i,
            forall|k: int|
                0 <= k < i ==> (#[trigger] fields@[k]).0@ == list@[k].0@ && fields@[k].1@ == list@[k].1@,
        decreases list.len() - i,
    {
        fields.push((list[i].0.clone(), list[i].1.copy()));
        i = i + 1;
    }
    let result = Json::Object(fields);
    assert(result@->Object_0 =~= json_values_by_phase(list@)->Object_0);
    result
}

fn phase_names(list: &Vec<(String, Vec<String>)>) -> (result: Vec<String>)
    ensures
        texts(result@) == phases_of(list@),
{
    let mut names: Vec<String> = Vec::new();
    let mut i: usize = 0;
    while i < list.len()
        invariant
            i <= list.len(),
            names.len() == i,
            forall|k: int| 0 <= k < i ==> (#[trigger] names@[k])@ == list@[k].0@,
        decreases list.len() - i,
    {
        names.push(list[i].0.clone());
        i = i + 1;
    }
    assert(texts(names@) =~= phases_of(list@));
    names
}

fn flattened(list: &Vec<(String, Vec<String>)>) -> (result: Vec<String>)
    ensures
        texts(result@) == all_texts(list@, list@.len() as int),
{
    let mut all: Vec<String> = Vec::new();
    let mut i: usize = 0;
    assert(texts(all@) =~= all_texts(list@, 0));
    while i < list.len()
        invariant
            i <= list.len(),
            texts(all@) == all_texts(list@, i as int),
        decreases list.len() - i,
    {
        let ghost earlier = texts(all@);
        let mut copies = crate::text::copy_texts(&list[i].1);
        let ghost fresh = texts(copies@);
        all.append(&mut copies);
        assert(texts(all@) =~= earlier + fresh);
        i = i + 1;
    }
    all
}

fn field(name: &str, value: Json) -> (result: (String, Json))
    ensures
        result.0@ == name@,
        result.1 == value,
{
    (String::from_str(name), value)
}

fn derived_diagnostic(id: &str, code: &str, message: &str, properties: Vec<(String, Json)>) -> (result: DiagnosticRecord)
    ensures
        result@ == (DiagnosticModel {
            ordinal: 0,
            id: id@,
            severity: "warning"@,
            code: code@,
            message: message@,
            path: None,
            adapter: None,
            start_line: None,
            start_column: None,
            end_line: None,
            end_column: None,
            properties: JsonModel::Object(
                Seq::new(properties@.len(), |i: int| (properties@[i].0@, properties@[i].1@)),
            ),
        }),
{
    let result = DiagnosticRecord {
        ordinal: 0,
        id: String::from_str(id),
        severity: String::from_str("warning"),
        code: String::from_str(code),
        message: String::from_str(message),
        path: None,
        adapter: None,
        start_line: None,
        start_column: None,
        end_line: None,
        end_column: None,
        properties: Json::Object(properties),
    };
    assert(result@.properties->Object_0 =~= Seq::new(
        properties@.len(),
        |i: int| (properties@[i].0@, properties@[i].1@),
    ));
    result
}

/// Appends the diagnostic of one correlation, where it is a conflict.
fn append_correlation(
    diagnostics: &mut Vec<DiagnosticRecord>,
    evidence: &mut Vec<EvidenceRecord>,
    correlation: &ProfileCorrelationRecord,
)
    ensures
        (Findings {
            diagnostics: diagnostic_models(final(diagnostics)@),
            evidence: evidence_models(final(evidence)@),
        }) == with_correlation(
            Findings {
                diagnostics: diagnostic_models(old(diagnostics)@),
                evidence: evidence_models(old(evidence)@),
            },
            *correlation,
        ),
{
    let ghost start = Findings {
        diagnostics: diagnostic_models(diagnostics@),
        evidence: evidence_models(evidence@),
    };
    if !same(correlation.status.as_str(), "conflict") {
        return;
    }
    let id = match &correlation.diagnostic_id {
        Some(id) => id,
        None => {
            return;
        },
    };
    let ghost e = start.evidence;
    let ghost site_ids = all_texts(correlation.site_ids_by_phase@, correlation.site_ids_by_phase@.len() as int);
    let sites = TextIndex::new(flattened(&correlation.site_ids_by_phase));
    let ghost keep = supports_correlation(e, site_ids);
    let ghost keep_run = names_build_run(e, site_ids);
    let mut matching: Vec<EvidenceRecord> = Vec::new();
    let mut runs: Vec<String> = Vec::new();
    let mut i: usize = 0;
    assert(evidence_models(matching@) =~= Seq::empty());
    assert(texts(runs@) =~= Seq::empty());
    while i < evidence.len()
        invariant
            i <= evidence.len(),
            e == evidence_models(evidence@),
            sites.keys() == site_ids,
            keep == supports_correlation(e, site_ids),
            keep_run == names_build_run(e, site_ids),
            evidence_models(matching@) == collect(i as int, keep, item_at(e)),
            texts(runs@) == collect(i as int, keep_run, build_run_at(e)),
        decreases evidence.len() - i,
    {
        assert(e[i as int] == evidence@[i as int]@);
        if same(evidence[i].owner_type.as_str(), "site") && sites.contains(evidence[i].owner_id.as_str()) {
            let ghost earlier = evidence_models(matching@);
            let copy = evidence[i].copy();
            matching.push(copy);
            assert(evidence_models(matching@) =~= earlier.push(copy@));
            if same(evidence[i].kind.as_str(), "build") {
                if let Some(run) = evidence[i].properties.get_str("build_run_id") {
                    let ghost earlier_runs = texts(runs@);
                    runs.push(String::from_str(run));
                    assert(texts(runs@) =~= earlier_runs.push(run@));
                }
            }
        }
        i = i + 1;
    }
    let ghost named = texts(runs@);
    let run_ids = sorted_set(runs);
    proof {
        sorted_list_is(texts(run_ids@), named);
    }
    let first_run: Json = if run_ids.len() > 0 {
        Json::Text(run_ids[0].clone())
    } else {
        Json::Null
    };
    let names = phase_names(&correlation.site_ids_by_phase);
    let mut properties: Vec<(String, Json)> = Vec::new();
    properties.push(field("build_run_id", first_run));
    properties.push(field("build_run_ids", texts_json(&run_ids)));
    properties.push(field("conditions_by_phase", values_by_phase_json(&correlation.conditions_by_phase)));
    properties.push(field("difference_reasons", texts_json(&correlation.difference_reasons)));
    properties.push(field("effective_profile_id", text_json(correlation.effective_profile_id.as_str())));
    properties.push(field("phases", texts_json(&names)));
    properties.push(field("profile_correlation_id", text_json(correlation.id.as_str())));
    properties.push(field("profile_matrix_schema", text_json(PROFILE_MATRIX_SCHEMA_VERSION)));
    properties.push(field("site_ids_by_phase", texts_by_phase_json(&correlation.site_ids_by_phase)));
    properties.push(field("targets_by_phase", texts_by_phase_json(&correlation.targets_by_phase)));
    let ghost listed = Seq::new(properties@.len(), |i: int| (properties@[i].0@, properties@[i].1@));
    assert(listed =~= conflict_diagnostic(*correlation, e).properties->Object_0);
    let diagnostic = derived_diagnostic(
        id.as_str(),
        "BUILD_EVIDENCE_CONFLICT",
        "observed dependency evidence conflicts with the selected static or semantic prediction",
        properties,
    );
    assert(diagnostic@ =~= conflict_diagnostic(*correlation, e));
    diagnostics.push(diagnostic);
    assert(diagnostic_models(diagnostics@) =~= start.diagnostics.push(diagnostic@));
    assert(evidence_models(matching@).len() == matching@.len());
    append_owned_evidence(evidence, matching, id.as_str());
}

/// Appends the diagnostic of one axis conflict.
fn append_axis_conflict(
    diagnostics: &mut Vec<DiagnosticRecord>,
    evidence: &mut Vec<EvidenceRecord>,
    entry: &ProfileMatrixEntryRecord,
    conflict: &ProfileAxisConflictRecord,
)
    ensures
        (Findings {
            diagnostics: diagnostic_models(final(diagnostics)@),
            evidence: evidence_models(final(evidence)@),
        }) == with_diagnostic(
            Findings {
                diagnostics: diagnostic_models(old(diagnostics)@),
                evidence: evidence_models(old(evidence)@),
            },
            axis_diagnostic(entry.id@, entry.effective_input_id@, conflict@),
            is_build_of_profile(evidence_models(old(evidence)@), conflict.profile_id@),
        ),
{
    let ghost start = diagnostic_models(diagnostics@);
    let ghost e = evidence_models(evidence@);
    let ghost keep = is_build_of_profile(e, conflict.profile_id@);
    let mut matching: Vec<EvidenceRecord> = Vec::new();
    let mut i: usize = 0;
    assert(evidence_models(matching@) =~= Seq::empty());
    while i < evidence.len()
        invariant
            i <= evidence.len(),
            e == evidence_models(evidence@),
            keep == is_build_of_profile(e, conflict.profile_id@),
            evidence_models(matching@) == collect(i as int, keep, item_at(e)),
        decreases evidence.len() - i,
    {
        assert(e[i as int] == evidence@[i as int]@);
        let named: bool = match evidence[i].properties.get_str("profile_id") {
            Some(profile_id) => same(profile_id, conflict.profile_id.as_str()),
            None => false,
        };
        if same(evidence[i].kind.as_str(), "build") && named {
            let ghost earlier = evidence_models(matching@);
            let copy = evidence[i].copy();
            matching.push(copy);
            assert(evidence_models(matching@) =~= earlier.push(copy@));
        }
        i = i + 1;
    }
    let mut properties: Vec<(String, Json)> = Vec::new();
    properties.push(field("effective_input_id", text_json(entry.effective_input_id.as_str())));
    properties.push(field("effective_profile_id", text_json(entry.id.as_str())));
    properties.push(field("fields", texts_json(&conflict.fields)));
    properties.push(field("parent_profile_id", text_json(conflict.parent_profile_id.as_str())));
    properties.push(field("profile_id", text_json(conflict.profile_id.as_str())));
    properties.push(field("profile_matrix_schema", text_json(PROFILE_MATRIX_SCHEMA_VERSION)));
    let ghost listed = Seq::new(properties@.len(), |i: int| (properties@[i].0@, properties@[i].1@));
    assert(listed =~= axis_diagnostic(entry.id@, entry.effective_input_id@, conflict@).properties->Object_0);
    let diagnostic = derived_diagnostic(
        conflict.diagnostic_id.as_str(),
        "PROFILE_MATRIX_PROFILE_CONFLICT",
        "child profile effective axes conflict with its declared parent profile",
        properties,
    );
    assert(diagnostic@ =~= axis_diagnostic(entry.id@, entry.effective_input_id@, conflict@));
    diagnostics.push(diagnostic);
    assert(diagnostic_models(diagnostics@) =~= start.push(diagnostic@));
    assert(evidence_models(matching@).len() == matching@.len());
    append_owned_evidence(evidence, matching, conflict.diagnostic_id.as_str());
}

/// Appends everything that a matrix derives.
pub fn append_matrix_diagnostics(
    diagnostics: &mut Vec<DiagnosticRecord>,
    evidence: &mut Vec<EvidenceRecord>,
    matrix: &ProfileMatrixRecord,
)
    ensures
        (Findings {
            diagnostics: diagnostic_models(final(diagnostics)@),
            evidence: evidence_models(final(evidence)@),
        }) == with_matrix(
            Findings {
                diagnostics: diagnostic_models(old(diagnostics)@),
                evidence: evidence_models(old(evidence)@),
            },
            *matrix,
        ),
{
    let ghost start = Findings {
        diagnostics: diagnostic_models(diagnostics@),
        evidence: evidence_models(evidence@),
    };
    let mut i: usize = 0;
    while i < matrix.correlations.len()
        invariant
            i <= matrix.correlations.len(),
            (Findings {
                diagnostics: diagnostic_models(diagnostics@),
                evidence: evidence_models(evidence@),
            }) == with_correlations(start, matrix.correlations@, i as int),
        decreases matrix.correlations.len() - i,
    {
        append_correlation(diagnostics, evidence, &matrix.correlations[i]);
        i = i + 1;
    }
    let ghost middle = with_correlations(start, matrix.correlations@, matrix.correlations@.len() as int);
    let mut i: usize = 0;
    while i < matrix.entries.len()
        invariant
            i <= matrix.entries.len(),
            (Findings {
                diagnostics: diagnostic_models(diagnostics@),
                evidence: evidence_models(evidence@),
            }) == with_entries(middle, matrix.entries@, i as int),
        decreases matrix.entries.len() - i,
    {
        let entry = &matrix.entries[i];
        let ghost before = with_entries(middle, matrix.entries@, i as int);
        let mut j: usize = 0;
        while j < entry.axis_conflicts.len()
            invariant
                j <= entry.axis_conflicts.len(),
                (Findings {
                    diagnostics: diagnostic_models(diagnostics@),
                    evidence: evidence_models(evidence@),
                }) == with_axis_conflicts(before, *entry, j as int),
            decreases entry.axis_conflicts.len() - j,
        {
            append_axis_conflict(diagnostics, evidence, entry, &entry.axis_conflicts[j]);
            j = j + 1;
        }
        i = i + 1;
    }
}

// ---------------------------------------------------------------------------------------
// Order
// ---------------------------------------------------------------------------------------

/// The place of evidence: by owner, and for each owner by ordinal.
#[derive(Debug, Clone, PartialEq, Eq)]
pub struct EvidencePlace {
    pub owner_type: String,
    pub owner_id: String,
    pub ordinal: i64,
}

impl Ranked for EvidencePlace {
    open spec fn before(a: EvidencePlace, b: EvidencePlace) -> bool {
        ||| text_lt(a.owner_type@, b.owner_type@)
        ||| a.owner_type@ == b.owner_type@ && text_lt(a.owner_id@, b.owner_id@)
        ||| a.owner_type@ == b.owner_type@ && a.owner_id@ == b.owner_id@ && a.ordinal < b.ordinal
    }

    proof fn before_is_irreflexive(a: EvidencePlace) {
        text_lt_irreflexive(a.owner_type@);
        text_lt_irreflexive(a.owner_id@);
    }

    proof fn before_is_transitive(a: EvidencePlace, b: EvidencePlace, c: EvidencePlace) {
        if text_lt(a.owner_type@, b.owner_type@) && text_lt(b.owner_type@, c.owner_type@) {
            text_lt_transitive(a.owner_type@, b.owner_type@, c.owner_type@);
        }
        if text_lt(a.owner_id@, b.owner_id@) && text_lt(b.owner_id@, c.owner_id@) {
            text_lt_transitive(a.owner_id@, b.owner_id@, c.owner_id@);
        }
    }

    proof fn before_is_weak(a: EvidencePlace, b: EvidencePlace, c: EvidencePlace) {
        text_lt_total(a.owner_type@, b.owner_type@);
        text_lt_total(a.owner_id@, b.owner_id@);
        if text_lt(b.owner_type@, a.owner_type@) && text_lt(a.owner_type@, c.owner_type@) {
            text_lt_transitive(b.owner_type@, a.owner_type@, c.owner_type@);
        }
        if text_lt(b.owner_id@, a.owner_id@) && text_lt(a.owner_id@, c.owner_id@) {
            text_lt_transitive(b.owner_id@, a.owner_id@, c.owner_id@);
        }
    }

    fn is_before(a: &EvidencePlace, b: &EvidencePlace) -> (result: bool) {
        less(a.owner_type.as_str(), b.owner_type.as_str()) || (a.owner_type == b.owner_type && (less(
            a.owner_id.as_str(),
            b.owner_id.as_str(),
        ) || (a.owner_id == b.owner_id && a.ordinal < b.ordinal)))
    }
}

/// Whether keys are the places of evidence.
pub open spec fn are_places(places: Seq<EvidencePlace>, evidence: Seq<EvidenceModel>) -> bool {
    &&& places.len() == evidence.len()
    &&& forall|i: int|
        0 <= i < places.len() ==> (#[trigger] places[i]).owner_type@ == evidence[i].owner_type
            && places[i].owner_id@ == evidence[i].owner_id && places[i].ordinal == evidence[i].ordinal
}

/// Whether `sorted` is the evidence by owner and ordinal, ties as they stood.
pub open spec fn is_evidence_order(evidence: Seq<EvidenceModel>, sorted: Seq<EvidenceModel>) -> bool {
    exists|places: Seq<EvidencePlace>| #[trigger]
        are_places(places, evidence) && is_ranked_sort(evidence, places, sorted)
}

/// Sorts evidence by owner and ordinal.
pub fn sort_evidence(evidence: Vec<EvidenceRecord>) -> (result: Vec<EvidenceRecord>)
    ensures
        is_evidence_order(evidence_models(evidence@), evidence_models(result@)),
        result.len() == evidence.len(),
{
    let ghost source = evidence@;
    let mut places: Vec<EvidencePlace> = Vec::new();
    let mut i: usize = 0;
    while i < evidence.len()
        invariant
            i <= evidence.len(),
            places.len() == i,
            forall|k: int|
                0 <= k < i ==> (#[trigger] places@[k]).owner_type@ == evidence@[k].owner_type@
                    && places@[k].owner_id@ == evidence@[k].owner_id@ && places@[k].ordinal == evidence@[k].ordinal,
        decreases evidence.len() - i,
    {
        places.push(
            EvidencePlace {
                owner_type: evidence[i].owner_type.clone(),
                owner_id: evidence[i].owner_id.clone(),
                ordinal: evidence[i].ordinal,
            },
        );
        i = i + 1;
    }
    let sorted = ranked_sort(evidence, &places);
    proof {
        let order = choose|order: Seq<usize>| #[trigger]
            is_rank_order(places@, order) && sorted@ == Seq::new(order.len(), |i: int| source[order[i] as int]);
        assert(evidence_models(sorted@) =~= Seq::new(
            order.len(),
            |i: int| evidence_models(source)[order[i] as int],
        ));
        assert(are_places(places@, evidence_models(source)));
        assert(is_ranked_sort(evidence_models(source), places@, evidence_models(sorted@)));
    }
    sorted
}

/// A diagnostic with another ordinal.
pub open spec fn renumbered(diagnostic: DiagnosticModel, ordinal: i64) -> DiagnosticModel {
    DiagnosticModel { ordinal, ..diagnostic }
}

/// The identities of diagnostics.
pub open spec fn model_ids(diagnostics: Seq<DiagnosticModel>) -> Seq<Seq<char>> {
    Seq::new(diagnostics.len(), |i: int| diagnostics[i].id)
}

/// Whether `result` is the diagnostics by identity, numbered from zero.
pub open spec fn is_canonical(diagnostics: Seq<DiagnosticModel>, result: Seq<DiagnosticModel>) -> bool {
    exists|sorted: Seq<DiagnosticModel>| #[trigger]
        is_stable_sort(diagnostics, model_ids(diagnostics), sorted) && result == Seq::new(
            sorted.len(),
            |i: int| renumbered(sorted[i], i as i64),
        )
}

/// The diagnostics with those from the mark on numbered from the mark's ordinal on.
pub open spec fn numbered_from_mark(diagnostics: Seq<DiagnosticModel>, mark: RefreshMark) -> Seq<DiagnosticModel> {
    Seq::new(
        diagnostics.len(),
        |i: int|
            if i < mark.retained_diagnostics {
                diagnostics[i]
            } else {
                renumbered(
                    diagnostics[i],
                    saturated(mark.next_ordinal + ((i - mark.retained_diagnostics) as i64)),
                )
            },
    )
}

/// The diagnostics and the evidence of a snapshot.
pub open spec fn findings_of(snapshot: GraphSnapshot) -> Findings {
    Findings {
        diagnostics: diagnostic_models(snapshot.diagnostics@),
        evidence: evidence_models(snapshot.evidence@),
    }
}

/// Whether a matrix was put into a snapshot, and nothing else.
pub open spec fn is_attached(
    begun: GraphSnapshot,
    matrix: ProfileMatrixRecord,
    mark: RefreshMark,
    canonicalize_diagnostics: bool,
    after: GraphSnapshot,
) -> bool {
    let found = with_matrix(findings_of(begun), matrix);
    &&& canonicalize_diagnostics ==> is_canonical(found.diagnostics, findings_of(after).diagnostics)
    &&& !canonicalize_diagnostics ==> findings_of(after).diagnostics == numbered_from_mark(found.diagnostics, mark)
    &&& is_evidence_order(found.evidence, findings_of(after).evidence)
    &&& after == (GraphSnapshot {
        diagnostics: after.diagnostics,
        evidence: after.evidence,
        profile_matrix: matrix,
        ..begun
    })
}

/// Puts a matrix into a snapshot from which an earlier one was dropped: its diagnostics
/// follow the retained ones; then, where asked for, all are put in the order of their
/// identities and numbered anew; evidence is put in order. Nothing else changes.
pub fn attach_profile_matrix(
    snapshot: &mut GraphSnapshot,
    matrix: ProfileMatrixRecord,
    mark: RefreshMark,
    canonicalize_diagnostics: bool,
)
    requires
        mark.retained_diagnostics <= old(snapshot).diagnostics@.len(),
    ensures
        is_attached(*old(snapshot), matrix, mark, canonicalize_diagnostics, *final(snapshot)),
{
    let ghost start = Findings {
        diagnostics: diagnostic_models(snapshot.diagnostics@),
        evidence: evidence_models(snapshot.evidence@),
    };
    let mut diagnostics: Vec<DiagnosticRecord> = Vec::new();
    core::mem::swap(&mut diagnostics, &mut snapshot.diagnostics);
    let mut evidence: Vec<EvidenceRecord> = Vec::new();
    core::mem::swap(&mut evidence, &mut snapshot.evidence);
    append_matrix_diagnostics(&mut diagnostics, &mut evidence, &matrix);
    let ghost found = with_matrix(start, matrix);
    snapshot.profile_matrix = matrix;
    if canonicalize_diagnostics {
        let ghost source = diagnostics@;
        let mut keys: Vec<String> = Vec::new();
        let mut i: usize = 0;
        while i < diagnostics.len()
            invariant
                i <= diagnostics.len(),
                keys.len() == i,
                forall|k: int| 0 <= k < i ==> (#[trigger] keys@[k])@ == diagnostics@[k].id@,
            decreases diagnostics.len() - i,
        {
            keys.push(diagnostics[i].id.clone());
            i = i + 1;
        }
        assert(texts(keys@) =~= model_ids(diagnostic_models(source)));
        let mut sorted = stable_sort(diagnostics, &keys);
        let ghost sorted_source = sorted@;
        let ghost sorted_models = diagnostic_models(sorted@);
        proof {
            let order = choose|order: Seq<usize>| #[trigger]
                is_stable_order(texts(keys@), order) && sorted@ == Seq::new(
                    order.len(),
                    |i: int| source[order[i] as int],
                );
            assert(sorted_models =~= Seq::new(order.len(), |i: int| diagnostic_models(source)[order[i] as int]));
            assert(is_stable_sort(diagnostic_models(source), model_ids(diagnostic_models(source)), sorted_models));
        }
        let mut i: usize = 0;
        while i < sorted.len()
            invariant
                i <= sorted.len(),
                sorted.len() == sorted_source.len(),
                sorted_models == diagnostic_models(sorted_source),
                forall|k: int| 0 <= k < i ==> (#[trigger] sorted@[k])@ == renumbered(sorted_models[k], k as i64),
                forall|k: int| i <= k < sorted.len() ==> (#[trigger] sorted@[k]) == sorted_source[k],
            decreases sorted.len() - i,
        {
            sorted[i].ordinal = i as i64;
            assert(sorted@[i as int]@ =~= renumbered(sorted_models[i as int], i as i64));
            i = i + 1;
        }
        assert(diagnostic_models(sorted@) =~= Seq::new(
            sorted_models.len(),
            |i: int| renumbered(sorted_models[i], i as i64),
        ));
        snapshot.diagnostics = sorted;
    } else {
        let ghost models = diagnostic_models(diagnostics@);
        let ghost source = diagnostics@;
        let mut i: usize = mark.retained_diagnostics;
        proof {
            findings_grow(start, matrix);
        }
        while i < diagnostics.len()
            invariant
                mark.retained_diagnostics <= i <= diagnostics.len(),
                diagnostics.len() == source.len(),
                models == diagnostic_models(source),
                forall|k: int| 0 <= k < mark.retained_diagnostics ==> (#[trigger] diagnostics@[k]) == source[k],
                forall|k: int|
                    mark.retained_diagnostics <= k < i ==> (#[trigger] diagnostics@[k])@ == renumbered(
                        models[k],
                        saturated(mark.next_ordinal + ((k - mark.retained_diagnostics) as i64)),
                    ),
                forall|k: int| i <= k < diagnostics.len() ==> (#[trigger] diagnostics@[k]) == source[k],
            decreases diagnostics.len() - i,
        {
            let offset: i64 = (i - mark.retained_diagnostics) as i64;
            let wide: i128 = mark.next_ordinal as i128 + offset as i128;
            let ordinal: i64 = if wide > i64::MAX as i128 {
                i64::MAX
            } else {
                wide as i64
            };
            diagnostics[i].ordinal = ordinal;
            assert(diagnostics@[i as int]@ =~= renumbered(
                models[i as int],
                saturated(mark.next_ordinal + ((i - mark.retained_diagnostics) as i64)),
            ));
            i = i + 1;
        }
        assert(diagnostic_models(diagnostics@) =~= numbered_from_mark(models, mark));
        snapshot.diagnostics = diagnostics;
    }
    snapshot.evidence = sort_evidence(evidence);
}

proof fn findings_grow(findings: Findings, matrix: ProfileMatrixRecord)
    ensures
        with_matrix(findings, matrix).diagnostics.len() >= findings.diagnostics.len(),
{
    correlations_grow(findings, matrix.correlations@, matrix.correlations@.len() as int);
    let middle = with_correlations(findings, matrix.correlations@, matrix.correlations@.len() as int);
    entries_grow(middle, matrix.entries@, matrix.entries@.len() as int);
}

proof fn correlations_grow(findings: Findings, correlations: Seq<ProfileCorrelationRecord>, count: int)
    ensures
        with_correlations(findings, correlations, count).diagnostics.len() >= findings.diagnostics.len(),
    decreases count,
{
    if count > 0 {
        correlations_grow(findings, correlations, count - 1);
    }
}

proof fn axis_conflicts_grow(findings: Findings, entry: ProfileMatrixEntryRecord, count: int)
    ensures
        with_axis_conflicts(findings, entry, count).diagnostics.len() >= findings.diagnostics.len(),
    decreases count,
{
    if count > 0 {
        axis_conflicts_grow(findings, entry, count - 1);
    }
}

proof fn entries_grow(findings: Findings, entries: Seq<ProfileMatrixEntryRecord>, count: int)
    ensures
        with_entries(findings, entries, count).diagnostics.len() >= findings.diagnostics.len(),
    decreases count,
{
    if count > 0 {
        entries_grow(findings, entries, count - 1);
        axis_conflicts_grow(
            with_entries(findings, entries, count - 1),
            entries[count - 1],
            entries[count - 1].axis_conflicts@.len() as int,
        );
    }
}

/// What a matrix derives is recognised as derived: the next refresh drops it.
pub proof fn derived_diagnostics_are_recognised(
    correlation: ProfileCorrelationRecord,
    evidence: Seq<EvidenceModel>,
    entry_id: Seq<char>,
    input: Seq<char>,
    conflict: crate::matrix_build::AxisModel,
)
    ensures
        conflict_diagnostic(correlation, evidence).properties.text_field("profile_matrix_schema"@) == Some(
            PROFILE_MATRIX_SCHEMA_VERSION@,
        ),
        axis_diagnostic(entry_id, input, conflict).properties.text_field("profile_matrix_schema"@) == Some(
            PROFILE_MATRIX_SCHEMA_VERSION@,
        ),
{
    reveal_strlit("build_run_id");
    reveal_strlit("build_run_ids");
    reveal_strlit("conditions_by_phase");
    reveal_strlit("difference_reasons");
    reveal_strlit("effective_profile_id");
    reveal_strlit("effective_input_id");
    reveal_strlit("fields");
    reveal_strlit("parent_profile_id");
    reveal_strlit("phases");
    reveal_strlit("profile_correlation_id");
    reveal_strlit("profile_id");
    reveal_strlit("profile_matrix_schema");
    let name = "profile_matrix_schema"@;
    assert(name.len() == 21);
    assert("build_run_id"@.len() == 12 && "build_run_ids"@.len() == 13 && "conditions_by_phase"@.len() == 19);
    assert("difference_reasons"@.len() == 18 && "effective_profile_id"@.len() == 20 && "phases"@.len() == 6);
    assert("profile_correlation_id"@.len() == 22 && "effective_input_id"@.len() == 18 && "fields"@.len() == 6);
    assert("parent_profile_id"@.len() == 17 && "profile_id"@.len() == 10);
    reveal_with_fuel(crate::json::field_from, 9);
}

} // verus!

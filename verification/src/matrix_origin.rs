//! That the profile matrix of a graph depends on what the graph holds alone.

use vstd::prelude::*;

use crate::correlation::{
    condition_rows, differences_of, draft_ids, edge_links, edge_rows, identity_of, is_draft, is_finished,
    is_texts_by_phase, is_values_by_phase, json_models, link_keys, phase_texts, phase_texts_from, phase_union,
    phase_union_from, phases_with_rows, resolution_of, site_rows, targets_of, texts_in_phase, CorrelationDraft,
};
use crate::json::{Json, JsonModel};
use crate::matrix_build::{
    axis_models, axis_profiles, conflict_at, correlation_ids_of, correlation_in_entry, correlation_union_at,
    count_keys, counts_statuses, entry_ids_of, entry_inputs, finished_entries, has_status, in_entry,
    in_entry_with_conflict, in_entry_with_parent, is_entry_draft, is_finished_matrix, is_matrix_draft,
    known_statuses, names_phase, parent_at, phase_name_at, profile_id_at, reason_at, statuses_of, united_conditions,
    EntryDraft, MatrixDraft, MatrixIds,
};
use crate::matrix_facts::{
    all_facts, correlated_site, correlated_sites_of, evidence_fact, evidence_has_owner, fact_profile, fact_text,
    has_known_profile, in_scope, is_coverage_by_phase, is_phase_coverage, kind_in_scope, leading_evidence,
    occurring_phases, owner_ids_of, site_phase, CorrelatedModel, FactKind, FactModel,
};
use crate::matrix_laws::{
    has_no_foreign_namesake, is_ordered, phase_text_models, phase_value_models,
    refreshing_keeps_what_the_matrix_is_built_from, refreshing_twice_changes_nothing,
};
use crate::matrix_refresh::{evidence_models, findings_of, is_attached, is_begun, RefreshMark};
use crate::order::{
    collect, equal_selections_are_equal, is_stable_order, is_stable_sort, positions_of,
    positions_of_are_ascending_and_complete, selections_are_counted, sorted_set_is_unique, stable_orders_agree,
    stable_sort_of_views, views,
};
use crate::profile_matrix::{
    coverage_models, phase_name, Phase, PhaseCoverageRecord, ProfileCorrelationRecord, ProfileMatrixRecord,
};
use crate::records::{EdgeRecord, EvidenceRecord, GraphSnapshot, ProfileRecord, SiteRecord};
use crate::text::texts;

verus! {

// ---------------------------------------------------------------------------------------
// Facts
// ---------------------------------------------------------------------------------------

proof fn same_item(a: Seq<EvidenceRecord>, b: Seq<EvidenceRecord>, i: int)
    requires
        evidence_models(a) == evidence_models(b),
        0 <= i < a.len(),
    ensures
        a.len() == b.len(),
        a[i]@ == b[i]@,
        a[i].owner_type@ == b[i].owner_type@,
        a[i].owner_id@ == b[i].owner_id@,
        a[i].kind@ == b[i].kind@,
        a[i].ordinal == b[i].ordinal,
{
    assert(evidence_models(a).len() == a.len() && evidence_models(b).len() == b.len());
    assert(evidence_models(a)[i] == evidence_models(b)[i]);
}

proof fn same_length(a: Seq<EvidenceRecord>, b: Seq<EvidenceRecord>)
    requires
        evidence_models(a) == evidence_models(b),
    ensures
        a.len() == b.len(),
        owner_ids_of(a) == owner_ids_of(b),
{
    assert(evidence_models(a).len() == a.len() && evidence_models(b).len() == b.len());
    assert forall|i: int| 0 <= i < a.len() implies a[i].owner_id@ == b[i].owner_id@ by {
        same_item(a, b, i);
    }
    assert(owner_ids_of(a) =~= owner_ids_of(b));
}

proof fn same_leading_evidence(a: Seq<EvidenceRecord>, b: Seq<EvidenceRecord>, positions: Seq<int>, count: int)
    requires
        evidence_models(a) == evidence_models(b),
        count <= positions.len(),
        forall|i: int| 0 <= i < positions.len() ==> 0 <= #[trigger] positions[i] < a.len(),
    ensures
        leading_evidence(a, positions, count) == leading_evidence(b, positions, count),
        leading_evidence(a, positions, count) matches Some(p) ==> 0 <= p < a.len(),
    decreases count,
{
    if count > 0 {
        same_leading_evidence(a, b, positions, count - 1);
        same_item(a, b, positions[count - 1]);
        if let Some(q) = leading_evidence(a, positions, count - 1) {
            same_item(a, b, q);
        }
    }
}

proof fn same_phase(a: Seq<EvidenceRecord>, b: Seq<EvidenceRecord>, site_id: Seq<char>)
    requires
        evidence_models(a) == evidence_models(b),
    ensures
        site_phase(a, site_id) == site_phase(b, site_id),
{
    same_length(a, b);
    let positions = positions_of(owner_ids_of(a), site_id, a.len() as int);
    positions_of_are_ascending_and_complete(owner_ids_of(a), site_id, a.len() as int);
    same_leading_evidence(a, b, positions, positions.len() as int);
    if let Some(p) = leading_evidence(a, positions, positions.len() as int) {
        same_item(a, b, p);
    }
}

/// The sites that are correlated, and the facts of a graph, depend on what its evidence holds.
proof fn same_facts(
    profiles: Seq<ProfileRecord>,
    inputs: Seq<String>,
    sites: Seq<SiteRecord>,
    edges: Seq<EdgeRecord>,
    a: Seq<EvidenceRecord>,
    b: Seq<EvidenceRecord>,
)
    requires
        evidence_models(a) == evidence_models(b),
    ensures
        correlated_sites_of(profiles, sites, a) == correlated_sites_of(profiles, sites, b),
        all_facts(profiles, inputs, sites, edges, a) == all_facts(profiles, inputs, sites, edges, b),
{
    same_length(a, b);
    let known = has_known_profile(profiles, sites);
    assert forall|i: int| 0 <= i < sites.len() && #[trigger] known(i) implies correlated_site(profiles, sites, a)(i)
        == correlated_site(profiles, sites, b)(i) by {
        same_phase(a, b, sites[i].id@);
    }
    equal_selections_are_equal(
        sites.len() as int,
        known,
        known,
        correlated_site(profiles, sites, a),
        correlated_site(profiles, sites, b),
    );
    let owned = evidence_has_owner(sites, edges, a);
    assert forall|i: int| 0 <= i < a.len() implies #[trigger] owned(i) == evidence_has_owner(sites, edges, b)(i) by {
        same_item(a, b, i);
    }
    assert forall|i: int| 0 <= i < a.len() && #[trigger] owned(i) implies evidence_fact(
        profiles,
        inputs,
        sites,
        edges,
        a,
    )(i) == evidence_fact(profiles, inputs, sites, edges, b)(i) by {
        same_item(a, b, i);
    }
    equal_selections_are_equal(
        a.len() as int,
        owned,
        evidence_has_owner(sites, edges, b),
        evidence_fact(profiles, inputs, sites, edges, a),
        evidence_fact(profiles, inputs, sites, edges, b),
    );
}

// ---------------------------------------------------------------------------------------
// Lists
// ---------------------------------------------------------------------------------------

proof fn stable_sorts_agree<T>(items: Seq<T>, keys: Seq<Seq<char>>, a: Seq<T>, b: Seq<T>)
    requires
        is_stable_sort(items, keys, a),
        is_stable_sort(items, keys, b),
        a.len() <= usize::MAX,
    ensures
        a == b,
{
    let first = choose|order: Seq<usize>| #[trigger]
        is_stable_order(keys, order) && a == Seq::new(order.len(), |i: int| items[order[i] as int]);
    let second = choose|order: Seq<usize>| #[trigger]
        is_stable_order(keys, order) && b == Seq::new(order.len(), |i: int| items[order[i] as int]);
    stable_orders_agree(keys, first, second);
}

proof fn same_coverage(
    a: Seq<(String, PhaseCoverageRecord)>,
    b: Seq<(String, PhaseCoverageRecord)>,
    facts: Seq<FactModel>,
    scope: Option<Seq<char>>,
)
    requires
        is_coverage_by_phase(a, facts, scope),
        is_coverage_by_phase(b, facts, scope),
    ensures
        coverage_models(a) == coverage_models(b),
{
    let phases = occurring_phases(facts, scope);
    let n = facts.len() as int;
    assert forall|i: int| 0 <= i < a.len() implies a[i].0@ == b[i].0@ && a[i].1@ == b[i].1@ by {
        let phase = phases[i];
        assert(is_phase_coverage(a[i].1, facts, scope, phase));
        assert(is_phase_coverage(b[i].1, facts, scope, phase));
        sorted_set_is_unique(
            texts(a[i].1.profile_ids@),
            texts(b[i].1.profile_ids@),
            collect(
                n,
                in_scope(facts, scope, phase),
                fact_profile(facts),
            ),
        );
        sorted_set_is_unique(
            texts(a[i].1.completeness@),
            texts(b[i].1.completeness@),
            collect(
                n,
                kind_in_scope(facts, scope, phase, FactKind::Completeness),
                fact_text(facts),
            ),
        );
        assert(a[i].1@ =~= b[i].1@);
    }
    assert(coverage_models(a) =~= coverage_models(b));
}

proof fn same_texts_by_phase(
    a: Seq<(String, Vec<String>)>,
    b: Seq<(String, Vec<String>)>,
    rows: Seq<(Phase, Seq<Seq<char>>)>,
)
    requires
        is_texts_by_phase(a, rows),
        is_texts_by_phase(b, rows),
    ensures
        phase_text_models(a) == phase_text_models(b),
{
    let phases = phases_with_rows(rows);
    assert forall|i: int| 0 <= i < a.len() implies a[i].0@ == b[i].0@ && texts(a[i].1@) == texts(b[i].1@) by {
        assert(a[i].0@ == phase_name(phases[i]));
        assert(b[i].0@ == phase_name(phases[i]));
        sorted_set_is_unique(
            texts(a[i].1@),
            texts(b[i].1@),
            texts_in_phase(rows, phases[i], rows.len() as int),
        );
    }
    assert(phase_text_models(a) =~= phase_text_models(b));
}

/// What lists of conditions by phase hold.
pub open spec fn phase_condition_models(list: Seq<(String, Vec<Json>)>) -> Seq<(Seq<char>, Seq<JsonModel>)> {
    Seq::new(list.len(), |i: int| (list[i].0@, json_models(list[i].1@)))
}

proof fn same_values_by_phase(
    a: Seq<(String, Vec<Json>)>,
    b: Seq<(String, Vec<Json>)>,
    rows: Seq<(Phase, JsonModel)>,
)
    requires
        is_values_by_phase(a, rows),
        is_values_by_phase(b, rows),
    ensures
        phase_condition_models(a) == phase_condition_models(b),
{
    let phases = phases_with_rows(rows);
    assert forall|i: int| 0 <= i < a.len() implies a[i].0@ == b[i].0@ && json_models(a[i].1@) == json_models(
        b[i].1@,
    ) by {
        assert(a[i].0@ == phase_name(phases[i]));
        assert(b[i].0@ == phase_name(phases[i]));
    }
    assert(phase_condition_models(a) =~= phase_condition_models(b));
}

// ---------------------------------------------------------------------------------------
// Drafts
// ---------------------------------------------------------------------------------------

/// Whether drafts of a correlation hold the same.
spec fn same_draft(a: CorrelationDraft, b: CorrelationDraft) -> bool {
    &&& a.id@ == b.id@
    &&& a.effective_profile_id@ == b.effective_profile_id@
    &&& a.source@ == b.source@
    &&& a.kind@ == b.kind@
    &&& a.specifier@ == b.specifier@
    &&& phase_condition_models(a.conditions@) == phase_condition_models(b.conditions@)
    &&& phase_text_models(a.targets@) == phase_text_models(b.targets@)
    &&& phase_text_models(a.resolutions@) == phase_text_models(b.resolutions@)
    &&& phase_text_models(a.site_ids@) == phase_text_models(b.site_ids@)
    &&& phase_text_models(a.edge_ids@) == phase_text_models(b.edge_ids@)
}

proof fn drafts_agree(
    a: CorrelationDraft,
    b: CorrelationDraft,
    key: Seq<char>,
    sites: Seq<SiteRecord>,
    edges: Seq<EdgeRecord>,
    correlated: Seq<CorrelatedModel>,
    keys: Seq<Seq<char>>,
    entry_ids: Seq<String>,
)
    requires
        is_draft(a, key, sites, edges, correlated, keys, entry_ids),
        is_draft(b, key, sites, edges, correlated, keys, entry_ids),
    ensures
        same_draft(a, b),
{
    let members = positions_of(keys, key, keys.len() as int);
    let links = edge_links(sites, correlated, keys, edges);
    let linked = positions_of(link_keys(links), key, links.len() as int);
    same_values_by_phase(a.conditions@, b.conditions@, condition_rows(sites, correlated, members));
    same_texts_by_phase(a.targets@, b.targets@, site_rows(sites, correlated, members, targets_of()));
    same_texts_by_phase(a.resolutions@, b.resolutions@, site_rows(sites, correlated, members, resolution_of()));
    same_texts_by_phase(a.site_ids@, b.site_ids@, site_rows(sites, correlated, members, identity_of()));
    same_texts_by_phase(a.edge_ids@, b.edge_ids@, edge_rows(edges, links, linked));
}

/// Whether drafts of an entry hold the same.
spec fn same_entry(a: EntryDraft, b: EntryDraft) -> bool {
    &&& a.id@ == b.id@
    &&& a.effective_input_id@ == b.effective_input_id@
    &&& a.language@ == b.language@
    &&& texts(a.profile_ids@) == texts(b.profile_ids@)
    &&& texts(a.parent_profile_ids@) == texts(b.parent_profile_ids@)
    &&& texts(a.phases@) == texts(b.phases@)
    &&& json_models(a.conditions@) == json_models(b.conditions@)
    &&& coverage_models(a.phase_coverage@) == coverage_models(b.phase_coverage@)
    &&& texts(a.selection_reasons@) == texts(b.selection_reasons@)
    &&& axis_models(a.axis_conflicts@) == axis_models(b.axis_conflicts@)
}

proof fn entries_agree(
    a: EntryDraft,
    b: EntryDraft,
    input: Seq<char>,
    profiles: Seq<ProfileRecord>,
    sites: Seq<SiteRecord>,
    edges: Seq<EdgeRecord>,
    evidence: Seq<EvidenceRecord>,
    evidence_again: Seq<EvidenceRecord>,
    ids: MatrixIds,
)
    requires
        evidence_models(evidence) == evidence_models(evidence_again),
        is_entry_draft(
            a,
            input,
            profiles,
            sites,
            edges,
            evidence,
            ids.inputs@,
            ids.entry_ids@,
            ids.axis_diagnostic_ids@,
        ),
        is_entry_draft(
            b,
            input,
            profiles,
            sites,
            edges,
            evidence_again,
            ids.inputs@,
            ids.entry_ids@,
            ids.axis_diagnostic_ids@,
        ),
    ensures
        same_entry(a, b),
{
    same_facts(profiles, ids.inputs@, sites, edges, evidence, evidence_again);
    let n = profiles.len() as int;
    let inputs = texts(ids.inputs@);
    let facts = all_facts(profiles, ids.inputs@, sites, edges, evidence);
    let conflicts = collect(
        n,
        in_entry_with_conflict(profiles, inputs, input),
        conflict_at(profiles, ids.axis_diagnostic_ids@),
    );
    sorted_set_is_unique(
        texts(a.profile_ids@),
        texts(b.profile_ids@),
        collect(n, in_entry(inputs, input), profile_id_at(profiles)),
    );
    sorted_set_is_unique(
        texts(a.parent_profile_ids@),
        texts(b.parent_profile_ids@),
        collect(n, in_entry_with_parent(profiles, inputs, input), parent_at(profiles)),
    );
    sorted_set_is_unique(
        texts(a.selection_reasons@),
        texts(b.selection_reasons@),
        collect(n, in_entry(inputs, input), reason_at(profiles)),
    );
    sorted_set_is_unique(
        texts(a.phases@),
        texts(b.phases@),
        collect(facts.len() as int, names_phase(facts, input), phase_name_at(facts)),
    );
    same_coverage(a.phase_coverage@, b.phase_coverage@, facts, Some(input));
    assert(a.axis_conflicts.len() == a.axis_conflicts@.len());
    assert(axis_models(a.axis_conflicts@).len() == a.axis_conflicts@.len());
    stable_sorts_agree(
        conflicts,
        axis_profiles(conflicts),
        axis_models(a.axis_conflicts@),
        axis_models(b.axis_conflicts@),
    );
}

// ---------------------------------------------------------------------------------------
// Finished correlations
// ---------------------------------------------------------------------------------------

proof fn same_phase_texts(a: Seq<(String, Vec<String>)>, b: Seq<(String, Vec<String>)>, phase: Seq<char>, from: int)
    requires
        phase_text_models(a) == phase_text_models(b),
    ensures
        phase_texts_from(a, phase, from) == phase_texts_from(b, phase, from),
    decreases a.len() - from,
{
    assert(phase_text_models(a).len() == a.len() && phase_text_models(b).len() == b.len());
    if 0 <= from < a.len() {
        assert(phase_text_models(a)[from] == phase_text_models(b)[from]);
        same_phase_texts(a, b, phase, from + 1);
    }
}

proof fn same_phase_union(
    a: Seq<(String, Vec<Json>)>,
    unions: Seq<Json>,
    b: Seq<(String, Vec<Json>)>,
    others: Seq<Json>,
    phase: Seq<char>,
    from: int,
)
    requires
        phase_condition_models(a) == phase_condition_models(b),
        json_models(unions) == json_models(others),
        unions.len() == a.len(),
        others.len() == b.len(),
    ensures
        phase_union_from(a, unions, phase, from) == phase_union_from(b, others, phase, from),
    decreases a.len() - from,
{
    assert(phase_condition_models(a).len() == a.len() && phase_condition_models(b).len() == b.len());
    if 0 <= from < a.len() {
        assert(phase_condition_models(a)[from] == phase_condition_models(b)[from]);
        assert(json_models(unions)[from] == json_models(others)[from]);
        same_phase_union(a, unions, b, others, phase, from + 1);
    }
}

proof fn same_differences(a: CorrelationDraft, unions: Seq<Json>, b: CorrelationDraft, others: Seq<Json>)
    requires
        same_draft(a, b),
        json_models(unions) == json_models(others),
        unions.len() == a.conditions@.len(),
        others.len() == b.conditions@.len(),
    ensures
        differences_of(a, unions) == differences_of(b, others),
{
    assert forall|phase: Seq<char>| #[trigger] phase_texts(a.targets@, phase) == phase_texts(b.targets@, phase) by {
        same_phase_texts(a.targets@, b.targets@, phase, 0);
    }
    assert forall|phase: Seq<char>|
        #[trigger] phase_texts(a.resolutions@, phase) == phase_texts(b.resolutions@, phase) by {
        same_phase_texts(a.resolutions@, b.resolutions@, phase, 0);
    }
    assert forall|phase: Seq<char>|
        #[trigger] phase_union(a.conditions@, unions, phase) == phase_union(b.conditions@, others, phase) by {
        same_phase_union(a.conditions@, unions, b.conditions@, others, phase, 0);
    }
    assert(differences_of(a, unions) == differences_of(b, others));
}

/// Correlations that are finished from drafts that hold the same hold the same.
proof fn finished_correlations_agree(
    a: ProfileCorrelationRecord,
    draft: CorrelationDraft,
    unions: Seq<Json>,
    union: Json,
    b: ProfileCorrelationRecord,
    draft_again: CorrelationDraft,
    unions_again: Seq<Json>,
    union_again: Json,
    diagnostic_id: Seq<char>,
)
    requires
        same_draft(draft, draft_again),
        json_models(unions) == json_models(unions_again),
        unions.len() == draft.conditions@.len(),
        unions_again.len() == draft_again.conditions@.len(),
        union@ == union_again@,
        is_finished(a, draft, unions, union, diagnostic_id),
        is_finished(b, draft_again, unions_again, union_again, diagnostic_id),
    ensures
        a@ == b@,
{
    same_differences(draft, unions, draft_again, unions_again);
    let x = a.conditions_by_phase@;
    let y = b.conditions_by_phase@;
    assert(json_models(unions).len() == unions.len() && json_models(unions_again).len() == unions_again.len());
    assert forall|i: int| 0 <= i < x.len() implies x[i].0@ == y[i].0@ && x[i].1@ == y[i].1@ by {
        assert(x[i].0 == draft.conditions@[i].0 && x[i].1 == unions[i]);
        assert(y[i].0 == draft_again.conditions@[i].0 && y[i].1 == unions_again[i]);
        assert(phase_condition_models(draft.conditions@)[i] == phase_condition_models(draft_again.conditions@)[i]);
        assert(json_models(unions)[i] == json_models(unions_again)[i]);
    }
    assert(phase_value_models(x) =~= phase_value_models(y));
    assert(a@ =~= b@);
}

// ---------------------------------------------------------------------------------------
// Matrices
// ---------------------------------------------------------------------------------------

/// What a matrix is put together from.
pub struct MatrixParts {
    pub draft: MatrixDraft,
    /// The united condition of each phase of each correlation.
    pub phase_unions: Seq<Seq<Json>>,
    /// The united condition of the phases of each correlation together.
    pub unions: Seq<Json>,
    pub correlations: Seq<ProfileCorrelationRecord>,
    pub entry_unions: Seq<Json>,
}

/// Whether conditions are united phase by phase.
pub open spec fn are_phase_unions(
    unite: spec_fn(Seq<JsonModel>) -> JsonModel,
    conditions: Seq<(String, Vec<Json>)>,
    unions: Seq<Json>,
) -> bool {
    &&& unions.len() == conditions.len()
    &&& forall|k: int|
        0 <= k < unions.len() ==> (#[trigger] unions[k])@ == unite(json_models(conditions[k].1@))
}

/// Whether a matrix is that of a graph. `ids` holds the identities that are derived for it,
/// `conflict_id` gives the identity of the diagnostic of a correlation, and `unite` unites
/// conditions.
pub open spec fn is_matrix_of(
    profiles: Seq<ProfileRecord>,
    sites: Seq<SiteRecord>,
    edges: Seq<EdgeRecord>,
    evidence: Seq<EvidenceRecord>,
    ids: MatrixIds,
    conflict_id: spec_fn(Seq<char>) -> Seq<char>,
    unite: spec_fn(Seq<JsonModel>) -> JsonModel,
    parts: MatrixParts,
    matrix: ProfileMatrixRecord,
) -> bool {
    let drafts = parts.draft.correlations@;
    &&& is_matrix_draft(profiles, sites, edges, evidence, ids, parts.draft)
    &&& parts.phase_unions.len() == drafts.len()
    &&& parts.unions.len() == drafts.len()
    &&& parts.correlations.len() == drafts.len()
    &&& forall|i: int|
        0 <= i < drafts.len() ==> {
            &&& are_phase_unions(unite, (#[trigger] drafts[i]).conditions@, parts.phase_unions[i])
            &&& parts.unions[i]@ == unite(json_models(parts.phase_unions[i]))
            &&& is_finished(
                parts.correlations[i],
                drafts[i],
                parts.phase_unions[i],
                parts.unions[i],
                conflict_id(drafts[i].id@),
            )
        }
    &&& parts.entry_unions.len() == parts.draft.entries@.len()
    &&& forall|i: int|
        0 <= i < parts.entry_unions.len() ==> (#[trigger] parts.entry_unions[i])@ == unite(
            united_conditions(parts.draft.entries@[i], parts.correlations),
        )
    &&& is_finished_matrix(
        parts.draft.entries@,
        parts.entry_unions,
        parts.correlations,
        parts.draft.phase_coverage,
        matrix,
    )
}

proof fn same_phase_unions(
    unite: spec_fn(Seq<JsonModel>) -> JsonModel,
    a: Seq<(String, Vec<Json>)>,
    unions: Seq<Json>,
    b: Seq<(String, Vec<Json>)>,
    others: Seq<Json>,
)
    requires
        phase_condition_models(a) == phase_condition_models(b),
        are_phase_unions(unite, a, unions),
        are_phase_unions(unite, b, others),
    ensures
        json_models(unions) == json_models(others),
{
    assert(phase_condition_models(a).len() == a.len() && phase_condition_models(b).len() == b.len());
    assert forall|k: int| 0 <= k < unions.len() implies unions[k]@ == others[k]@ by {
        assert(phase_condition_models(a)[k] == phase_condition_models(b)[k]);
    }
    assert(json_models(unions) =~= json_models(others));
}

proof fn same_united_conditions(
    a: EntryDraft,
    correlations: Seq<ProfileCorrelationRecord>,
    b: EntryDraft,
    others: Seq<ProfileCorrelationRecord>,
)
    requires
        same_entry(a, b),
        views(correlations) == views(others),
    ensures
        united_conditions(a, correlations) == united_conditions(b, others),
{
    assert(views(correlations).len() == correlations.len() && views(others).len() == others.len());
    let keep = correlation_in_entry(correlations, a.id@);
    assert forall|i: int| 0 <= i < correlations.len() implies #[trigger] keep(i) == correlation_in_entry(
        others,
        b.id@,
    )(i) && correlation_union_at(correlations)(i) == correlation_union_at(others)(i) by {
        assert(views(correlations)[i] == views(others)[i]);
    }
    equal_selections_are_equal(
        correlations.len() as int,
        keep,
        correlation_in_entry(others, b.id@),
        correlation_union_at(correlations),
        correlation_union_at(others),
    );
}

proof fn same_counts(
    a: Seq<(String, u64)>,
    correlations: Seq<ProfileCorrelationRecord>,
    b: Seq<(String, u64)>,
    others: Seq<ProfileCorrelationRecord>,
)
    requires
        counts_statuses(a, correlations),
        counts_statuses(b, others),
        views(correlations) == views(others),
    ensures
        Seq::new(a.len(), |i: int| (a[i].0@, a[i].1)) == Seq::new(b.len(), |i: int| (b[i].0@, b[i].1)),
{
    assert(views(correlations).len() == correlations.len() && views(others).len() == others.len());
    assert forall|i: int| 0 <= i < correlations.len() implies correlations[i].status@ == others[i].status@ by {
        assert(views(correlations)[i] == views(others)[i]);
    }
    assert(statuses_of(correlations) =~= statuses_of(others));
    sorted_set_is_unique(count_keys(a), count_keys(b), statuses_of(correlations) + known_statuses());
    assert(count_keys(a).len() == a.len() && count_keys(b).len() == b.len());
    assert forall|i: int| 0 <= i < a.len() implies a[i].0@ == b[i].0@ && a[i].1 == b[i].1 by {
        assert(count_keys(a)[i] == count_keys(b)[i]);
        let status = a[i].0@;
        let keep = has_status(correlations, status);
        let other = has_status(others, status);
        assert forall|k: int| 0 <= k < correlations.len() implies #[trigger] keep(k) == other(k) by {
        }
        let item = |k: int| k;
        equal_selections_are_equal(correlations.len() as int, keep, other, item, item);
        selections_are_counted(correlations.len() as int, keep, item);
        selections_are_counted(correlations.len() as int, other, item);
    }
    assert(Seq::new(a.len(), |i: int| (a[i].0@, a[i].1)) =~= Seq::new(b.len(), |i: int| (b[i].0@, b[i].1)));
}

/// Graphs with the same profiles, sites and edges, whose evidence holds the same, have
/// matrices that hold the same, however identities are derived and conditions are united.
#[verifier::spinoff_prover]
pub proof fn equal_graphs_have_equal_matrices(
    profiles: Seq<ProfileRecord>,
    sites: Seq<SiteRecord>,
    edges: Seq<EdgeRecord>,
    evidence: Seq<EvidenceRecord>,
    evidence_again: Seq<EvidenceRecord>,
    ids: MatrixIds,
    conflict_id: spec_fn(Seq<char>) -> Seq<char>,
    unite: spec_fn(Seq<JsonModel>) -> JsonModel,
    parts: MatrixParts,
    matrix: ProfileMatrixRecord,
    parts_again: MatrixParts,
    matrix_again: ProfileMatrixRecord,
)
    requires
        evidence_models(evidence) == evidence_models(evidence_again),
        is_matrix_of(profiles, sites, edges, evidence, ids, conflict_id, unite, parts, matrix),
        is_matrix_of(profiles, sites, edges, evidence_again, ids, conflict_id, unite, parts_again, matrix_again),
    ensures
        matrix@ == matrix_again@,
{
    same_facts(profiles, ids.inputs@, sites, edges, evidence, evidence_again);
    let a = parts.draft;
    let b = parts_again.draft;
    correlations_agree(
        profiles,
        sites,
        edges,
        evidence,
        evidence_again,
        ids,
        conflict_id,
        unite,
        parts,
        matrix,
        parts_again,
        matrix_again,
    );
    sorted_set_is_unique(entry_inputs(a.entries@), entry_inputs(b.entries@), texts(ids.inputs@));
    assert(entry_inputs(a.entries@).len() == a.entries@.len() && entry_inputs(b.entries@).len() == b.entries@.len());
    let finished = finished_entries(a.entries@, parts.entry_unions);
    let finished_again = finished_entries(b.entries@, parts_again.entry_unions);
    assert forall|i: int| 0 <= i < a.entries@.len() implies same_entry(#[trigger] a.entries@[i], b.entries@[i])
        && parts.entry_unions[i]@ == parts_again.entry_unions[i]@ by {
        let input = a.entries@[i].effective_input_id@;
        assert(entry_inputs(a.entries@)[i] == entry_inputs(b.entries@)[i]);
        assert(b.entries@[i].effective_input_id@ == input);
        entries_agree(a.entries@[i], b.entries@[i], input, profiles, sites, edges, evidence, evidence_again, ids);
        same_united_conditions(a.entries@[i], parts.correlations, b.entries@[i], parts_again.correlations);
        assert(parts.entry_unions[i]@ == unite(united_conditions(a.entries@[i], parts.correlations)));
        assert(parts_again.entry_unions[i]@ == unite(united_conditions(b.entries@[i], parts_again.correlations)));
    }
    assert(views(finished) =~= views(finished_again)) by {
        assert forall|i: int| 0 <= i < finished.len() implies finished[i]@ == finished_again[i]@ by {
            assert(same_entry(a.entries@[i], b.entries@[i]));
            assert(finished[i]@ =~= finished_again[i]@);
        }
    }
    assert(entry_ids_of(a.entries@) =~= entry_ids_of(b.entries@)) by {
        assert forall|i: int| 0 <= i < a.entries@.len() implies a.entries@[i].id@ == b.entries@[i].id@ by {
            assert(same_entry(a.entries@[i], b.entries@[i]));
        }
    }
    stable_sort_of_views(finished, entry_ids_of(a.entries@), matrix.entries@);
    stable_sort_of_views(finished_again, entry_ids_of(b.entries@), matrix_again.entries@);
    assert(matrix.entries.len() == matrix.entries@.len());
    stable_sorts_agree(
        views(finished),
        entry_ids_of(a.entries@),
        views(matrix.entries@),
        views(matrix_again.entries@),
    );
    assert(correlation_ids_of(parts.correlations) =~= correlation_ids_of(parts_again.correlations)) by {
        assert(views(parts.correlations).len() == parts.correlations.len());
        assert(views(parts_again.correlations).len() == parts_again.correlations.len());
        assert forall|i: int| 0 <= i < parts.correlations.len() implies parts.correlations[i].id@
            == parts_again.correlations[i].id@ by {
            assert(views(parts.correlations)[i] == views(parts_again.correlations)[i]);
        }
    }
    stable_sort_of_views(parts.correlations, correlation_ids_of(parts.correlations), matrix.correlations@);
    stable_sort_of_views(
        parts_again.correlations,
        correlation_ids_of(parts_again.correlations),
        matrix_again.correlations@,
    );
    assert(matrix.correlations.len() == matrix.correlations@.len());
    stable_sorts_agree(
        views(parts.correlations),
        correlation_ids_of(parts.correlations),
        views(matrix.correlations@),
        views(matrix_again.correlations@),
    );
    same_coverage(
        a.phase_coverage@,
        b.phase_coverage@,
        all_facts(profiles, ids.inputs@, sites, edges, evidence),
        None,
    );
    same_counts(
        matrix.difference_counts@,
        matrix.correlations@,
        matrix_again.difference_counts@,
        matrix_again.correlations@,
    );
    assert(matrix@ =~= matrix_again@);
}

proof fn correlations_agree(
    profiles: Seq<ProfileRecord>,
    sites: Seq<SiteRecord>,
    edges: Seq<EdgeRecord>,
    evidence: Seq<EvidenceRecord>,
    evidence_again: Seq<EvidenceRecord>,
    ids: MatrixIds,
    conflict_id: spec_fn(Seq<char>) -> Seq<char>,
    unite: spec_fn(Seq<JsonModel>) -> JsonModel,
    parts: MatrixParts,
    matrix: ProfileMatrixRecord,
    parts_again: MatrixParts,
    matrix_again: ProfileMatrixRecord,
)
    requires
        evidence_models(evidence) == evidence_models(evidence_again),
        is_matrix_of(profiles, sites, edges, evidence, ids, conflict_id, unite, parts, matrix),
        is_matrix_of(profiles, sites, edges, evidence_again, ids, conflict_id, unite, parts_again, matrix_again),
    ensures
        views(parts.correlations) == views(parts_again.correlations),
{
    same_facts(profiles, ids.inputs@, sites, edges, evidence, evidence_again);
    let a = parts.draft.correlations@;
    let b = parts_again.draft.correlations@;
    let keys = texts(ids.correlation_keys@);
    let correlated = correlated_sites_of(profiles, sites, evidence);
    sorted_set_is_unique(draft_ids(a), draft_ids(b), keys);
    assert(draft_ids(a).len() == a.len() && draft_ids(b).len() == b.len());
    assert forall|i: int| 0 <= i < a.len() implies (#[trigger] parts.correlations[i])@ == parts_again.correlations[i]@ by {
        assert(draft_ids(a)[i] == draft_ids(b)[i]);
        let key = a[i].id@;
        assert(is_draft(a[i], key, sites, edges, correlated, keys, ids.entry_ids@));
        assert(is_draft(b[i], b[i].id@, sites, edges, correlated, keys, ids.entry_ids@));
        drafts_agree(a[i], b[i], key, sites, edges, correlated, keys, ids.entry_ids@);
        assert(are_phase_unions(unite, a[i].conditions@, parts.phase_unions[i]));
        assert(are_phase_unions(unite, b[i].conditions@, parts_again.phase_unions[i]));
        same_phase_unions(
            unite,
            a[i].conditions@,
            parts.phase_unions[i],
            b[i].conditions@,
            parts_again.phase_unions[i],
        );
        finished_correlations_agree(
            parts.correlations[i],
            a[i],
            parts.phase_unions[i],
            parts.unions[i],
            parts_again.correlations[i],
            b[i],
            parts_again.phase_unions[i],
            parts_again.unions[i],
            conflict_id(key),
        );
    }
    assert(views(parts.correlations) =~= views(parts_again.correlations));
}

/// Refreshing the view of a profile matrix again changes nothing, with the matrix built from
/// the graph each time: derived diagnostics and their evidence are rebuilt, never accumulated.
pub proof fn rebuilding_the_view_changes_nothing(
    before: GraphSnapshot,
    begun: GraphSnapshot,
    mark: RefreshMark,
    parts: MatrixParts,
    matrix: ProfileMatrixRecord,
    once: GraphSnapshot,
    begun_again: GraphSnapshot,
    mark_again: RefreshMark,
    parts_again: MatrixParts,
    matrix_again: ProfileMatrixRecord,
    twice: GraphSnapshot,
    ids: MatrixIds,
    conflict_id: spec_fn(Seq<char>) -> Seq<char>,
    unite: spec_fn(Seq<JsonModel>) -> JsonModel,
)
    requires
        is_ordered(findings_of(before).evidence),
        is_begun(before, begun, mark),
        is_matrix_of(
            begun.profiles@,
            begun.sites@,
            begun.edges@,
            begun.evidence@,
            ids,
            conflict_id,
            unite,
            parts,
            matrix,
        ),
        has_no_foreign_namesake(begun, matrix),
        is_attached(begun, matrix, mark, true, once),
        is_begun(once, begun_again, mark_again),
        is_matrix_of(
            begun_again.profiles@,
            begun_again.sites@,
            begun_again.edges@,
            begun_again.evidence@,
            ids,
            conflict_id,
            unite,
            parts_again,
            matrix_again,
        ),
        is_attached(begun_again, matrix_again, mark_again, true, twice),
    ensures
        findings_of(twice) == findings_of(once),
        twice.profile_matrix@ == once.profile_matrix@,
        twice == (GraphSnapshot {
            diagnostics: twice.diagnostics,
            evidence: twice.evidence,
            profile_matrix: twice.profile_matrix,
            ..before
        }),
{
    refreshing_keeps_what_the_matrix_is_built_from(before, begun, mark, matrix, once, begun_again, mark_again);
    equal_graphs_have_equal_matrices(
        begun.profiles@,
        begun.sites@,
        begun.edges@,
        begun.evidence@,
        begun_again.evidence@,
        ids,
        conflict_id,
        unite,
        parts,
        matrix,
        parts_again,
        matrix_again,
    );
    refreshing_twice_changes_nothing(
        before,
        begun,
        mark,
        matrix,
        once,
        begun_again,
        mark_again,
        matrix_again,
        twice,
    );
}

} // verus!

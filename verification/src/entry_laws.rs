//! What the entries of a matrix say of their profiles.

use vstd::prelude::*;

use crate::counting::sorted_lists_hold_the_items;
use crate::json::Json;
use crate::matrix_build::{
    axis_models, axis_profiles, conflict_at, correlation_ids_of, entry_ids_of, entry_inputs, finished_entries,
    finished_entry, in_entry_with_conflict, is_entry_draft, is_finished_matrix, is_matrix_draft, names_phase,
    phase_name_at, EntryDraft, MatrixDraft, MatrixIds,
};
use crate::matrix_facts::{
    all_facts, in_scope, is_coverage_by_phase, is_phase_coverage, occurring_phases, occurs, phase_occurs, FactKind,
    FactModel,
};
use crate::order::{
    ascending, collect, collect_holds_the_kept_items, count_of, count_of_none, count_of_nothing, positions_of,
    positions_of_are_ascending_and_complete,
};
use crate::profile_matrix::{
    axis_differences, conflicting_parent, declared_parent, phase_at, phase_name, Phase, PhaseCoverageRecord,
    ProfileCorrelationRecord, ProfileMatrixRecord,
};
use crate::records::{EdgeRecord, EvidenceRecord, ProfileRecord, SiteRecord};
use crate::text::texts;

verus! {

/// Whether a name is that of a phase.
pub open spec fn is_named(phase: Phase, name: Seq<char>) -> bool {
    match phase {
        Phase::Build => name == "build"@,
        Phase::Runtime => name == "runtime"@,
        Phase::Semantic => name == "semantic"@,
        Phase::Static => name == "static"@,
    }
}

proof fn names_tell_phases_apart(a: Phase, b: Phase)
    ensures
        is_named(a, phase_name(a)),
        phase_name(a) == phase_name(b) ==> a == b,
        is_named(a, phase_name(b)) ==> a == b,
{
    reveal_strlit("build");
    reveal_strlit("runtime");
    reveal_strlit("semantic");
    reveal_strlit("static");
    assert("build"@.len() == 5 && "runtime"@.len() == 7 && "semantic"@.len() == 8 && "static"@.len() == 6);
}

proof fn phases_occur_by_their_facts(facts: Seq<FactModel>, scope: Option<Seq<char>>, phase: Phase)
    ensures
        occurs(facts, scope, phase) <==> exists|f: int|
            0 <= f < facts.len() && (#[trigger] facts[f]).phase == phase && (scope is None || facts[f].input == scope),
        occurring_phases(facts, scope).contains(phase) <==> occurs(facts, scope, phase),
{
    let keep = in_scope(facts, scope, phase);
    let count = facts.len() as int;
    if count_of(count, keep) == 0 {
        count_of_none(count, keep);
        assert forall|f: int| 0 <= f < count implies !((#[trigger] facts[f]).phase == phase && (scope is None
            || facts[f].input == scope)) by {
            assert(!keep(f));
        }
    } else {
        if forall|f: int| 0 <= f < count ==> !#[trigger] keep(f) {
            count_of_nothing(count, keep);
        }
        let f = choose|f: int| 0 <= f < count && #[trigger] keep(f);
        assert(facts[f].phase == phase);
    }
    let present = phase_occurs(facts, scope);
    let item = |i: int| phase_at(i);
    collect_holds_the_kept_items(4, present, item, phase);
    let place: int = match phase {
        Phase::Build => 0,
        Phase::Runtime => 1,
        Phase::Semantic => 2,
        Phase::Static => 3,
    };
    assert(item(place) == phase);
    if occurs(facts, scope, phase) {
        assert(present(place));
    }
}

/// Coverage by phase has the phases of the facts in scope, each by its name, and no other; each
/// counts the facts of its phase.
pub proof fn covered_phases_are_those_of_the_facts(
    list: Seq<(String, PhaseCoverageRecord)>,
    facts: Seq<FactModel>,
    scope: Option<Seq<char>>,
    phase: Phase,
    k: int,
)
    requires
        is_coverage_by_phase(list, facts, scope),
    ensures
        (exists|l: int| 0 <= l < list.len() && is_named(phase, (#[trigger] list[l]).0@)) <==> exists|f: int|
            0 <= f < facts.len() && (#[trigger] facts[f]).phase == phase && (scope is None || facts[f].input == scope),
        0 <= k < list.len() && is_named(phase, list[k].0@) ==> is_phase_coverage(list[k].1, facts, scope, phase),
{
    phases_occur_by_their_facts(facts, scope, phase);
    let phases = occurring_phases(facts, scope);
    if exists|l: int| 0 <= l < list.len() && is_named(phase, (#[trigger] list[l]).0@) {
        let l = choose|l: int| 0 <= l < list.len() && is_named(phase, (#[trigger] list[l]).0@);
        names_tell_phases_apart(phase, phases[l]);
        assert(phases.contains(phases[l]));
    }
    if phases.contains(phase) {
        let l = choose|l: int| 0 <= l < phases.len() && phases[l] == phase;
        names_tell_phases_apart(phase, phase);
        assert(is_named(phase, list[l].0@));
    }
    if 0 <= k < list.len() && is_named(phase, list[k].0@) {
        names_tell_phases_apart(phase, phases[k]);
    }
}

/// An entry names the phases of what its profiles, sites and edges say, and covers each phase of
/// its facts.
pub proof fn entries_name_their_phases(
    draft: EntryDraft,
    input: Seq<char>,
    profiles: Seq<ProfileRecord>,
    sites: Seq<SiteRecord>,
    edges: Seq<EdgeRecord>,
    evidence: Seq<EvidenceRecord>,
    inputs: Seq<String>,
    entry_ids: Seq<String>,
    axis_diagnostic_ids: Seq<String>,
    phase: Phase,
    k: int,
)
    requires
        is_entry_draft(draft, input, profiles, sites, edges, evidence, inputs, entry_ids, axis_diagnostic_ids),
    ensures
        ({
            let facts = all_facts(profiles, inputs, sites, edges, evidence);
            &&& (exists|name: Seq<char>| #[trigger] texts(draft.phases@).contains(name) && is_named(phase, name))
                <==> exists|f: int|
                0 <= f < facts.len() && (#[trigger] facts[f]).phase == phase && facts[f].input == Some(input)
                    && facts[f].kind != FactKind::Evidence
            &&& (exists|l: int|
                0 <= l < draft.phase_coverage@.len() && is_named(phase, (#[trigger] draft.phase_coverage@[l]).0@))
                <==> exists|f: int|
                0 <= f < facts.len() && (#[trigger] facts[f]).phase == phase && facts[f].input == Some(input)
            &&& 0 <= k < draft.phase_coverage@.len() && is_named(phase, draft.phase_coverage@[k].0@)
                ==> is_phase_coverage(draft.phase_coverage@[k].1, facts, Some(input), phase)
        }),
{
    let facts = all_facts(profiles, inputs, sites, edges, evidence);
    covered_phases_are_those_of_the_facts(draft.phase_coverage@, facts, Some(input), phase, k);
    if exists|l: int|
        0 <= l < draft.phase_coverage@.len() && is_named(phase, (#[trigger] draft.phase_coverage@[l]).0@) {
        let f = choose|f: int|
            0 <= f < facts.len() && (#[trigger] facts[f]).phase == phase && (Some(input) is None || facts[f].input
                == Some(input));
        assert(facts[f].input == Some(input));
    }
    if exists|f: int| 0 <= f < facts.len() && (#[trigger] facts[f]).phase == phase && facts[f].input == Some(input) {
        let f = choose|f: int|
            0 <= f < facts.len() && (#[trigger] facts[f]).phase == phase && facts[f].input == Some(input);
        assert(facts[f].phase == phase);
    }
    let keep = names_phase(facts, input);
    let item = phase_name_at(facts);
    let count = facts.len() as int;
    if exists|name: Seq<char>| #[trigger] texts(draft.phases@).contains(name) && is_named(phase, name) {
        let name = choose|name: Seq<char>| #[trigger] texts(draft.phases@).contains(name) && is_named(phase, name);
        collect_holds_the_kept_items(count, keep, item, name);
        let f = choose|f: int| 0 <= f < count && #[trigger] keep(f) && item(f) == name;
        names_tell_phases_apart(phase, facts[f].phase);
        assert(facts[f].phase == phase);
    }
    if exists|f: int|
        0 <= f < facts.len() && (#[trigger] facts[f]).phase == phase && facts[f].input == Some(input) && facts[f].kind
            != FactKind::Evidence {
        let f = choose|f: int|
            0 <= f < facts.len() && (#[trigger] facts[f]).phase == phase && facts[f].input == Some(input)
                && facts[f].kind != FactKind::Evidence;
        let name = phase_name(phase);
        names_tell_phases_apart(phase, phase);
        collect_holds_the_kept_items(count, keep, item, name);
        assert(keep(f) && item(f) == name);
        assert(texts(draft.phases@).contains(name));
    }
}

/// An entry has the language of the first profile with its input, and names every profile of its
/// input that departs from its parent, with the parent and the axes on which it does.
pub proof fn entries_name_their_departures(
    draft: EntryDraft,
    input: Seq<char>,
    profiles: Seq<ProfileRecord>,
    sites: Seq<SiteRecord>,
    edges: Seq<EdgeRecord>,
    evidence: Seq<EvidenceRecord>,
    inputs: Seq<String>,
    entry_ids: Seq<String>,
    axis_diagnostic_ids: Seq<String>,
    p: int,
)
    requires
        is_entry_draft(draft, input, profiles, sites, edges, evidence, inputs, entry_ids, axis_diagnostic_ids),
        inputs.len() == profiles.len(),
        draft.axis_conflicts@.len() <= usize::MAX,
        0 <= p < profiles.len(),
        inputs[p]@ == input,
    ensures
        (forall|q: int| 0 <= q < p ==> (#[trigger] inputs[q])@ != input) ==> draft.id@ == entry_ids[p]@
            && draft.language@ == crate::profile_matrix::language_name(profiles[p].language@),
        conflicting_parent(profiles, p) matches Some(parent) ==> exists|c: int|
            0 <= c < draft.axis_conflicts@.len() && (#[trigger] draft.axis_conflicts@[c]).profile_id@
                == profiles[p].id@ && Some(draft.axis_conflicts@[c].parent_profile_id@) == declared_parent(
                profiles[p]@,
            ) && texts(draft.axis_conflicts@[c].fields@) == axis_differences(profiles[p]@, profiles[parent]@)
                && draft.axis_conflicts@[c].diagnostic_id@ == axis_diagnostic_ids[p]@,
{
    let n = profiles.len() as int;
    let all = texts(inputs);
    let positions = positions_of(all, input, n);
    positions_of_are_ascending_and_complete(all, input, n);
    assert(all[p] == input);
    if forall|q: int| 0 <= q < p ==> (#[trigger] inputs[q])@ != input {
        assert(positions.contains(p));
        let k = choose|k: int| 0 <= k < positions.len() && positions[k] == p;
        let first = positions[0];
        assert(all[first] == inputs[first]@);
        if k > 0 {
            assert(positions[0] < positions[k]);
        }
        assert(first == p);
    }
    if let Some(parent) = conflicting_parent(profiles, p) {
        let keep = in_entry_with_conflict(profiles, all, input);
        let item = conflict_at(profiles, axis_diagnostic_ids);
        let conflicts = collect(n, keep, item);
        let shown = axis_models(draft.axis_conflicts@);
        assert(shown.len() == conflicts.len());
        sorted_lists_hold_the_items(conflicts, axis_profiles(conflicts), shown);
        collect_holds_the_kept_items(n, keep, item, item(p));
        assert(keep(p) && item(p) == item(p));
        assert(conflicts.contains(item(p)));
        assert(shown.contains(item(p)));
        let c = choose|c: int| 0 <= c < shown.len() && shown[c] == item(p);
        assert(shown[c] == draft.axis_conflicts@[c]@);
        assert(declared_parent(profiles[p]@) is Some);
        assert(draft.axis_conflicts@[c].profile_id@ == profiles[p].id@);
    }
}

/// A matrix has one entry for each input, ascending, and covers each phase of its facts.
pub proof fn matrices_have_an_entry_for_each_input(
    profiles: Seq<ProfileRecord>,
    sites: Seq<SiteRecord>,
    edges: Seq<EdgeRecord>,
    evidence: Seq<EvidenceRecord>,
    ids: MatrixIds,
    draft: MatrixDraft,
    input: Seq<char>,
    phase: Phase,
)
    requires
        is_matrix_draft(profiles, sites, edges, evidence, ids, draft),
    ensures
        ascending(entry_inputs(draft.entries@)),
        (exists|e: int| 0 <= e < draft.entries@.len() && (#[trigger] draft.entries@[e]).effective_input_id@ == input)
            <==> texts(ids.inputs@).contains(input),
        (exists|l: int|
            0 <= l < draft.phase_coverage@.len() && is_named(phase, (#[trigger] draft.phase_coverage@[l]).0@))
            <==> exists|f: int|
            0 <= f < all_facts(profiles, ids.inputs@, sites, edges, evidence).len() && (#[trigger] all_facts(
                profiles,
                ids.inputs@,
                sites,
                edges,
                evidence,
            )[f]).phase == phase,
{
    let listed = entry_inputs(draft.entries@);
    let facts = all_facts(profiles, ids.inputs@, sites, edges, evidence);
    covered_phases_are_those_of_the_facts(draft.phase_coverage@, facts, None, phase, 0);
    if exists|e: int| 0 <= e < draft.entries@.len() && (#[trigger] draft.entries@[e]).effective_input_id@ == input {
        let e = choose|e: int|
            0 <= e < draft.entries@.len() && (#[trigger] draft.entries@[e]).effective_input_id@ == input;
        assert(listed[e] == input);
        assert(listed.contains(input));
    }
    if texts(ids.inputs@).contains(input) {
        assert(listed.contains(input));
        let e = choose|e: int| 0 <= e < listed.len() && listed[e] == input;
        assert(draft.entries@[e].effective_input_id@ == input);
    }
    if exists|f: int| 0 <= f < facts.len() && (#[trigger] facts[f]).phase == phase {
        let f = choose|f: int| 0 <= f < facts.len() && (#[trigger] facts[f]).phase == phase;
        assert(facts[f].phase == phase);
    }
}

/// A matrix is of its schema and holds every entry that was drafted, with its united condition, every
/// correlation, and the coverage of all profiles.
pub proof fn matrices_hold_what_was_drafted(
    entries: Seq<EntryDraft>,
    unions: Seq<Json>,
    correlations: Seq<ProfileCorrelationRecord>,
    coverage: Vec<(String, PhaseCoverageRecord)>,
    matrix: ProfileMatrixRecord,
    e: int,
    c: int,
)
    requires
        is_finished_matrix(entries, unions, correlations, coverage, matrix),
        entries.len() <= usize::MAX,
        correlations.len() <= usize::MAX,
    ensures
        matrix.schema_version@ == "profile-matrix-v1"@,
        matrix.phase_coverage == coverage,
        matrix.entries@.len() == entries.len(),
        matrix.correlations@.len() == correlations.len(),
        0 <= c < correlations.len() ==> matrix.correlations@.contains(correlations[c]),
        0 <= e < entries.len() ==> exists|k: int|
            0 <= k < matrix.entries@.len() && ({
                let entry = #[trigger] matrix.entries@[k];
                &&& entry.id == entries[e].id
                &&& entry.effective_input_id == entries[e].effective_input_id
                &&& entry.language == entries[e].language
                &&& entry.profile_ids == entries[e].profile_ids
                &&& entry.parent_profile_ids == entries[e].parent_profile_ids
                &&& entry.phases == entries[e].phases
                &&& entry.condition_union == unions[e]
                &&& entry.phase_coverage == entries[e].phase_coverage
                &&& entry.selection_reasons == entries[e].selection_reasons
                &&& entry.axis_conflicts == entries[e].axis_conflicts
            }),
{
    let finished = finished_entries(entries, unions);
    sorted_lists_hold_the_items(finished, entry_ids_of(entries), matrix.entries@);
    sorted_lists_hold_the_items(correlations, correlation_ids_of(correlations), matrix.correlations@);
    if 0 <= c < correlations.len() {
        assert(correlations.contains(correlations[c]));
    }
    if 0 <= e < entries.len() {
        assert(finished.contains(finished[e]));
        assert(matrix.entries@.contains(finished[e]));
        let k = choose|k: int| 0 <= k < matrix.entries@.len() && matrix.entries@[k] == finished[e];
        assert(matrix.entries@[k] == finished_entry(entries[e], unions[e]));
    }
}

} // verus!

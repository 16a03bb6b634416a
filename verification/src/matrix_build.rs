//! The profile matrix from its graph: entries, correlations and totals.
//!
//! Identities and united conditions come from the caller, so the matrix is made in two
//! steps: `draft_profile_matrix` gathers everything that needs neither, and
//! `finish_profile_matrix` puts the matrix together.

use vstd::prelude::*;

use crate::correlation::{
    correlation_drafts, draft_ids, is_draft, json_models, CorrelationDraft,
};
use crate::json::{Json, JsonModel};
use crate::matrix_facts::{
    all_facts, correlated_models, correlated_sites_of, coverage_by_phase, fact_models, input_of, is_coverage_by_phase,
    matrix_facts, CorrelatedModel, CorrelatedSite, Fact, FactKind, FactModel,
};
use crate::order::{
    collect, count_of, count_of_is_bounded, is_sorted_set, is_stable_order, is_stable_sort, positions_of,
    positions_of_are_ascending_and_complete, sorted_set, stable_sort, TextIndex,
};
use crate::profile_matrix::{
    canonical_language, conflicting_parent, declared_parent, declared_parent_profile_id,
    language_name, phase_name, profile_ids_of, profile_index, axis_differences, AxisConflict,
    PhaseCoverageRecord, ProfileAxisConflictRecord, ProfileCorrelationRecord,
    ProfileMatrixEntryRecord, ProfileMatrixRecord, PROFILE_MATRIX_SCHEMA_VERSION,
};
use crate::records::{EdgeRecord, EvidenceRecord, ProfileRecord, SiteRecord};
use crate::text::{copy_texts, texts};

verus! {

/// The identities that the caller derives for a matrix: for each profile its effective
/// input, its effective profile and the diagnostic of its axis conflict; for each
/// correlated site its correlation.
#[derive(Debug)]
pub struct MatrixIds {
    pub inputs: Vec<String>,
    pub entry_ids: Vec<String>,
    pub axis_diagnostic_ids: Vec<String>,
    pub correlation_keys: Vec<String>,
}

/// A matrix entry before its conditions are united.
#[derive(Debug)]
pub struct EntryDraft {
    pub id: String,
    pub effective_input_id: String,
    pub language: String,
    pub profile_ids: Vec<String>,
    pub parent_profile_ids: Vec<String>,
    pub phases: Vec<String>,
    pub conditions: Vec<Json>,
    pub phase_coverage: Vec<(String, PhaseCoverageRecord)>,
    pub selection_reasons: Vec<String>,
    pub axis_conflicts: Vec<ProfileAxisConflictRecord>,
}

/// A matrix before its conditions are united.
#[derive(Debug)]
pub struct MatrixDraft {
    pub entries: Vec<EntryDraft>,
    pub correlations: Vec<CorrelationDraft>,
    pub phase_coverage: Vec<(String, PhaseCoverageRecord)>,
}

/// What an axis conflict holds.
#[verifier::ext_equal]
pub struct AxisModel {
    pub profile_id: Seq<char>,
    pub parent_profile_id: Seq<char>,
    pub fields: Seq<Seq<char>>,
    pub diagnostic_id: Seq<char>,
}

impl View for ProfileAxisConflictRecord {
    type V = AxisModel;

    open spec fn view(&self) -> AxisModel {
        AxisModel {
            profile_id: self.profile_id@,
            parent_profile_id: self.parent_profile_id@,
            fields: texts(self.fields@),
            diagnostic_id: self.diagnostic_id@,
        }
    }
}

/// What axis conflicts hold.
pub open spec fn axis_models(conflicts: Seq<ProfileAxisConflictRecord>) -> Seq<AxisModel> {
    Seq::new(conflicts.len(), |i: int| conflicts[i]@)
}

/// The profiles of axis conflicts.
pub open spec fn axis_profiles(conflicts: Seq<AxisModel>) -> Seq<Seq<char>> {
    Seq::new(conflicts.len(), |i: int| conflicts[i].profile_id)
}

/// Which profiles have an effective input.
pub open spec fn in_entry(inputs: Seq<Seq<char>>, input: Seq<char>) -> spec_fn(int) -> bool {
    |i: int| inputs[i] == input
}

/// The identity of a profile.
pub open spec fn profile_id_at(profiles: Seq<ProfileRecord>) -> spec_fn(int) -> Seq<char> {
    |i: int| profiles[i].id@
}

/// Which profiles with an effective input declare a parent.
pub open spec fn in_entry_with_parent(
    profiles: Seq<ProfileRecord>,
    inputs: Seq<Seq<char>>,
    input: Seq<char>,
) -> spec_fn(int) -> bool {
    |i: int| inputs[i] == input && declared_parent(profiles[i]@) is Some
}

/// The parent that a profile declares.
pub open spec fn parent_at(profiles: Seq<ProfileRecord>) -> spec_fn(int) -> Seq<char> {
    |i: int| declared_parent(profiles[i]@)->0
}

/// Why a profile is in its entry.
pub open spec fn reason_at(profiles: Seq<ProfileRecord>) -> spec_fn(int) -> Seq<char> {
    |i: int|
        if declared_parent(profiles[i]@) is Some {
            "parent-effective-input"@
        } else {
            "direct-effective-input"@
        }
}

/// Which profiles with an effective input conflict with their parent.
pub open spec fn in_entry_with_conflict(
    profiles: Seq<ProfileRecord>,
    inputs: Seq<Seq<char>>,
    input: Seq<char>,
) -> spec_fn(int) -> bool {
    |i: int| inputs[i] == input && conflicting_parent(profiles, i) is Some
}

/// The conflict of a profile with its parent.
pub open spec fn conflict_at(profiles: Seq<ProfileRecord>, diagnostic_ids: Seq<String>) -> spec_fn(int) -> AxisModel {
    |i: int|
        AxisModel {
            profile_id: profiles[i].id@,
            parent_profile_id: declared_parent(profiles[i]@)->0,
            fields: axis_differences(profiles[i]@, profiles[conflicting_parent(profiles, i)->0]@),
            diagnostic_id: diagnostic_ids[i]@,
        }
}

/// Which facts name a phase of an entry: all but evidence.
pub open spec fn names_phase(facts: Seq<FactModel>, input: Seq<char>) -> spec_fn(int) -> bool {
    |i: int| facts[i].input == Some(input) && facts[i].kind != FactKind::Evidence
}

/// The name of a fact's phase.
pub open spec fn phase_name_at(facts: Seq<FactModel>) -> spec_fn(int) -> Seq<char> {
    |i: int| phase_name(facts[i].phase)
}

/// Which correlated sites belong to an entry.
pub open spec fn site_in_entry(
    inputs: Seq<Seq<char>>,
    correlated: Seq<CorrelatedModel>,
    input: Seq<char>,
) -> spec_fn(int) -> bool {
    |i: int| inputs[correlated[i].profile] == input
}

/// The condition of a correlated site.
pub open spec fn site_condition_at(
    sites: Seq<SiteRecord>,
    correlated: Seq<CorrelatedModel>,
) -> spec_fn(int) -> JsonModel {
    |i: int| sites[correlated[i].site].condition@
}

/// Which edges belong to an entry.
pub open spec fn edge_in_entry(
    profiles: Seq<ProfileRecord>,
    inputs: Seq<String>,
    edges: Seq<EdgeRecord>,
    input: Seq<char>,
) -> spec_fn(int) -> bool {
    |i: int| input_of(profiles, inputs, edges[i].profile_id@) == Some(input)
}

/// The condition of an edge.
pub open spec fn edge_condition_at(edges: Seq<EdgeRecord>) -> spec_fn(int) -> JsonModel {
    |i: int| edges[i].condition@
}

/// Whether a draft gathers the profiles with the given effective input.
pub open spec fn is_entry_draft(
    draft: EntryDraft,
    input: Seq<char>,
    profiles: Seq<ProfileRecord>,
    sites: Seq<SiteRecord>,
    edges: Seq<EdgeRecord>,
    evidence: Seq<EvidenceRecord>,
    inputs: Seq<String>,
    entry_ids: Seq<String>,
    axis_diagnostic_ids: Seq<String>,
) -> bool {
    let n = profiles.len() as int;
    let input_texts = texts(inputs);
    let first = positions_of(input_texts, input, n)[0];
    let facts = all_facts(profiles, inputs, sites, edges, evidence);
    let correlated = correlated_sites_of(profiles, sites, evidence);
    let conflicts = collect(
        n,
        in_entry_with_conflict(profiles, input_texts, input),
        conflict_at(profiles, axis_diagnostic_ids),
    );
    &&& draft.effective_input_id@ == input
    &&& positions_of(input_texts, input, n).len() > 0
    &&& draft.id@ == entry_ids[first]@
    &&& draft.language@ == language_name(profiles[first].language@)
    &&& is_sorted_set(
        texts(draft.profile_ids@),
        collect(n, in_entry(input_texts, input), profile_id_at(profiles)),
    )
    &&& is_sorted_set(
        texts(draft.parent_profile_ids@),
        collect(n, in_entry_with_parent(profiles, input_texts, input), parent_at(profiles)),
    )
    &&& is_sorted_set(
        texts(draft.selection_reasons@),
        collect(n, in_entry(input_texts, input), reason_at(profiles)),
    )
    &&& is_sorted_set(
        texts(draft.phases@),
        collect(facts.len() as int, names_phase(facts, input), phase_name_at(facts)),
    )
    &&& is_coverage_by_phase(draft.phase_coverage@, facts, Some(input))
    &&& json_models(draft.conditions@) == collect(
        correlated.len() as int,
        site_in_entry(input_texts, correlated, input),
        site_condition_at(sites, correlated),
    ) + collect(edges.len() as int, edge_in_entry(profiles, inputs, edges, input), edge_condition_at(edges))
    &&& is_stable_sort(conflicts, axis_profiles(conflicts), axis_models(draft.axis_conflicts@))
}

/// The effective inputs of entries.
pub open spec fn entry_inputs(entries: Seq<EntryDraft>) -> Seq<Seq<char>> {
    Seq::new(entries.len(), |i: int| entries[i].effective_input_id@)
}

proof fn stable_sort_of_models(
    items: Seq<ProfileAxisConflictRecord>,
    keys: Seq<Seq<char>>,
    sorted: Seq<ProfileAxisConflictRecord>,
)
    requires
        is_stable_sort(items, keys, sorted),
        keys.len() == items.len(),
    ensures
        is_stable_sort(axis_models(items), keys, axis_models(sorted)),
{
    let order = choose|order: Seq<usize>| #[trigger]
        is_stable_order(keys, order) && sorted == Seq::new(order.len(), |i: int| items[order[i] as int]);
    assert(axis_models(sorted) =~= Seq::new(order.len(), |i: int| axis_models(items)[order[i] as int]));
}

/// The conflicts of the profiles with an effective input, by profile.
fn conflicts_of_entry(
    profiles: &Vec<ProfileRecord>,
    inputs: &Vec<String>,
    conflicts: &Vec<Option<AxisConflict>>,
    axis_diagnostic_ids: &Vec<String>,
    input: &String,
) -> (result: Vec<ProfileAxisConflictRecord>)
    requires
        inputs.len() == profiles.len(),
        conflicts.len() == profiles.len(),
        axis_diagnostic_ids.len() == profiles.len(),
        forall|i: int|
            0 <= i < profiles.len() ==> match (#[trigger] conflicts@[i]) {
                Some(conflict) => conflicting_parent(profiles@, i) matches Some(j) && {
                    &&& conflict.profile_id@ == profiles@[i].id@
                    &&& Some(conflict.parent_profile_id@) == declared_parent(profiles@[i]@)
                    &&& texts(conflict.fields@) == axis_differences(profiles@[i]@, profiles@[j]@)
                },
                None => conflicting_parent(profiles@, i) is None,
            },
    ensures
        ({
            let expected = collect(
                profiles@.len() as int,
                in_entry_with_conflict(profiles@, texts(inputs@), input@),
                conflict_at(profiles@, axis_diagnostic_ids@),
            );
            is_stable_sort(expected, axis_profiles(expected), axis_models(result@))
        }),
{
    let ghost keep = in_entry_with_conflict(profiles@, texts(inputs@), input@);
    let ghost item = conflict_at(profiles@, axis_diagnostic_ids@);
    let mut found: Vec<ProfileAxisConflictRecord> = Vec::new();
    let mut keys: Vec<String> = Vec::new();
    let mut i: usize = 0;
    assert(axis_models(found@) =~= collect(0, keep, item));
    while i < profiles.len()
        invariant
            i <= profiles.len(),
            inputs.len() == profiles.len(),
            conflicts.len() == profiles.len(),
            axis_diagnostic_ids.len() == profiles.len(),
            forall|i: int|
                0 <= i < profiles.len() ==> match (#[trigger] conflicts@[i]) {
                    Some(conflict) => conflicting_parent(profiles@, i) matches Some(j) && {
                        &&& conflict.profile_id@ == profiles@[i].id@
                        &&& Some(conflict.parent_profile_id@) == declared_parent(profiles@[i]@)
                        &&& texts(conflict.fields@) == axis_differences(profiles@[i]@, profiles@[j]@)
                    },
                    None => conflicting_parent(profiles@, i) is None,
                },
            keep == in_entry_with_conflict(profiles@, texts(inputs@), input@),
            item == conflict_at(profiles@, axis_diagnostic_ids@),
            axis_models(found@) == collect(i as int, keep, item),
            keys.len() == found.len(),
            forall|k: int| 0 <= k < found.len() ==> (#[trigger] keys@[k])@ == found@[k].profile_id@,
        decreases profiles.len() - i,
    {
        assert(texts(inputs@)[i as int] == inputs@[i as int]@);
        if inputs[i] == *input {
            match &conflicts[i] {
                Some(conflict) => {
                    let record = ProfileAxisConflictRecord {
                        profile_id: conflict.profile_id.clone(),
                        parent_profile_id: conflict.parent_profile_id.clone(),
                        fields: copy_texts(&conflict.fields),
                        diagnostic_id: axis_diagnostic_ids[i].clone(),
                    };
                    assert(record@ =~= item(i as int));
                    let ghost earlier = axis_models(found@);
                    keys.push(record.profile_id.clone());
                    found.push(record);
                    assert(axis_models(found@) =~= earlier.push(record@));
                },
                None => {},
            }
        }
        i = i + 1;
    }
    let ghost source = found@;
    assert(texts(keys@) =~= axis_profiles(axis_models(source)));
    let sorted = stable_sort(found, &keys);
    proof {
        stable_sort_of_models(source, texts(keys@), sorted@);
    }
    sorted
}

/// The conditions of an entry's sites and edges.
fn conditions_of_entry(
    profiles: &Vec<ProfileRecord>,
    index: &TextIndex,
    sites: &Vec<SiteRecord>,
    edges: &Vec<EdgeRecord>,
    correlated: &Vec<CorrelatedSite>,
    inputs: &Vec<String>,
    input: &String,
) -> (result: Vec<Json>)
    requires
        inputs.len() == profiles.len(),
        index.keys() == profile_ids_of(profiles@),
        forall|i: int|
            0 <= i < correlated.len() ==> (#[trigger] correlated@[i]).site < sites.len()
                && correlated@[i].profile < profiles.len(),
    ensures
        json_models(result@) == collect(
            correlated.len() as int,
            site_in_entry(texts(inputs@), correlated_models(correlated@), input@),
            site_condition_at(sites@, correlated_models(correlated@)),
        ) + collect(edges.len() as int, edge_in_entry(profiles@, inputs@, edges@, input@), edge_condition_at(edges@)),
{
    let ghost models = correlated_models(correlated@);
    let ghost keep = site_in_entry(texts(inputs@), models, input@);
    let ghost item = site_condition_at(sites@, models);
    let mut result: Vec<Json> = Vec::new();
    let mut i: usize = 0;
    assert(json_models(result@) =~= collect(0, keep, item));
    while i < correlated.len()
        invariant
            i <= correlated.len(),
            inputs.len() == profiles.len(),
            models == correlated_models(correlated@),
            keep == site_in_entry(texts(inputs@), models, input@),
            item == site_condition_at(sites@, models),
            forall|i: int|
                0 <= i < correlated.len() ==> (#[trigger] correlated@[i]).site < sites.len()
                    && correlated@[i].profile < profiles.len(),
            json_models(result@) == collect(i as int, keep, item),
        decreases correlated.len() - i,
    {
        let entry = correlated[i];
        assert(models[i as int] == entry@);
        assert(texts(inputs@)[entry.profile as int] == inputs@[entry.profile as int]@);
        if inputs[entry.profile] == *input {
            let copy = sites[entry.site].condition.copy();
            let ghost earlier = json_models(result@);
            result.push(copy);
            assert(json_models(result@) =~= earlier.push(copy@));
        }
        i = i + 1;
    }
    let ghost first = json_models(result@);
    let ghost keep = edge_in_entry(profiles@, inputs@, edges@, input@);
    let ghost item = edge_condition_at(edges@);
    let mut i: usize = 0;
    assert(first =~= first + collect(0, keep, item));
    while i < edges.len()
        invariant
            i <= edges.len(),
            inputs.len() == profiles.len(),
            index.keys() == profile_ids_of(profiles@),
            keep == edge_in_entry(profiles@, inputs@, edges@, input@),
            item == edge_condition_at(edges@),
            json_models(result@) == first + collect(i as int, keep, item),
        decreases edges.len() - i,
    {
        let belongs: bool = match index.last(edges[i].profile_id.as_str()) {
            Some(p) => inputs[p] == *input,
            None => false,
        };
        if belongs {
            let copy = edges[i].condition.copy();
            let ghost earlier = json_models(result@);
            result.push(copy);
            assert(json_models(result@) =~= earlier.push(copy@));
            assert(json_models(result@) =~= first + collect(i + 1, keep, item));
        }
        i = i + 1;
    }
    result
}

/// The names of the phases of an entry.
fn phases_of_entry(facts: &Vec<Fact>, input: &String) -> (result: Vec<String>)
    ensures
        is_sorted_set(
            texts(result@),
            collect(
                facts.len() as int,
                names_phase(fact_models(facts@), input@),
                phase_name_at(fact_models(facts@)),
            ),
        ),
{
    let ghost f = fact_models(facts@);
    let ghost keep = names_phase(f, input@);
    let ghost item = phase_name_at(f);
    let mut names: Vec<String> = Vec::new();
    let mut i: usize = 0;
    assert(texts(names@) =~= collect(0, keep, item));
    while i < facts.len()
        invariant
            i <= facts.len(),
            f == fact_models(facts@),
            keep == names_phase(f, input@),
            item == phase_name_at(f),
            texts(names@) == collect(i as int, keep, item),
        decreases facts.len() - i,
    {
        assert(f[i as int] == facts@[i as int]@);
        let belongs: bool = match &facts[i].input {
            Some(own) => *own == *input,
            None => false,
        };
        if belongs && facts[i].kind != FactKind::Evidence {
            let ghost earlier = texts(names@);
            names.push(String::from_str(facts[i].phase.name()));
            assert(texts(names@) =~= earlier.push(phase_name(f[i as int].phase)));
        }
        i = i + 1;
    }
    sorted_set(names)
}

/// Gathers the profiles into entries, ascending by effective input.
fn entry_drafts(
    profiles: &Vec<ProfileRecord>,
    sites: &Vec<SiteRecord>,
    edges: &Vec<EdgeRecord>,
    evidence: &Vec<EvidenceRecord>,
    correlated: &Vec<CorrelatedSite>,
    facts: &Vec<Fact>,
    conflicts: &Vec<Option<AxisConflict>>,
    ids: &MatrixIds,
) -> (result: Vec<EntryDraft>)
    requires
        ids.inputs.len() == profiles.len(),
        ids.entry_ids.len() == profiles.len(),
        ids.axis_diagnostic_ids.len() == profiles.len(),
        conflicts.len() == profiles.len(),
        fact_models(facts@) == all_facts(profiles@, ids.inputs@, sites@, edges@, evidence@),
        correlated_models(correlated@) == correlated_sites_of(profiles@, sites@, evidence@),
        forall|i: int|
            0 <= i < correlated.len() ==> (#[trigger] correlated@[i]).site < sites.len()
                && correlated@[i].profile < profiles.len(),
        forall|i: int|
            0 <= i < profiles.len() ==> match (#[trigger] conflicts@[i]) {
                Some(conflict) => conflicting_parent(profiles@, i) matches Some(j) && {
                    &&& conflict.profile_id@ == profiles@[i].id@
                    &&& Some(conflict.parent_profile_id@) == declared_parent(profiles@[i]@)
                    &&& texts(conflict.fields@) == axis_differences(profiles@[i]@, profiles@[j]@)
                },
                None => conflicting_parent(profiles@, i) is None,
            },
    ensures
        is_sorted_set(entry_inputs(result@), texts(ids.inputs@)),
        forall|i: int|
            0 <= i < result.len() ==> is_entry_draft(
                #[trigger] result@[i],
                result@[i].effective_input_id@,
                profiles@,
                sites@,
                edges@,
                evidence@,
                ids.inputs@,
                ids.entry_ids@,
                ids.axis_diagnostic_ids@,
            ),
{
    let ghost n = profiles@.len() as int;
    let ghost input_texts = texts(ids.inputs@);
    let index = profile_index(profiles);
    let input_index = TextIndex::new(copy_texts(&ids.inputs));
    let distinct = input_index.distinct();
    let mut result: Vec<EntryDraft> = Vec::new();
    let mut d: usize = 0;
    while d < distinct.len()
        invariant
            d <= distinct.len(),
            result.len() == d,
            n == profiles@.len(),
            input_texts == texts(ids.inputs@),
            input_index.keys() == input_texts,
            index.keys() == profile_ids_of(profiles@),
            is_sorted_set(texts(distinct@), input_texts),
            ids.inputs.len() == profiles.len(),
            ids.entry_ids.len() == profiles.len(),
            ids.axis_diagnostic_ids.len() == profiles.len(),
            conflicts.len() == profiles.len(),
            fact_models(facts@) == all_facts(profiles@, ids.inputs@, sites@, edges@, evidence@),
            correlated_models(correlated@) == correlated_sites_of(profiles@, sites@, evidence@),
            forall|i: int|
                0 <= i < correlated.len() ==> (#[trigger] correlated@[i]).site < sites.len()
                    && correlated@[i].profile < profiles.len(),
            forall|i: int|
                0 <= i < profiles.len() ==> match (#[trigger] conflicts@[i]) {
                    Some(conflict) => conflicting_parent(profiles@, i) matches Some(j) && {
                        &&& conflict.profile_id@ == profiles@[i].id@
                        &&& Some(conflict.parent_profile_id@) == declared_parent(profiles@[i]@)
                        &&& texts(conflict.fields@) == axis_differences(profiles@[i]@, profiles@[j]@)
                    },
                    None => conflicting_parent(profiles@, i) is None,
                },
            forall|i: int| 0 <= i < d ==> (#[trigger] result@[i]).effective_input_id@ == distinct@[i]@,
            forall|i: int|
                0 <= i < d ==> is_entry_draft(
                    #[trigger] result@[i],
                    result@[i].effective_input_id@,
                    profiles@,
                    sites@,
                    edges@,
                    evidence@,
                    ids.inputs@,
                    ids.entry_ids@,
                    ids.axis_diagnostic_ids@,
                ),
        decreases distinct.len() - d,
    {
        let input = &distinct[d];
        let found = input_index.positions(input.as_str());
        let ghost members = positions_of(input_texts, input@, n);
        proof {
            let listed = Seq::new(found@.len(), |i: int| found@[i] as int);
            assert(listed == members);
            assert(texts(distinct@)[d as int] == input@);
            assert(texts(distinct@).contains(input@));
            assert(input_texts.contains(input@));
            positions_of_are_ascending_and_complete(input_texts, input@, n);
            let p = choose|p: int| 0 <= p < input_texts.len() && input_texts[p] == input@;
            assert(members.contains(p));
            assert(members[0] == listed[0]);
        }
        let ghost keep = in_entry(input_texts, input@);
        let ghost keep_parent = in_entry_with_parent(profiles@, input_texts, input@);
        let mut profile_ids: Vec<String> = Vec::new();
        let mut parent_ids: Vec<String> = Vec::new();
        let mut reasons: Vec<String> = Vec::new();
        let mut i: usize = 0;
        assert(texts(profile_ids@) =~= Seq::empty());
        assert(texts(parent_ids@) =~= Seq::empty());
        assert(texts(reasons@) =~= Seq::empty());
        while i < profiles.len()
            invariant
                i <= profiles.len(),
                ids.inputs.len() == profiles.len(),
                input_texts == texts(ids.inputs@),
                keep == in_entry(input_texts, input@),
                keep_parent == in_entry_with_parent(profiles@, input_texts, input@),
                texts(profile_ids@) == collect(i as int, keep, profile_id_at(profiles@)),
                texts(parent_ids@) == collect(i as int, keep_parent, parent_at(profiles@)),
                texts(reasons@) == collect(i as int, keep, reason_at(profiles@)),
            decreases profiles.len() - i,
        {
            assert(input_texts[i as int] == ids.inputs@[i as int]@);
            if ids.inputs[i] == *input {
                let ghost earlier = texts(profile_ids@);
                profile_ids.push(profiles[i].id.clone());
                assert(texts(profile_ids@) =~= earlier.push(profiles@[i as int].id@));
                let ghost earlier_reasons = texts(reasons@);
                match declared_parent_profile_id(&profiles[i]) {
                    Some(parent) => {
                        let ghost earlier_parents = texts(parent_ids@);
                        parent_ids.push(String::from_str(parent));
                        assert(texts(parent_ids@) =~= earlier_parents.push(parent@));
                        reasons.push(String::from_str("parent-effective-input"));
                        assert(texts(reasons@) =~= earlier_reasons.push("parent-effective-input"@));
                    },
                    None => {
                        reasons.push(String::from_str("direct-effective-input"));
                        assert(texts(reasons@) =~= earlier_reasons.push("direct-effective-input"@));
                    },
                }
            }
            i = i + 1;
        }
        let first: usize = found[0];
        let draft = EntryDraft {
            id: ids.entry_ids[first].clone(),
            effective_input_id: input.clone(),
            language: String::from_str(canonical_language(profiles[first].language.as_str())),
            profile_ids: sorted_set(profile_ids),
            parent_profile_ids: sorted_set(parent_ids),
            phases: phases_of_entry(facts, input),
            conditions: conditions_of_entry(profiles, &index, sites, edges, correlated, &ids.inputs, input),
            phase_coverage: coverage_by_phase(facts, Some(input.as_str())),
            selection_reasons: sorted_set(reasons),
            axis_conflicts: conflicts_of_entry(profiles, &ids.inputs, conflicts, &ids.axis_diagnostic_ids, input),
        };
        assert(is_entry_draft(
            draft,
            draft.effective_input_id@,
            profiles@,
            sites@,
            edges@,
            evidence@,
            ids.inputs@,
            ids.entry_ids@,
            ids.axis_diagnostic_ids@,
        ));
        result.push(draft);
        d = d + 1;
    }
    assert(entry_inputs(result@) =~= texts(distinct@));
    result
}

/// Whether a draft gathers a graph into the entries and correlations of its matrix, ascending
/// by effective input and by correlation key, with the coverage of all profiles together.
pub open spec fn is_matrix_draft(
    profiles: Seq<ProfileRecord>,
    sites: Seq<SiteRecord>,
    edges: Seq<EdgeRecord>,
    evidence: Seq<EvidenceRecord>,
    ids: MatrixIds,
    draft: MatrixDraft,
) -> bool {
    &&& is_sorted_set(entry_inputs(draft.entries@), texts(ids.inputs@))
    &&& forall|i: int|
        0 <= i < draft.entries@.len() ==> is_entry_draft(
            #[trigger] draft.entries@[i],
            draft.entries@[i].effective_input_id@,
            profiles,
            sites,
            edges,
            evidence,
            ids.inputs@,
            ids.entry_ids@,
            ids.axis_diagnostic_ids@,
        )
    &&& is_sorted_set(draft_ids(draft.correlations@), texts(ids.correlation_keys@))
    &&& forall|i: int|
        0 <= i < draft.correlations@.len() ==> is_draft(
            #[trigger] draft.correlations@[i],
            draft.correlations@[i].id@,
            sites,
            edges,
            correlated_sites_of(profiles, sites, evidence),
            texts(ids.correlation_keys@),
            ids.entry_ids@,
        )
    &&& is_coverage_by_phase(
        draft.phase_coverage@,
        all_facts(profiles, ids.inputs@, sites, edges, evidence),
        None,
    )
}

/// Gathers a graph into the entries and correlations of its matrix, ascending by
/// effective input and by correlation key, with the coverage of all profiles together.
pub fn draft_profile_matrix(
    profiles: &Vec<ProfileRecord>,
    sites: &Vec<SiteRecord>,
    edges: &Vec<EdgeRecord>,
    evidence: &Vec<EvidenceRecord>,
    ids: &MatrixIds,
) -> (result: MatrixDraft)
    requires
        ids.inputs.len() == profiles.len(),
        ids.entry_ids.len() == profiles.len(),
        ids.axis_diagnostic_ids.len() == profiles.len(),
        ids.correlation_keys.len() == correlated_sites_of(profiles@, sites@, evidence@).len(),
    ensures
        is_matrix_draft(profiles@, sites@, edges@, evidence@, *ids, result),
{
    let correlated = crate::matrix_facts::correlated_sites(profiles, sites, evidence);
    let facts = matrix_facts(profiles, &ids.inputs, sites, edges, evidence, &correlated);
    let conflicts = crate::profile_matrix::axis_conflicts(profiles);
    assert(correlated_models(correlated@).len() == correlated@.len());
    MatrixDraft {
        entries: entry_drafts(profiles, sites, edges, evidence, &correlated, &facts, &conflicts, ids),
        correlations: correlation_drafts(sites, edges, &correlated, &ids.correlation_keys, &ids.entry_ids),
        phase_coverage: coverage_by_phase(&facts, None),
    }
}

// ---------------------------------------------------------------------------------------
// Putting the matrix together
// ---------------------------------------------------------------------------------------

/// Which correlations belong to an effective profile.
pub open spec fn correlation_in_entry(
    correlations: Seq<ProfileCorrelationRecord>,
    id: Seq<char>,
) -> spec_fn(int) -> bool {
    |i: int| correlations[i].effective_profile_id@ == id
}

/// The united condition of a correlation.
pub open spec fn correlation_union_at(correlations: Seq<ProfileCorrelationRecord>) -> spec_fn(int) -> JsonModel {
    |i: int| correlations[i].condition_union@
}

/// The conditions that are united for an entry: those of its correlations, or its own
/// where it has no correlation.
pub open spec fn united_conditions(entry: EntryDraft, correlations: Seq<ProfileCorrelationRecord>) -> Seq<JsonModel> {
    let found = collect(
        correlations.len() as int,
        correlation_in_entry(correlations, entry.id@),
        correlation_union_at(correlations),
    );
    if found.len() > 0 {
        found
    } else {
        json_models(entry.conditions@)
    }
}

/// The conditions that are united for an entry: those of its correlations, or its own
/// where it has no correlation.
pub fn entry_conditions(
    entry: &EntryDraft,
    correlations: &Vec<ProfileCorrelationRecord>,
) -> (result: Vec<Json>)
    ensures
        json_models(result@) == united_conditions(*entry, correlations@),
{
    let ghost keep = correlation_in_entry(correlations@, entry.id@);
    let ghost item = correlation_union_at(correlations@);
    let mut result: Vec<Json> = Vec::new();
    let mut i: usize = 0;
    assert(json_models(result@) =~= collect(0, keep, item));
    while i < correlations.len()
        invariant
            i <= correlations.len(),
            keep == correlation_in_entry(correlations@, entry.id@),
            item == correlation_union_at(correlations@),
            json_models(result@) == collect(i as int, keep, item),
        decreases correlations.len() - i,
    {
        if correlations[i].effective_profile_id == entry.id {
            let copy = correlations[i].condition_union.copy();
            let ghost earlier = json_models(result@);
            result.push(copy);
            assert(json_models(result@) =~= earlier.push(copy@));
        }
        i = i + 1;
    }
    assert(json_models(result@).len() == result@.len());
    if result.len() > 0 {
        return result;
    }
    let mut copies: Vec<Json> = Vec::new();
    let mut i: usize = 0;
    while i < entry.conditions.len()
        invariant
            i <= entry.conditions.len(),
            copies.len() == i,
            forall|k: int| 0 <= k < i ==> (#[trigger] copies@[k])@ == entry.conditions@[k]@,
        decreases entry.conditions.len() - i,
    {
        copies.push(entry.conditions[i].copy());
        i = i + 1;
    }
    assert(json_models(copies@) =~= json_models(entry.conditions@));
    copies
}

/// An entry with its united condition.
pub open spec fn finished_entry(draft: EntryDraft, union: Json) -> ProfileMatrixEntryRecord {
    ProfileMatrixEntryRecord {
        id: draft.id,
        effective_input_id: draft.effective_input_id,
        language: draft.language,
        profile_ids: draft.profile_ids,
        parent_profile_ids: draft.parent_profile_ids,
        phases: draft.phases,
        condition_union: union,
        phase_coverage: draft.phase_coverage,
        selection_reasons: draft.selection_reasons,
        axis_conflicts: draft.axis_conflicts,
    }
}

/// Entries with their united conditions.
pub open spec fn finished_entries(drafts: Seq<EntryDraft>, unions: Seq<Json>) -> Seq<ProfileMatrixEntryRecord> {
    Seq::new(drafts.len(), |i: int| finished_entry(drafts[i], unions[i]))
}

/// The identities of entries.
pub open spec fn entry_ids_of(drafts: Seq<EntryDraft>) -> Seq<Seq<char>> {
    Seq::new(drafts.len(), |i: int| drafts[i].id@)
}

/// The identities of correlations.
pub open spec fn correlation_ids_of(correlations: Seq<ProfileCorrelationRecord>) -> Seq<Seq<char>> {
    Seq::new(correlations.len(), |i: int| correlations[i].id@)
}

/// The statuses of correlations.
pub open spec fn statuses_of(correlations: Seq<ProfileCorrelationRecord>) -> Seq<Seq<char>> {
    Seq::new(correlations.len(), |i: int| correlations[i].status@)
}

/// Which correlations have a status.
pub open spec fn has_status(correlations: Seq<ProfileCorrelationRecord>, status: Seq<char>) -> spec_fn(int) -> bool {
    |i: int| correlations[i].status@ == status
}

/// The statuses that are always counted.
pub open spec fn known_statuses() -> Seq<Seq<char>> {
    seq!["matched"@, "additional"@, "conflict"@, "unobserved"@]
}

/// The keys of a list of counts.
pub open spec fn count_keys(counts: Seq<(String, u64)>) -> Seq<Seq<char>> {
    Seq::new(counts.len(), |i: int| counts[i].0@)
}

/// Whether counts give the number of correlations of each status, the known statuses
/// included, ascending by status.
pub open spec fn counts_statuses(
    counts: Seq<(String, u64)>,
    correlations: Seq<ProfileCorrelationRecord>,
) -> bool {
    &&& is_sorted_set(count_keys(counts), statuses_of(correlations) + known_statuses())
    &&& forall|i: int|
        0 <= i < counts.len() ==> (#[trigger] counts[i]).1 == count_of(
            correlations.len() as int,
            has_status(correlations, counts[i].0@),
        )
}

/// The number of correlations of each status.
pub fn difference_counts(correlations: &Vec<ProfileCorrelationRecord>) -> (result: Vec<(String, u64)>)
    ensures
        counts_statuses(result@, correlations@),
{
    let mut statuses: Vec<String> = Vec::new();
    let mut i: usize = 0;
    while i < correlations.len()
        invariant
            i <= correlations.len(),
            statuses.len() == i,
            forall|k: int| 0 <= k < i ==> (#[trigger] statuses@[k])@ == correlations@[k].status@,
        decreases correlations.len() - i,
    {
        statuses.push(correlations[i].status.clone());
        i = i + 1;
    }
    statuses.push(String::from_str("matched"));
    statuses.push(String::from_str("additional"));
    statuses.push(String::from_str("conflict"));
    statuses.push(String::from_str("unobserved"));
    assert(texts(statuses@) =~= statuses_of(correlations@) + known_statuses());
    let names = sorted_set(statuses);
    let mut result: Vec<(String, u64)> = Vec::new();
    let mut n: usize = 0;
    while n < names.len()
        invariant
            n <= names.len(),
            result.len() == n,
            forall|k: int| 0 <= k < n ==> (#[trigger] result@[k]).0@ == names@[k]@,
            forall|k: int|
                0 <= k < n ==> (#[trigger] result@[k]).1 == count_of(
                    correlations@.len() as int,
                    has_status(correlations@, result@[k].0@),
                ),
        decreases names.len() - n,
    {
        let ghost keep = has_status(correlations@, names@[n as int]@);
        let mut count: u64 = 0;
        let mut i: usize = 0;
        while i < correlations.len()
            invariant
                i <= correlations.len(),
                n < names.len(),
                keep == has_status(correlations@, names@[n as int]@),
                count == count_of(i as int, keep),
            decreases correlations.len() - i,
        {
            proof {
                count_of_is_bounded(i as int, keep);
            }
            if correlations[i].status == names[n] {
                count = count + 1;
            }
            i = i + 1;
        }
        result.push((names[n].clone(), count));
        n = n + 1;
    }
    assert(count_keys(result@) =~= texts(names@));
    result
}

/// Whether a matrix is put together from its entries and correlations. `entry_unions` holds
/// the united condition of each entry.
pub open spec fn is_finished_matrix(
    entries: Seq<EntryDraft>,
    entry_unions: Seq<Json>,
    correlations: Seq<ProfileCorrelationRecord>,
    phase_coverage: Vec<(String, PhaseCoverageRecord)>,
    matrix: ProfileMatrixRecord,
) -> bool {
    &&& matrix.schema_version@ == PROFILE_MATRIX_SCHEMA_VERSION@
    &&& is_stable_sort(finished_entries(entries, entry_unions), entry_ids_of(entries), matrix.entries@)
    &&& is_stable_sort(correlations, correlation_ids_of(correlations), matrix.correlations@)
    &&& matrix.phase_coverage == phase_coverage
    &&& counts_statuses(matrix.difference_counts@, matrix.correlations@)
}

/// Puts the matrix together: entries and correlations stably by identity, the coverage of
/// all profiles and the number of correlations of each status. `entry_unions` holds the
/// united condition of each entry.
pub fn finish_profile_matrix(
    entries: Vec<EntryDraft>,
    entry_unions: Vec<Json>,
    correlations: Vec<ProfileCorrelationRecord>,
    phase_coverage: Vec<(String, PhaseCoverageRecord)>,
) -> (result: ProfileMatrixRecord)
    requires
        entry_unions.len() == entries.len(),
    ensures
        is_finished_matrix(entries@, entry_unions@, correlations@, phase_coverage, result),
{
    let ghost draft_source = entries@;
    let ghost union_source = entry_unions@;
    let mut entry_keys: Vec<String> = Vec::new();
    let mut finished: Vec<ProfileMatrixEntryRecord> = Vec::new();
    let mut unions: Vec<Option<Json>> = Vec::new();
    for union in it: entry_unions
        invariant
            it.seq() == union_source,
            unions.len() == it.index(),
            forall|k: int| 0 <= k < unions.len() ==> unions@[k] == Some(union_source[k]),
    {
        unions.push(Some(union));
    }
    let mut i: usize = 0;
    for draft in it: entries
        invariant
            it.seq() == draft_source,
            i == it.index(),
            unions.len() == draft_source.len(),
            union_source.len() == draft_source.len(),
            finished.len() == i,
            entry_keys.len() == i,
            forall|k: int| i <= k < unions.len() ==> unions@[k] == Some(union_source[k]),
            forall|k: int| 0 <= k < i ==> (#[trigger] finished@[k]) == finished_entry(draft_source[k], union_source[k]),
            forall|k: int| 0 <= k < i ==> (#[trigger] entry_keys@[k])@ == draft_source[k].id@,
    {
        entry_keys.push(draft.id.clone());
        let union: Option<Json> = unions[i].take();
        match union {
            Some(union) => {
                finished.push(
                    ProfileMatrixEntryRecord {
                        id: draft.id,
                        effective_input_id: draft.effective_input_id,
                        language: draft.language,
                        profile_ids: draft.profile_ids,
                        parent_profile_ids: draft.parent_profile_ids,
                        phases: draft.phases,
                        condition_union: union,
                        phase_coverage: draft.phase_coverage,
                        selection_reasons: draft.selection_reasons,
                        axis_conflicts: draft.axis_conflicts,
                    },
                );
            },
            None => {
                assert(false);
            },
        }
        i = i + 1;
    }
    assert(finished@ =~= finished_entries(draft_source, union_source));
    assert(texts(entry_keys@) =~= entry_ids_of(draft_source));
    let sorted_entries = stable_sort(finished, &entry_keys);
    let mut correlation_keys: Vec<String> = Vec::new();
    let mut i: usize = 0;
    while i < correlations.len()
        invariant
            i <= correlations.len(),
            correlation_keys.len() == i,
            forall|k: int| 0 <= k < i ==> (#[trigger] correlation_keys@[k])@ == correlations@[k].id@,
        decreases correlations.len() - i,
    {
        correlation_keys.push(correlations[i].id.clone());
        i = i + 1;
    }
    assert(texts(correlation_keys@) =~= correlation_ids_of(correlations@));
    let sorted_correlations = stable_sort(correlations, &correlation_keys);
    let counts = difference_counts(&sorted_correlations);
    ProfileMatrixRecord {
        schema_version: String::from_str(PROFILE_MATRIX_SCHEMA_VERSION),
        entries: sorted_entries,
        correlations: sorted_correlations,
        phase_coverage,
        difference_counts: counts,
    }
}

} // verus!

//! What the drafts of a matrix hold: each correlation what its sites and edges say, each entry
//! what its profiles say, and each count what it counts.

use vstd::prelude::*;

use crate::correlation::{
    condition_rows, edge_links, identity_of, is_draft, is_texts_by_phase, is_values_by_phase, phase_has_row,
    phases_with_rows, resolution_of, row_in_phase, site_rows, targets_of, texts_in_phase, CorrelationDraft,
};
use crate::correlation_laws::{draft_holds_phases_once, holds_phases_once, lists_phase, phases_are_complete};
use crate::counting::kept_is_wanted;
use crate::json::{Json, JsonModel};
use crate::matrix_build::{
    has_status, in_entry, in_entry_with_parent, is_entry_draft, is_finished_matrix, parent_at, profile_id_at,
    reason_at, EntryDraft,
};
use crate::matrix_facts::{correlated_site, correlated_sites_of, has_known_profile, site_phase, CorrelatedModel};
use crate::order::{
    collect_holds_the_kept_items, count_of, count_of_none, count_of_nothing, kept_items_stand_in_order, positions_of,
    positions_of_are_ascending_and_complete, selected_from, selections_are_counted,
};
use crate::phase_laws::phases_are_found_by_name;
use crate::profile_matrix::{
    declared_parent, phase_at, phase_name, profile_ids_of, Phase, PhaseCoverageRecord,
    ProfileCorrelationRecord, ProfileMatrixRecord,
};
use crate::records::{EdgeRecord, EvidenceRecord, ProfileRecord, SiteRecord};
use crate::text::texts;

verus! {

proof fn phases_of_rows<T>(rows: Seq<(Phase, T)>)
    ensures
        phases_with_rows(rows).no_duplicates(),
        forall|phase: Phase| #[trigger]
            phases_with_rows(rows).contains(phase) <==> exists|r: int|
                0 <= r < rows.len() && (#[trigger] rows[r]).0 == phase,
{
    let keep = phase_has_row(rows);
    let item = |place: int| phase_at(place);
    let phases = phases_with_rows(rows);
    selections_are_counted(4, keep, item);
    assert forall|a: int, b: int| 0 <= a < phases.len() && 0 <= b < phases.len() && a != b implies phases[a]
        != phases[b] by {
        let i = selected_from(4, keep, a);
        let j = selected_from(4, keep, b);
        kept_items_stand_in_order(4, keep, item, i);
        kept_items_stand_in_order(4, keep, item, j);
        assert(phases[a] == phase_at(i) && phases[b] == phase_at(j));
    }
    assert forall|phase: Phase| #[trigger] phases.contains(phase) <==> exists|r: int|
        0 <= r < rows.len() && (#[trigger] rows[r]).0 == phase by {
        collect_holds_the_kept_items(4, keep, item, phase);
        let inside = row_in_phase(rows, phase);
        if exists|place: int| 0 <= place < 4 && #[trigger] keep(place) && item(place) == phase {
            let place = choose|place: int| 0 <= place < 4 && #[trigger] keep(place) && item(place) == phase;
            if forall|r: int| 0 <= r < rows.len() ==> !#[trigger] inside(r) {
                count_of_nothing(rows.len() as int, inside);
            }
            let r = choose|r: int| 0 <= r < rows.len() && #[trigger] inside(r);
            assert(rows[r].0 == phase);
        }
        if exists|r: int| 0 <= r < rows.len() && (#[trigger] rows[r]).0 == phase {
            let r = choose|r: int| 0 <= r < rows.len() && (#[trigger] rows[r]).0 == phase;
            assert(inside(r));
            if count_of(rows.len() as int, inside) == 0 {
                count_of_none(rows.len() as int, inside);
            }
            let place: int = match phase {
                Phase::Build => 0,
                Phase::Runtime => 1,
                Phase::Semantic => 2,
                Phase::Static => 3,
            };
            assert(keep(place) && item(place) == phase);
        }
    }
}

proof fn texts_of_a_phase(rows: Seq<(Phase, Seq<Seq<char>>)>, phase: Phase, count: int, text: Seq<char>)
    requires
        0 <= count <= rows.len(),
    ensures
        texts_in_phase(rows, phase, count).contains(text) <==> exists|r: int|
            0 <= r < count && (#[trigger] rows[r]).0 == phase && rows[r].1.contains(text),
    decreases count,
{
    if count > 0 {
        texts_of_a_phase(rows, phase, count - 1, text);
        let earlier = texts_in_phase(rows, phase, count - 1);
        let last = rows[count - 1].1;
        if rows[count - 1].0 == phase {
            let all = earlier + last;
            if all.contains(text) {
                let i = choose|i: int| 0 <= i < all.len() && all[i] == text;
                if i < earlier.len() {
                    assert(earlier[i] == text);
                } else {
                    assert(last[i - earlier.len()] == text);
                }
            }
            if earlier.contains(text) {
                let i = choose|i: int| 0 <= i < earlier.len() && earlier[i] == text;
                assert(all[i] == text);
            }
            if last.contains(text) {
                let i = choose|i: int| 0 <= i < last.len() && last[i] == text;
                assert(all[earlier.len() + i] == text);
            }
        }
    }
}

/// Texts by phase: each phase that some row is of stands once, with the texts of its rows.
pub proof fn texts_stand_under_their_phases(
    list: Seq<(String, Vec<String>)>,
    rows: Seq<(Phase, Seq<Seq<char>>)>,
)
    requires
        is_texts_by_phase(list, rows),
    ensures
        holds_phases_once(list),
        forall|phase: Phase| #[trigger]
            lists_phase(list, phase_name(phase)) <==> exists|r: int|
                0 <= r < rows.len() && (#[trigger] rows[r]).0 == phase,
        forall|i: int, text: Seq<char>|
            0 <= i < list.len() ==> (#[trigger] texts(list[i].1@).contains(text) <==> exists|r: int|
                0 <= r < rows.len() && phase_name((#[trigger] rows[r]).0) == list[i].0@ && rows[r].1.contains(text)),
        forall|i: int| 0 <= i < list.len() ==> exists|phase: Phase| (#[trigger] list[i]).0@ == #[trigger] phase_name(phase),
{
    phases_are_found_by_name(Seq::empty());
    phases_of_rows(rows);
    let phases = phases_with_rows(rows);
    assert forall|i: int, j: int| 0 <= i < j < list.len() implies (#[trigger] list[i]).0@ != (
    #[trigger] list[j]).0@ by {
        assert(phases[i] != phases[j]);
        assert(phase_name(phases[i]) != phase_name(phases[j]));
    }
    assert forall|phase: Phase| #[trigger] lists_phase(list, phase_name(phase)) <==> exists|r: int|
        0 <= r < rows.len() && (#[trigger] rows[r]).0 == phase by {
        if lists_phase(list, phase_name(phase)) {
            let i = choose|i: int| 0 <= i < list.len() && (#[trigger] list[i]).0@ == phase_name(phase);
            assert(phase_name(phases[i]) == phase_name(phase));
            assert(phases.contains(phases[i]));
        }
        if exists|r: int| 0 <= r < rows.len() && (#[trigger] rows[r]).0 == phase {
            assert(phases.contains(phase));
            let i = choose|i: int| 0 <= i < phases.len() && phases[i] == phase;
            assert(list[i].0@ == phase_name(phase));
        }
    }
    assert forall|i: int, text: Seq<char>| 0 <= i < list.len() implies (#[trigger] texts(list[i].1@).contains(text)
        <==> exists|r: int|
        0 <= r < rows.len() && phase_name((#[trigger] rows[r]).0) == list[i].0@ && rows[r].1.contains(text)) by {
        assert(list[i].0@ == phase_name(phases[i]));
        texts_of_a_phase(rows, phases[i], rows.len() as int, text);
        if texts(list[i].1@).contains(text) {
            let r = choose|r: int|
                0 <= r < rows.len() && (#[trigger] rows[r]).0 == phases[i] && rows[r].1.contains(text);
            assert(phase_name(rows[r].0) == list[i].0@);
        }
        if exists|r: int|
            0 <= r < rows.len() && phase_name((#[trigger] rows[r]).0) == list[i].0@ && rows[r].1.contains(text) {
            let r = choose|r: int|
                0 <= r < rows.len() && phase_name((#[trigger] rows[r]).0) == list[i].0@ && rows[r].1.contains(text);
            assert(phase_name(rows[r].0) == phase_name(phases[i]));
            assert(rows[r].0 == phases[i]);
        }
    }
    assert forall|i: int| 0 <= i < list.len() implies exists|phase: Phase| (#[trigger] list[i]).0@
        == #[trigger] phase_name(phase) by {
        assert(list[i].0@ == phase_name(phases[i]));
    }
}

proof fn values_stand_under_their_phases(list: Seq<(String, Vec<Json>)>, rows: Seq<(Phase, JsonModel)>)
    requires
        is_values_by_phase(list, rows),
    ensures
        holds_phases_once(list),
        forall|phase: Phase| #[trigger]
            lists_phase(list, phase_name(phase)) <==> exists|r: int|
                0 <= r < rows.len() && (#[trigger] rows[r]).0 == phase,
{
    phases_are_found_by_name(Seq::empty());
    phases_of_rows(rows);
    let phases = phases_with_rows(rows);
    assert forall|i: int, j: int| 0 <= i < j < list.len() implies (#[trigger] list[i]).0@ != (
    #[trigger] list[j]).0@ by {
        assert(phases[i] != phases[j]);
        assert(phase_name(phases[i]) != phase_name(phases[j]));
    }
    assert forall|phase: Phase| #[trigger] lists_phase(list, phase_name(phase)) <==> exists|r: int|
        0 <= r < rows.len() && (#[trigger] rows[r]).0 == phase by {
        if lists_phase(list, phase_name(phase)) {
            let i = choose|i: int| 0 <= i < list.len() && (#[trigger] list[i]).0@ == phase_name(phase);
            assert(phase_name(phases[i]) == phase_name(phase));
            assert(phases.contains(phases[i]));
        }
        if exists|r: int| 0 <= r < rows.len() && (#[trigger] rows[r]).0 == phase {
            assert(phases.contains(phase));
            let i = choose|i: int| 0 <= i < phases.len() && phases[i] == phase;
            assert(list[i].0@ == phase_name(phase));
        }
    }
}

/// A draft of a correlation lists each phase once, and for every phase with targets a condition
/// and a resolution. Under a phase stand the targets, the resolutions and the identities of the
/// sites of the correlation in that phase, and nothing else.
pub proof fn drafts_list_what_their_sites_say(
    draft: CorrelationDraft,
    key: Seq<char>,
    sites: Seq<SiteRecord>,
    edges: Seq<EdgeRecord>,
    correlated: Seq<CorrelatedModel>,
    keys: Seq<Seq<char>>,
    entry_ids: Seq<String>,
    i: int,
)
    requires
        is_draft(draft, key, sites, edges, correlated, keys, entry_ids),
    ensures
        draft.id@ == key,
        draft_holds_phases_once(draft),
        phases_are_complete(draft),
        holds_phases_once(draft.site_ids@),
        forall|phase: Phase| #[trigger]
            lists_phase(draft.targets@, phase_name(phase)) <==> exists|m: int|
                0 <= m < keys.len() && #[trigger] keys[m] == key && correlated[m].phase == phase,
        0 <= i < draft.targets@.len() ==> forall|target: Seq<char>| #[trigger]
            texts(draft.targets@[i].1@).contains(target) <==> exists|m: int|
                0 <= m < keys.len() && #[trigger] keys[m] == key && phase_name(correlated[m].phase)
                    == draft.targets@[i].0@ && texts(sites[correlated[m].site].target_ids@).contains(target),
        0 <= i < draft.resolutions@.len() ==> forall|status: Seq<char>| #[trigger]
            texts(draft.resolutions@[i].1@).contains(status) <==> exists|m: int|
                0 <= m < keys.len() && #[trigger] keys[m] == key && phase_name(correlated[m].phase)
                    == draft.resolutions@[i].0@ && sites[correlated[m].site].resolution_status@ == status,
        0 <= i < draft.site_ids@.len() ==> forall|id: Seq<char>| #[trigger]
            texts(draft.site_ids@[i].1@).contains(id) <==> exists|m: int|
                0 <= m < keys.len() && #[trigger] keys[m] == key && phase_name(correlated[m].phase)
                    == draft.site_ids@[i].0@ && sites[correlated[m].site].id@ == id,
{
    let members = positions_of(keys, key, keys.len() as int);
    let links = edge_links(sites, correlated, keys, edges);
    positions_of_are_ascending_and_complete(keys, key, keys.len() as int);
    let targets = site_rows(sites, correlated, members, targets_of());
    let resolutions = site_rows(sites, correlated, members, resolution_of());
    let ids = site_rows(sites, correlated, members, identity_of());
    let conditions = condition_rows(sites, correlated, members);
    texts_stand_under_their_phases(draft.targets@, targets);
    texts_stand_under_their_phases(draft.resolutions@, resolutions);
    texts_stand_under_their_phases(draft.site_ids@, ids);
    values_stand_under_their_phases(draft.conditions@, conditions);
    assert forall|t: int| 0 <= t < draft.targets@.len() implies lists_phase(
        draft.conditions@,
        (#[trigger] draft.targets@[t]).0@,
    ) && lists_phase(draft.resolutions@, draft.targets@[t].0@) by {
        let phase = choose|phase: Phase| draft.targets@[t].0@ == #[trigger] phase_name(phase);
        assert(lists_phase(draft.targets@, phase_name(phase)));
        let r = choose|r: int| 0 <= r < targets.len() && (#[trigger] targets[r]).0 == phase;
        assert(conditions[r].0 == phase && resolutions[r].0 == phase);
    }
    assert forall|phase: Phase| #[trigger] lists_phase(draft.targets@, phase_name(phase)) <==> exists|m: int|
        0 <= m < keys.len() && #[trigger] keys[m] == key && correlated[m].phase == phase by {
        if lists_phase(draft.targets@, phase_name(phase)) {
            let r = choose|r: int| 0 <= r < targets.len() && (#[trigger] targets[r]).0 == phase;
            assert(keys[members[r]] == key);
        }
        if exists|m: int| 0 <= m < keys.len() && #[trigger] keys[m] == key && correlated[m].phase == phase {
            let m = choose|m: int| 0 <= m < keys.len() && #[trigger] keys[m] == key && correlated[m].phase == phase;
            assert(members.contains(m));
            let r = choose|r: int| 0 <= r < members.len() && members[r] == m;
            assert(targets[r].0 == phase);
        }
    }
    if 0 <= i < draft.targets@.len() {
        assert forall|target: Seq<char>| #[trigger] texts(draft.targets@[i].1@).contains(target) <==> exists|m: int|
            0 <= m < keys.len() && #[trigger] keys[m] == key && phase_name(correlated[m].phase) == draft.targets@[i].0@
                && texts(sites[correlated[m].site].target_ids@).contains(target) by {
            if texts(draft.targets@[i].1@).contains(target) {
                let r = choose|r: int|
                    0 <= r < targets.len() && phase_name((#[trigger] targets[r]).0) == draft.targets@[i].0@
                        && targets[r].1.contains(target);
                assert(keys[members[r]] == key);
            }
            if exists|m: int|
                0 <= m < keys.len() && #[trigger] keys[m] == key && phase_name(correlated[m].phase)
                    == draft.targets@[i].0@ && texts(sites[correlated[m].site].target_ids@).contains(target) {
                let m = choose|m: int|
                    0 <= m < keys.len() && #[trigger] keys[m] == key && phase_name(correlated[m].phase)
                        == draft.targets@[i].0@ && texts(sites[correlated[m].site].target_ids@).contains(target);
                assert(members.contains(m));
                let r = choose|r: int| 0 <= r < members.len() && members[r] == m;
                assert(phase_name(targets[r].0) == draft.targets@[i].0@ && targets[r].1.contains(target));
            }
        }
    }
    if 0 <= i < draft.resolutions@.len() {
        assert forall|status: Seq<char>| #[trigger] texts(draft.resolutions@[i].1@).contains(status) <==> exists|
            m: int,
        |
            0 <= m < keys.len() && #[trigger] keys[m] == key && phase_name(correlated[m].phase)
                == draft.resolutions@[i].0@ && sites[correlated[m].site].resolution_status@ == status by {
            if texts(draft.resolutions@[i].1@).contains(status) {
                let r = choose|r: int|
                    0 <= r < resolutions.len() && phase_name((#[trigger] resolutions[r]).0)
                        == draft.resolutions@[i].0@ && resolutions[r].1.contains(status);
                assert(keys[members[r]] == key);
            }
            if exists|m: int|
                0 <= m < keys.len() && #[trigger] keys[m] == key && phase_name(correlated[m].phase)
                    == draft.resolutions@[i].0@ && sites[correlated[m].site].resolution_status@ == status {
                let m = choose|m: int|
                    0 <= m < keys.len() && #[trigger] keys[m] == key && phase_name(correlated[m].phase)
                        == draft.resolutions@[i].0@ && sites[correlated[m].site].resolution_status@ == status;
                assert(members.contains(m));
                let r = choose|r: int| 0 <= r < members.len() && members[r] == m;
                assert(resolutions[r].1[0] == status);
                assert(phase_name(resolutions[r].0) == draft.resolutions@[i].0@ && resolutions[r].1.contains(status));
            }
        }
    }
    if 0 <= i < draft.site_ids@.len() {
        assert forall|id: Seq<char>| #[trigger] texts(draft.site_ids@[i].1@).contains(id) <==> exists|m: int|
            0 <= m < keys.len() && #[trigger] keys[m] == key && phase_name(correlated[m].phase)
                == draft.site_ids@[i].0@ && sites[correlated[m].site].id@ == id by {
            if texts(draft.site_ids@[i].1@).contains(id) {
                let r = choose|r: int|
                    0 <= r < ids.len() && phase_name((#[trigger] ids[r]).0) == draft.site_ids@[i].0@
                        && ids[r].1.contains(id);
                assert(keys[members[r]] == key);
            }
            if exists|m: int|
                0 <= m < keys.len() && #[trigger] keys[m] == key && phase_name(correlated[m].phase)
                    == draft.site_ids@[i].0@ && sites[correlated[m].site].id@ == id {
                let m = choose|m: int|
                    0 <= m < keys.len() && #[trigger] keys[m] == key && phase_name(correlated[m].phase)
                        == draft.site_ids@[i].0@ && sites[correlated[m].site].id@ == id;
                assert(members.contains(m));
                let r = choose|r: int| 0 <= r < members.len() && members[r] == m;
                assert(ids[r].1[0] == id);
                assert(phase_name(ids[r].0) == draft.site_ids@[i].0@ && ids[r].1.contains(id));
            }
        }
    }
}

/// The sites that are correlated are those whose profile is known, each with its profile and the
/// phase of its first evidence.
pub proof fn sites_with_a_profile_are_correlated(
    profiles: Seq<ProfileRecord>,
    sites: Seq<SiteRecord>,
    evidence: Seq<EvidenceRecord>,
    s: int,
)
    requires
        0 <= s < sites.len(),
    ensures
        (exists|p: int| 0 <= p < profiles.len() && (#[trigger] profiles[p]).id@ == sites[s].profile_id@) <==> exists|
            m: int,
        |
            0 <= m < correlated_sites_of(profiles, sites, evidence).len() && (#[trigger] correlated_sites_of(
                profiles,
                sites,
                evidence,
            )[m]).site == s,
        forall|m: int|
            0 <= m < correlated_sites_of(profiles, sites, evidence).len() ==> {
                let found = #[trigger] correlated_sites_of(profiles, sites, evidence)[m];
                &&& 0 <= found.site < sites.len()
                &&& 0 <= found.profile < profiles.len()
                &&& profiles[found.profile].id@ == sites[found.site].profile_id@
                &&& found.phase == site_phase(evidence, sites[found.site].id@)
            },
{
    let keep = has_known_profile(profiles, sites);
    let item = correlated_site(profiles, sites, evidence);
    let all = correlated_sites_of(profiles, sites, evidence);
    let count = sites.len() as int;
    assert forall|m: int| 0 <= m < all.len() implies {
        let found = #[trigger] all[m];
        &&& 0 <= found.site < sites.len()
        &&& 0 <= found.profile < profiles.len()
        &&& profiles[found.profile].id@ == sites[found.site].profile_id@
        &&& found.phase == site_phase(evidence, sites[found.site].id@)
    } by {
        collect_holds_the_kept_items(count, keep, item, all[m]);
        assert(all.contains(all[m]));
        let i = choose|i: int| 0 <= i < count && #[trigger] keep(i) && item(i) == all[m];
        crate::order::last_position_is_last(
            profile_ids_of(profiles),
            sites[i].profile_id@,
            profiles.len() as int,
        );
        assert(profile_ids_of(profiles)[all[m].profile] == sites[i].profile_id@);
    }
    crate::order::last_position_is_last(profile_ids_of(profiles), sites[s].profile_id@, profiles.len() as int);
    if exists|p: int| 0 <= p < profiles.len() && (#[trigger] profiles[p]).id@ == sites[s].profile_id@ {
        let p = choose|p: int| 0 <= p < profiles.len() && (#[trigger] profiles[p]).id@ == sites[s].profile_id@;
        assert(profile_ids_of(profiles)[p] == sites[s].profile_id@);
        assert(keep(s));
        selections_are_counted(s, keep, item);
        kept_items_stand_in_order(count, keep, item, s);
        assert(all[count_of(s, keep) as int].site == s);
    }
    if exists|m: int| 0 <= m < all.len() && (#[trigger] all[m]).site == s {
        let m = choose|m: int| 0 <= m < all.len() && (#[trigger] all[m]).site == s;
        assert(profiles[all[m].profile].id@ == sites[s].profile_id@);
    }
}

/// An entry holds the profiles of its input, the parents that they declare, and as reasons whether
/// some profile has a parent and whether some has none.
pub proof fn entries_hold_their_profiles(
    draft: EntryDraft,
    input: Seq<char>,
    profiles: Seq<ProfileRecord>,
    sites: Seq<SiteRecord>,
    edges: Seq<EdgeRecord>,
    evidence: Seq<EvidenceRecord>,
    inputs: Seq<String>,
    entry_ids: Seq<String>,
    axis_diagnostic_ids: Seq<String>,
)
    requires
        is_entry_draft(draft, input, profiles, sites, edges, evidence, inputs, entry_ids, axis_diagnostic_ids),
        inputs.len() == profiles.len(),
    ensures
        draft.effective_input_id@ == input,
        forall|id: Seq<char>| #[trigger]
            texts(draft.profile_ids@).contains(id) <==> exists|p: int|
                0 <= p < profiles.len() && inputs[p]@ == input && (#[trigger] profiles[p]).id@ == id,
        forall|id: Seq<char>| #[trigger]
            texts(draft.parent_profile_ids@).contains(id) <==> exists|p: int|
                0 <= p < profiles.len() && inputs[p]@ == input && declared_parent((#[trigger] profiles[p])@) == Some(
                    id,
                ),
        texts(draft.selection_reasons@).contains("parent-effective-input"@) <==> exists|p: int|
            0 <= p < profiles.len() && inputs[p]@ == input && declared_parent((#[trigger] profiles[p])@) is Some,
        texts(draft.selection_reasons@).contains("direct-effective-input"@) <==> exists|p: int|
            0 <= p < profiles.len() && inputs[p]@ == input && declared_parent((#[trigger] profiles[p])@) is None,
{
    let n = profiles.len() as int;
    let all = texts(inputs);
    reveal_strlit("parent-effective-input");
    reveal_strlit("direct-effective-input");
    assert("parent-effective-input"@[0] == 'p' && "direct-effective-input"@[0] == 'd');
    assert forall|id: Seq<char>| #[trigger] texts(draft.profile_ids@).contains(id) <==> exists|p: int|
        0 <= p < profiles.len() && inputs[p]@ == input && (#[trigger] profiles[p]).id@ == id by {
        let keep = in_entry(all, input);
        collect_holds_the_kept_items(n, keep, profile_id_at(profiles), id);
        if exists|i: int| 0 <= i < n && #[trigger] keep(i) && profile_id_at(profiles)(i) == id {
            let i = choose|i: int| 0 <= i < n && #[trigger] keep(i) && profile_id_at(profiles)(i) == id;
            assert(profiles[i].id@ == id);
        }
        if exists|p: int| 0 <= p < profiles.len() && inputs[p]@ == input && (#[trigger] profiles[p]).id@ == id {
            let p = choose|p: int| 0 <= p < profiles.len() && inputs[p]@ == input && (#[trigger] profiles[p]).id@ == id;
            assert(keep(p) && profile_id_at(profiles)(p) == id);
        }
    }
    assert forall|id: Seq<char>| #[trigger] texts(draft.parent_profile_ids@).contains(id) <==> exists|p: int|
        0 <= p < profiles.len() && inputs[p]@ == input && declared_parent((#[trigger] profiles[p])@) == Some(id) by {
        let keep = in_entry_with_parent(profiles, all, input);
        collect_holds_the_kept_items(n, keep, parent_at(profiles), id);
        if exists|i: int| 0 <= i < n && #[trigger] keep(i) && parent_at(profiles)(i) == id {
            let i = choose|i: int| 0 <= i < n && #[trigger] keep(i) && parent_at(profiles)(i) == id;
            assert(declared_parent(profiles[i]@) == Some(id));
        }
        if exists|p: int|
            0 <= p < profiles.len() && inputs[p]@ == input && declared_parent((#[trigger] profiles[p])@) == Some(id) {
            let p = choose|p: int|
                0 <= p < profiles.len() && inputs[p]@ == input && declared_parent((#[trigger] profiles[p])@) == Some(
                    id,
                );
            assert(keep(p) && parent_at(profiles)(p) == id);
        }
    }
    let keep = in_entry(all, input);
    let reasons = reason_at(profiles);
    let a = "parent-effective-input"@;
    let b = "direct-effective-input"@;
    collect_holds_the_kept_items(n, keep, reasons, a);
    collect_holds_the_kept_items(n, keep, reasons, b);
    if exists|i: int| 0 <= i < n && #[trigger] keep(i) && reasons(i) == a {
        let i = choose|i: int| 0 <= i < n && #[trigger] keep(i) && reasons(i) == a;
        assert(declared_parent(profiles[i]@) is Some);
    }
    if exists|i: int| 0 <= i < n && #[trigger] keep(i) && reasons(i) == b {
        let i = choose|i: int| 0 <= i < n && #[trigger] keep(i) && reasons(i) == b;
        assert(declared_parent(profiles[i]@) is None);
    }
    if exists|p: int|
        0 <= p < profiles.len() && inputs[p]@ == input && declared_parent((#[trigger] profiles[p])@) is Some {
        let p = choose|p: int|
            0 <= p < profiles.len() && inputs[p]@ == input && declared_parent((#[trigger] profiles[p])@) is Some;
        assert(keep(p) && reasons(p) == a);
    }
    if exists|p: int|
        0 <= p < profiles.len() && inputs[p]@ == input && declared_parent((#[trigger] profiles[p])@) is None {
        let p = choose|p: int|
            0 <= p < profiles.len() && inputs[p]@ == input && declared_parent((#[trigger] profiles[p])@) is None;
        assert(keep(p) && reasons(p) == b);
    }
}

/// A matrix counts its correlations by status: each of the four statuses stands among the counts,
/// and each count is how many correlations have the status.
pub proof fn matrices_count_their_correlations(
    entries: Seq<EntryDraft>,
    entry_unions: Seq<Json>,
    correlations: Seq<ProfileCorrelationRecord>,
    phase_coverage: Vec<(String, PhaseCoverageRecord)>,
    matrix: ProfileMatrixRecord,
    status: Seq<char>,
)
    requires
        is_finished_matrix(entries, entry_unions, correlations, phase_coverage, matrix),
        status == "matched"@ || status == "additional"@ || status == "conflict"@ || status == "unobserved"@ || exists|
            c: int,
        |
            0 <= c < matrix.correlations@.len() && (#[trigger] matrix.correlations@[c]).status@ == status,
    ensures
        exists|i: int|
            0 <= i < matrix.difference_counts@.len() && (#[trigger] matrix.difference_counts@[i]).0@ == status
                && matrix.difference_counts@[i].1 == matrix.correlations@.filter(
                |correlation: ProfileCorrelationRecord| correlation.status@ == status,
            ).len(),
        matrix.correlations@.len() == correlations.len(),
        matrix.phase_coverage == phase_coverage,
{
    let counts = matrix.difference_counts@;
    let keys = crate::matrix_build::count_keys(counts);
    let found = crate::matrix_build::statuses_of(matrix.correlations@);
    let known = crate::matrix_build::known_statuses();
    let all = found + known;
    if status == "matched"@ {
        assert(all[found.len() as int] == status);
    } else if status == "additional"@ {
        assert(all[found.len() as int + 1] == status);
    } else if status == "conflict"@ {
        assert(all[found.len() as int + 2] == status);
    } else if status == "unobserved"@ {
        assert(all[found.len() as int + 3] == status);
    } else {
        let c = choose|c: int|
            0 <= c < matrix.correlations@.len() && (#[trigger] matrix.correlations@[c]).status@ == status;
        assert(all[c] == status);
    }
    assert(all.contains(status));
    assert(keys.contains(status));
    let i = choose|i: int| 0 <= i < keys.len() && keys[i] == status;
    assert(counts[i].0@ == status);
    kept_is_wanted(
        matrix.correlations@,
        |correlation: ProfileCorrelationRecord| correlation.status@ == status,
        has_status(matrix.correlations@, counts[i].0@),
    );
}

} // verus!

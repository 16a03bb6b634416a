//! What the facts say that the coverage of the phases is counted from.

use vstd::prelude::*;

use crate::counting::kept_is_wanted;
use crate::matrix_facts::{
    all_facts, correlated_site, correlated_sites_of, edge_fact, edge_has_profile, edge_ids_of, evidence_fact,
    evidence_has_owner, fact_models, facts_of_profile, has_known_profile, input_of, level_fact, level_has_phase,
    matrix_facts, owner_profile, profile_facts, site_facts, site_ids_of, site_phase, CorrelatedModel, CorrelatedSite,
    Fact, FactKind, FactModel,
};
use crate::order::{collect, collect_holds_the_kept_items, count_of, last_position_is_last};
use crate::profile_matrix::{phase_of, profile_ids_of, profile_position, Phase};
use crate::records::{EdgeRecord, EvidenceRecord, ProfileRecord, SiteRecord};

verus! {

/// Whether some profile has an identity.
pub open spec fn is_known(profiles: Seq<ProfileRecord>, id: Seq<char>) -> bool {
    exists|p: int| 0 <= p < profiles.len() && (#[trigger] profiles[p]).id@ == id
}

/// Whether the last profile with an identity has an input.
pub open spec fn has_input(profiles: Seq<ProfileRecord>, inputs: Seq<String>, id: Seq<char>, input: Seq<char>) -> bool {
    exists|p: int|
        0 <= p < profiles.len() && (#[trigger] profiles[p]).id@ == id && inputs[p]@ == input && forall|q: int|
            p < q < profiles.len() ==> (#[trigger] profiles[q]).id@ != id
}

proof fn positions_are_of_known_profiles(profiles: Seq<ProfileRecord>, inputs: Seq<String>, id: Seq<char>)
    ensures
        profile_position(profiles, id) is Some <==> is_known(profiles, id),
        profile_position(profiles, id) matches Some(p) ==> 0 <= p < profiles.len(),
        forall|input: Seq<char>| #[trigger]
            has_input(profiles, inputs, id, input) <==> input_of(profiles, inputs, id) == Some(input),
{
    let ids = profile_ids_of(profiles);
    last_position_is_last(ids, id, profiles.len() as int);
    if is_known(profiles, id) {
        let p = choose|p: int| 0 <= p < profiles.len() && (#[trigger] profiles[p]).id@ == id;
        assert(ids[p] == id);
    }
    if let Some(p) = profile_position(profiles, id) {
        assert(profiles[p].id@ == ids[p]);
        assert forall|q: int| p < q < profiles.len() implies (#[trigger] profiles[q]).id@ != id by {
            assert(ids[q] != id);
        }
        assert forall|input: Seq<char>| #[trigger] has_input(profiles, inputs, id, input) <==> input_of(
            profiles,
            inputs,
            id,
        ) == Some(input) by {
            if has_input(profiles, inputs, id, input) {
                let k = choose|k: int|
                    0 <= k < profiles.len() && (#[trigger] profiles[k]).id@ == id && inputs[k]@ == input && forall|
                        q: int,
                    |
                        k < q < profiles.len() ==> (#[trigger] profiles[q]).id@ != id;
                if k < p {
                    assert(profiles[p].id@ != id);
                }
                if p < k {
                    assert(profiles[k].id@ != id);
                }
                assert(k == p);
            }
        }
    } else {
        assert forall|input: Seq<char>| #[trigger] has_input(profiles, inputs, id, input) <==> input_of(
            profiles,
            inputs,
            id,
        ) == Some(input) by {
            if has_input(profiles, inputs, id, input) {
                let k = choose|k: int|
                    0 <= k < profiles.len() && (#[trigger] profiles[k]).id@ == id && inputs[k]@ == input && forall|
                        q: int,
                    |
                        k < q < profiles.len() ==> (#[trigger] profiles[q]).id@ != id;
                assert(ids[k] == id);
            }
        }
    }
}

proof fn collected_are_counted<T>(
    count: int,
    keep: spec_fn(int) -> bool,
    item: spec_fn(int) -> T,
    wanted: spec_fn(T) -> bool,
    both: spec_fn(int) -> bool,
)
    requires
        forall|i: int| 0 <= i < count ==> #[trigger] both(i) == (keep(i) && wanted(item(i))),
    ensures
        collect(count, keep, item).filter(wanted).len() == count_of(count, both),
    decreases count,
{
    reveal(Seq::filter);
    if count > 0 {
        collected_are_counted(count - 1, keep, item, wanted, both);
        let earlier = collect(count - 1, keep, item);
        assert(both(count - 1) == (keep(count - 1) && wanted(item(count - 1))));
        if keep(count - 1) {
            assert(earlier.push(item(count - 1)).drop_last() =~= earlier);
        }
    }
}

proof fn none_is_wanted<T>(items: Seq<T>, wanted: spec_fn(T) -> bool)
    requires
        forall|i: int| 0 <= i < items.len() ==> !wanted(#[trigger] items[i]),
    ensures
        items.filter(wanted).len() == 0,
    decreases items.len(),
{
    reveal(Seq::filter);
    if items.len() > 0 {
        let rest = items.drop_last();
        assert forall|i: int| 0 <= i < rest.len() implies !wanted(#[trigger] rest[i]) by {
            assert(!wanted(items[i]));
        }
        none_is_wanted(rest, wanted);
        assert(!wanted(items[items.len() - 1]));
    }
}

proof fn collected_have_their_kind(
    count: int,
    keep: spec_fn(int) -> bool,
    item: spec_fn(int) -> FactModel,
    kind: FactKind,
)
    requires
        forall|i: int| (#[trigger] item(i)).kind == kind,
    ensures
        forall|i: int| 0 <= i < collect(count, keep, item).len() ==> (#[trigger] collect(count, keep, item)[i]).kind == kind,
{
    let all = collect(count, keep, item);
    assert forall|i: int| 0 <= i < all.len() implies (#[trigger] all[i]).kind == kind by {
        collect_holds_the_kept_items(count, keep, item, all[i]);
        assert(all.contains(all[i]));
        let k = choose|k: int| 0 <= k < count && #[trigger] keep(k) && item(k) == all[i];
        assert(item(k).kind == kind);
    }
}

proof fn profile_facts_are_of_profiles(profiles: Seq<ProfileRecord>, inputs: Seq<String>, count: int)
    ensures
        forall|i: int|
            0 <= i < profile_facts(profiles, inputs, count).len() ==> (#[trigger] profile_facts(
                profiles,
                inputs,
                count,
            )[i]).kind == FactKind::Profile || profile_facts(profiles, inputs, count)[i].kind
                == FactKind::Completeness,
    decreases count,
{
    if count > 0 {
        profile_facts_are_of_profiles(profiles, inputs, count - 1);
        let profile = profiles[count - 1]@;
        let input = inputs[count - 1]@;
        if let Some(coverage) = profile.coverage {
            collected_have_their_kind(
                coverage.completeness.len() as int,
                level_has_phase(coverage.completeness),
                level_fact(profile.id, input, coverage.completeness),
                FactKind::Completeness,
            );
        }
        let own = facts_of_profile(profile, input);
        assert forall|i: int| 0 <= i < own.len() implies (#[trigger] own[i]).kind == FactKind::Profile || own[i].kind
            == FactKind::Completeness by {}
    }
}

proof fn facts_are_parted(
    profiles: Seq<ProfileRecord>,
    inputs: Seq<String>,
    sites: Seq<SiteRecord>,
    edges: Seq<EdgeRecord>,
    evidence: Seq<EvidenceRecord>,
    kind: FactKind,
    wanted: spec_fn(FactModel) -> bool,
)
    requires
        forall|fact: FactModel| #[trigger] wanted(fact) ==> fact.kind == kind,
        kind == FactKind::Site || kind == FactKind::Edge || kind == FactKind::Evidence,
    ensures
        ({
            let all = all_facts(profiles, inputs, sites, edges, evidence);
            let of_sites = site_facts(sites, inputs, correlated_sites_of(profiles, sites, evidence));
            let of_edges = collect(
                edges.len() as int,
                edge_has_profile(profiles, edges),
                edge_fact(profiles, inputs, edges),
            );
            let of_evidence = collect(
                evidence.len() as int,
                evidence_has_owner(sites, edges, evidence),
                evidence_fact(profiles, inputs, sites, edges, evidence),
            );
            &&& kind == FactKind::Site ==> all.filter(wanted).len() == of_sites.filter(wanted).len()
            &&& kind == FactKind::Edge ==> all.filter(wanted).len() == of_edges.filter(wanted).len()
            &&& kind == FactKind::Evidence ==> all.filter(wanted).len() == of_evidence.filter(wanted).len()
        }),
{
    let of_profiles = profile_facts(profiles, inputs, profiles.len() as int);
    let of_sites = site_facts(sites, inputs, correlated_sites_of(profiles, sites, evidence));
    let of_edges = collect(edges.len() as int, edge_has_profile(profiles, edges), edge_fact(profiles, inputs, edges));
    let of_evidence = collect(
        evidence.len() as int,
        evidence_has_owner(sites, edges, evidence),
        evidence_fact(profiles, inputs, sites, edges, evidence),
    );
    profile_facts_are_of_profiles(profiles, inputs, profiles.len() as int);
    collected_have_their_kind(
        edges.len() as int,
        edge_has_profile(profiles, edges),
        edge_fact(profiles, inputs, edges),
        FactKind::Edge,
    );
    collected_have_their_kind(
        evidence.len() as int,
        evidence_has_owner(sites, edges, evidence),
        evidence_fact(profiles, inputs, sites, edges, evidence),
        FactKind::Evidence,
    );
    Seq::filter_distributes_over_add(of_profiles + of_sites + of_edges, of_evidence, wanted);
    Seq::filter_distributes_over_add(of_profiles + of_sites, of_edges, wanted);
    Seq::filter_distributes_over_add(of_profiles, of_sites, wanted);
    assert forall|i: int| 0 <= i < of_profiles.len() implies !wanted(#[trigger] of_profiles[i]) by {
        assert(wanted(of_profiles[i]) ==> of_profiles[i].kind == kind);
    }
    none_is_wanted(of_profiles, wanted);
    if kind != FactKind::Site {
        assert forall|i: int| 0 <= i < of_sites.len() implies !wanted(#[trigger] of_sites[i]) by {
            assert(wanted(of_sites[i]) ==> of_sites[i].kind == kind);
        }
        none_is_wanted(of_sites, wanted);
    }
    if kind != FactKind::Edge {
        assert forall|i: int| 0 <= i < of_edges.len() implies !wanted(#[trigger] of_edges[i]) by {
            assert(wanted(of_edges[i]) ==> of_edges[i].kind == kind);
        }
        none_is_wanted(of_edges, wanted);
    }
    if kind != FactKind::Evidence {
        assert forall|i: int| 0 <= i < of_evidence.len() implies !wanted(#[trigger] of_evidence[i]) by {
            assert(wanted(of_evidence[i]) ==> of_evidence[i].kind == kind);
        }
        none_is_wanted(of_evidence, wanted);
    }
}

/// There is a fact of each site with a known profile: with the phase of the site, its resolution
/// and the input of its profile; and no other fact of a site.
pub proof fn facts_count_the_sites(
    profiles: &Vec<ProfileRecord>,
    inputs: &Vec<String>,
    sites: &Vec<SiteRecord>,
    edges: &Vec<EdgeRecord>,
    evidence: &Vec<EvidenceRecord>,
    correlated: &Vec<CorrelatedSite>,
    facts: Vec<Fact>,
    scope: Option<Seq<char>>,
    phase: Phase,
    status: Seq<char>,
)
    requires
        call_ensures(matrix_facts, (profiles, inputs, sites, edges, evidence, correlated), facts),
    ensures
        fact_models(facts@).filter(
            |fact: FactModel|
                fact.phase == phase && (scope is None || fact.input == scope) && fact.kind == FactKind::Site
                    && fact.text == status,
        ).len() == sites@.filter(
            |site: SiteRecord|
                is_known(profiles@, site.profile_id@) && site_phase(evidence@, site.id@) == phase && (scope is None
                    || has_input(profiles@, inputs@, site.profile_id@, scope->0)) && site.resolution_status@ == status,
        ).len(),
{
    let wanted = |fact: FactModel|
        fact.phase == phase && (scope is None || fact.input == scope) && fact.kind == FactKind::Site && fact.text
            == status;
    let of = |site: SiteRecord|
        is_known(profiles@, site.profile_id@) && site_phase(evidence@, site.id@) == phase && (scope is None
            || has_input(profiles@, inputs@, site.profile_id@, scope->0)) && site.resolution_status@ == status;
    facts_are_parted(profiles@, inputs@, sites@, edges@, evidence@, FactKind::Site, wanted);
    let list = correlated_sites_of(profiles@, sites@, evidence@);
    let own = site_facts(sites@, inputs@, list);
    let through = |c: CorrelatedModel|
        c.phase == phase && (scope is None || Some(inputs@[c.profile]@) == scope)
            && sites@[c.site].resolution_status@ == status;
    let at = |i: int| wanted(own[i]);
    kept_is_wanted(own, wanted, at);
    kept_is_wanted(list, through, at);
    let keep = has_known_profile(profiles@, sites@);
    let item = correlated_site(profiles@, sites@, evidence@);
    let both = |i: int| keep(i) && through(item(i));
    collected_are_counted(sites@.len() as int, keep, item, through, both);
    assert forall|i: int| 0 <= i < sites@.len() implies #[trigger] both(i) == of(sites@[i]) by {
        positions_are_of_known_profiles(profiles@, inputs@, sites@[i].profile_id@);
        if scope is Some {
            assert(has_input(profiles@, inputs@, sites@[i].profile_id@, scope->0) <==> input_of(
                profiles@,
                inputs@,
                sites@[i].profile_id@,
            ) == Some(scope->0));
        }
    }
    kept_is_wanted(sites@, of, both);
}

/// There is a fact of each edge with a known profile: with the phase of the edge and the input of
/// its profile; and no other fact of an edge.
pub proof fn facts_count_the_edges(
    profiles: &Vec<ProfileRecord>,
    inputs: &Vec<String>,
    sites: &Vec<SiteRecord>,
    edges: &Vec<EdgeRecord>,
    evidence: &Vec<EvidenceRecord>,
    correlated: &Vec<CorrelatedSite>,
    facts: Vec<Fact>,
    scope: Option<Seq<char>>,
    phase: Phase,
)
    requires
        call_ensures(matrix_facts, (profiles, inputs, sites, edges, evidence, correlated), facts),
    ensures
        fact_models(facts@).filter(
            |fact: FactModel|
                fact.phase == phase && (scope is None || fact.input == scope) && fact.kind == FactKind::Edge,
        ).len() == edges@.filter(
            |edge: EdgeRecord|
                is_known(profiles@, edge.profile_id@) && phase_of(edge.phase@) == phase && (scope is None
                    || has_input(profiles@, inputs@, edge.profile_id@, scope->0)),
        ).len(),
{
    let wanted = |fact: FactModel|
        fact.phase == phase && (scope is None || fact.input == scope) && fact.kind == FactKind::Edge;
    let of = |edge: EdgeRecord|
        is_known(profiles@, edge.profile_id@) && phase_of(edge.phase@) == phase && (scope is None || has_input(
            profiles@,
            inputs@,
            edge.profile_id@,
            scope->0,
        ));
    facts_are_parted(profiles@, inputs@, sites@, edges@, evidence@, FactKind::Edge, wanted);
    let keep = edge_has_profile(profiles@, edges@);
    let item = edge_fact(profiles@, inputs@, edges@);
    let both = |i: int| keep(i) && wanted(item(i));
    collected_are_counted(edges@.len() as int, keep, item, wanted, both);
    assert forall|i: int| 0 <= i < edges@.len() implies #[trigger] both(i) == of(edges@[i]) by {
        positions_are_of_known_profiles(profiles@, inputs@, edges@[i].profile_id@);
        if scope is Some {
            assert(has_input(profiles@, inputs@, edges@[i].profile_id@, scope->0) <==> input_of(
                profiles@,
                inputs@,
                edges@[i].profile_id@,
            ) == Some(scope->0));
        }
    }
    kept_is_wanted(edges@, of, both);
}

/// Whether a piece of evidence is of a site or of an edge that is there.
pub open spec fn has_owner(sites: Seq<SiteRecord>, edges: Seq<EdgeRecord>, item: EvidenceRecord) -> bool {
    ||| item.owner_type@ == "site"@ && exists|s: int|
        0 <= s < sites.len() && (#[trigger] sites[s]).id@ == item.owner_id@
    ||| item.owner_type@ == "edge"@ && exists|e: int|
        0 <= e < edges.len() && (#[trigger] edges[e]).id@ == item.owner_id@
}

proof fn owners_are_found(sites: Seq<SiteRecord>, edges: Seq<EdgeRecord>, item: EvidenceRecord)
    ensures
        owner_profile(sites, edges, item.owner_type@, item.owner_id@) is Some <==> has_owner(sites, edges, item),
{
    reveal_strlit("site");
    reveal_strlit("edge");
    assert("site"@[0] != "edge"@[0]);
    let of_sites = site_ids_of(sites);
    let of_edges = edge_ids_of(edges);
    last_position_is_last(of_sites, item.owner_id@, sites.len() as int);
    last_position_is_last(of_edges, item.owner_id@, edges.len() as int);
    if exists|s: int| 0 <= s < sites.len() && (#[trigger] sites[s]).id@ == item.owner_id@ {
        let s = choose|s: int| 0 <= s < sites.len() && (#[trigger] sites[s]).id@ == item.owner_id@;
        assert(of_sites[s] == item.owner_id@);
    }
    if exists|e: int| 0 <= e < edges.len() && (#[trigger] edges[e]).id@ == item.owner_id@ {
        let e = choose|e: int| 0 <= e < edges.len() && (#[trigger] edges[e]).id@ == item.owner_id@;
        assert(of_edges[e] == item.owner_id@);
    }
    if let Some(s) = crate::order::last_position(of_sites, item.owner_id@, sites.len() as int) {
        assert(sites[s].id@ == item.owner_id@);
    }
    if let Some(e) = crate::order::last_position(of_edges, item.owner_id@, edges.len() as int) {
        assert(edges[e].id@ == item.owner_id@);
    }
}

/// There is a fact of each piece of evidence of a site or of an edge that is there, with the phase
/// of its kind, and no other fact of evidence.
pub proof fn facts_count_the_evidence(
    profiles: &Vec<ProfileRecord>,
    inputs: &Vec<String>,
    sites: &Vec<SiteRecord>,
    edges: &Vec<EdgeRecord>,
    evidence: &Vec<EvidenceRecord>,
    correlated: &Vec<CorrelatedSite>,
    facts: Vec<Fact>,
    phase: Phase,
)
    requires
        call_ensures(matrix_facts, (profiles, inputs, sites, edges, evidence, correlated), facts),
    ensures
        fact_models(facts@).filter(
            |fact: FactModel| fact.phase == phase && fact.kind == FactKind::Evidence,
        ).len() == evidence@.filter(
            |item: EvidenceRecord| has_owner(sites@, edges@, item) && phase_of(item.kind@) == phase,
        ).len(),
{
    let wanted = |fact: FactModel| fact.phase == phase && fact.kind == FactKind::Evidence;
    let of = |item: EvidenceRecord| has_owner(sites@, edges@, item) && phase_of(item.kind@) == phase;
    facts_are_parted(profiles@, inputs@, sites@, edges@, evidence@, FactKind::Evidence, wanted);
    let keep = evidence_has_owner(sites@, edges@, evidence@);
    let item = evidence_fact(profiles@, inputs@, sites@, edges@, evidence@);
    let both = |i: int| keep(i) && wanted(item(i));
    collected_are_counted(evidence@.len() as int, keep, item, wanted, both);
    assert forall|i: int| 0 <= i < evidence@.len() implies #[trigger] both(i) == of(evidence@[i]) by {
        owners_are_found(sites@, edges@, evidence@[i]);
    }
    kept_is_wanted(evidence@, of, both);
}

proof fn facts_of_a_profile_are_held(
    profiles: Seq<ProfileRecord>,
    inputs: Seq<String>,
    count: int,
    p: int,
    fact: FactModel,
)
    requires
        0 <= p < count <= profiles.len(),
        facts_of_profile(profiles[p]@, inputs[p]@).contains(fact),
    ensures
        profile_facts(profiles, inputs, count).contains(fact),
    decreases count,
{
    let earlier = profile_facts(profiles, inputs, count - 1);
    let own = facts_of_profile(profiles[count - 1]@, inputs[count - 1]@);
    let all = profile_facts(profiles, inputs, count);
    if p == count - 1 {
        let i = choose|i: int| 0 <= i < own.len() && own[i] == fact;
        assert(all[earlier.len() + i] == fact);
    } else {
        facts_of_a_profile_are_held(profiles, inputs, count - 1, p, fact);
        let i = choose|i: int| 0 <= i < earlier.len() && earlier[i] == fact;
        assert(all[i] == fact);
    }
}

/// A profile that names its phase is a fact of that phase, and each level that it reached is one of
/// the phase of the level.
pub proof fn facts_name_the_profiles(
    profiles: &Vec<ProfileRecord>,
    inputs: &Vec<String>,
    sites: &Vec<SiteRecord>,
    edges: &Vec<EdgeRecord>,
    evidence: &Vec<EvidenceRecord>,
    correlated: &Vec<CorrelatedSite>,
    facts: Vec<Fact>,
    p: int,
    l: int,
)
    requires
        call_ensures(matrix_facts, (profiles, inputs, sites, edges, evidence, correlated), facts),
        0 <= p < profiles@.len(),
    ensures
        profiles@[p].properties@.text_field("profile_phase"@) matches Some(name) ==> exists|f: int|
            0 <= f < facts@.len() && (#[trigger] facts@[f]).kind == FactKind::Profile && facts@[f].phase == phase_of(
                name,
            ) && facts@[f].profile_id@ == profiles@[p].id@ && facts@[f].input is Some && facts@[f].input->0@
                == inputs@[p]@,
        profiles@[p].coverage is Some && 0 <= l < profiles@[p].coverage->0.completeness@.len()
            && crate::profile_matrix::phase_of_completeness(profiles@[p].coverage->0.completeness@[l]@) is Some
            ==> exists|f: int|
            0 <= f < facts@.len() && (#[trigger] facts@[f]).kind == FactKind::Completeness && Some(facts@[f].phase)
                == crate::profile_matrix::phase_of_completeness(profiles@[p].coverage->0.completeness@[l]@)
                && facts@[f].profile_id@ == profiles@[p].id@ && facts@[f].text@
                == profiles@[p].coverage->0.completeness@[l]@ && facts@[f].input is Some && facts@[f].input->0@
                == inputs@[p]@,
{
    let all = fact_models(facts@);
    let of_profiles = profile_facts(profiles@, inputs@, profiles@.len() as int);
    let profile = profiles@[p]@;
    let input = inputs@[p]@;
    let own = facts_of_profile(profile, input);
    if let Some(name) = profiles@[p].properties@.text_field("profile_phase"@) {
        let fact = FactModel {
            input: Some(input),
            phase: phase_of(name),
            profile_id: profile.id,
            kind: FactKind::Profile,
            text: Seq::empty(),
        };
        assert(own[0] == fact);
        assert(own.contains(fact));
        facts_of_a_profile_are_held(profiles@, inputs@, profiles@.len() as int, p, fact);
        let f = choose|f: int| 0 <= f < of_profiles.len() && of_profiles[f] == fact;
        assert(all[f] == fact);
        assert(all.len() == facts@.len());
        assert(all[f] == facts@[f]@);
    }
    if profiles@[p].coverage is Some && 0 <= l < profiles@[p].coverage->0.completeness@.len()
        && crate::profile_matrix::phase_of_completeness(profiles@[p].coverage->0.completeness@[l]@) is Some {
        let levels = profile.coverage->0.completeness;
        assert(levels[l] == profiles@[p].coverage->0.completeness@[l]@);
        let keep = level_has_phase(levels);
        let item = level_fact(profile.id, input, levels);
        let fact = item(l);
        let listed = collect(levels.len() as int, keep, item);
        collect_holds_the_kept_items(levels.len() as int, keep, item, fact);
        assert(keep(l) && item(l) == fact);
        let i = choose|i: int| 0 <= i < listed.len() && listed[i] == fact;
        assert(own[own.len() - listed.len() + i] == fact);
        assert(own.contains(fact));
        facts_of_a_profile_are_held(profiles@, inputs@, profiles@.len() as int, p, fact);
        let f = choose|f: int| 0 <= f < of_profiles.len() && of_profiles[f] == fact;
        assert(all[f] == fact);
        assert(all.len() == facts@.len());
        assert(all[f] == facts@[f]@);
    }
}

} // verus!

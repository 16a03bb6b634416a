//! The facts from which the profile matrix is made, and what they cover by phase.

use vstd::prelude::*;

use crate::order::{
    collect, count_of, count_of_is_bounded, is_sorted_set, last_position, positions_of, sorted_set,
    TextIndex,
};
use crate::profile_matrix::{
    canonical_phase, completeness_phase, evidence_kind_phase, phase_at, phase_name, phase_of, phase_of_completeness,
    profile_ids_of, profile_index, profile_position, Phase, PhaseCoverageRecord,
};
use crate::records::{EdgeRecord, EvidenceRecord, ProfileModel, ProfileRecord, SiteRecord};
use crate::text::{same, texts};

verus! {

// ---------------------------------------------------------------------------------------
// Sites and their phases
// ---------------------------------------------------------------------------------------

/// The identities of sites.
pub open spec fn site_ids_of(sites: Seq<SiteRecord>) -> Seq<Seq<char>> {
    Seq::new(sites.len(), |i: int| sites[i].id@)
}

/// The identities of edges.
pub open spec fn edge_ids_of(edges: Seq<EdgeRecord>) -> Seq<Seq<char>> {
    Seq::new(edges.len(), |i: int| edges[i].id@)
}

/// The owners of evidence.
pub open spec fn owner_ids_of(evidence: Seq<EvidenceRecord>) -> Seq<Seq<char>> {
    Seq::new(evidence.len(), |i: int| evidence[i].owner_id@)
}

/// Among the first `count` of the given pieces of evidence, the piece for a site with the
/// least ordinal; the first of equals.
pub open spec fn leading_evidence(
    evidence: Seq<EvidenceRecord>,
    positions: Seq<int>,
    count: int,
) -> Option<int>
    decreases count,
{
    if count <= 0 {
        None
    } else {
        let earlier = leading_evidence(evidence, positions, count - 1);
        let p = positions[count - 1];
        if evidence[p].owner_type@ != "site"@ {
            earlier
        } else {
            match earlier {
                None => Some(p),
                Some(q) => if evidence[p].ordinal < evidence[q].ordinal {
                    Some(p)
                } else {
                    Some(q)
                },
            }
        }
    }
}

/// The phase of a site: that of its leading evidence, else the static phase.
pub open spec fn site_phase(evidence: Seq<EvidenceRecord>, site_id: Seq<char>) -> Phase {
    let positions = positions_of(owner_ids_of(evidence), site_id, evidence.len() as int);
    match leading_evidence(evidence, positions, positions.len() as int) {
        Some(p) => phase_of(evidence[p].kind@),
        None => Phase::Static,
    }
}

/// A site whose profile is known.
#[derive(Debug, Clone, Copy, PartialEq, Eq)]
pub struct CorrelatedSite {
    pub site: usize,
    pub profile: usize,
    pub phase: Phase,
}

/// A site whose profile is known, by positions.
pub struct CorrelatedModel {
    pub site: int,
    pub profile: int,
    pub phase: Phase,
}

impl View for CorrelatedSite {
    type V = CorrelatedModel;

    open spec fn view(&self) -> CorrelatedModel {
        CorrelatedModel { site: self.site as int, profile: self.profile as int, phase: self.phase }
    }
}

/// What correlated sites hold.
pub open spec fn correlated_models(sites: Seq<CorrelatedSite>) -> Seq<CorrelatedModel> {
    Seq::new(sites.len(), |i: int| sites[i]@)
}

/// Which sites have a known profile.
pub open spec fn has_known_profile(
    profiles: Seq<ProfileRecord>,
    sites: Seq<SiteRecord>,
) -> spec_fn(int) -> bool {
    |i: int| profile_position(profiles, sites[i].profile_id@) is Some
}

/// A site with the position of its profile and its phase.
pub open spec fn correlated_site(
    profiles: Seq<ProfileRecord>,
    sites: Seq<SiteRecord>,
    evidence: Seq<EvidenceRecord>,
) -> spec_fn(int) -> CorrelatedModel {
    |i: int|
        CorrelatedModel {
            site: i,
            profile: profile_position(profiles, sites[i].profile_id@)->0,
            phase: site_phase(evidence, sites[i].id@),
        }
}

/// The sites whose profile is known, in order.
pub open spec fn correlated_sites_of(
    profiles: Seq<ProfileRecord>,
    sites: Seq<SiteRecord>,
    evidence: Seq<EvidenceRecord>,
) -> Seq<CorrelatedModel> {
    collect(
        sites.len() as int,
        has_known_profile(profiles, sites),
        correlated_site(profiles, sites, evidence),
    )
}

fn owner_index(evidence: &Vec<EvidenceRecord>) -> (result: TextIndex)
    ensures
        result.keys() == owner_ids_of(evidence@),
{
    let mut ids: Vec<String> = Vec::new();
    let mut i: usize = 0;
    while i < evidence.len()
        invariant
            i <= evidence.len(),
            ids.len() == i,
            forall|k: int| 0 <= k < i ==> ids@[k]@ == evidence@[k].owner_id@,
        decreases evidence.len() - i,
    {
        ids.push(evidence[i].owner_id.clone());
        i = i + 1;
    }
    assert(texts(ids@) =~= owner_ids_of(evidence@));
    TextIndex::new(ids)
}

fn site_index(sites: &Vec<SiteRecord>) -> (result: TextIndex)
    ensures
        result.keys() == site_ids_of(sites@),
{
    let mut ids: Vec<String> = Vec::new();
    let mut i: usize = 0;
    while i < sites.len()
        invariant
            i <= sites.len(),
            ids.len() == i,
            forall|k: int| 0 <= k < i ==> ids@[k]@ == sites@[k].id@,
        decreases sites.len() - i,
    {
        ids.push(sites[i].id.clone());
        i = i + 1;
    }
    assert(texts(ids@) =~= site_ids_of(sites@));
    TextIndex::new(ids)
}

fn edge_index(edges: &Vec<EdgeRecord>) -> (result: TextIndex)
    ensures
        result.keys() == edge_ids_of(edges@),
{
    let mut ids: Vec<String> = Vec::new();
    let mut i: usize = 0;
    while i < edges.len()
        invariant
            i <= edges.len(),
            ids.len() == i,
            forall|k: int| 0 <= k < i ==> ids@[k]@ == edges@[k].id@,
        decreases edges.len() - i,
    {
        ids.push(edges[i].id.clone());
        i = i + 1;
    }
    assert(texts(ids@) =~= edge_ids_of(edges@));
    TextIndex::new(ids)
}

fn phase_of_site(evidence: &Vec<EvidenceRecord>, owners: &TextIndex, site_id: &str) -> (result: Phase)
    requires
        owners.keys() == owner_ids_of(evidence@),
    ensures
        result == site_phase(evidence@, site_id@),
{
    let found = owners.positions(site_id);
    let ghost positions = positions_of(owner_ids_of(evidence@), site_id@, evidence@.len() as int);
    let mut leading: Option<usize> = None;
    let mut i: usize = 0;
    assert(forall|k: int| 0 <= k < found.len() ==> #[trigger] positions[k] == found@[k]) by {
        let listed = Seq::new(found@.len(), |i: int| found@[i] as int);
        assert(listed == positions);
    }
    while i < found.len()
        invariant
            i <= found.len(),
            found.len() == positions.len(),
            forall|k: int| 0 <= k < found.len() ==> #[trigger] positions[k] == found@[k],
            forall|k: int| 0 <= k < found.len() ==> (#[trigger] found@[k]) < evidence.len(),
            match leading {
                Some(p) => p < evidence.len() && leading_evidence(evidence@, positions, i as int) == Some(p as int),
                None => leading_evidence(evidence@, positions, i as int) is None,
            },
        decreases found.len() - i,
    {
        let p: usize = found[i];
        assert(positions[i as int] == p);
        if same(evidence[p].owner_type.as_str(), "site") {
            match leading {
                None => {
                    leading = Some(p);
                },
                Some(q) => {
                    if evidence[p].ordinal < evidence[q].ordinal {
                        leading = Some(p);
                    }
                },
            }
        }
        i = i + 1;
    }
    match leading {
        Some(p) => evidence_kind_phase(evidence[p].kind.as_str()),
        None => Phase::Static,
    }
}

/// The sites whose profile is known, each with the position of its profile and its phase.
pub fn correlated_sites(
    profiles: &Vec<ProfileRecord>,
    sites: &Vec<SiteRecord>,
    evidence: &Vec<EvidenceRecord>,
) -> (result: Vec<CorrelatedSite>)
    ensures
        correlated_models(result@) == correlated_sites_of(profiles@, sites@, evidence@),
        forall|i: int|
            0 <= i < result.len() ==> (#[trigger] result@[i]).site < sites.len() && result@[i].profile
                < profiles.len(),
{
    let index = profile_index(profiles);
    let owners = owner_index(evidence);
    let ghost keep = has_known_profile(profiles@, sites@);
    let ghost item = correlated_site(profiles@, sites@, evidence@);
    let mut result: Vec<CorrelatedSite> = Vec::new();
    let mut i: usize = 0;
    assert(correlated_models(result@) =~= collect(0, keep, item));
    while i < sites.len()
        invariant
            i <= sites.len(),
            index.keys() == profile_ids_of(profiles@),
            owners.keys() == owner_ids_of(evidence@),
            keep == has_known_profile(profiles@, sites@),
            item == correlated_site(profiles@, sites@, evidence@),
            correlated_models(result@) == collect(i as int, keep, item),
            forall|k: int|
                0 <= k < result.len() ==> (#[trigger] result@[k]).site < sites.len() && result@[k].profile
                    < profiles.len(),
        decreases sites.len() - i,
    {
        if let Some(profile) = index.last(sites[i].profile_id.as_str()) {
            let phase = phase_of_site(evidence, &owners, sites[i].id.as_str());
            let ghost earlier = result@;
            let entry = CorrelatedSite { site: i, profile, phase };
            result.push(entry);
            assert(entry@ == item(i as int));
            assert(correlated_models(result@) =~= correlated_models(earlier).push(entry@));
        }
        i = i + 1;
    }
    result
}

// ---------------------------------------------------------------------------------------
// Facts
// ---------------------------------------------------------------------------------------

/// What a fact was read from.
#[derive(Debug, Clone, Copy, PartialEq, Eq, Structural)]
pub enum FactKind {
    Profile,
    Completeness,
    Site,
    Edge,
    Evidence,
}

/// One observation about a profile in a phase. The text is the level of completeness or
/// the resolution of a site.
#[derive(Debug, Clone, PartialEq, Eq)]
pub struct Fact {
    pub input: Option<String>,
    pub phase: Phase,
    pub profile_id: String,
    pub kind: FactKind,
    pub text: String,
}

/// What a fact holds.
#[verifier::ext_equal]
pub struct FactModel {
    pub input: Option<Seq<char>>,
    pub phase: Phase,
    pub profile_id: Seq<char>,
    pub kind: FactKind,
    pub text: Seq<char>,
}

impl View for Fact {
    type V = FactModel;

    open spec fn view(&self) -> FactModel {
        FactModel {
            input: crate::text::opt_text(self.input),
            phase: self.phase,
            profile_id: self.profile_id@,
            kind: self.kind,
            text: self.text@,
        }
    }
}

/// What facts hold.
pub open spec fn fact_models(facts: Seq<Fact>) -> Seq<FactModel> {
    Seq::new(facts.len(), |i: int| facts[i]@)
}

/// The effective input of a profile by identity, where the profile is known.
pub open spec fn input_of(
    profiles: Seq<ProfileRecord>,
    inputs: Seq<String>,
    profile_id: Seq<char>,
) -> Option<Seq<char>> {
    match profile_position(profiles, profile_id) {
        Some(i) => Some(inputs[i]@),
        None => None,
    }
}

/// Which levels of completeness belong to a phase.
pub open spec fn level_has_phase(levels: Seq<Seq<char>>) -> spec_fn(int) -> bool {
    |i: int| phase_of_completeness(levels[i]) is Some
}

/// The fact that a profile reached a level of completeness.
pub open spec fn level_fact(
    profile_id: Seq<char>,
    input: Seq<char>,
    levels: Seq<Seq<char>>,
) -> spec_fn(int) -> FactModel {
    |i: int|
        FactModel {
            input: Some(input),
            phase: phase_of_completeness(levels[i])->0,
            profile_id,
            kind: FactKind::Completeness,
            text: levels[i],
        }
}

/// The facts of one profile: the phase that it declares, then its completeness.
pub open spec fn facts_of_profile(profile: ProfileModel, input: Seq<char>) -> Seq<FactModel> {
    let declared = match profile.properties.text_field("profile_phase"@) {
        Some(phase) => seq![
            FactModel {
                input: Some(input),
                phase: phase_of(phase),
                profile_id: profile.id,
                kind: FactKind::Profile,
                text: Seq::empty(),
            },
        ],
        None => Seq::empty(),
    };
    let levels = match profile.coverage {
        Some(coverage) => collect(
            coverage.completeness.len() as int,
            level_has_phase(coverage.completeness),
            level_fact(profile.id, input, coverage.completeness),
        ),
        None => Seq::empty(),
    };
    declared + levels
}

/// The facts of the first `count` profiles.
pub open spec fn profile_facts(
    profiles: Seq<ProfileRecord>,
    inputs: Seq<String>,
    count: int,
) -> Seq<FactModel>
    decreases count,
{
    if count <= 0 {
        Seq::empty()
    } else {
        profile_facts(profiles, inputs, count - 1) + facts_of_profile(profiles[count - 1]@, inputs[count - 1]@)
    }
}

/// The facts of correlated sites, one for each.
pub open spec fn site_facts(
    sites: Seq<SiteRecord>,
    inputs: Seq<String>,
    correlated: Seq<CorrelatedModel>,
) -> Seq<FactModel> {
    Seq::new(
        correlated.len(),
        |i: int|
            FactModel {
                input: Some(inputs[correlated[i].profile]@),
                phase: correlated[i].phase,
                profile_id: sites[correlated[i].site].profile_id@,
                kind: FactKind::Site,
                text: sites[correlated[i].site].resolution_status@,
            },
    )
}

/// Which edges have a known profile.
pub open spec fn edge_has_profile(
    profiles: Seq<ProfileRecord>,
    edges: Seq<EdgeRecord>,
) -> spec_fn(int) -> bool {
    |i: int| profile_position(profiles, edges[i].profile_id@) is Some
}

/// The fact of an edge.
pub open spec fn edge_fact(
    profiles: Seq<ProfileRecord>,
    inputs: Seq<String>,
    edges: Seq<EdgeRecord>,
) -> spec_fn(int) -> FactModel {
    |i: int|
        FactModel {
            input: input_of(profiles, inputs, edges[i].profile_id@),
            phase: phase_of(edges[i].phase@),
            profile_id: edges[i].profile_id@,
            kind: FactKind::Edge,
            text: Seq::empty(),
        }
}

/// The profile of the site or edge that owns a piece of evidence; the last of several
/// owners with one identity counts.
pub open spec fn owner_profile(
    sites: Seq<SiteRecord>,
    edges: Seq<EdgeRecord>,
    owner_type: Seq<char>,
    owner_id: Seq<char>,
) -> Option<Seq<char>> {
    if owner_type == "site"@ {
        match last_position(site_ids_of(sites), owner_id, sites.len() as int) {
            Some(i) => Some(sites[i].profile_id@),
            None => None,
        }
    } else if owner_type == "edge"@ {
        match last_position(edge_ids_of(edges), owner_id, edges.len() as int) {
            Some(i) => Some(edges[i].profile_id@),
            None => None,
        }
    } else {
        None
    }
}

/// Which pieces of evidence have an owner with a profile.
pub open spec fn evidence_has_owner(
    sites: Seq<SiteRecord>,
    edges: Seq<EdgeRecord>,
    evidence: Seq<EvidenceRecord>,
) -> spec_fn(int) -> bool {
    |i: int| owner_profile(sites, edges, evidence[i].owner_type@, evidence[i].owner_id@) is Some
}

/// The fact of a piece of evidence.
pub open spec fn evidence_fact(
    profiles: Seq<ProfileRecord>,
    inputs: Seq<String>,
    sites: Seq<SiteRecord>,
    edges: Seq<EdgeRecord>,
    evidence: Seq<EvidenceRecord>,
) -> spec_fn(int) -> FactModel {
    |i: int|
        {
            let profile_id = owner_profile(sites, edges, evidence[i].owner_type@, evidence[i].owner_id@)->0;
            FactModel {
                input: input_of(profiles, inputs, profile_id),
                phase: phase_of(evidence[i].kind@),
                profile_id,
                kind: FactKind::Evidence,
                text: Seq::empty(),
            }
        }
}

/// All facts of a graph: of its profiles, its correlated sites, its edges with a known
/// profile and the evidence of its sites and edges.
pub open spec fn all_facts(
    profiles: Seq<ProfileRecord>,
    inputs: Seq<String>,
    sites: Seq<SiteRecord>,
    edges: Seq<EdgeRecord>,
    evidence: Seq<EvidenceRecord>,
) -> Seq<FactModel> {
    profile_facts(profiles, inputs, profiles.len() as int) + site_facts(
        sites,
        inputs,
        correlated_sites_of(profiles, sites, evidence),
    ) + collect(edges.len() as int, edge_has_profile(profiles, edges), edge_fact(profiles, inputs, edges))
        + collect(
        evidence.len() as int,
        evidence_has_owner(sites, edges, evidence),
        evidence_fact(profiles, inputs, sites, edges, evidence),
    )
}

fn push_fact(facts: &mut Vec<Fact>, fact: Fact)
    ensures
        fact_models(final(facts)@) == fact_models(old(facts)@).push(fact@),
        final(facts)@.len() == old(facts)@.len() + 1,
{
    facts.push(fact);
    assert(fact_models(facts@) =~= fact_models(old(facts)@).push(fact@));
}

fn push_facts_of_profile(facts: &mut Vec<Fact>, profile: &ProfileRecord, input: &String)
    ensures
        fact_models(final(facts)@) == fact_models(old(facts)@) + facts_of_profile(profile@, input@),
{
    let ghost start = fact_models(facts@);
    if let Some(phase) = profile.properties.get_str("profile_phase") {
        push_fact(
            facts,
            Fact {
                input: Some(input.clone()),
                phase: canonical_phase(phase),
                profile_id: profile.id.clone(),
                kind: FactKind::Profile,
                text: String::new(),
            },
        );
    }
    let ghost declared = match profile@.properties.text_field("profile_phase"@) {
        Some(phase) => seq![
            FactModel {
                input: Some(input@),
                phase: phase_of(phase),
                profile_id: profile@.id,
                kind: FactKind::Profile,
                text: Seq::empty(),
            },
        ],
        None => Seq::empty(),
    };
    assert(fact_models(facts@) =~= start + declared);
    match &profile.coverage {
        Some(coverage) => {
            let ghost levels = coverage@.completeness;
            let ghost keep = level_has_phase(levels);
            let ghost item = level_fact(profile@.id, input@, levels);
            let mut i: usize = 0;
            assert(fact_models(facts@) =~= start + declared + collect(0, keep, item));
            while i < coverage.completeness.len()
                invariant
                    i <= coverage.completeness.len(),
                    levels == texts(coverage.completeness@),
                    keep == level_has_phase(levels),
                    item == level_fact(profile@.id, input@, levels),
                    fact_models(facts@) == start + declared + collect(i as int, keep, item),
                decreases coverage.completeness.len() - i,
            {
                assert(levels[i as int] == coverage.completeness@[i as int]@);
                if let Some(phase) = completeness_phase(coverage.completeness[i].as_str()) {
                    let fact = Fact {
                        input: Some(input.clone()),
                        phase,
                        profile_id: profile.id.clone(),
                        kind: FactKind::Completeness,
                        text: coverage.completeness[i].clone(),
                    };
                    assert(fact@ =~= item(i as int));
                    push_fact(facts, fact);
                    assert(fact_models(facts@) =~= start + declared + collect(i + 1, keep, item));
                }
                i = i + 1;
            }
        },
        None => {},
    }
    assert(fact_models(facts@) =~= start + facts_of_profile(profile@, input@));
}

fn input_of_profile(
    profiles: &Vec<ProfileRecord>,
    index: &TextIndex,
    inputs: &Vec<String>,
    profile_id: &str,
) -> (result: Option<String>)
    requires
        index.keys() == profile_ids_of(profiles@),
        inputs.len() == profiles.len(),
    ensures
        crate::text::opt_text(result) == input_of(profiles@, inputs@, profile_id@),
{
    match index.last(profile_id) {
        Some(i) => Some(inputs[i].clone()),
        None => None,
    }
}

fn profile_of_owner(
    sites: &Vec<SiteRecord>,
    edges: &Vec<EdgeRecord>,
    site_lookup: &TextIndex,
    edge_lookup: &TextIndex,
    owner_type: &str,
    owner_id: &str,
) -> (result: Option<String>)
    requires
        site_lookup.keys() == site_ids_of(sites@),
        edge_lookup.keys() == edge_ids_of(edges@),
    ensures
        crate::text::opt_text(result) == owner_profile(sites@, edges@, owner_type@, owner_id@),
{
    if same(owner_type, "site") {
        match site_lookup.last(owner_id) {
            Some(i) => Some(sites[i].profile_id.clone()),
            None => None,
        }
    } else if same(owner_type, "edge") {
        match edge_lookup.last(owner_id) {
            Some(i) => Some(edges[i].profile_id.clone()),
            None => None,
        }
    } else {
        None
    }
}

/// All facts of a graph.
pub fn matrix_facts(
    profiles: &Vec<ProfileRecord>,
    inputs: &Vec<String>,
    sites: &Vec<SiteRecord>,
    edges: &Vec<EdgeRecord>,
    evidence: &Vec<EvidenceRecord>,
    correlated: &Vec<CorrelatedSite>,
) -> (result: Vec<Fact>)
    requires
        inputs.len() == profiles.len(),
        correlated_models(correlated@) == correlated_sites_of(profiles@, sites@, evidence@),
        forall|i: int|
            0 <= i < correlated.len() ==> (#[trigger] correlated@[i]).site < sites.len()
                && correlated@[i].profile < profiles.len(),
    ensures
        fact_models(result@) == all_facts(profiles@, inputs@, sites@, edges@, evidence@),
{
    let index = profile_index(profiles);
    let site_lookup = site_index(sites);
    let edge_lookup = edge_index(edges);
    let mut facts: Vec<Fact> = Vec::new();
    let mut i: usize = 0;
    assert(fact_models(facts@) =~= profile_facts(profiles@, inputs@, 0));
    while i < profiles.len()
        invariant
            i <= profiles.len(),
            inputs.len() == profiles.len(),
            fact_models(facts@) == profile_facts(profiles@, inputs@, i as int),
        decreases profiles.len() - i,
    {
        push_facts_of_profile(&mut facts, &profiles[i], &inputs[i]);
        i = i + 1;
    }
    let ghost first = fact_models(facts@);
    let ghost models = correlated_models(correlated@);
    let ghost second = site_facts(sites@, inputs@, models);
    let mut i: usize = 0;
    assert(first =~= first + second.subrange(0, 0));
    while i < correlated.len()
        invariant
            i <= correlated.len(),
            inputs.len() == profiles.len(),
            models == correlated_models(correlated@),
            second == site_facts(sites@, inputs@, models),
            forall|k: int|
                0 <= k < correlated.len() ==> (#[trigger] correlated@[k]).site < sites.len()
                    && correlated@[k].profile < profiles.len(),
            fact_models(facts@) == first + second.subrange(0, i as int),
        decreases correlated.len() - i,
    {
        let site = correlated[i].site;
        let profile = correlated[i].profile;
        assert(models[i as int] == correlated@[i as int]@);
        let fact = Fact {
            input: Some(inputs[profile].clone()),
            phase: correlated[i].phase,
            profile_id: sites[site].profile_id.clone(),
            kind: FactKind::Site,
            text: sites[site].resolution_status.clone(),
        };
        assert(fact@ =~= second[i as int]);
        push_fact(&mut facts, fact);
        i = i + 1;
        assert(fact_models(facts@) =~= first + second.subrange(0, i as int));
    }
    assert(second.subrange(0, second.len() as int) =~= second);
    let ghost keep = edge_has_profile(profiles@, edges@);
    let ghost item = edge_fact(profiles@, inputs@, edges@);
    let mut i: usize = 0;
    assert(fact_models(facts@) =~= first + second + collect(0, keep, item));
    while i < edges.len()
        invariant
            i <= edges.len(),
            inputs.len() == profiles.len(),
            index.keys() == profile_ids_of(profiles@),
            keep == edge_has_profile(profiles@, edges@),
            item == edge_fact(profiles@, inputs@, edges@),
            fact_models(facts@) == first + second + collect(i as int, keep, item),
        decreases edges.len() - i,
    {
        let input = input_of_profile(profiles, &index, inputs, edges[i].profile_id.as_str());
        if input.is_some() {
            let fact = Fact {
                input,
                phase: canonical_phase(edges[i].phase.as_str()),
                profile_id: edges[i].profile_id.clone(),
                kind: FactKind::Edge,
                text: String::new(),
            };
            assert(fact@ =~= item(i as int));
            push_fact(&mut facts, fact);
            assert(fact_models(facts@) =~= first + second + collect(i + 1, keep, item));
        }
        i = i + 1;
    }
    let ghost third = collect(edges@.len() as int, keep, item);
    let ghost keep = evidence_has_owner(sites@, edges@, evidence@);
    let ghost item = evidence_fact(profiles@, inputs@, sites@, edges@, evidence@);
    let mut i: usize = 0;
    assert(fact_models(facts@) =~= first + second + third + collect(0, keep, item));
    while i < evidence.len()
        invariant
            i <= evidence.len(),
            inputs.len() == profiles.len(),
            index.keys() == profile_ids_of(profiles@),
            site_lookup.keys() == site_ids_of(sites@),
            edge_lookup.keys() == edge_ids_of(edges@),
            keep == evidence_has_owner(sites@, edges@, evidence@),
            item == evidence_fact(profiles@, inputs@, sites@, edges@, evidence@),
            fact_models(facts@) == first + second + third + collect(i as int, keep, item),
        decreases evidence.len() - i,
    {
        let owner = profile_of_owner(
            sites,
            edges,
            &site_lookup,
            &edge_lookup,
            evidence[i].owner_type.as_str(),
            evidence[i].owner_id.as_str(),
        );
        match owner {
            Some(profile_id) => {
                let fact = Fact {
                    input: input_of_profile(profiles, &index, inputs, profile_id.as_str()),
                    phase: evidence_kind_phase(evidence[i].kind.as_str()),
                    profile_id,
                    kind: FactKind::Evidence,
                    text: String::new(),
                };
                assert(fact@ =~= item(i as int));
                push_fact(&mut facts, fact);
                assert(fact_models(facts@) =~= first + second + third + collect(i + 1, keep, item));
            },
            None => {},
        }
        i = i + 1;
    }
    facts
}

// ---------------------------------------------------------------------------------------
// Coverage by phase
// ---------------------------------------------------------------------------------------

/// Whether a fact belongs to a phase and a scope: an effective input, or everything.
pub open spec fn fact_in_scope(fact: FactModel, scope: Option<Seq<char>>, phase: Phase) -> bool {
    fact.phase == phase && (scope is None || fact.input == scope)
}

/// Which facts belong to a phase and a scope.
pub open spec fn in_scope(
    facts: Seq<FactModel>,
    scope: Option<Seq<char>>,
    phase: Phase,
) -> spec_fn(int) -> bool {
    |i: int| fact_in_scope(facts[i], scope, phase)
}

/// Which facts of a kind belong to a phase and a scope.
pub open spec fn kind_in_scope(
    facts: Seq<FactModel>,
    scope: Option<Seq<char>>,
    phase: Phase,
    kind: FactKind,
) -> spec_fn(int) -> bool {
    |i: int| fact_in_scope(facts[i], scope, phase) && facts[i].kind == kind
}

/// Which facts of sites with a resolution belong to a phase and a scope.
pub open spec fn status_in_scope(
    facts: Seq<FactModel>,
    scope: Option<Seq<char>>,
    phase: Phase,
    status: Seq<char>,
) -> spec_fn(int) -> bool {
    |i: int| fact_in_scope(facts[i], scope, phase) && facts[i].kind == FactKind::Site && facts[i].text == status
}

/// The profiles of facts.
pub open spec fn fact_profile(facts: Seq<FactModel>) -> spec_fn(int) -> Seq<char> {
    |i: int| facts[i].profile_id
}

/// The texts of facts.
pub open spec fn fact_text(facts: Seq<FactModel>) -> spec_fn(int) -> Seq<char> {
    |i: int| facts[i].text
}

/// Whether a record is the coverage of a phase in a scope: its profiles and levels each
/// once, ascending, and the numbers of sites, edges, evidence and resolutions.
pub open spec fn is_phase_coverage(
    record: PhaseCoverageRecord,
    facts: Seq<FactModel>,
    scope: Option<Seq<char>>,
    phase: Phase,
) -> bool {
    let n = facts.len() as int;
    &&& is_sorted_set(texts(record.profile_ids@), collect(n, in_scope(facts, scope, phase), fact_profile(facts)))
    &&& record.sites == count_of(n, kind_in_scope(facts, scope, phase, FactKind::Site))
    &&& record.edges == count_of(n, kind_in_scope(facts, scope, phase, FactKind::Edge))
    &&& record.evidence == count_of(n, kind_in_scope(facts, scope, phase, FactKind::Evidence))
    &&& record.resolved == count_of(n, status_in_scope(facts, scope, phase, "resolved"@))
    &&& record.candidates == count_of(n, status_in_scope(facts, scope, phase, "candidates"@))
    &&& record.external == count_of(n, status_in_scope(facts, scope, phase, "external"@))
    &&& record.unresolved == count_of(n, status_in_scope(facts, scope, phase, "unresolved"@))
    &&& is_sorted_set(
        texts(record.completeness@),
        collect(n, kind_in_scope(facts, scope, phase, FactKind::Completeness), fact_text(facts)),
    )
}

/// Whether a phase occurs in a scope.
pub open spec fn occurs(facts: Seq<FactModel>, scope: Option<Seq<char>>, phase: Phase) -> bool {
    count_of(facts.len() as int, in_scope(facts, scope, phase)) > 0
}

/// Which phases occur in a scope.
pub open spec fn phase_occurs(facts: Seq<FactModel>, scope: Option<Seq<char>>) -> spec_fn(int) -> bool {
    |i: int| occurs(facts, scope, phase_at(i))
}

/// The phases that occur in a scope, in the order of their names.
pub open spec fn occurring_phases(facts: Seq<FactModel>, scope: Option<Seq<char>>) -> Seq<Phase> {
    collect(4, phase_occurs(facts, scope), |i: int| phase_at(i))
}

/// Whether a list gives the coverage of each phase that occurs in a scope, in the order
/// of the names.
pub open spec fn is_coverage_by_phase(
    list: Seq<(String, PhaseCoverageRecord)>,
    facts: Seq<FactModel>,
    scope: Option<Seq<char>>,
) -> bool {
    let phases = occurring_phases(facts, scope);
    &&& list.len() == phases.len()
    &&& forall|i: int|
        0 <= i < list.len() ==> (#[trigger] list[i]).0@ == phase_name(phases[i]) && is_phase_coverage(
            list[i].1,
            facts,
            scope,
            phases[i],
        )
}

fn is_in_scope(fact: &Fact, scope: Option<&str>, phase: Phase) -> (result: bool)
    ensures
        result == fact_in_scope(fact@, crate::operations::opt_str(scope), phase),
{
    if fact.phase != phase {
        return false;
    }
    match scope {
        None => true,
        Some(input) => match &fact.input {
            Some(own) => same(own.as_str(), input),
            None => false,
        },
    }
}

/// The coverage of a phase in a scope, where the phase occurs there.
pub fn phase_coverage(facts: &Vec<Fact>, scope: Option<&str>, phase: Phase) -> (result: Option<PhaseCoverageRecord>)
    ensures
        match result {
            Some(record) => occurs(fact_models(facts@), crate::operations::opt_str(scope), phase)
                && is_phase_coverage(record, fact_models(facts@), crate::operations::opt_str(scope), phase),
            None => !occurs(fact_models(facts@), crate::operations::opt_str(scope), phase),
        },
{
    let ghost f = fact_models(facts@);
    let ghost s = crate::operations::opt_str(scope);
    let mut found: bool = false;
    let mut profile_ids: Vec<String> = Vec::new();
    let mut completeness: Vec<String> = Vec::new();
    let mut sites: u64 = 0;
    let mut edges: u64 = 0;
    let mut evidence: u64 = 0;
    let mut resolved: u64 = 0;
    let mut candidates: u64 = 0;
    let mut external: u64 = 0;
    let mut unresolved: u64 = 0;
    let mut i: usize = 0;
    assert(texts(profile_ids@) =~= Seq::empty());
    assert(texts(completeness@) =~= Seq::empty());
    proof {
        reveal_strlit("resolved");
        reveal_strlit("candidates");
        reveal_strlit("external");
        reveal_strlit("unresolved");
        assert("external"@[0] == 'e' && "resolved"@[0] == 'r');
        assert("candidates"@[0] == 'c' && "unresolved"@[0] == 'u');
    }
    while i < facts.len()
        invariant
            i <= facts.len(),
            f == fact_models(facts@),
            s == crate::operations::opt_str(scope),
            "external"@[0] == 'e' && "resolved"@[0] == 'r' && "candidates"@[0] == 'c' && "unresolved"@[0] == 'u',
            found == (count_of(i as int, in_scope(f, s, phase)) > 0),
            texts(profile_ids@) == collect(i as int, in_scope(f, s, phase), fact_profile(f)),
            texts(completeness@) == collect(i as int, kind_in_scope(f, s, phase, FactKind::Completeness), fact_text(f)),
            sites == count_of(i as int, kind_in_scope(f, s, phase, FactKind::Site)),
            edges == count_of(i as int, kind_in_scope(f, s, phase, FactKind::Edge)),
            evidence == count_of(i as int, kind_in_scope(f, s, phase, FactKind::Evidence)),
            resolved == count_of(i as int, status_in_scope(f, s, phase, "resolved"@)),
            candidates == count_of(i as int, status_in_scope(f, s, phase, "candidates"@)),
            external == count_of(i as int, status_in_scope(f, s, phase, "external"@)),
            unresolved == count_of(i as int, status_in_scope(f, s, phase, "unresolved"@)),
        decreases facts.len() - i,
    {
        assert(f[i as int] == facts@[i as int]@);
        proof {
            count_of_is_bounded(i as int, kind_in_scope(f, s, phase, FactKind::Site));
            count_of_is_bounded(i as int, kind_in_scope(f, s, phase, FactKind::Edge));
            count_of_is_bounded(i as int, kind_in_scope(f, s, phase, FactKind::Evidence));
            count_of_is_bounded(i as int, status_in_scope(f, s, phase, "resolved"@));
            count_of_is_bounded(i as int, status_in_scope(f, s, phase, "candidates"@));
            count_of_is_bounded(i as int, status_in_scope(f, s, phase, "external"@));
            count_of_is_bounded(i as int, status_in_scope(f, s, phase, "unresolved"@));
        }
        if is_in_scope(&facts[i], scope, phase) {
            found = true;
            let ghost earlier = texts(profile_ids@);
            profile_ids.push(facts[i].profile_id.clone());
            assert(texts(profile_ids@) =~= earlier.push(f[i as int].profile_id));
            match facts[i].kind {
                FactKind::Profile => {},
                FactKind::Completeness => {
                    let ghost earlier = texts(completeness@);
                    completeness.push(facts[i].text.clone());
                    assert(texts(completeness@) =~= earlier.push(f[i as int].text));
                },
                FactKind::Site => {
                    sites = sites + 1;
                    if same(facts[i].text.as_str(), "resolved") {
                        resolved = resolved + 1;
                    } else if same(facts[i].text.as_str(), "candidates") {
                        candidates = candidates + 1;
                    } else if same(facts[i].text.as_str(), "external") {
                        external = external + 1;
                    } else if same(facts[i].text.as_str(), "unresolved") {
                        unresolved = unresolved + 1;
                    }
                },
                FactKind::Edge => {
                    edges = edges + 1;
                },
                FactKind::Evidence => {
                    evidence = evidence + 1;
                },
            }
        }
        i = i + 1;
    }
    if !found {
        return None;
    }
    Some(
        PhaseCoverageRecord {
            profile_ids: sorted_set(profile_ids),
            sites,
            edges,
            evidence,
            resolved,
            candidates,
            external,
            unresolved,
            completeness: sorted_set(completeness),
        },
    )
}

/// The coverage of each phase that occurs in a scope, in the order of the names.
pub fn coverage_by_phase(facts: &Vec<Fact>, scope: Option<&str>) -> (result: Vec<(String, PhaseCoverageRecord)>)
    ensures
        is_coverage_by_phase(result@, fact_models(facts@), crate::operations::opt_str(scope)),
{
    let ghost f = fact_models(facts@);
    let ghost s = crate::operations::opt_str(scope);
    let ghost item = |i: int| phase_at(i);
    let mut result: Vec<(String, PhaseCoverageRecord)> = Vec::new();
    let mut place: usize = 0;
    while place < 4
        invariant
            place <= 4,
            f == fact_models(facts@),
            s == crate::operations::opt_str(scope),
            item == (|i: int| phase_at(i)),
            result.len() == collect(place as int, phase_occurs(f, s), item).len(),
            forall|i: int|
                0 <= i < result.len() ==> (#[trigger] result@[i]).0@ == phase_name(
                    collect(place as int, phase_occurs(f, s), item)[i],
                ) && is_phase_coverage(result@[i].1, f, s, collect(place as int, phase_occurs(f, s), item)[i]),
        decreases 4 - place,
    {
        let phase = Phase::at(place);
        match phase_coverage(facts, scope, phase) {
            Some(record) => {
                result.push((String::from_str(phase.name()), record));
            },
            None => {},
        }
        place = place + 1;
    }
    result
}

} // verus!

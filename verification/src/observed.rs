//! A build as its observer reports it, and the delta that it makes.

use vstd::prelude::*;

use crate::build_attempt::BuildError;
use crate::json::{opt_json, Json};
use crate::order::{last_position, views, TextIndex};
use crate::records::{
    BuildGraphDelta, CoverageRecord, DiagnosticModel, DiagnosticRecord, EdgeModel, EdgeRecord,
    EvidenceModel, EvidenceRecord, NodeModel, NodeRecord, ProfileModel, ProfileRecord, SiteModel,
    SiteRecord,
};
use crate::text::{copy_texts, opt_text, texts};

verus! {

/// A piece of evidence as an observer reports it.
#[derive(Debug, Clone)]
pub struct ObservedEvidence {
    pub kind: String,
    pub extractor: String,
    pub extractor_version: String,
    pub path: Option<String>,
    pub start_line: Option<u32>,
    pub start_column: Option<u32>,
    pub end_line: Option<u32>,
    pub end_column: Option<u32>,
    pub detail: Option<String>,
    pub properties: Json,
}

/// A profile as an observer reports it.
#[derive(Debug, Clone)]
pub struct ObservedProfile {
    pub id: String,
    pub language: String,
    pub toolchain: Option<Json>,
    pub command: Option<String>,
    pub target: Option<String>,
    pub features: Vec<String>,
    pub environment: Json,
    pub source_revision: Option<String>,
    pub properties: Json,
}

/// A node as an observer reports it.
#[derive(Debug, Clone)]
pub struct ObservedNode {
    pub id: String,
    pub kind: String,
    pub locator: String,
    pub display_name: Option<String>,
    pub properties: Json,
}

/// A site as an observer reports it.
#[derive(Debug, Clone)]
pub struct ObservedSite {
    pub id: String,
    pub source: String,
    pub kind: String,
    pub specifier: String,
    pub profile_id: String,
    pub resolution_status: String,
    pub precision: String,
    pub condition: Json,
    pub target_ids: Vec<String>,
    pub reason: Option<String>,
    pub evidence: Vec<ObservedEvidence>,
}

/// An edge as an observer reports it.
#[derive(Debug, Clone)]
pub struct ObservedEdge {
    pub id: String,
    pub site_id: Option<String>,
    pub source: String,
    pub target: String,
    pub kind: String,
    pub phase: String,
    pub environment: Option<String>,
    pub profile_id: String,
    pub resolution_status: String,
    pub precision: String,
    pub condition: Json,
    pub generated: bool,
    pub evidence: Vec<ObservedEvidence>,
}

/// A diagnostic as an observer reports it.
#[derive(Debug, Clone)]
pub struct ObservedDiagnostic {
    pub id: String,
    pub severity: String,
    pub code: String,
    pub message: String,
    pub path: Option<String>,
    pub start_line: Option<u32>,
    pub start_column: Option<u32>,
    pub end_line: Option<u32>,
    pub end_column: Option<u32>,
    pub properties: Json,
    pub evidence: Vec<ObservedEvidence>,
}

/// Coverage of one profile.
#[derive(Debug, Clone)]
pub struct ObservedProfileCoverage {
    pub profile_id: String,
    pub coverage: CoverageRecord,
}

/// A build as its observer reports it. Coverage stands in the order of the reports; the
/// other lists stand in the order of their identities.
#[derive(Debug, Clone)]
pub struct ObservedBuild {
    pub profiles: Vec<ObservedProfile>,
    pub nodes: Vec<ObservedNode>,
    pub sites: Vec<ObservedSite>,
    pub edges: Vec<ObservedEdge>,
    pub diagnostics: Vec<ObservedDiagnostic>,
    pub profile_coverage: Vec<ObservedProfileCoverage>,
    pub coverage: Vec<CoverageRecord>,
}

// ---------------------------------------------------------------------------------------
// What becomes of each record
// ---------------------------------------------------------------------------------------

/// A line or a column that may be missing.
pub open spec fn place_or_first(place: Option<u32>) -> u64 {
    match place {
        Some(place) => place as u64,
        None => 1,
    }
}

/// A line or a column.
pub open spec fn wide_place(place: Option<u32>) -> Option<u64> {
    match place {
        Some(place) => Some(place as u64),
        None => None,
    }
}

/// A piece of evidence of an owner.
pub open spec fn evidence_of_owner(
    item: ObservedEvidence,
    owner_type: Seq<char>,
    owner_id: Seq<char>,
    ordinal: int,
) -> EvidenceModel {
    EvidenceModel {
        owner_type,
        owner_id,
        ordinal: ordinal as i64,
        kind: item.kind@,
        extractor: item.extractor@,
        extractor_version: item.extractor_version@,
        path: match opt_text(item.path) {
            Some(path) => path,
            None => Seq::empty(),
        },
        start_line: place_or_first(item.start_line),
        start_column: place_or_first(item.start_column),
        end_line: place_or_first(item.end_line),
        end_column: place_or_first(item.end_column),
        detail: opt_text(item.detail),
        properties: item.properties@,
    }
}

/// The evidence of one owner, numbered from zero.
pub open spec fn owned(items: Seq<ObservedEvidence>, owner_type: Seq<char>, owner_id: Seq<char>) -> Seq<EvidenceModel> {
    Seq::new(items.len(), |i: int| evidence_of_owner(items[i], owner_type, owner_id, i))
}

/// The evidence of the first `count` sites.
pub open spec fn site_evidence(sites: Seq<ObservedSite>, count: int) -> Seq<EvidenceModel>
    decreases count,
{
    if count <= 0 {
        Seq::empty()
    } else {
        site_evidence(sites, count - 1) + owned(sites[count - 1].evidence@, "site"@, sites[count - 1].id@)
    }
}

/// The evidence of the first `count` edges.
pub open spec fn edge_evidence(edges: Seq<ObservedEdge>, count: int) -> Seq<EvidenceModel>
    decreases count,
{
    if count <= 0 {
        Seq::empty()
    } else {
        edge_evidence(edges, count - 1) + owned(edges[count - 1].evidence@, "edge"@, edges[count - 1].id@)
    }
}

/// The evidence of the first `count` diagnostics.
pub open spec fn diagnostic_evidence(diagnostics: Seq<ObservedDiagnostic>, count: int) -> Seq<EvidenceModel>
    decreases count,
{
    if count <= 0 {
        Seq::empty()
    } else {
        diagnostic_evidence(diagnostics, count - 1) + owned(
            diagnostics[count - 1].evidence@,
            "diagnostic"@,
            diagnostics[count - 1].id@,
        )
    }
}

/// The profiles for which coverage was reported.
pub open spec fn covered_profiles(list: Seq<ObservedProfileCoverage>) -> Seq<Seq<char>> {
    Seq::new(list.len(), |i: int| list[i].profile_id@)
}

/// A profile with the coverage that was reported last for it.
pub open spec fn profile_of(profile: ObservedProfile, coverage: Seq<ObservedProfileCoverage>) -> ProfileModel {
    ProfileModel {
        id: profile.id@,
        language: profile.language@,
        toolchain: opt_json(profile.toolchain),
        command: opt_text(profile.command),
        target: opt_text(profile.target),
        features: texts(profile.features@),
        environment: profile.environment@,
        source_revision: opt_text(profile.source_revision),
        properties: profile.properties@,
        coverage: match last_position(covered_profiles(coverage), profile.id@, coverage.len() as int) {
            Some(p) => Some(coverage[p].coverage@),
            None => None,
        },
    }
}

/// A node; one without a name is named by its locator.
pub open spec fn node_of(node: ObservedNode) -> NodeModel {
    NodeModel {
        id: node.id@,
        kind: node.kind@,
        locator: node.locator@,
        display_name: match opt_text(node.display_name) {
            Some(name) => name,
            None => node.locator@,
        },
        properties: node.properties@,
    }
}

/// A site.
pub open spec fn site_of(site: ObservedSite) -> SiteModel {
    SiteModel {
        id: site.id@,
        source: site.source@,
        kind: site.kind@,
        specifier: Some(site.specifier@),
        profile_id: site.profile_id@,
        resolution_status: site.resolution_status@,
        precision: site.precision@,
        condition: site.condition@,
        target_ids: texts(site.target_ids@),
        reason: opt_text(site.reason),
    }
}

/// An edge; one without an environment is of any.
pub open spec fn edge_of(edge: ObservedEdge) -> EdgeModel {
    EdgeModel {
        id: edge.id@,
        site_id: opt_text(edge.site_id),
        source: edge.source@,
        target: edge.target@,
        kind: edge.kind@,
        phase: edge.phase@,
        environment: match opt_text(edge.environment) {
            Some(environment) => environment,
            None => "any"@,
        },
        profile_id: edge.profile_id@,
        resolution_status: edge.resolution_status@,
        precision: edge.precision@,
        condition: edge.condition@,
        generated: edge.generated,
    }
}

/// A diagnostic, numbered by its place.
pub open spec fn diagnostic_of(diagnostic: ObservedDiagnostic, ordinal: int) -> DiagnosticModel {
    DiagnosticModel {
        ordinal: ordinal as i64,
        id: diagnostic.id@,
        severity: diagnostic.severity@,
        code: diagnostic.code@,
        message: diagnostic.message@,
        path: opt_text(diagnostic.path),
        adapter: None,
        start_line: wide_place(diagnostic.start_line),
        start_column: wide_place(diagnostic.start_column),
        end_line: wide_place(diagnostic.end_line),
        end_column: wide_place(diagnostic.end_column),
        properties: diagnostic.properties@,
    }
}

/// Whether a delta holds what was observed. The coverage that was reported last is that of
/// the build.
pub open spec fn is_delta_of(build: ObservedBuild, delta: BuildGraphDelta) -> bool {
    &&& views(delta.profiles@) == Seq::new(
        build.profiles@.len(),
        |i: int| profile_of(build.profiles@[i], build.profile_coverage@),
    )
    &&& views(delta.nodes@) == Seq::new(build.nodes@.len(), |i: int| node_of(build.nodes@[i]))
    &&& views(delta.sites@) == Seq::new(build.sites@.len(), |i: int| site_of(build.sites@[i]))
    &&& views(delta.edges@) == Seq::new(build.edges@.len(), |i: int| edge_of(build.edges@[i]))
    &&& views(delta.diagnostics@) == Seq::new(
        build.diagnostics@.len(),
        |i: int| diagnostic_of(build.diagnostics@[i], i),
    )
    &&& views(delta.evidence@) == site_evidence(build.sites@, build.sites@.len() as int) + edge_evidence(
        build.edges@,
        build.edges@.len() as int,
    ) + diagnostic_evidence(build.diagnostics@, build.diagnostics@.len() as int)
    &&& delta.coverage@ == build.coverage@[build.coverage@.len() - 1]@
}

// ---------------------------------------------------------------------------------------
// The delta
// ---------------------------------------------------------------------------------------

fn place_default(place: Option<u32>) -> (result: u64)
    ensures
        result == place_or_first(place),
{
    match place {
        Some(place) => place as u64,
        None => 1,
    }
}

fn widened(place: Option<u32>) -> (result: Option<u64>)
    ensures
        result == wide_place(place),
{
    match place {
        Some(place) => Some(place as u64),
        None => None,
    }
}

fn copy_text(value: &Option<String>) -> (result: Option<String>)
    ensures
        opt_text(result) == opt_text(*value),
{
    match value {
        Some(text) => Some(text.clone()),
        None => None,
    }
}

/// Appends the evidence of an owner.
pub fn append_evidence_records(
    output: &mut Vec<EvidenceRecord>,
    owner_type: &str,
    owner_id: &str,
    evidence: &Vec<ObservedEvidence>,
)
    ensures
        views(final(output)@) == views(old(output)@) + owned(evidence@, owner_type@, owner_id@),
{
    let ghost before = views(output@);
    let mut i: usize = 0;
    assert(views(output@) =~= before + owned(evidence@, owner_type@, owner_id@).subrange(0, 0));
    while i < evidence.len()
        invariant
            i <= evidence.len(),
            views(output@) == before + owned(evidence@, owner_type@, owner_id@).subrange(0, i as int),
        decreases evidence.len() - i,
    {
        let item = &evidence[i];
        let path: String = match &item.path {
            Some(path) => path.clone(),
            None => String::new(),
        };
        let record = EvidenceRecord {
            owner_type: String::from_str(owner_type),
            owner_id: String::from_str(owner_id),
            ordinal: i as i64,
            kind: item.kind.clone(),
            extractor: item.extractor.clone(),
            extractor_version: item.extractor_version.clone(),
            path,
            start_line: place_default(item.start_line),
            start_column: place_default(item.start_column),
            end_line: place_default(item.end_line),
            end_column: place_default(item.end_column),
            detail: copy_text(&item.detail),
            properties: item.properties.copy(),
        };
        assert(record@ =~= evidence_of_owner(*item, owner_type@, owner_id@, i as int));
        let ghost earlier = views(output@);
        output.push(record);
        proof {
            let all = owned(evidence@, owner_type@, owner_id@);
            assert(views(output@) =~= earlier.push(all[i as int]));
            assert(all.subrange(0, i as int + 1) =~= all.subrange(0, i as int).push(all[i as int]));
        }
        i = i + 1;
    }
    proof {
        let all = owned(evidence@, owner_type@, owner_id@);
        assert(all.subrange(0, all.len() as int) =~= all);
    }
}

fn coverage_index(list: &Vec<ObservedProfileCoverage>) -> (result: TextIndex)
    ensures
        result.keys() == covered_profiles(list@),
{
    let mut keys: Vec<String> = Vec::new();
    let mut i: usize = 0;
    while i < list.len()
        invariant
            i <= list.len(),
            keys.len() == i,
            forall|k: int| 0 <= k < i ==> (#[trigger] keys@[k])@ == list@[k].profile_id@,
        decreases list.len() - i,
    {
        keys.push(list[i].profile_id.clone());
        i = i + 1;
    }
    assert(texts(keys@) =~= covered_profiles(list@));
    TextIndex::new(keys)
}

fn profile_records(profiles: &Vec<ObservedProfile>, coverage: &Vec<ObservedProfileCoverage>) -> (result: Vec<
    ProfileRecord,
>)
    ensures
        views(result@) == Seq::new(profiles@.len(), |i: int| profile_of(profiles@[i], coverage@)),
{
    let index = coverage_index(coverage);
    let mut result: Vec<ProfileRecord> = Vec::new();
    let mut i: usize = 0;
    while i < profiles.len()
        invariant
            i <= profiles.len(),
            index.keys() == covered_profiles(coverage@),
            result.len() == i,
            forall|k: int| 0 <= k < i ==> (#[trigger] result@[k])@ == profile_of(profiles@[k], coverage@),
        decreases profiles.len() - i,
    {
        let profile = &profiles[i];
        let own: Option<CoverageRecord> = match index.last(profile.id.as_str()) {
            Some(p) => Some(coverage[p].coverage.copy()),
            None => None,
        };
        let record = ProfileRecord {
            id: profile.id.clone(),
            language: profile.language.clone(),
            toolchain: crate::json::copy_opt_json(&profile.toolchain),
            command: copy_text(&profile.command),
            target: copy_text(&profile.target),
            features: copy_texts(&profile.features),
            environment: profile.environment.copy(),
            source_revision: copy_text(&profile.source_revision),
            properties: profile.properties.copy(),
            coverage: own,
        };
        assert(record@ =~= profile_of(profiles@[i as int], coverage@));
        result.push(record);
        i = i + 1;
    }
    assert(views(result@) =~= Seq::new(profiles@.len(), |i: int| profile_of(profiles@[i], coverage@)));
    result
}

fn node_records(nodes: &Vec<ObservedNode>) -> (result: Vec<NodeRecord>)
    ensures
        views(result@) == Seq::new(nodes@.len(), |i: int| node_of(nodes@[i])),
{
    let mut result: Vec<NodeRecord> = Vec::new();
    let mut i: usize = 0;
    while i < nodes.len()
        invariant
            i <= nodes.len(),
            result.len() == i,
            forall|k: int| 0 <= k < i ==> (#[trigger] result@[k])@ == node_of(nodes@[k]),
        decreases nodes.len() - i,
    {
        let node = &nodes[i];
        let display_name: String = match &node.display_name {
            Some(name) => name.clone(),
            None => node.locator.clone(),
        };
        let record = NodeRecord {
            id: node.id.clone(),
            kind: node.kind.clone(),
            locator: node.locator.clone(),
            display_name,
            properties: node.properties.copy(),
        };
        assert(record@ =~= node_of(nodes@[i as int]));
        result.push(record);
        i = i + 1;
    }
    assert(views(result@) =~= Seq::new(nodes@.len(), |i: int| node_of(nodes@[i])));
    result
}

fn site_records(sites: &Vec<ObservedSite>) -> (result: Vec<SiteRecord>)
    ensures
        views(result@) == Seq::new(sites@.len(), |i: int| site_of(sites@[i])),
{
    let mut result: Vec<SiteRecord> = Vec::new();
    let mut i: usize = 0;
    while i < sites.len()
        invariant
            i <= sites.len(),
            result.len() == i,
            forall|k: int| 0 <= k < i ==> (#[trigger] result@[k])@ == site_of(sites@[k]),
        decreases sites.len() - i,
    {
        let site = &sites[i];
        let record = SiteRecord {
            id: site.id.clone(),
            source: site.source.clone(),
            kind: site.kind.clone(),
            specifier: Some(site.specifier.clone()),
            profile_id: site.profile_id.clone(),
            resolution_status: site.resolution_status.clone(),
            precision: site.precision.clone(),
            condition: site.condition.copy(),
            target_ids: copy_texts(&site.target_ids),
            reason: copy_text(&site.reason),
        };
        assert(record@ =~= site_of(sites@[i as int]));
        result.push(record);
        i = i + 1;
    }
    assert(views(result@) =~= Seq::new(sites@.len(), |i: int| site_of(sites@[i])));
    result
}

fn edge_records(edges: &Vec<ObservedEdge>) -> (result: Vec<EdgeRecord>)
    ensures
        views(result@) == Seq::new(edges@.len(), |i: int| edge_of(edges@[i])),
{
    let mut result: Vec<EdgeRecord> = Vec::new();
    let mut i: usize = 0;
    while i < edges.len()
        invariant
            i <= edges.len(),
            result.len() == i,
            forall|k: int| 0 <= k < i ==> (#[trigger] result@[k])@ == edge_of(edges@[k]),
        decreases edges.len() - i,
    {
        let edge = &edges[i];
        let environment: String = match &edge.environment {
            Some(environment) => environment.clone(),
            None => String::from_str("any"),
        };
        let record = EdgeRecord {
            id: edge.id.clone(),
            site_id: copy_text(&edge.site_id),
            source: edge.source.clone(),
            target: edge.target.clone(),
            kind: edge.kind.clone(),
            phase: edge.phase.clone(),
            environment,
            profile_id: edge.profile_id.clone(),
            resolution_status: edge.resolution_status.clone(),
            precision: edge.precision.clone(),
            condition: edge.condition.copy(),
            generated: edge.generated,
        };
        assert(record@ =~= edge_of(edges@[i as int]));
        result.push(record);
        i = i + 1;
    }
    assert(views(result@) =~= Seq::new(edges@.len(), |i: int| edge_of(edges@[i])));
    result
}

fn diagnostic_records(diagnostics: &Vec<ObservedDiagnostic>) -> (result: Vec<DiagnosticRecord>)
    ensures
        views(result@) == Seq::new(diagnostics@.len(), |i: int| diagnostic_of(diagnostics@[i], i)),
{
    let mut result: Vec<DiagnosticRecord> = Vec::new();
    let mut i: usize = 0;
    while i < diagnostics.len()
        invariant
            i <= diagnostics.len(),
            result.len() == i,
            forall|k: int| 0 <= k < i ==> (#[trigger] result@[k])@ == diagnostic_of(diagnostics@[k], k),
        decreases diagnostics.len() - i,
    {
        let diagnostic = &diagnostics[i];
        let record = DiagnosticRecord {
            ordinal: i as i64,
            id: diagnostic.id.clone(),
            severity: diagnostic.severity.clone(),
            code: diagnostic.code.clone(),
            message: diagnostic.message.clone(),
            path: copy_text(&diagnostic.path),
            adapter: None,
            start_line: widened(diagnostic.start_line),
            start_column: widened(diagnostic.start_column),
            end_line: widened(diagnostic.end_line),
            end_column: widened(diagnostic.end_column),
            properties: diagnostic.properties.copy(),
        };
        assert(record@ =~= diagnostic_of(diagnostics@[i as int], i as int));
        result.push(record);
        i = i + 1;
    }
    assert(views(result@) =~= Seq::new(diagnostics@.len(), |i: int| diagnostic_of(diagnostics@[i], i)));
    result
}

fn all_evidence(build: &ObservedBuild) -> (result: Vec<EvidenceRecord>)
    ensures
        views(result@) == site_evidence(build.sites@, build.sites@.len() as int) + edge_evidence(
            build.edges@,
            build.edges@.len() as int,
        ) + diagnostic_evidence(build.diagnostics@, build.diagnostics@.len() as int),
{
    let mut result: Vec<EvidenceRecord> = Vec::new();
    let mut i: usize = 0;
    assert(views(result@) =~= site_evidence(build.sites@, 0));
    while i < build.sites.len()
        invariant
            i <= build.sites.len(),
            views(result@) == site_evidence(build.sites@, i as int),
        decreases build.sites.len() - i,
    {
        append_evidence_records(&mut result, "site", build.sites[i].id.as_str(), &build.sites[i].evidence);
        i = i + 1;
    }
    let ghost of_sites = views(result@);
    let mut i: usize = 0;
    assert(views(result@) =~= of_sites + edge_evidence(build.edges@, 0));
    while i < build.edges.len()
        invariant
            i <= build.edges.len(),
            views(result@) == of_sites + edge_evidence(build.edges@, i as int),
        decreases build.edges.len() - i,
    {
        let ghost earlier = views(result@);
        append_evidence_records(&mut result, "edge", build.edges[i].id.as_str(), &build.edges[i].evidence);
        assert(views(result@) =~= of_sites + edge_evidence(build.edges@, i as int + 1));
        i = i + 1;
    }
    let ghost of_edges = views(result@);
    let mut i: usize = 0;
    assert(views(result@) =~= of_edges + diagnostic_evidence(build.diagnostics@, 0));
    while i < build.diagnostics.len()
        invariant
            i <= build.diagnostics.len(),
            views(result@) == of_edges + diagnostic_evidence(build.diagnostics@, i as int),
        decreases build.diagnostics.len() - i,
    {
        append_evidence_records(
            &mut result,
            "diagnostic",
            build.diagnostics[i].id.as_str(),
            &build.diagnostics[i].evidence,
        );
        assert(views(result@) =~= of_edges + diagnostic_evidence(build.diagnostics@, i as int + 1));
        i = i + 1;
    }
    result
}

/// The delta of an observed build; refused where no coverage was reported for the build.
pub fn build_delta_from_protocol(build: &ObservedBuild) -> (result: Result<BuildGraphDelta, BuildError>)
    ensures
        if build.coverage@.len() == 0 {
            result == Err::<BuildGraphDelta, _>(BuildError::NoFinalCoverage)
        } else {
            result matches Ok(delta) && is_delta_of(*build, delta)
        },
{
    if build.coverage.len() == 0 {
        return Err(BuildError::NoFinalCoverage);
    }
    let coverage = build.coverage[build.coverage.len() - 1].copy();
    Ok(
        BuildGraphDelta {
            profiles: profile_records(&build.profiles, &build.profile_coverage),
            nodes: node_records(&build.nodes),
            sites: site_records(&build.sites),
            edges: edge_records(&build.edges),
            evidence: all_evidence(build),
            diagnostics: diagnostic_records(&build.diagnostics),
            coverage,
        },
    )
}

} // verus!

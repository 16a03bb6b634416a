//! What a build observation may add to a graph, and the graph with it.

use vstd::prelude::*;

use crate::build_attempt::{AuditField, BuildError};
use crate::coverage::{coverage_union, coverage_union_is_unique, subtract_site_coverage, union_coverage, without_sites};
use crate::json::{opt_value, Json, JsonModel};
use crate::matrix_refresh::item_at;
use crate::order::{
    collect, first_failure, first_failure_remains, is_stable_sort, last_position, positions_of, stable_sort,
    stable_sort_of_views, views, TextIndex,
};
use crate::profile_matrix::{
    canonical_effective_input_id, canonical_input, canonical_language, declared_effective_input_id, declared_input,
    declared_parent, declared_parent_profile_id, language_name, profile_ids_of, profile_index, profile_position,
};
use crate::records::{
    coverage_zero, BuildAttemptRecord, BuildGraphDelta, CoverageModel, CoverageRecord, EdgeRecord,
    EvidenceRecord, GraphSnapshot, NodeRecord, ProfileModel, ProfileRecord, ScanRecord, SiteRecord,
};
use crate::text::{opt_text, same, same_option, same_texts, texts};

verus! {

// ---------------------------------------------------------------------------------------
// Evidence of the attempt
// ---------------------------------------------------------------------------------------

/// The property of build evidence that states a field of its attempt.
pub open spec fn evidence_property(field: AuditField) -> Seq<char> {
    match field {
        AuditField::RunId => "build_run_id"@,
        _ => crate::build_attempt::audit_field_name(field),
    }
}

/// Whether evidence leads a site or an edge.
pub open spec fn leads_observation(evidence: EvidenceRecord) -> bool {
    (evidence.owner_type@ == "site"@ || evidence.owner_type@ == "edge"@) && evidence.ordinal == 0
}

/// What is wrong with a property of evidence.
pub open spec fn property_error(
    evidence: EvidenceRecord,
    at: int,
    field: AuditField,
    expected: Seq<char>,
) -> Option<BuildError> {
    if evidence@.properties.text_field(evidence_property(field)) != Some(expected) {
        Some(BuildError::EvidenceProperty { evidence: at as usize, field })
    } else {
        None
    }
}

/// The first of two errors.
pub open spec fn or_build_error(first: Option<BuildError>, second: Option<BuildError>) -> Option<BuildError> {
    match first {
        Some(error) => Some(error),
        None => second,
    }
}

/// What is wrong with a piece of evidence that leads a site or an edge: it was made by
/// the observer of the attempt and states the attempt's identities.
pub open spec fn evidence_error(
    evidence: Seq<EvidenceRecord>,
    attempt: BuildAttemptRecord,
    output_digest: Seq<char>,
) -> spec_fn(int) -> Option<BuildError> {
    |i: int|
        {
            let item = evidence[i];
            if !leads_observation(item) {
                None
            } else if item.kind@ != "build"@ || item.extractor@ != attempt.observer@ || item.extractor_version@
                != attempt.observer_version@ {
                Some(BuildError::EvidenceProducer { evidence: i as usize })
            } else {
                or_build_error(
                    property_error(item, i, AuditField::RunId, attempt.id@),
                    or_build_error(
                        property_error(item, i, AuditField::ProfileId, attempt.profile_id@),
                        or_build_error(
                            property_error(item, i, AuditField::CommandPlanDigest, attempt.command_plan_digest@),
                            or_build_error(
                                property_error(
                                    item,
                                    i,
                                    AuditField::ToolchainExecutableDigest,
                                    attempt.toolchain_executable_digest@,
                                ),
                                or_build_error(
                                    property_error(
                                        item,
                                        i,
                                        AuditField::EnvironmentKeySetDigest,
                                        attempt.environment_key_set_digest@,
                                    ),
                                    property_error(item, i, AuditField::ValidatedOutputDigest, output_digest),
                                ),
                            ),
                        ),
                    ),
                )
            }
        }
}

fn check_property(evidence: &EvidenceRecord, at: usize, field: AuditField, expected: &str) -> (result: Option<
    BuildError,
>)
    ensures
        result == property_error(*evidence, at as int, field, expected@),
{
    let name: &str = match field {
        AuditField::RunId => "build_run_id",
        _ => field.name(),
    };
    let stated: bool = match evidence.properties.get_str(name) {
        Some(text) => same(text, expected),
        None => false,
    };
    if stated {
        None
    } else {
        Some(BuildError::EvidenceProperty { evidence: at, field })
    }
}

fn first_error(first: Option<BuildError>, second: Option<BuildError>) -> (result: Option<BuildError>)
    ensures
        result == or_build_error(first, second),
{
    match first {
        Some(error) => Some(error),
        None => second,
    }
}

/// Accepts a delta exactly where the evidence that leads its sites and edges was made by
/// its attempt.
pub fn validate_delta_attempt_metadata(
    evidence: &Vec<EvidenceRecord>,
    attempt: &BuildAttemptRecord,
) -> (result: Result<(), BuildError>)
    ensures
        match opt_text(attempt.validated_output_digest) {
            None => result == Err::<(), _>(BuildError::AttemptWithoutOutputDigest),
            Some(digest) => match result {
                Ok(_) => first_failure(evidence@.len() as int, evidence_error(evidence@, *attempt, digest)) is None,
                Err(error) => first_failure(evidence@.len() as int, evidence_error(evidence@, *attempt, digest))
                    == Some(error),
            },
        },
{
    let output_digest = match &attempt.validated_output_digest {
        Some(digest) => digest,
        None => {
            return Err(BuildError::AttemptWithoutOutputDigest);
        },
    };
    let ghost failure = evidence_error(evidence@, *attempt, output_digest@);
    let mut i: usize = 0;
    while i < evidence.len()
        invariant
            i <= evidence.len(),
            attempt.validated_output_digest == Some(*output_digest),
            failure == evidence_error(evidence@, *attempt, output_digest@),
            first_failure(i as int, failure) is None,
        decreases evidence.len() - i,
    {
        let item = &evidence[i];
        let leads = (same(item.owner_type.as_str(), "site") || same(item.owner_type.as_str(), "edge")) && item.ordinal
            == 0;
        let error: Option<BuildError> = if !leads {
            None
        } else if !same(item.kind.as_str(), "build") || item.extractor != attempt.observer || item.extractor_version
            != attempt.observer_version {
            Some(BuildError::EvidenceProducer { evidence: i })
        } else {
            first_error(
                check_property(item, i, AuditField::RunId, attempt.id.as_str()),
                first_error(
                    check_property(item, i, AuditField::ProfileId, attempt.profile_id.as_str()),
                    first_error(
                        check_property(item, i, AuditField::CommandPlanDigest, attempt.command_plan_digest.as_str()),
                        first_error(
                            check_property(
                                item,
                                i,
                                AuditField::ToolchainExecutableDigest,
                                attempt.toolchain_executable_digest.as_str(),
                            ),
                            first_error(
                                check_property(
                                    item,
                                    i,
                                    AuditField::EnvironmentKeySetDigest,
                                    attempt.environment_key_set_digest.as_str(),
                                ),
                                check_property(item, i, AuditField::ValidatedOutputDigest, output_digest.as_str()),
                            ),
                        ),
                    ),
                ),
            )
        };
        assert(error == failure(i as int));
        match error {
            Some(error) => {
                proof {
                    first_failure_remains(i + 1, evidence@.len() as int, failure);
                }
                return Err(error);
            },
            None => {},
        }
        i = i + 1;
    }
    Ok(())
}

// ---------------------------------------------------------------------------------------
// Authority over the base
// ---------------------------------------------------------------------------------------

/// The identities of nodes.
pub open spec fn node_ids_of(nodes: Seq<NodeRecord>) -> Seq<Seq<char>> {
    Seq::new(nodes.len(), |i: int| nodes[i].id@)
}

/// Whether two profiles state different inputs: everything but identity, properties and
/// coverage.
pub open spec fn profiles_conflict(a: ProfileModel, b: ProfileModel) -> bool {
    ||| a.language != b.language
    ||| opt_value(a.toolchain) != opt_value(b.toolchain)
    ||| a.command != b.command
    ||| a.target != b.target
    ||| a.features != b.features
    ||| a.environment.value() != b.environment.value()
    ||| a.source_revision != b.source_revision
}

/// What is wrong with the profile of a build: it is the audited one and the only one, of
/// the build phase, with a parent in the base whose effective input it declares and whose
/// language it shares, and it does not conflict with a profile of the base.
pub open spec fn profile_union_error(
    base: Seq<ProfileRecord>,
    derived: Seq<String>,
    delta: Seq<ProfileRecord>,
    attempt: BuildAttemptRecord,
) -> Option<BuildError> {
    if delta.len() != 1 || delta[0].id@ != attempt.profile_id@ {
        Some(BuildError::ProfileNotAudited)
    } else {
        let profile = delta[0]@;
        if profile.properties.text_field("profile_phase"@) != Some("build"@) {
            Some(BuildError::ProfilePhase)
        } else {
            match declared_parent(profile) {
                None => Some(BuildError::ProfileWithoutParent),
                Some(parent_id) => {
                    let parents = positions_of(profile_ids_of(base), parent_id, base.len() as int);
                    if parents.len() == 0 {
                        Some(BuildError::ProfileParentMissing)
                    } else {
                        let parent = base[parents[0]]@;
                        match declared_input(profile) {
                            None => Some(BuildError::ProfileWithoutInput),
                            Some(input) => if input != canonical_input(parent, derived[parents[0]]@)
                                || language_name(profile.language) != language_name(parent.language) {
                                Some(BuildError::ProfileContract)
                            } else {
                                match profile_position(base, profile.id) {
                                    Some(existing) => if profiles_conflict(base[existing]@, profile) {
                                        Some(BuildError::ProfileConflict)
                                    } else {
                                        None
                                    },
                                    None => None,
                                }
                            },
                        }
                    }
                },
            }
        }
    }
}

/// Whether provenance names an attempt and all of its identities.
pub open spec fn is_provenance_of(provenance: JsonModel, attempt: BuildAttemptRecord) -> bool {
    &&& provenance.text_field("build_run_id"@) == Some(attempt.id@)
    &&& provenance.text_field("profile_id"@) == Some(attempt.profile_id@)
    &&& provenance.text_field("observer"@) == Some(attempt.observer@)
    &&& provenance.text_field("observer_version"@) == Some(attempt.observer_version@)
    &&& provenance.text_field("command_plan_digest"@) == Some(attempt.command_plan_digest@)
    &&& provenance.text_field("toolchain_executable_digest"@) == Some(attempt.toolchain_executable_digest@)
    &&& provenance.text_field("environment_key_set_digest"@) == Some(attempt.environment_key_set_digest@)
    &&& provenance.text_field("validated_output_digest"@) == opt_text(attempt.validated_output_digest)
}

/// What is wrong with a node of a build: it is a node of the base as it stands there, or a
/// generated one with the provenance of the attempt.
pub open spec fn node_union_error(
    base: Seq<NodeRecord>,
    delta: Seq<NodeRecord>,
    attempt: BuildAttemptRecord,
) -> spec_fn(int) -> Option<BuildError> {
    |i: int|
        {
            let node = delta[i]@;
            match last_position(node_ids_of(base), node.id, base.len() as int) {
                Some(existing) => if base[existing]@.value() != node.value() {
                    Some(BuildError::NodeOverwrites { node: i as usize })
                } else {
                    None
                },
                None => match node.properties.field("build_provenance"@) {
                    Some(JsonModel::Object(fields)) => if node.properties.bool_field("build_generated"@) != Some(
                        true,
                    ) || !is_provenance_of(JsonModel::Object(fields), attempt) {
                        Some(BuildError::NodeUnauthorized { node: i as usize })
                    } else {
                        None
                    },
                    _ => Some(BuildError::NodeWithoutProvenance { node: i as usize }),
                },
            }
        }
}

/// Whether every text of a list stands in another.
pub open spec fn all_stand_in(items: Seq<Seq<char>>, members: Seq<Seq<char>>) -> bool {
    forall|i: int| 0 <= i < items.len() ==> members.contains(#[trigger] items[i])
}

/// What is wrong with a site of a build: it is new, observed, and joins nodes and a
/// profile of the united graph.
pub open spec fn site_union_error(
    base_ids: Seq<Seq<char>>,
    node_ids: Seq<Seq<char>>,
    profile_ids: Seq<Seq<char>>,
    delta: Seq<SiteRecord>,
) -> spec_fn(int) -> Option<BuildError> {
    |i: int|
        {
            let site = delta[i];
            if base_ids.contains(site.id@) {
                Some(BuildError::SiteOverwrites { site: i as usize })
            } else if site.precision@ != "observed"@ || !node_ids.contains(site.source@) || !all_stand_in(
                texts(site.target_ids@),
                node_ids,
            ) || !profile_ids.contains(site.profile_id@) {
                Some(BuildError::SiteUnauthorized { site: i as usize })
            } else {
                None
            }
        }
}

/// What is wrong with an edge of a build: it is new, observed in the build phase, joins
/// nodes and a profile of the united graph, and comes from a site of the build.
pub open spec fn edge_union_error(
    base_ids: Seq<Seq<char>>,
    node_ids: Seq<Seq<char>>,
    profile_ids: Seq<Seq<char>>,
    site_ids: Seq<Seq<char>>,
    delta: Seq<EdgeRecord>,
) -> spec_fn(int) -> Option<BuildError> {
    |i: int|
        {
            let edge = delta[i];
            if base_ids.contains(edge.id@) {
                Some(BuildError::EdgeOverwrites { edge: i as usize })
            } else if edge.phase@ != "build"@ || edge.precision@ != "observed"@ || !node_ids.contains(edge.source@)
                || !node_ids.contains(edge.target@) || !profile_ids.contains(edge.profile_id@) || (
            edge.site_id matches Some(site_id) && !site_ids.contains(site_id@)) {
                Some(BuildError::EdgeUnauthorized { edge: i as usize })
            } else {
                None
            }
        }
}

/// Why a delta may not be united with a base; nothing where it may.
pub open spec fn build_union_error(
    base: GraphSnapshot,
    derived: Seq<String>,
    delta: BuildGraphDelta,
    attempt: BuildAttemptRecord,
) -> Option<BuildError> {
    let node_ids = node_ids_of(base.nodes@) + node_ids_of(delta.nodes@);
    let profile_ids = profile_ids_of(base.profiles@) + profile_ids_of(delta.profiles@);
    or_build_error(
        profile_union_error(base.profiles@, derived, delta.profiles@, attempt),
        or_build_error(
            first_failure(delta.nodes@.len() as int, node_union_error(base.nodes@, delta.nodes@, attempt)),
            or_build_error(
                first_failure(
                    delta.sites@.len() as int,
                    site_union_error(
                        crate::matrix_facts::site_ids_of(base.sites@),
                        node_ids,
                        profile_ids,
                        delta.sites@,
                    ),
                ),
                first_failure(
                    delta.edges@.len() as int,
                    edge_union_error(
                        crate::matrix_facts::edge_ids_of(base.edges@),
                        node_ids,
                        profile_ids,
                        crate::matrix_facts::site_ids_of(delta.sites@),
                        delta.edges@,
                    ),
                ),
            ),
        ),
    )
}

fn profiles_differ(a: &ProfileRecord, b: &ProfileRecord) -> (result: bool)
    ensures
        result == profiles_conflict(a@, b@),
{
    a.language != b.language || !crate::json::same_opt_json(&a.toolchain, &b.toolchain) || !same_option(
        &a.command,
        &b.command,
    ) || !same_option(&a.target, &b.target) || !same_texts(&a.features, &b.features) || !a.environment.same_value(
        &b.environment,
    ) || !same_option(&a.source_revision, &b.source_revision)
}

fn check_profile_union(
    base: &Vec<ProfileRecord>,
    derived: &Vec<String>,
    delta: &Vec<ProfileRecord>,
    attempt: &BuildAttemptRecord,
) -> (result: Option<BuildError>)
    requires
        derived.len() == base.len(),
    ensures
        result == profile_union_error(base@, derived@, delta@, *attempt),
{
    if delta.len() != 1 {
        return Some(BuildError::ProfileNotAudited);
    }
    let profile = &delta[0];
    if profile.id != attempt.profile_id {
        return Some(BuildError::ProfileNotAudited);
    }
    let built: bool = match profile.properties.get_str("profile_phase") {
        Some(phase) => same(phase, "build"),
        None => false,
    };
    if !built {
        return Some(BuildError::ProfilePhase);
    }
    let parent_id = match declared_parent_profile_id(profile) {
        Some(parent_id) => parent_id,
        None => {
            return Some(BuildError::ProfileWithoutParent);
        },
    };
    let index = profile_index(base);
    let parents = index.positions(parent_id);
    let ghost members = positions_of(profile_ids_of(base@), parent_id@, base@.len() as int);
    proof {
        let listed = Seq::new(parents@.len(), |i: int| parents@[i] as int);
        assert(listed == members);
        if parents@.len() > 0 {
            assert(listed[0] == members[0]);
        }
    }
    if parents.len() == 0 {
        return Some(BuildError::ProfileParentMissing);
    }
    let parent = &base[parents[0]];
    let input = match declared_effective_input_id(profile) {
        Some(input) => input,
        None => {
            return Some(BuildError::ProfileWithoutInput);
        },
    };
    let parent_input = canonical_effective_input_id(parent, derived[parents[0]].as_str());
    if !same(input, parent_input.as_str()) || !same(
        canonical_language(profile.language.as_str()),
        canonical_language(parent.language.as_str()),
    ) {
        return Some(BuildError::ProfileContract);
    }
    match index.last(profile.id.as_str()) {
        Some(existing) => if profiles_differ(&base[existing], profile) {
            Some(BuildError::ProfileConflict)
        } else {
            None
        },
        None => None,
    }
}

fn field_is(value: &Json, name: &str, expected: &str) -> (result: bool)
    ensures
        result == (value@.text_field(name@) == Some(expected@)),
{
    match value.get_str(name) {
        Some(text) => same(text, expected),
        None => false,
    }
}

fn provenance_is_of(provenance: &Json, attempt: &BuildAttemptRecord) -> (result: bool)
    ensures
        result == is_provenance_of(provenance@, *attempt),
{
    let output: bool = match (provenance.get_str("validated_output_digest"), &attempt.validated_output_digest) {
        (Some(stated), Some(expected)) => same(stated, expected.as_str()),
        (None, None) => true,
        _ => false,
    };
    output && field_is(provenance, "build_run_id", attempt.id.as_str()) && field_is(
        provenance,
        "profile_id",
        attempt.profile_id.as_str(),
    ) && field_is(provenance, "observer", attempt.observer.as_str()) && field_is(
        provenance,
        "observer_version",
        attempt.observer_version.as_str(),
    ) && field_is(provenance, "command_plan_digest", attempt.command_plan_digest.as_str()) && field_is(
        provenance,
        "toolchain_executable_digest",
        attempt.toolchain_executable_digest.as_str(),
    ) && field_is(provenance, "environment_key_set_digest", attempt.environment_key_set_digest.as_str())
}

/// The identities of nodes.
pub fn node_ids(nodes: &Vec<NodeRecord>) -> (result: Vec<String>)
    ensures
        texts(result@) == node_ids_of(nodes@),
{
    let mut ids: Vec<String> = Vec::new();
    let mut i: usize = 0;
    while i < nodes.len()
        invariant
            i <= nodes.len(),
            ids.len() == i,
            forall|k: int| 0 <= k < i ==> (#[trigger] ids@[k])@ == nodes@[k].id@,
        decreases nodes.len() - i,
    {
        ids.push(nodes[i].id.clone());
        i = i + 1;
    }
    assert(texts(ids@) =~= node_ids_of(nodes@));
    ids
}

fn profile_ids(profiles: &Vec<ProfileRecord>) -> (result: Vec<String>)
    ensures
        texts(result@) == profile_ids_of(profiles@),
{
    let mut ids: Vec<String> = Vec::new();
    let mut i: usize = 0;
    while i < profiles.len()
        invariant
            i <= profiles.len(),
            ids.len() == i,
            forall|k: int| 0 <= k < i ==> (#[trigger] ids@[k])@ == profiles@[k].id@,
        decreases profiles.len() - i,
    {
        ids.push(profiles[i].id.clone());
        i = i + 1;
    }
    assert(texts(ids@) =~= profile_ids_of(profiles@));
    ids
}

/// The identities of sites.
pub fn site_ids(sites: &Vec<SiteRecord>) -> (result: Vec<String>)
    ensures
        texts(result@) == crate::matrix_facts::site_ids_of(sites@),
{
    let mut ids: Vec<String> = Vec::new();
    let mut i: usize = 0;
    while i < sites.len()
        invariant
            i <= sites.len(),
            ids.len() == i,
            forall|k: int| 0 <= k < i ==> (#[trigger] ids@[k])@ == sites@[k].id@,
        decreases sites.len() - i,
    {
        ids.push(sites[i].id.clone());
        i = i + 1;
    }
    assert(texts(ids@) =~= crate::matrix_facts::site_ids_of(sites@));
    ids
}

/// The identities of edges.
pub fn edge_ids(edges: &Vec<EdgeRecord>) -> (result: Vec<String>)
    ensures
        texts(result@) == crate::matrix_facts::edge_ids_of(edges@),
{
    let mut ids: Vec<String> = Vec::new();
    let mut i: usize = 0;
    while i < edges.len()
        invariant
            i <= edges.len(),
            ids.len() == i,
            forall|k: int| 0 <= k < i ==> (#[trigger] ids@[k])@ == edges@[k].id@,
        decreases edges.len() - i,
    {
        ids.push(edges[i].id.clone());
        i = i + 1;
    }
    assert(texts(ids@) =~= crate::matrix_facts::edge_ids_of(edges@));
    ids
}

pub(crate) fn joined(a: Vec<String>, b: Vec<String>) -> (result: Vec<String>)
    ensures
        texts(result@) == texts(a@) + texts(b@),
{
    let mut all = a;
    let mut more = b;
    all.append(&mut more);
    assert(texts(all@) =~= texts(a@) + texts(b@));
    all
}

fn check_node_union(base: &Vec<NodeRecord>, delta: &Vec<NodeRecord>, attempt: &BuildAttemptRecord) -> (result: Option<
    BuildError,
>)
    ensures
        result == first_failure(delta@.len() as int, node_union_error(base@, delta@, *attempt)),
{
    let index = TextIndex::new(node_ids(base));
    let ghost failure = node_union_error(base@, delta@, *attempt);
    let mut i: usize = 0;
    while i < delta.len()
        invariant
            i <= delta.len(),
            index.keys() == node_ids_of(base@),
            failure == node_union_error(base@, delta@, *attempt),
            first_failure(i as int, failure) is None,
        decreases delta.len() - i,
    {
        let node = &delta[i];
        let error: Option<BuildError> = match index.last(node.id.as_str()) {
            Some(existing) => if !base[existing].same_as(node) {
                Some(BuildError::NodeOverwrites { node: i })
            } else {
                None
            },
            None => match node.properties.get("build_provenance") {
                Some(provenance) => if !provenance.is_object() {
                    Some(BuildError::NodeWithoutProvenance { node: i })
                } else {
                    let generated: bool = match node.properties.get_bool("build_generated") {
                        Some(generated) => generated,
                        None => false,
                    };
                    if !generated || !provenance_is_of(provenance, attempt) {
                        Some(BuildError::NodeUnauthorized { node: i })
                    } else {
                        None
                    }
                },
                None => Some(BuildError::NodeWithoutProvenance { node: i }),
            },
        };
        assert(error == failure(i as int));
        if error.is_some() {
            proof {
                first_failure_remains(i + 1, delta@.len() as int, failure);
            }
            return error;
        }
        i = i + 1;
    }
    None
}

pub(crate) fn all_in(items: &Vec<String>, index: &TextIndex) -> (result: bool)
    ensures
        result == all_stand_in(texts(items@), index.keys()),
{
    let mut i: usize = 0;
    while i < items.len()
        invariant
            i <= items.len(),
            forall|k: int| 0 <= k < i ==> index.keys().contains(#[trigger] texts(items@)[k]),
        decreases items.len() - i,
    {
        assert(texts(items@)[i as int] == items@[i as int]@);
        if !index.contains(items[i].as_str()) {
            return false;
        }
        i = i + 1;
    }
    true
}

fn check_site_union(
    base_index: &TextIndex,
    node_index: &TextIndex,
    profile_index: &TextIndex,
    delta: &Vec<SiteRecord>,
) -> (result: Option<BuildError>)
    ensures
        result == first_failure(
            delta@.len() as int,
            site_union_error(base_index.keys(), node_index.keys(), profile_index.keys(), delta@),
        ),
{
    let ghost failure = site_union_error(base_index.keys(), node_index.keys(), profile_index.keys(), delta@);
    let mut i: usize = 0;
    while i < delta.len()
        invariant
            i <= delta.len(),
            failure == site_union_error(base_index.keys(), node_index.keys(), profile_index.keys(), delta@),
            first_failure(i as int, failure) is None,
        decreases delta.len() - i,
    {
        let site = &delta[i];
        let error: Option<BuildError> = if base_index.contains(site.id.as_str()) {
            Some(BuildError::SiteOverwrites { site: i })
        } else if !same(site.precision.as_str(), "observed") || !node_index.contains(site.source.as_str()) || !all_in(
            &site.target_ids,
            node_index,
        ) || !profile_index.contains(site.profile_id.as_str()) {
            Some(BuildError::SiteUnauthorized { site: i })
        } else {
            None
        };
        assert(error == failure(i as int));
        if error.is_some() {
            proof {
                first_failure_remains(i + 1, delta@.len() as int, failure);
            }
            return error;
        }
        i = i + 1;
    }
    None
}

fn check_edge_union(
    base_index: &TextIndex,
    node_index: &TextIndex,
    profile_index: &TextIndex,
    site_index: &TextIndex,
    delta: &Vec<EdgeRecord>,
) -> (result: Option<BuildError>)
    ensures
        result == first_failure(
            delta@.len() as int,
            edge_union_error(
                base_index.keys(),
                node_index.keys(),
                profile_index.keys(),
                site_index.keys(),
                delta@,
            ),
        ),
{
    let ghost failure = edge_union_error(
        base_index.keys(),
        node_index.keys(),
        profile_index.keys(),
        site_index.keys(),
        delta@,
    );
    let mut i: usize = 0;
    while i < delta.len()
        invariant
            i <= delta.len(),
            failure == edge_union_error(
                base_index.keys(),
                node_index.keys(),
                profile_index.keys(),
                site_index.keys(),
                delta@,
            ),
            first_failure(i as int, failure) is None,
        decreases delta.len() - i,
    {
        let edge = &delta[i];
        let foreign: bool = match &edge.site_id {
            Some(site_id) => !site_index.contains(site_id.as_str()),
            None => false,
        };
        let error: Option<BuildError> = if base_index.contains(edge.id.as_str()) {
            Some(BuildError::EdgeOverwrites { edge: i })
        } else if !same(edge.phase.as_str(), "build") || !same(edge.precision.as_str(), "observed")
            || !node_index.contains(edge.source.as_str()) || !node_index.contains(edge.target.as_str())
            || !profile_index.contains(edge.profile_id.as_str()) || foreign {
            Some(BuildError::EdgeUnauthorized { edge: i })
        } else {
            None
        };
        assert(error == failure(i as int));
        if error.is_some() {
            proof {
                first_failure_remains(i + 1, delta@.len() as int, failure);
            }
            return error;
        }
        i = i + 1;
    }
    None
}

/// Accepts a delta exactly where it may be united with a base. `derived` holds, for each
/// profile of the base, the effective input derived from the profile's identity.
pub fn validate_build_union(
    base: &GraphSnapshot,
    derived: &Vec<String>,
    delta: &BuildGraphDelta,
    attempt: &BuildAttemptRecord,
) -> (result: Result<(), BuildError>)
    requires
        derived.len() == base.profiles.len(),
    ensures
        match result {
            Ok(_) => build_union_error(*base, derived@, *delta, *attempt) is None,
            Err(error) => build_union_error(*base, derived@, *delta, *attempt) == Some(error),
        },
{
    if let Some(error) = check_profile_union(&base.profiles, derived, &delta.profiles, attempt) {
        return Err(error);
    }
    if let Some(error) = check_node_union(&base.nodes, &delta.nodes, attempt) {
        return Err(error);
    }
    let node_index = TextIndex::new(joined(node_ids(&base.nodes), node_ids(&delta.nodes)));
    let profile_lookup = TextIndex::new(joined(profile_ids(&base.profiles), profile_ids(&delta.profiles)));
    let base_sites = TextIndex::new(site_ids(&base.sites));
    if let Some(error) = check_site_union(&base_sites, &node_index, &profile_lookup, &delta.sites) {
        return Err(error);
    }
    let base_edges = TextIndex::new(edge_ids(&base.edges));
    let delta_sites = TextIndex::new(site_ids(&delta.sites));
    if let Some(error) = check_edge_union(&base_edges, &node_index, &profile_lookup, &delta_sites, &delta.edges) {
        return Err(error);
    }
    Ok(())
}

// ---------------------------------------------------------------------------------------
// Evidence that the base already holds
// ---------------------------------------------------------------------------------------

/// What is wrong with a site that the base already holds: it holds it differently.
pub open spec fn site_conflict_error(
    base: Seq<SiteRecord>,
    delta: Seq<SiteRecord>,
) -> spec_fn(int) -> Option<BuildError> {
    |i: int|
        match last_position(crate::matrix_facts::site_ids_of(base), delta[i].id@, base.len() as int) {
            Some(existing) => if base[existing]@.value() != delta[i]@.value() {
                Some(BuildError::SiteConflicts { site: i as usize })
            } else {
                None
            },
            None => None,
        }
}

/// Whether a site of the delta is one that the base already holds.
pub open spec fn is_held_site(base: Seq<SiteRecord>, delta: Seq<SiteRecord>, id: Seq<char>) -> bool {
    crate::matrix_facts::site_ids_of(base).contains(id) && crate::matrix_facts::site_ids_of(delta).contains(id)
}

/// Whether an edge of the delta is one that the base already holds.
pub open spec fn is_held_edge(base: Seq<EdgeRecord>, delta: Seq<EdgeRecord>, id: Seq<char>) -> bool {
    crate::matrix_facts::edge_ids_of(base).contains(id) && crate::matrix_facts::edge_ids_of(delta).contains(id)
}

/// What is wrong with an edge: the base holds it differently, or it holds the edge's site
/// but not the edge.
pub open spec fn edge_conflict_error(
    base_sites: Seq<SiteRecord>,
    delta_sites: Seq<SiteRecord>,
    base: Seq<EdgeRecord>,
    delta: Seq<EdgeRecord>,
) -> spec_fn(int) -> Option<BuildError> {
    |i: int|
        match last_position(crate::matrix_facts::edge_ids_of(base), delta[i].id@, base.len() as int) {
            Some(existing) => if base[existing]@.value() != delta[i]@.value() {
                Some(BuildError::EdgeConflicts { edge: i as usize })
            } else {
                None
            },
            None => if delta[i].site_id matches Some(site_id) && is_held_site(base_sites, delta_sites, site_id@) {
                Some(BuildError::EdgeMissingFromLayer { edge: i as usize })
            } else {
                None
            },
        }
}

/// Why a delta that repeats evidence of the base is refused.
pub open spec fn duplicate_error(base: GraphSnapshot, delta: BuildGraphDelta) -> Option<BuildError> {
    or_build_error(
        first_failure(delta.sites@.len() as int, site_conflict_error(base.sites@, delta.sites@)),
        first_failure(
            delta.edges@.len() as int,
            edge_conflict_error(base.sites@, delta.sites@, base.edges@, delta.edges@),
        ),
    )
}

/// Which sites the base does not hold.
pub open spec fn site_is_new(base: Seq<SiteRecord>, delta: Seq<SiteRecord>) -> spec_fn(int) -> bool {
    |i: int| !crate::matrix_facts::site_ids_of(base).contains(delta[i].id@)
}

/// Which sites the base holds.
pub open spec fn site_is_held(base: Seq<SiteRecord>, delta: Seq<SiteRecord>) -> spec_fn(int) -> bool {
    |i: int| crate::matrix_facts::site_ids_of(base).contains(delta[i].id@)
}

/// Which sites of a profile the base holds.
pub open spec fn site_of_profile_is_held(
    base: Seq<SiteRecord>,
    delta: Seq<SiteRecord>,
    profile_id: Seq<char>,
) -> spec_fn(int) -> bool {
    |i: int|
        crate::matrix_facts::site_ids_of(base).contains(delta[i].id@) && delta[i].profile_id@ == profile_id
}

/// The resolution of a site.
pub open spec fn status_at(delta: Seq<SiteRecord>) -> spec_fn(int) -> Seq<char> {
    |i: int| delta[i].resolution_status@
}

/// Which edges the base does not hold.
pub open spec fn edge_is_new(base: Seq<EdgeRecord>, delta: Seq<EdgeRecord>) -> spec_fn(int) -> bool {
    |i: int| !crate::matrix_facts::edge_ids_of(base).contains(delta[i].id@)
}

/// Which evidence belongs to neither a held site nor a held edge.
pub open spec fn evidence_is_new(base: GraphSnapshot, delta: BuildGraphDelta) -> spec_fn(int) -> bool {
    |i: int|
        {
            let item = delta.evidence@[i];
            !(item.owner_type@ == "site"@ && is_held_site(base.sites@, delta.sites@, item.owner_id@)) && !(
            item.owner_type@ == "edge"@ && is_held_edge(base.edges@, delta.edges@, item.owner_id@))
        }
}

/// Whether the delta repeats anything of the base.
pub open spec fn repeats(base: GraphSnapshot, delta: BuildGraphDelta) -> bool {
    ||| exists|i: int|
        0 <= i < delta.sites@.len() && crate::matrix_facts::site_ids_of(base.sites@).contains(
            (#[trigger] delta.sites@[i]).id@,
        )
    ||| exists|i: int|
        0 <= i < delta.edges@.len() && crate::matrix_facts::edge_ids_of(base.edges@).contains(
            (#[trigger] delta.edges@[i]).id@,
        )
}

/// A profile without the sites that the base holds.
pub open spec fn profile_without_held(
    base: GraphSnapshot,
    delta: BuildGraphDelta,
    profile: ProfileModel,
) -> ProfileModel {
    let held = collect(
        delta.sites@.len() as int,
        site_of_profile_is_held(base.sites@, delta.sites@, profile.id),
        status_at(delta.sites@),
    );
    ProfileModel {
        coverage: match profile.coverage {
            Some(coverage) => Some(without_sites(coverage, held)),
            None => None,
        },
        ..profile
    }
}

/// Whether `after` is the delta without what the base holds: its held sites and edges,
/// their evidence, and their share of the coverage.
pub open spec fn is_without_held(base: GraphSnapshot, delta: BuildGraphDelta, after: BuildGraphDelta) -> bool {
    let held = collect(
        delta.sites@.len() as int,
        site_is_held(base.sites@, delta.sites@),
        status_at(delta.sites@),
    );
    &&& after.sites@ == collect(
        delta.sites@.len() as int,
        site_is_new(base.sites@, delta.sites@),
        item_at(delta.sites@),
    )
    &&& after.edges@ == collect(
        delta.edges@.len() as int,
        edge_is_new(base.edges@, delta.edges@),
        item_at(delta.edges@),
    )
    &&& after.evidence@ == collect(
        delta.evidence@.len() as int,
        evidence_is_new(base, delta),
        item_at(delta.evidence@),
    )
    &&& after.coverage@ == without_sites(delta.coverage@, held)
    &&& after.profiles@.len() == delta.profiles@.len()
    &&& forall|i: int|
        0 <= i < after.profiles@.len() ==> (#[trigger] after.profiles@[i])@ == profile_without_held(
            base,
            delta,
            delta.profiles@[i]@,
        )
    &&& after.nodes == delta.nodes
    &&& after.diagnostics == delta.diagnostics
}

fn check_site_conflicts(base: &Vec<SiteRecord>, index: &TextIndex, delta: &Vec<SiteRecord>) -> (result: Option<
    BuildError,
>)
    requires
        index.keys() == crate::matrix_facts::site_ids_of(base@),
    ensures
        result == first_failure(delta@.len() as int, site_conflict_error(base@, delta@)),
{
    let ghost failure = site_conflict_error(base@, delta@);
    let mut i: usize = 0;
    while i < delta.len()
        invariant
            i <= delta.len(),
            index.keys() == crate::matrix_facts::site_ids_of(base@),
            failure == site_conflict_error(base@, delta@),
            first_failure(i as int, failure) is None,
        decreases delta.len() - i,
    {
        let error: Option<BuildError> = match index.last(delta[i].id.as_str()) {
            Some(existing) => if !base[existing].same_as(&delta[i]) {
                Some(BuildError::SiteConflicts { site: i })
            } else {
                None
            },
            None => None,
        };
        assert(error == failure(i as int));
        if error.is_some() {
            proof {
                first_failure_remains(i + 1, delta@.len() as int, failure);
            }
            return error;
        }
        i = i + 1;
    }
    None
}

fn check_edge_conflicts(
    base: &GraphSnapshot,
    delta: &BuildGraphDelta,
    base_sites: &TextIndex,
    delta_sites: &TextIndex,
    base_edges: &TextIndex,
) -> (result: Option<BuildError>)
    requires
        base_sites.keys() == crate::matrix_facts::site_ids_of(base.sites@),
        delta_sites.keys() == crate::matrix_facts::site_ids_of(delta.sites@),
        base_edges.keys() == crate::matrix_facts::edge_ids_of(base.edges@),
    ensures
        result == first_failure(
            delta.edges@.len() as int,
            edge_conflict_error(base.sites@, delta.sites@, base.edges@, delta.edges@),
        ),
{
    let ghost failure = edge_conflict_error(base.sites@, delta.sites@, base.edges@, delta.edges@);
    let mut i: usize = 0;
    while i < delta.edges.len()
        invariant
            i <= delta.edges.len(),
            base_sites.keys() == crate::matrix_facts::site_ids_of(base.sites@),
            delta_sites.keys() == crate::matrix_facts::site_ids_of(delta.sites@),
            base_edges.keys() == crate::matrix_facts::edge_ids_of(base.edges@),
            failure == edge_conflict_error(base.sites@, delta.sites@, base.edges@, delta.edges@),
            first_failure(i as int, failure) is None,
        decreases delta.edges.len() - i,
    {
        let edge = &delta.edges[i];
        let error: Option<BuildError> = match base_edges.last(edge.id.as_str()) {
            Some(existing) => if !base.edges[existing].same_as(edge) {
                Some(BuildError::EdgeConflicts { edge: i })
            } else {
                None
            },
            None => match &edge.site_id {
                Some(site_id) => if base_sites.contains(site_id.as_str()) && delta_sites.contains(site_id.as_str()) {
                    Some(BuildError::EdgeMissingFromLayer { edge: i })
                } else {
                    None
                },
                None => None,
            },
        };
        assert(error == failure(i as int));
        if error.is_some() {
            proof {
                first_failure_remains(i + 1, delta.edges@.len() as int, failure);
            }
            return error;
        }
        i = i + 1;
    }
    None
}

fn held_statuses(delta: &Vec<SiteRecord>, base_sites: &TextIndex, Ghost(base): Ghost<Seq<SiteRecord>>) -> (result: Vec<
    String,
>)
    requires
        base_sites.keys() == crate::matrix_facts::site_ids_of(base),
    ensures
        texts(result@) == collect(delta@.len() as int, site_is_held(base, delta@), status_at(delta@)),
        result.len() == 0 <==> forall|i: int|
            0 <= i < delta@.len() ==> !crate::matrix_facts::site_ids_of(base).contains((#[trigger] delta@[i]).id@),
{
    let ghost keep = site_is_held(base, delta@);
    let mut result: Vec<String> = Vec::new();
    let mut i: usize = 0;
    assert(texts(result@) =~= Seq::empty());
    while i < delta.len()
        invariant
            i <= delta.len(),
            base_sites.keys() == crate::matrix_facts::site_ids_of(base),
            keep == site_is_held(base, delta@),
            texts(result@) == collect(i as int, keep, status_at(delta@)),
            result.len() == 0 <==> forall|k: int|
                0 <= k < i ==> !crate::matrix_facts::site_ids_of(base).contains((#[trigger] delta@[k]).id@),
        decreases delta.len() - i,
    {
        if base_sites.contains(delta[i].id.as_str()) {
            let ghost earlier = texts(result@);
            result.push(delta[i].resolution_status.clone());
            assert(texts(result@) =~= earlier.push(delta@[i as int].resolution_status@));
        }
        i = i + 1;
    }
    result
}

fn held_statuses_of_profile(
    delta: &Vec<SiteRecord>,
    base_sites: &TextIndex,
    profile_id: &String,
    Ghost(base): Ghost<Seq<SiteRecord>>,
) -> (result: Vec<String>)
    requires
        base_sites.keys() == crate::matrix_facts::site_ids_of(base),
    ensures
        texts(result@) == collect(
            delta@.len() as int,
            site_of_profile_is_held(base, delta@, profile_id@),
            status_at(delta@),
        ),
{
    let ghost keep = site_of_profile_is_held(base, delta@, profile_id@);
    let mut result: Vec<String> = Vec::new();
    let mut i: usize = 0;
    assert(texts(result@) =~= Seq::empty());
    while i < delta.len()
        invariant
            i <= delta.len(),
            base_sites.keys() == crate::matrix_facts::site_ids_of(base),
            keep == site_of_profile_is_held(base, delta@, profile_id@),
            texts(result@) == collect(i as int, keep, status_at(delta@)),
        decreases delta.len() - i,
    {
        if base_sites.contains(delta[i].id.as_str()) && delta[i].profile_id == *profile_id {
            let ghost earlier = texts(result@);
            result.push(delta[i].resolution_status.clone());
            assert(texts(result@) =~= earlier.push(delta@[i as int].resolution_status@));
        }
        i = i + 1;
    }
    result
}

/// Takes out of a delta what the base already holds identically, so that a build observed
/// twice adds nothing twice. A delta that repeats nothing, or that is refused, stays as
/// it is.
pub fn deduplicate_identical_build_evidence(
    base: &GraphSnapshot,
    delta: BuildGraphDelta,
) -> (result: Result<BuildGraphDelta, BuildError>)
    ensures
        match result {
            Err(error) => duplicate_error(*base, delta) == Some(error),
            Ok(after) => duplicate_error(*base, delta) is None && if repeats(*base, delta) {
                is_without_held(*base, delta, after)
            } else {
                after == delta
            },
        },
{
    let base_sites = TextIndex::new(site_ids(&base.sites));
    let delta_sites = TextIndex::new(site_ids(&delta.sites));
    let base_edges = TextIndex::new(edge_ids(&base.edges));
    let delta_edges = TextIndex::new(edge_ids(&delta.edges));
    if let Some(error) = check_site_conflicts(&base.sites, &base_sites, &delta.sites) {
        return Err(error);
    }
    if let Some(error) = check_edge_conflicts(base, &delta, &base_sites, &delta_sites, &base_edges) {
        return Err(error);
    }
    let held = held_statuses(&delta.sites, &base_sites, Ghost(base.sites@));
    let mut edge_held: bool = false;
    let mut i: usize = 0;
    while i < delta.edges.len()
        invariant
            i <= delta.edges.len(),
            base_edges.keys() == crate::matrix_facts::edge_ids_of(base.edges@),
            edge_held == exists|k: int|
                0 <= k < i && crate::matrix_facts::edge_ids_of(base.edges@).contains(
                    (#[trigger] delta.edges@[k]).id@,
                ),
        decreases delta.edges.len() - i,
    {
        if base_edges.contains(delta.edges[i].id.as_str()) {
            edge_held = true;
        }
        i = i + 1;
    }
    if held.len() == 0 && !edge_held {
        return Ok(delta);
    }
    assert(repeats(*base, delta));
    let ghost before = delta;
    let mut profiles: Vec<ProfileRecord> = Vec::new();
    let ghost profile_source = delta.profiles@;
    let delta_site_rows = delta.sites;
    for profile in it: delta.profiles
        invariant
            it.seq() == profile_source,
            before.profiles@ == profile_source,
            before.sites == delta_site_rows,
            base_sites.keys() == crate::matrix_facts::site_ids_of(base.sites@),
            profiles.len() == it.index(),
            forall|k: int|
                0 <= k < profiles.len() ==> (#[trigger] profiles@[k])@ == profile_without_held(
                    *base,
                    before,
                    profile_source[k]@,
                ),
    {
        assert(profile == profile_source[it.index() as int]);
        let ghost original = profile@;
        let mut changed = profile;
        let removed = held_statuses_of_profile(&delta_site_rows, &base_sites, &changed.id, Ghost(base.sites@));
        let coverage: Option<CoverageRecord> = match changed.coverage {
            Some(coverage) => {
                let mut coverage = coverage;
                subtract_site_coverage(&mut coverage, &removed);
                Some(coverage)
            },
            None => None,
        };
        changed.coverage = coverage;
        assert(changed@ =~= profile_without_held(*base, before, original));
        profiles.push(changed);
    }
    let mut coverage = delta.coverage;
    subtract_site_coverage(&mut coverage, &held);
    let mut sites: Vec<SiteRecord> = Vec::new();
    let ghost site_source = delta_site_rows@;
    for site in it: delta_site_rows
        invariant
            it.seq() == site_source,
            base_sites.keys() == crate::matrix_facts::site_ids_of(base.sites@),
            sites@ == collect(it.index() as int, site_is_new(base.sites@, site_source), item_at(site_source)),
    {
        assert(site == site_source[it.index() as int]);
        if !base_sites.contains(site.id.as_str()) {
            sites.push(site);
        }
    }
    let mut edges: Vec<EdgeRecord> = Vec::new();
    let ghost edge_source = delta.edges@;
    for edge in it: delta.edges
        invariant
            it.seq() == edge_source,
            base_edges.keys() == crate::matrix_facts::edge_ids_of(base.edges@),
            edges@ == collect(it.index() as int, edge_is_new(base.edges@, edge_source), item_at(edge_source)),
    {
        assert(edge == edge_source[it.index() as int]);
        if !base_edges.contains(edge.id.as_str()) {
            edges.push(edge);
        }
    }
    let mut evidence: Vec<EvidenceRecord> = Vec::new();
    let ghost evidence_source = delta.evidence@;
    for item in it: delta.evidence
        invariant
            it.seq() == evidence_source,
            before.evidence@ == evidence_source,
            base_sites.keys() == crate::matrix_facts::site_ids_of(base.sites@),
            delta_sites.keys() == crate::matrix_facts::site_ids_of(before.sites@),
            base_edges.keys() == crate::matrix_facts::edge_ids_of(base.edges@),
            delta_edges.keys() == crate::matrix_facts::edge_ids_of(before.edges@),
            evidence@ == collect(it.index() as int, evidence_is_new(*base, before), item_at(evidence_source)),
    {
        assert(item == evidence_source[it.index() as int]);
        let of_site = same(item.owner_type.as_str(), "site") && base_sites.contains(item.owner_id.as_str())
            && delta_sites.contains(item.owner_id.as_str());
        let of_edge = same(item.owner_type.as_str(), "edge") && base_edges.contains(item.owner_id.as_str())
            && delta_edges.contains(item.owner_id.as_str());
        if !of_site && !of_edge {
            evidence.push(item);
        }
    }
    Ok(
        BuildGraphDelta {
            profiles,
            nodes: delta.nodes,
            sites,
            edges,
            evidence,
            diagnostics: delta.diagnostics,
            coverage,
        },
    )
}

// ---------------------------------------------------------------------------------------
// The united graph
// ---------------------------------------------------------------------------------------

/// The first profile from `from` on with an identity.
pub open spec fn first_profile_from(profiles: Seq<ProfileModel>, id: Seq<char>, from: int) -> Option<int>
    decreases profiles.len() - from,
{
    if from < 0 || from >= profiles.len() {
        None
    } else if profiles[from].id == id {
        Some(from)
    } else {
        first_profile_from(profiles, id, from + 1)
    }
}

/// Profiles with one of a build: a known profile takes the build's coverage into its own,
/// a new one follows the others.
pub open spec fn with_profile(profiles: Seq<ProfileModel>, profile: ProfileModel) -> Seq<ProfileModel> {
    match first_profile_from(profiles, profile.id, 0) {
        None => profiles.push(profile),
        Some(i) => match profile.coverage {
            None => profiles,
            Some(added) => {
                let own = match profiles[i].coverage {
                    Some(coverage) => coverage,
                    None => coverage_zero(),
                };
                profiles.update(
                    i,
                    ProfileModel { coverage: Some(coverage_union(own, added)), ..profiles[i] },
                )
            },
        },
    }
}

/// Profiles with the first `count` of a build.
pub open spec fn with_profiles(
    profiles: Seq<ProfileModel>,
    added: Seq<ProfileModel>,
    count: int,
) -> Seq<ProfileModel>
    decreases count,
{
    if count <= 0 {
        profiles
    } else {
        with_profile(with_profiles(profiles, added, count - 1), added[count - 1])
    }
}

/// Nodes with the first `count` of a build: a known node stays as it is.
pub open spec fn with_nodes(nodes: Seq<NodeRecord>, added: Seq<NodeRecord>, count: int) -> Seq<NodeRecord>
    decreases count,
{
    if count <= 0 {
        nodes
    } else {
        let earlier = with_nodes(nodes, added, count - 1);
        if node_ids_of(earlier).contains(added[count - 1].id@) {
            earlier
        } else {
            earlier.push(added[count - 1])
        }
    }
}

/// The identities of profiles.
pub open spec fn profile_model_ids(profiles: Seq<ProfileModel>) -> Seq<Seq<char>> {
    Seq::new(profiles.len(), |i: int| profiles[i].id)
}

/// Whether `after` is a snapshot with the delta of a build, before its profile matrix is
/// made anew: profiles, nodes, sites and edges by identity, evidence and diagnostics as
/// they come, coverage united, project code executed.
pub open spec fn is_united(before: GraphSnapshot, delta: BuildGraphDelta, after: GraphSnapshot) -> bool {
    let profiles = with_profiles(views(before.profiles@), views(delta.profiles@), delta.profiles@.len() as int);
    let nodes = with_nodes(before.nodes@, delta.nodes@, delta.nodes@.len() as int);
    let sites = before.sites@ + delta.sites@;
    let edges = before.edges@ + delta.edges@;
    &&& is_stable_sort(profiles, profile_model_ids(profiles), views(after.profiles@))
    &&& is_stable_sort(nodes, node_ids_of(nodes), after.nodes@)
    &&& is_stable_sort(sites, crate::matrix_facts::site_ids_of(sites), after.sites@)
    &&& is_stable_sort(edges, crate::matrix_facts::edge_ids_of(edges), after.edges@)
    &&& after.evidence@ == before.evidence@ + delta.evidence@
    &&& after.diagnostics@ == before.diagnostics@ + delta.diagnostics@
    &&& after.coverage@ == (CoverageModel {
        profiles: profiles.len() as u64,
        ..coverage_union(before.coverage@, delta.coverage@)
    })
    &&& after.scan == (ScanRecord { project_code_executed: true, ..before.scan })
    &&& after.file_coverage == before.file_coverage
    &&& after.adapter_logs == before.adapter_logs
    &&& after.profile_matrix == before.profile_matrix
}

fn find_profile(profiles: &Vec<ProfileRecord>, id: &String) -> (result: Option<usize>)
    ensures
        match result {
            Some(i) => i < profiles.len() && first_profile_from(views(profiles@), id@, 0) == Some(i as int),
            None => first_profile_from(views(profiles@), id@, 0) is None,
        },
{
    let ghost models = views(profiles@);
    let mut i: usize = 0;
    while i < profiles.len()
        invariant
            i <= profiles.len(),
            models == views(profiles@),
            first_profile_from(models, id@, 0) == first_profile_from(models, id@, i as int),
        decreases profiles.len() - i,
    {
        assert(models[i as int] == profiles@[i as int]@);
        if profiles[i].id == *id {
            return Some(i);
        }
        i = i + 1;
    }
    None
}

fn unite_profile(profiles: &mut Vec<ProfileRecord>, profile: ProfileRecord)
    ensures
        views(final(profiles)@) == with_profile(views(old(profiles)@), profile@),
{
    let ghost before = views(profiles@);
    match find_profile(profiles, &profile.id) {
        None => {
            profiles.push(profile);
            assert(views(profiles@) =~= before.push(profile@));
        },
        Some(i) => {
            match &profile.coverage {
                None => {},
                Some(added) => {
                    let mut coverage: CoverageRecord = match profiles[i].coverage.take() {
                        Some(coverage) => coverage,
                        None => CoverageRecord::default(),
                    };
                    let ghost own = coverage@;
                    union_coverage(&mut coverage, added);
                    proof {
                        coverage_union_is_unique(own, added@, coverage@);
                    }
                    profiles[i].coverage = Some(coverage);
                    assert(profiles@[i as int]@ =~= (ProfileModel {
                        coverage: Some(coverage_union(own, added@)),
                        ..before[i as int]
                    }));
                    assert(views(profiles@) =~= before.update(
                        i as int,
                        ProfileModel { coverage: Some(coverage_union(own, added@)), ..before[i as int] },
                    ));
                },
            }
        },
    }
}

fn has_node(nodes: &Vec<NodeRecord>, id: &String) -> (result: bool)
    ensures
        result == node_ids_of(nodes@).contains(id@),
{
    let mut i: usize = 0;
    while i < nodes.len()
        invariant
            i <= nodes.len(),
            forall|k: int| 0 <= k < i ==> (#[trigger] nodes@[k]).id@ != id@,
        decreases nodes.len() - i,
    {
        if nodes[i].id == *id {
            assert(node_ids_of(nodes@)[i as int] == id@);
            return true;
        }
        i = i + 1;
    }
    false
}

fn sorted_profiles(profiles: Vec<ProfileRecord>) -> (result: Vec<ProfileRecord>)
    ensures
        is_stable_sort(views(profiles@), profile_model_ids(views(profiles@)), views(result@)),
        result.len() == profiles.len(),
{
    let ghost source = profiles@;
    let keys = profile_ids(&profiles);
    assert(texts(keys@) =~= profile_model_ids(views(source)));
    assert(texts(keys@).len() == source.len());
    let sorted = stable_sort(profiles, &keys);
    proof {
        stable_sort_of_views(source, texts(keys@), sorted@);
    }
    sorted
}

/// Unites a snapshot with the delta of a build; the profile matrix is left to be made
/// anew.
pub fn merge_build_delta(snapshot: &mut GraphSnapshot, delta: BuildGraphDelta)
    ensures
        is_united(*old(snapshot), delta, *final(snapshot)),
{
    let ghost before = *snapshot;
    let mut profiles: Vec<ProfileRecord> = Vec::new();
    core::mem::swap(&mut profiles, &mut snapshot.profiles);
    let ghost profile_source = delta.profiles@;
    for profile in it: delta.profiles
        invariant
            it.seq() == profile_source,
            views(profiles@) == with_profiles(
                views(before.profiles@),
                views(profile_source),
                it.index() as int,
            ),
    {
        assert(views(profile_source)[it.index() as int] == profile@);
        unite_profile(&mut profiles, profile);
    }
    let mut nodes: Vec<NodeRecord> = Vec::new();
    core::mem::swap(&mut nodes, &mut snapshot.nodes);
    let ghost node_source = delta.nodes@;
    for node in it: delta.nodes
        invariant
            it.seq() == node_source,
            nodes@ == with_nodes(before.nodes@, node_source, it.index() as int),
    {
        assert(node == node_source[it.index() as int]);
        if !has_node(&nodes, &node.id) {
            nodes.push(node);
        }
    }
    let mut sites: Vec<SiteRecord> = Vec::new();
    core::mem::swap(&mut sites, &mut snapshot.sites);
    let mut added = delta.sites;
    sites.append(&mut added);
    let mut edges: Vec<EdgeRecord> = Vec::new();
    core::mem::swap(&mut edges, &mut snapshot.edges);
    let mut added = delta.edges;
    edges.append(&mut added);
    let mut evidence: Vec<EvidenceRecord> = Vec::new();
    core::mem::swap(&mut evidence, &mut snapshot.evidence);
    let mut added = delta.evidence;
    evidence.append(&mut added);
    let mut diagnostics: Vec<crate::records::DiagnosticRecord> = Vec::new();
    core::mem::swap(&mut diagnostics, &mut snapshot.diagnostics);
    let mut added = delta.diagnostics;
    diagnostics.append(&mut added);
    let mut coverage = snapshot.coverage.copy();
    let ghost own = coverage@;
    union_coverage(&mut coverage, &delta.coverage);
    proof {
        coverage_union_is_unique(own, delta.coverage@, coverage@);
    }
    assert(views(profiles@).len() == profiles@.len());
    coverage.profiles = profiles.len() as u64;
    let node_keys = node_ids(&nodes);
    assert(texts(node_keys@).len() == nodes@.len());
    let site_keys = site_ids(&sites);
    assert(texts(site_keys@).len() == sites@.len());
    let edge_keys = edge_ids(&edges);
    assert(texts(edge_keys@).len() == edges@.len());
    snapshot.coverage = coverage;
    snapshot.scan.project_code_executed = true;
    snapshot.profiles = sorted_profiles(profiles);
    snapshot.nodes = stable_sort(nodes, &node_keys);
    snapshot.sites = stable_sort(sites, &site_keys);
    snapshot.edges = stable_sort(edges, &edge_keys);
    snapshot.evidence = evidence;
    snapshot.diagnostics = diagnostics;
}

// ---------------------------------------------------------------------------------------
// Laws
// ---------------------------------------------------------------------------------------

/// Uniting with a build keeps every node of the base as it stands and in its place before
/// sorting: a build never overwrites a node.
pub proof fn union_keeps_base_nodes(nodes: Seq<NodeRecord>, added: Seq<NodeRecord>, count: int)
    requires
        0 <= count <= added.len(),
    ensures
        with_nodes(nodes, added, count).len() >= nodes.len(),
        forall|i: int| 0 <= i < nodes.len() ==> #[trigger] with_nodes(nodes, added, count)[i] == nodes[i],
    decreases count,
{
    if count > 0 {
        union_keeps_base_nodes(nodes, added, count - 1);
    }
}

/// Observing a build whose sites and edges the base already holds, each with all of its
/// edges, adds no site and no edge.
pub proof fn repeated_build_adds_nothing(base: GraphSnapshot, delta: BuildGraphDelta, after: BuildGraphDelta)
    requires
        is_without_held(base, delta, after),
        forall|i: int|
            0 <= i < delta.sites@.len() ==> crate::matrix_facts::site_ids_of(base.sites@).contains(
                (#[trigger] delta.sites@[i]).id@,
            ),
        forall|i: int|
            0 <= i < delta.edges@.len() ==> crate::matrix_facts::edge_ids_of(base.edges@).contains(
                (#[trigger] delta.edges@[i]).id@,
            ),
    ensures
        after.sites@.len() == 0,
        after.edges@.len() == 0,
{
    collect_of_none(delta.sites@.len() as int, site_is_new(base.sites@, delta.sites@), item_at(delta.sites@));
    collect_of_none(delta.edges@.len() as int, edge_is_new(base.edges@, delta.edges@), item_at(delta.edges@));
}

proof fn collect_of_none<T>(count: int, keep: spec_fn(int) -> bool, item: spec_fn(int) -> T)
    requires
        forall|i: int| 0 <= i < count ==> !#[trigger] keep(i),
    ensures
        collect(count, keep, item).len() == 0,
    decreases count,
{
    if count > 0 {
        collect_of_none(count - 1, keep, item);
    }
}

} // verus!

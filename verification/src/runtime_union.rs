//! What a runtime session may add to a graph.

use vstd::prelude::*;

use crate::build_attempt::is_blank_text;
use crate::build_union::{all_in, all_stand_in, edge_ids, node_ids, node_ids_of, site_ids};
use crate::json::opt_value;
use crate::matrix_facts::{edge_ids_of, site_ids_of};
use crate::matrix_refresh::{diagnostic_ids, evidence_models, is_evidence_order, sort_evidence};
use crate::order::{
    first_failure, first_failure_remains, is_sorted_set, is_stable_sort, last_position, positions_of,
    positions_of_are_ascending_and_complete, sorted_set, stable_sort, TextIndex,
};
use crate::profile_matrix::{
    canonical_effective_input_id, canonical_input, declared_effective_input_id, declared_input, declared_parent,
    declared_parent_profile_id, profile_ids_of, profile_index,
};
use crate::records::{
    CoverageRecord, DiagnosticRecord, EdgeRecord, EvidenceRecord, GraphSnapshot, NodeRecord, ProfileRecord,
    SiteRecord,
};
use crate::runtime_session::{RuntimeError, RuntimeSessionDelta, RuntimeSessionRecord};
use crate::sort::{is_ranked_sort, ranked_sort, Ranked};
use crate::text::{
    is_blank, less, opt_text, same, text_lt, text_lt_irreflexive, text_lt_total, text_lt_transitive, texts,
};

verus! {

// ---------------------------------------------------------------------------------------
// Normal form
// ---------------------------------------------------------------------------------------

/// The place of a diagnostic: by ordinal, then by identity.
#[derive(Debug, Clone, PartialEq, Eq)]
pub struct DiagnosticPlace {
    pub ordinal: i64,
    pub id: String,
}

impl Ranked for DiagnosticPlace {
    open spec fn before(a: DiagnosticPlace, b: DiagnosticPlace) -> bool {
        a.ordinal < b.ordinal || (a.ordinal == b.ordinal && text_lt(a.id@, b.id@))
    }

    proof fn before_is_irreflexive(a: DiagnosticPlace) {
        text_lt_irreflexive(a.id@);
    }

    proof fn before_is_transitive(a: DiagnosticPlace, b: DiagnosticPlace, c: DiagnosticPlace) {
        if text_lt(a.id@, b.id@) && text_lt(b.id@, c.id@) {
            text_lt_transitive(a.id@, b.id@, c.id@);
        }
    }

    proof fn before_is_weak(a: DiagnosticPlace, b: DiagnosticPlace, c: DiagnosticPlace) {
        text_lt_total(a.id@, b.id@);
        if text_lt(b.id@, a.id@) && text_lt(a.id@, c.id@) {
            text_lt_transitive(b.id@, a.id@, c.id@);
        }
    }

    fn is_before(a: &DiagnosticPlace, b: &DiagnosticPlace) -> (result: bool) {
        a.ordinal < b.ordinal || (a.ordinal == b.ordinal && less(a.id.as_str(), b.id.as_str()))
    }
}

/// Whether keys are the places of diagnostics.
pub open spec fn are_diagnostic_places(places: Seq<DiagnosticPlace>, diagnostics: Seq<DiagnosticRecord>) -> bool {
    &&& places.len() == diagnostics.len()
    &&& forall|i: int|
        0 <= i < places.len() ==> (#[trigger] places[i]).ordinal == diagnostics[i].ordinal && places[i].id@
            == diagnostics[i].id@
}

/// Whether `sorted` is the diagnostics by ordinal and identity, ties as they stood.
pub open spec fn is_diagnostic_order(diagnostics: Seq<DiagnosticRecord>, sorted: Seq<DiagnosticRecord>) -> bool {
    exists|places: Seq<DiagnosticPlace>| #[trigger]
        are_diagnostic_places(places, diagnostics) && is_ranked_sort(diagnostics, places, sorted)
}

/// Whether `after` is a session's delta in normal form: each list in order, levels and
/// reasons each once, ascending.
pub open spec fn is_normalized(before: RuntimeSessionDelta, after: RuntimeSessionDelta) -> bool {
    &&& is_stable_sort(before.nodes@, node_ids_of(before.nodes@), after.nodes@)
    &&& is_stable_sort(before.sites@, site_ids_of(before.sites@), after.sites@)
    &&& is_stable_sort(before.edges@, edge_ids_of(before.edges@), after.edges@)
    &&& is_evidence_order(evidence_models(before.evidence@), evidence_models(after.evidence@))
    &&& is_diagnostic_order(before.diagnostics@, after.diagnostics@)
    &&& is_sorted_set(
        texts(after.session.coverage.completeness@),
        texts(before.session.coverage.completeness@),
    )
    &&& is_sorted_set(texts(after.session.coverage.reasons@), texts(before.session.coverage.reasons@))
    &&& after.session == (RuntimeSessionRecord {
        coverage: CoverageRecord {
            completeness: after.session.coverage.completeness,
            reasons: after.session.coverage.reasons,
            ..before.session.coverage
        },
        ..before.session
    })
}

fn sort_diagnostics(diagnostics: Vec<DiagnosticRecord>) -> (result: Vec<DiagnosticRecord>)
    ensures
        is_diagnostic_order(diagnostics@, result@),
{
    let mut places: Vec<DiagnosticPlace> = Vec::new();
    let mut i: usize = 0;
    while i < diagnostics.len()
        invariant
            i <= diagnostics.len(),
            places.len() == i,
            forall|k: int|
                0 <= k < i ==> (#[trigger] places@[k]).ordinal == diagnostics@[k].ordinal && places@[k].id@
                    == diagnostics@[k].id@,
        decreases diagnostics.len() - i,
    {
        places.push(DiagnosticPlace { ordinal: diagnostics[i].ordinal, id: diagnostics[i].id.clone() });
        i = i + 1;
    }
    assert(are_diagnostic_places(places@, diagnostics@));
    ranked_sort(diagnostics, &places)
}

/// Brings the delta of a session into normal form.
pub fn normalize_runtime_delta(delta: RuntimeSessionDelta) -> (result: RuntimeSessionDelta)
    ensures
        is_normalized(delta, result),
{
    let node_keys = node_ids(&delta.nodes);
    assert(texts(node_keys@).len() == delta.nodes@.len());
    let site_keys = site_ids(&delta.sites);
    assert(texts(site_keys@).len() == delta.sites@.len());
    let edge_keys = edge_ids(&delta.edges);
    assert(texts(edge_keys@).len() == delta.edges@.len());
    let mut session = delta.session;
    session.coverage.completeness = sorted_set(session.coverage.completeness);
    session.coverage.reasons = sorted_set(session.coverage.reasons);
    RuntimeSessionDelta {
        session,
        nodes: stable_sort(delta.nodes, &node_keys),
        sites: stable_sort(delta.sites, &site_keys),
        edges: stable_sort(delta.edges, &edge_keys),
        evidence: sort_evidence(delta.evidence),
        diagnostics: sort_diagnostics(delta.diagnostics),
    }
}

// ---------------------------------------------------------------------------------------
// The session
// ---------------------------------------------------------------------------------------

/// What is wrong with a session and its profile. `derived` holds, for each profile of the
/// base, the effective input derived from the profile's identity.
pub open spec fn session_error(
    base: Seq<ProfileRecord>,
    derived: Seq<String>,
    session: RuntimeSessionRecord,
) -> Option<RuntimeError> {
    let profile = session.profile@;
    if is_blank_text(session.id@) || is_blank_text(session.source_session_id@) || is_blank_text(
        session.trace_digest@,
    ) || !(session.status@ == "completed"@ || session.status@ == "partial"@) || session.event_count == 0
        || session.observation_count == 0 || text_lt(session.last_observed_at@, session.first_observed_at@) {
        Some(RuntimeError::SessionMetadata)
    } else if profile.id != session.profile_id@ || profile.properties.text_field("profile_phase"@) != Some(
        "runtime"@,
    ) {
        Some(RuntimeError::ProfileContract)
    } else if !(session.profile_status@ == "resolved"@ || session.profile_status@ == "unresolved"@)
        || profile.properties.text_field("profile_status"@) != Some(session.profile_status@) || profile.environment.value()
        != session.environment@.value() {
        Some(RuntimeError::ProfileStatus)
    } else if session.profile_status@ == "resolved"@ {
        match opt_text(session.parent_profile_id) {
            None => Some(RuntimeError::ResolvedWithoutParent),
            Some(parent_id) => {
                let parents = positions_of(profile_ids_of(base), parent_id, base.len() as int);
                if parents.len() == 0 {
                    Some(RuntimeError::ParentMissing)
                } else {
                    let parent = base[parents[0]]@;
                    if declared_parent(profile) != Some(parent_id) || declared_input(profile) != Some(
                        canonical_input(parent, derived[parents[0]]@),
                    ) || profile.language != parent.language || session.profile_reason is Some {
                        Some(RuntimeError::ParentContract)
                    } else {
                        None
                    }
                }
            },
        }
    } else if session.parent_profile_id is Some || declared_parent(profile) is Some || match opt_text(
        session.profile_reason,
    ) {
        Some(reason) => reason.len() == 0,
        None => true,
    } {
        Some(RuntimeError::UnresolvedProfile)
    } else {
        None
    }
}

fn text_is(value: Option<&str>, expected: &str) -> (result: bool)
    ensures
        result == (crate::operations::opt_str(value) == Some(expected@)),
{
    match value {
        Some(value) => same(value, expected),
        None => false,
    }
}

fn check_resolved_profile(base: &Vec<ProfileRecord>, derived: &Vec<String>, session: &RuntimeSessionRecord) -> (result:
    Option<RuntimeError>)
    requires
        derived.len() == base.len(),
    ensures
        result == match opt_text(session.parent_profile_id) {
            None => Some(RuntimeError::ResolvedWithoutParent),
            Some(parent_id) => {
                let profile = session.profile@;
                let parents = positions_of(profile_ids_of(base@), parent_id, base@.len() as int);
                if parents.len() == 0 {
                    Some(RuntimeError::ParentMissing)
                } else {
                    let parent = base@[parents[0]]@;
                    if declared_parent(profile) != Some(parent_id) || declared_input(profile) != Some(
                        canonical_input(parent, derived@[parents[0]]@),
                    ) || profile.language != parent.language || session.profile_reason is Some {
                        Some(RuntimeError::ParentContract)
                    } else {
                        None
                    }
                }
            },
        },
{
    let parent_id = match &session.parent_profile_id {
        Some(parent_id) => parent_id,
        None => {
            return Some(RuntimeError::ResolvedWithoutParent);
        },
    };
    let index = profile_index(base);
    let parents = index.positions(parent_id.as_str());
    let ghost members = positions_of(profile_ids_of(base@), parent_id@, base@.len() as int);
    proof {
        let listed = Seq::new(parents@.len(), |i: int| parents@[i] as int);
        assert(listed == members);
        if parents@.len() > 0 {
            assert(listed[0] == members[0]);
        }
    }
    if parents.len() == 0 {
        return Some(RuntimeError::ParentMissing);
    }
    let parent = &base[parents[0]];
    let input = canonical_effective_input_id(parent, derived[parents[0]].as_str());
    if !text_is(declared_parent_profile_id(&session.profile), parent_id.as_str()) || !text_is(
        declared_effective_input_id(&session.profile),
        input.as_str(),
    ) || session.profile.language != parent.language || session.profile_reason.is_some() {
        Some(RuntimeError::ParentContract)
    } else {
        None
    }
}

fn check_session(base: &Vec<ProfileRecord>, derived: &Vec<String>, session: &RuntimeSessionRecord) -> (result: Option<
    RuntimeError,
>)
    requires
        derived.len() == base.len(),
    ensures
        result == session_error(base@, derived@, *session),
{
    if is_blank(session.id.as_str()) || is_blank(session.source_session_id.as_str()) || is_blank(
        session.trace_digest.as_str(),
    ) || !(same(session.status.as_str(), "completed") || same(session.status.as_str(), "partial"))
        || session.event_count == 0 || session.observation_count == 0 || less(
        session.last_observed_at.as_str(),
        session.first_observed_at.as_str(),
    ) {
        return Some(RuntimeError::SessionMetadata);
    }
    let profile = &session.profile;
    if profile.id != session.profile_id || !text_is(profile.properties.get_str("profile_phase"), "runtime") {
        return Some(RuntimeError::ProfileContract);
    }
    let resolved = same(session.profile_status.as_str(), "resolved");
    if !(resolved || same(session.profile_status.as_str(), "unresolved")) || !text_is(
        profile.properties.get_str("profile_status"),
        session.profile_status.as_str(),
    ) || !profile.environment.same_value(&session.environment) {
        return Some(RuntimeError::ProfileStatus);
    }
    if resolved {
        return check_resolved_profile(base, derived, session);
    }
    let without_reason: bool = match &session.profile_reason {
        Some(reason) => {
            proof {
                reveal_strlit("");
                if reason@.len() == 0 {
                    assert(reason@ =~= ""@);
                }
            }
            same(reason.as_str(), "")
        },
        None => true,
    };
    if session.parent_profile_id.is_some() || declared_parent_profile_id(profile).is_some() || without_reason {
        Some(RuntimeError::UnresolvedProfile)
    } else {
        None
    }
}

// ---------------------------------------------------------------------------------------
// The graph
// ---------------------------------------------------------------------------------------

/// Whether a key stands earlier in its list too.
pub open spec fn occurs_earlier(keys: Seq<Seq<char>>, i: int) -> bool {
    exists|j: int| 0 <= j < i && #[trigger] keys[j] == keys[i]
}

/// What is wrong with a node of a session: it occurs once, and is a node of the base as it
/// stands there or marked as seen at run time only.
pub open spec fn runtime_node_error(base: Seq<NodeRecord>, delta: Seq<NodeRecord>) -> spec_fn(int) -> Option<
    RuntimeError,
> {
    |i: int|
        if occurs_earlier(node_ids_of(delta), i) {
            Some(RuntimeError::NodeDuplicated { node: i as usize })
        } else {
            match last_position(node_ids_of(base), delta[i].id@, base.len() as int) {
                Some(existing) => if base[existing]@.value() != delta[i]@.value() {
                    Some(RuntimeError::NodeOverwrites { node: i as usize })
                } else {
                    None
                },
                None => if delta[i]@.properties.bool_field("runtime_only"@) != Some(true) {
                    Some(RuntimeError::NodeNotSentinel { node: i as usize })
                } else {
                    None
                },
            }
        }
}

/// What is wrong with a site of a session: where the base holds it, it holds it so; it
/// occurs once, was observed in the session's profile and joins nodes of the united graph.
pub open spec fn runtime_site_error(
    base: Seq<SiteRecord>,
    nodes: Seq<Seq<char>>,
    profile_id: Seq<char>,
    delta: Seq<SiteRecord>,
) -> spec_fn(int) -> Option<RuntimeError> {
    |i: int|
        {
            let site = delta[i];
            let existing = last_position(site_ids_of(base), site.id@, base.len() as int);
            if existing matches Some(existing) && base[existing]@.value() != site@.value() {
                Some(RuntimeError::SiteConflicts { site: i as usize })
            } else if occurs_earlier(site_ids_of(delta), i) || site.profile_id@ != profile_id || site.precision@
                != "observed"@ || !nodes.contains(site.source@) || !all_stand_in(texts(site.target_ids@), nodes) {
                Some(RuntimeError::SiteUnauthorized { site: i as usize })
            } else {
                None
            }
        }
}

/// What is wrong with an edge of a session: where the base holds it, it holds it so; it
/// occurs once, was observed at run time in the session's profile and environment, joins
/// nodes of the united graph and comes from a site of the session.
pub open spec fn runtime_edge_error(
    base: Seq<EdgeRecord>,
    nodes: Seq<Seq<char>>,
    sites: Seq<Seq<char>>,
    profile_id: Seq<char>,
    environment: Seq<char>,
    delta: Seq<EdgeRecord>,
) -> spec_fn(int) -> Option<RuntimeError> {
    |i: int|
        {
            let edge = delta[i];
            let existing = last_position(edge_ids_of(base), edge.id@, base.len() as int);
            if existing matches Some(existing) && base[existing]@.value() != edge@.value() {
                Some(RuntimeError::EdgeConflicts { edge: i as usize })
            } else if occurs_earlier(edge_ids_of(delta), i) || edge.phase@ != "runtime"@ || edge.precision@
                != "observed"@ || edge.profile_id@ != profile_id || edge.environment@ != environment
                || !nodes.contains(edge.source@) || !nodes.contains(edge.target@) || match opt_text(edge.site_id) {
                Some(site_id) => !sites.contains(site_id),
                None => true,
            } {
                Some(RuntimeError::EdgeUnauthorized { edge: i as usize })
            } else {
                None
            }
        }
}

/// Whether an owner is a site or an edge of a session.
pub open spec fn is_session_owner(
    owner_type: Seq<char>,
    owner_id: Seq<char>,
    sites: Seq<Seq<char>>,
    edges: Seq<Seq<char>>,
) -> bool {
    (owner_type == "site"@ && sites.contains(owner_id)) || (owner_type == "edge"@ && edges.contains(owner_id))
}

/// Whether an earlier piece of evidence has the same owner and ordinal.
pub open spec fn repeats_evidence(evidence: Seq<EvidenceRecord>, i: int) -> bool {
    exists|j: int|
        0 <= j < i && (#[trigger] evidence[j]).owner_type@ == evidence[i].owner_type@ && evidence[j].owner_id@
            == evidence[i].owner_id@ && evidence[j].ordinal == evidence[i].ordinal
}

/// What is wrong with evidence of a session: it names the session, its environment, a
/// positive count and times within the session, and its owner belongs to the session.
pub open spec fn runtime_evidence_error(
    session: RuntimeSessionRecord,
    sites: Seq<Seq<char>>,
    edges: Seq<Seq<char>>,
    evidence: Seq<EvidenceRecord>,
) -> spec_fn(int) -> Option<RuntimeError> {
    |i: int|
        {
            let item = evidence[i];
            let properties = item@.properties;
            if !(properties is Object) {
                Some(RuntimeError::EvidenceNotObject { evidence: i as usize })
            } else {
                match (
                    properties.text_field("first_observed_at"@),
                    properties.text_field("last_observed_at"@),
                ) {
                    (None, _) => Some(RuntimeError::EvidenceWithoutFirstTime { evidence: i as usize }),
                    (Some(_), None) => Some(RuntimeError::EvidenceWithoutLastTime { evidence: i as usize }),
                    (Some(first), Some(last)) => if !is_session_owner(
                        item.owner_type@,
                        item.owner_id@,
                        sites,
                        edges,
                    ) || item.kind@ != "runtime"@ || properties.text_field("session_id"@) != Some(session.id@)
                        || properties.text_field("source_session_id"@) != Some(session.source_session_id@)
                        || opt_value(properties.field("environment"@)) != Some(session.environment@.value()) || match properties.unsigned_field(
                        "count"@,
                    ) {
                        Some(count) => count == 0,
                        None => true,
                    } || text_lt(last, first) || text_lt(first, session.first_observed_at@) || text_lt(
                        session.last_observed_at@,
                        last,
                    ) || repeats_evidence(evidence, i) {
                        Some(RuntimeError::EvidenceUnowned { evidence: i as usize })
                    } else {
                        None
                    },
                }
            }
        }
}

/// What is wrong with a diagnostic of a session: it is numbered by its place, has an
/// identity of its own and names the session.
pub open spec fn runtime_diagnostic_error(session_id: Seq<char>, diagnostics: Seq<DiagnosticRecord>) -> spec_fn(
    int,
) -> Option<RuntimeError> {
    |i: int|
        {
            let diagnostic = diagnostics[i];
            if diagnostic.ordinal != i as i64 || is_blank_text(diagnostic.id@) || occurs_earlier(
                diagnostic_ids(diagnostics),
                i,
            ) || diagnostic@.properties.text_field("session_id"@) != Some(session_id) {
                Some(RuntimeError::DiagnosticNotCanonical { diagnostic: i as usize })
            } else {
                None
            }
        }
}

/// Whether an owner has a first piece of evidence.
pub open spec fn has_primary(evidence: Seq<EvidenceRecord>, owner_type: Seq<char>, owner_id: Seq<char>) -> bool {
    exists|i: int|
        0 <= i < evidence.len() && (#[trigger] evidence[i]).owner_type@ == owner_type && evidence[i].owner_id@
            == owner_id && evidence[i].ordinal == 0
}

/// Whether every owner of a kind has a first piece of evidence.
pub open spec fn all_have_primary(
    evidence: Seq<EvidenceRecord>,
    owner_type: Seq<char>,
    owners: Seq<Seq<char>>,
) -> bool {
    forall|i: int| 0 <= i < owners.len() ==> has_primary(evidence, owner_type, #[trigger] owners[i])
}

/// The first of two errors.
pub open spec fn or_runtime_error(first: Option<RuntimeError>, second: Option<RuntimeError>) -> Option<RuntimeError> {
    match first {
        Some(error) => Some(error),
        None => second,
    }
}

/// Why a session may not be united with a base; nothing where it may.
pub open spec fn runtime_union_error(
    base: GraphSnapshot,
    derived: Seq<String>,
    delta: RuntimeSessionDelta,
) -> Option<RuntimeError> {
    let session = delta.session;
    let nodes = node_ids_of(base.nodes@) + node_ids_of(delta.nodes@);
    let sites = site_ids_of(delta.sites@);
    let edges = edge_ids_of(delta.edges@);
    or_runtime_error(
        session_error(base.profiles@, derived, session),
        or_runtime_error(
            first_failure(delta.nodes@.len() as int, runtime_node_error(base.nodes@, delta.nodes@)),
            or_runtime_error(
                first_failure(
                    delta.sites@.len() as int,
                    runtime_site_error(base.sites@, nodes, session.profile_id@, delta.sites@),
                ),
                match session.environment@.text_field("name"@) {
                    None => Some(RuntimeError::EnvironmentWithoutName),
                    Some(environment) => or_runtime_error(
                        first_failure(
                            delta.edges@.len() as int,
                            runtime_edge_error(
                                base.edges@,
                                nodes,
                                sites,
                                session.profile_id@,
                                environment,
                                delta.edges@,
                            ),
                        ),
                        or_runtime_error(
                            first_failure(
                                delta.evidence@.len() as int,
                                runtime_evidence_error(session, sites, edges, delta.evidence@),
                            ),
                            or_runtime_error(
                                first_failure(
                                    delta.diagnostics@.len() as int,
                                    runtime_diagnostic_error(session.id@, delta.diagnostics@),
                                ),
                                if all_have_primary(delta.evidence@, "site"@, sites) && all_have_primary(
                                    delta.evidence@,
                                    "edge"@,
                                    edges,
                                ) {
                                    None
                                } else {
                                    Some(RuntimeError::OwnerWithoutPrimaryEvidence)
                                },
                            ),
                        ),
                    ),
                },
            ),
        ),
    )
}

fn stands_earlier(index: &TextIndex, key: &str, at: usize) -> (result: bool)
    requires
        at < index.keys().len(),
        index.keys()[at as int] == key@,
    ensures
        result == occurs_earlier(index.keys(), at as int),
{
    let found = index.positions(key);
    let ghost keys = index.keys();
    let ghost all = positions_of(keys, key@, keys.len() as int);
    proof {
        positions_of_are_ascending_and_complete(keys, key@, keys.len() as int);
        let listed = Seq::new(found@.len(), |i: int| found@[i] as int);
        assert(listed == all);
        assert(all.contains(at as int));
        assert(listed[0] == all[0]);
        if occurs_earlier(keys, at as int) {
            let j = choose|j: int| 0 <= j < at && #[trigger] keys[j] == keys[at as int];
            assert(all.contains(j));
            let k = choose|k: int| 0 <= k < all.len() && all[k] == j;
            if k > 0 {
                assert(all[0] < all[k]);
            }
        }
        if all[0] < at {
            assert(keys[all[0]] == key@);
        }
    }
    found[0] < at
}

fn check_nodes(base: &Vec<NodeRecord>, delta: &Vec<NodeRecord>) -> (result: Option<RuntimeError>)
    ensures
        result == first_failure(delta@.len() as int, runtime_node_error(base@, delta@)),
{
    let index = TextIndex::new(node_ids(base));
    let own = TextIndex::new(node_ids(delta));
    let ghost failure = runtime_node_error(base@, delta@);
    let mut i: usize = 0;
    while i < delta.len()
        invariant
            i <= delta.len(),
            index.keys() == node_ids_of(base@),
            own.keys() == node_ids_of(delta@),
            failure == runtime_node_error(base@, delta@),
            first_failure(i as int, failure) is None,
        decreases delta.len() - i,
    {
        let node = &delta[i];
        let error: Option<RuntimeError> = if stands_earlier(&own, node.id.as_str(), i) {
            Some(RuntimeError::NodeDuplicated { node: i })
        } else {
            match index.last(node.id.as_str()) {
                Some(existing) => if !base[existing].same_as(node) {
                    Some(RuntimeError::NodeOverwrites { node: i })
                } else {
                    None
                },
                None => {
                    let sentinel: bool = match node.properties.get_bool("runtime_only") {
                        Some(sentinel) => sentinel,
                        None => false,
                    };
                    if !sentinel {
                        Some(RuntimeError::NodeNotSentinel { node: i })
                    } else {
                        None
                    }
                },
            }
        };
        assert(error == failure(i as int));
        if error.is_some() {
            proof {
                first_failure_remains(i + 1, delta@.len() as int, failure);
            }
            return error;
        }
        i = i + 1;
    }
    None
}

fn check_sites(base: &Vec<SiteRecord>, nodes: &TextIndex, profile_id: &str, delta: &Vec<SiteRecord>) -> (result: Option<
    RuntimeError,
>)
    ensures
        result == first_failure(
            delta@.len() as int,
            runtime_site_error(base@, nodes.keys(), profile_id@, delta@),
        ),
{
    let index = TextIndex::new(site_ids(base));
    let own = TextIndex::new(site_ids(delta));
    let ghost failure = runtime_site_error(base@, nodes.keys(), profile_id@, delta@);
    let mut i: usize = 0;
    while i < delta.len()
        invariant
            i <= delta.len(),
            index.keys() == site_ids_of(base@),
            own.keys() == site_ids_of(delta@),
            failure == runtime_site_error(base@, nodes.keys(), profile_id@, delta@),
            first_failure(i as int, failure) is None,
        decreases delta.len() - i,
    {
        let site = &delta[i];
        let conflicts: bool = match index.last(site.id.as_str()) {
            Some(existing) => !base[existing].same_as(site),
            None => false,
        };
        let error: Option<RuntimeError> = if conflicts {
            Some(RuntimeError::SiteConflicts { site: i })
        } else if stands_earlier(&own, site.id.as_str(), i) || !same(site.profile_id.as_str(), profile_id) || !same(
            site.precision.as_str(),
            "observed",
        ) || !nodes.contains(site.source.as_str()) || !all_in(&site.target_ids, nodes) {
            Some(RuntimeError::SiteUnauthorized { site: i })
        } else {
            None
        };
        assert(error == failure(i as int));
        if error.is_some() {
            proof {
                first_failure_remains(i + 1, delta@.len() as int, failure);
            }
            return error;
        }
        i = i + 1;
    }
    None
}

fn check_edges(
    base: &Vec<EdgeRecord>,
    nodes: &TextIndex,
    sites: &TextIndex,
    profile_id: &str,
    environment: &str,
    delta: &Vec<EdgeRecord>,
) -> (result: Option<RuntimeError>)
    ensures
        result == first_failure(
            delta@.len() as int,
            runtime_edge_error(base@, nodes.keys(), sites.keys(), profile_id@, environment@, delta@),
        ),
{
    let index = TextIndex::new(edge_ids(base));
    let own = TextIndex::new(edge_ids(delta));
    let ghost failure = runtime_edge_error(base@, nodes.keys(), sites.keys(), profile_id@, environment@, delta@);
    let mut i: usize = 0;
    while i < delta.len()
        invariant
            i <= delta.len(),
            index.keys() == edge_ids_of(base@),
            own.keys() == edge_ids_of(delta@),
            failure == runtime_edge_error(base@, nodes.keys(), sites.keys(), profile_id@, environment@, delta@),
            first_failure(i as int, failure) is None,
        decreases delta.len() - i,
    {
        let edge = &delta[i];
        let conflicts: bool = match index.last(edge.id.as_str()) {
            Some(existing) => !base[existing].same_as(edge),
            None => false,
        };
        let foreign: bool = match &edge.site_id {
            Some(site_id) => !sites.contains(site_id.as_str()),
            None => true,
        };
        let error: Option<RuntimeError> = if conflicts {
            Some(RuntimeError::EdgeConflicts { edge: i })
        } else if stands_earlier(&own, edge.id.as_str(), i) || !same(edge.phase.as_str(), "runtime") || !same(
            edge.precision.as_str(),
            "observed",
        ) || !same(edge.profile_id.as_str(), profile_id) || !same(edge.environment.as_str(), environment)
            || !nodes.contains(edge.source.as_str()) || !nodes.contains(edge.target.as_str()) || foreign {
            Some(RuntimeError::EdgeUnauthorized { edge: i })
        } else {
            None
        };
        assert(error == failure(i as int));
        if error.is_some() {
            proof {
                first_failure_remains(i + 1, delta@.len() as int, failure);
            }
            return error;
        }
        i = i + 1;
    }
    None
}

/// The owners of evidence.
pub open spec fn owner_ids_of(evidence: Seq<EvidenceRecord>) -> Seq<Seq<char>> {
    Seq::new(evidence.len(), |i: int| evidence[i].owner_id@)
}

fn owner_index(evidence: &Vec<EvidenceRecord>) -> (result: TextIndex)
    ensures
        result.keys() == owner_ids_of(evidence@),
{
    let mut ids: Vec<String> = Vec::new();
    let mut i: usize = 0;
    while i < evidence.len()
        invariant
            i <= evidence.len(),
            ids.len() == i,
            forall|k: int| 0 <= k < i ==> (#[trigger] ids@[k])@ == evidence@[k].owner_id@,
        decreases evidence.len() - i,
    {
        ids.push(evidence[i].owner_id.clone());
        i = i + 1;
    }
    assert(texts(ids@) =~= owner_ids_of(evidence@));
    TextIndex::new(ids)
}

/// Whether one of the first `limit` pieces of evidence has the given owner and ordinal.
fn has_evidence_before(
    evidence: &Vec<EvidenceRecord>,
    owners: &TextIndex,
    owner_type: &str,
    owner_id: &str,
    ordinal: i64,
    limit: usize,
) -> (result: bool)
    requires
        owners.keys() == owner_ids_of(evidence@),
        limit <= evidence.len(),
    ensures
        result == exists|j: int|
            0 <= j < limit && (#[trigger] evidence@[j]).owner_type@ == owner_type@ && evidence@[j].owner_id@
                == owner_id@ && evidence@[j].ordinal == ordinal,
{
    let found = owners.positions(owner_id);
    let ghost keys = owners.keys();
    let ghost all = positions_of(keys, owner_id@, keys.len() as int);
    let ghost listed = Seq::new(found@.len(), |i: int| found@[i] as int);
    proof {
        positions_of_are_ascending_and_complete(keys, owner_id@, keys.len() as int);
        assert(listed == all);
    }
    let mut k: usize = 0;
    while k < found.len()
        invariant
            k <= found.len(),
            keys == owner_ids_of(evidence@),
            all == positions_of(keys, owner_id@, keys.len() as int),
            listed == all,
            listed == Seq::new(found@.len(), |i: int| found@[i] as int),
            limit <= evidence.len(),
            forall|i: int| 0 <= i < found.len() ==> (#[trigger] found@[i]) < keys.len(),
            forall|m: int|
                0 <= m < k ==> !((#[trigger] found@[m]) < limit && evidence@[found@[m] as int].owner_type@
                    == owner_type@ && evidence@[found@[m] as int].ordinal == ordinal),
        decreases found.len() - k,
    {
        let at: usize = found[k];
        if at < limit && same(evidence[at].owner_type.as_str(), owner_type) && evidence[at].ordinal == ordinal {
            proof {
                positions_of_are_ascending_and_complete(keys, owner_id@, keys.len() as int);
                assert(listed[k as int] == at);
                assert(keys[all[k as int]] == owner_id@);
                assert(evidence@[at as int].owner_id@ == owner_id@);
            }
            return true;
        }
        k = k + 1;
    }
    proof {
        assert forall|j: int| 0 <= j < limit implies !((#[trigger] evidence@[j]).owner_type@ == owner_type@
            && evidence@[j].owner_id@ == owner_id@ && evidence@[j].ordinal == ordinal) by {
            if evidence@[j].owner_id@ == owner_id@ {
                assert(keys[j] == owner_id@);
                assert(all.contains(j));
                let m = choose|m: int| 0 <= m < all.len() && all[m] == j;
                assert(listed[m] == j);
                assert(found@[m] == j as usize);
            }
        }
    }
    false
}

fn evidence_is_of_session(
    session: &RuntimeSessionRecord,
    item: &EvidenceRecord,
    sites: &TextIndex,
    edges: &TextIndex,
) -> (result: bool)
    ensures
        result == (is_session_owner(item.owner_type@, item.owner_id@, sites.keys(), edges.keys()) && item.kind@
            == "runtime"@ && item@.properties.text_field("session_id"@) == Some(session.id@)
            && item@.properties.text_field("source_session_id"@) == Some(session.source_session_id@)
            && opt_value(item@.properties.field("environment"@)) == Some(session.environment@.value())
            && match item@.properties.unsigned_field("count"@) {
            Some(count) => count != 0,
            None => false,
        }),
{
    let owned = (same(item.owner_type.as_str(), "site") && sites.contains(item.owner_id.as_str())) || (same(
        item.owner_type.as_str(),
        "edge",
    ) && edges.contains(item.owner_id.as_str()));
    let environment: bool = match item.properties.get("environment") {
        Some(environment) => environment.same_value(&session.environment),
        None => false,
    };
    let counted: bool = match item.properties.get_unsigned("count") {
        Some(count) => count != 0,
        None => false,
    };
    owned && same(item.kind.as_str(), "runtime") && text_is(
        item.properties.get_str("session_id"),
        session.id.as_str(),
    ) && text_is(item.properties.get_str("source_session_id"), session.source_session_id.as_str()) && environment
        && counted
}

fn check_evidence(
    session: &RuntimeSessionRecord,
    sites: &TextIndex,
    edges: &TextIndex,
    owners: &TextIndex,
    evidence: &Vec<EvidenceRecord>,
) -> (result: Option<RuntimeError>)
    requires
        owners.keys() == owner_ids_of(evidence@),
    ensures
        result == first_failure(
            evidence@.len() as int,
            runtime_evidence_error(*session, sites.keys(), edges.keys(), evidence@),
        ),
{
    let ghost failure = runtime_evidence_error(*session, sites.keys(), edges.keys(), evidence@);
    let mut i: usize = 0;
    while i < evidence.len()
        invariant
            i <= evidence.len(),
            owners.keys() == owner_ids_of(evidence@),
            failure == runtime_evidence_error(*session, sites.keys(), edges.keys(), evidence@),
            first_failure(i as int, failure) is None,
        decreases evidence.len() - i,
    {
        let item = &evidence[i];
        let error: Option<RuntimeError> = if !item.properties.is_object() {
            Some(RuntimeError::EvidenceNotObject { evidence: i })
        } else {
            match (item.properties.get_str("first_observed_at"), item.properties.get_str("last_observed_at")) {
                (None, _) => Some(RuntimeError::EvidenceWithoutFirstTime { evidence: i }),
                (Some(_), None) => Some(RuntimeError::EvidenceWithoutLastTime { evidence: i }),
                (Some(first), Some(last)) => {
                    let repeated = has_evidence_before(
                        evidence,
                        owners,
                        item.owner_type.as_str(),
                        item.owner_id.as_str(),
                        item.ordinal,
                        i,
                    );
                    assert(repeated == repeats_evidence(evidence@, i as int));
                    if !evidence_is_of_session(session, item, sites, edges) || less(last, first) || less(
                        first,
                        session.first_observed_at.as_str(),
                    ) || less(session.last_observed_at.as_str(), last) || repeated {
                        Some(RuntimeError::EvidenceUnowned { evidence: i })
                    } else {
                        None
                    }
                },
            }
        };
        assert(error == failure(i as int));
        if error.is_some() {
            proof {
                first_failure_remains(i + 1, evidence@.len() as int, failure);
            }
            return error;
        }
        i = i + 1;
    }
    None
}

fn check_diagnostics(session_id: &str, diagnostics: &Vec<DiagnosticRecord>) -> (result: Option<RuntimeError>)
    ensures
        result == first_failure(
            diagnostics@.len() as int,
            runtime_diagnostic_error(session_id@, diagnostics@),
        ),
{
    let mut ids: Vec<String> = Vec::new();
    let mut i: usize = 0;
    while i < diagnostics.len()
        invariant
            i <= diagnostics.len(),
            ids.len() == i,
            forall|k: int| 0 <= k < i ==> (#[trigger] ids@[k])@ == diagnostics@[k].id@,
        decreases diagnostics.len() - i,
    {
        ids.push(diagnostics[i].id.clone());
        i = i + 1;
    }
    assert(texts(ids@) =~= diagnostic_ids(diagnostics@));
    let own = TextIndex::new(ids);
    let ghost failure = runtime_diagnostic_error(session_id@, diagnostics@);
    let mut i: usize = 0;
    while i < diagnostics.len()
        invariant
            i <= diagnostics.len(),
            own.keys() == diagnostic_ids(diagnostics@),
            failure == runtime_diagnostic_error(session_id@, diagnostics@),
            first_failure(i as int, failure) is None,
        decreases diagnostics.len() - i,
    {
        let diagnostic = &diagnostics[i];
        let error: Option<RuntimeError> = if diagnostic.ordinal != i as i64 || is_blank(diagnostic.id.as_str())
            || stands_earlier(&own, diagnostic.id.as_str(), i) || !text_is(
            diagnostic.properties.get_str("session_id"),
            session_id,
        ) {
            Some(RuntimeError::DiagnosticNotCanonical { diagnostic: i })
        } else {
            None
        };
        assert(error == failure(i as int));
        if error.is_some() {
            proof {
                first_failure_remains(i + 1, diagnostics@.len() as int, failure);
            }
            return error;
        }
        i = i + 1;
    }
    None
}

fn every_owner_has_primary(
    evidence: &Vec<EvidenceRecord>,
    owners: &TextIndex,
    owner_type: &str,
    ids: &Vec<String>,
) -> (result: bool)
    requires
        owners.keys() == owner_ids_of(evidence@),
    ensures
        result == all_have_primary(evidence@, owner_type@, texts(ids@)),
{
    let mut i: usize = 0;
    while i < ids.len()
        invariant
            i <= ids.len(),
            owners.keys() == owner_ids_of(evidence@),
            forall|k: int| 0 <= k < i ==> has_primary(evidence@, owner_type@, #[trigger] texts(ids@)[k]),
        decreases ids.len() - i,
    {
        let found = has_evidence_before(evidence, owners, owner_type, ids[i].as_str(), 0, evidence.len());
        assert(found == has_primary(evidence@, owner_type@, texts(ids@)[i as int]));
        if !found {
            return false;
        }
        i = i + 1;
    }
    true
}

/// Accepts a session exactly where it may be united with a base. `derived` holds, for each
/// profile of the base, the effective input derived from the profile's identity.
pub fn validate_runtime_union(
    base: &GraphSnapshot,
    derived: &Vec<String>,
    delta: &RuntimeSessionDelta,
) -> (result: Result<(), RuntimeError>)
    requires
        derived.len() == base.profiles.len(),
    ensures
        match result {
            Ok(_) => runtime_union_error(*base, derived@, *delta) is None,
            Err(error) => runtime_union_error(*base, derived@, *delta) == Some(error),
        },
{
    let session = &delta.session;
    if let Some(error) = check_session(&base.profiles, derived, session) {
        return Err(error);
    }
    if let Some(error) = check_nodes(&base.nodes, &delta.nodes) {
        return Err(error);
    }
    let nodes = TextIndex::new(crate::build_union::joined(node_ids(&base.nodes), node_ids(&delta.nodes)));
    if let Some(error) = check_sites(&base.sites, &nodes, session.profile_id.as_str(), &delta.sites) {
        return Err(error);
    }
    let environment = match session.environment.get_str("name") {
        Some(environment) => environment,
        None => {
            return Err(RuntimeError::EnvironmentWithoutName);
        },
    };
    let site_list = site_ids(&delta.sites);
    let sites = TextIndex::new(site_ids(&delta.sites));
    if let Some(error) = check_edges(
        &base.edges,
        &nodes,
        &sites,
        session.profile_id.as_str(),
        environment,
        &delta.edges,
    ) {
        return Err(error);
    }
    let edge_list = edge_ids(&delta.edges);
    let edges = TextIndex::new(edge_ids(&delta.edges));
    let owners = owner_index(&delta.evidence);
    if let Some(error) = check_evidence(session, &sites, &edges, &owners, &delta.evidence) {
        return Err(error);
    }
    if let Some(error) = check_diagnostics(session.id.as_str(), &delta.diagnostics) {
        return Err(error);
    }
    if !every_owner_has_primary(&delta.evidence, &owners, "site", &site_list) || !every_owner_has_primary(
        &delta.evidence,
        &owners,
        "edge",
        &edge_list,
    ) {
        return Err(RuntimeError::OwnerWithoutPrimaryEvidence);
    }
    Ok(())
}

} // verus!

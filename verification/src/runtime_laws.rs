//! What a runtime session may add to a graph, and what it says of an edge.

use vstd::prelude::*;

use crate::build_laws::is_node;
use crate::build_union::node_ids_of;
use crate::counting::sorted_lists_hold_the_items;
use crate::json::JsonModel;
use crate::matrix_facts::{edge_ids_of, site_ids_of};
use crate::order::{collect_holds_the_kept_items, last_position_is_last, no_failure_anywhere, positions_of};
use crate::profile_matrix::{declared_parent, profile_ids_of};
use crate::records::{EdgeRecord, EvidenceRecord, GraphSnapshot, SiteRecord};
use crate::runtime_session::{
    context_text, first_observed, is_same_trace, last_observed, observations_of, observes, runtime_context_for_edge,
    said_at, said_of_edge, says_of_edge, ContextField, RuntimeEdgeContext, RuntimeError, RuntimeSessionDelta,
};
use crate::runtime_union::{
    normalize_runtime_delta, runtime_diagnostic_error, runtime_edge_error, runtime_evidence_error,
    runtime_node_error, runtime_site_error, validate_runtime_union,
};
use crate::text::{opt_text, text_lt, texts};

verus! {

/// An accepted session is completed or partial, counts events and observations, does not end
/// before it begins, and has a profile of the runtime phase under its own identity, environment and
/// status. A resolved profile has the parent that the session names, among the profiles of the
/// base; an unresolved one has no parent and a reason.
pub proof fn accepted_sessions_have_their_profile(
    base: &GraphSnapshot,
    derived: &Vec<String>,
    delta: &RuntimeSessionDelta,
    result: Result<(), RuntimeError>,
)
    requires
        call_ensures(validate_runtime_union, (base, derived, delta), result),
        result is Ok,
    ensures
        ({
            let session = delta.session;
            let profile = session.profile@;
            &&& session.status@ == "completed"@ || session.status@ == "partial"@
            &&& session.event_count > 0
            &&& session.observation_count > 0
            &&& !text_lt(session.last_observed_at@, session.first_observed_at@)
            &&& profile.id == session.profile_id@
            &&& profile.properties.field("profile_phase"@) == Some(JsonModel::Text("runtime"@))
            &&& profile.properties.field("profile_status"@) == Some(JsonModel::Text(session.profile_status@))
            &&& profile.environment.value() == session.environment@.value()
            &&& session.profile_status@ == "resolved"@ || session.profile_status@ == "unresolved"@
            &&& session.profile_status@ == "resolved"@ ==> session.parent_profile_id is Some && session.profile_reason is None
                && declared_parent(profile) == opt_text(session.parent_profile_id) && exists|p: int|
                0 <= p < base.profiles@.len() && (#[trigger] base.profiles@[p]).id@ == session.parent_profile_id->0@
                    && base.profiles@[p].language@ == profile.language
            &&& session.profile_status@ != "resolved"@ ==> session.parent_profile_id is None && declared_parent(profile) is None
                && session.profile_reason is Some && session.profile_reason->0@.len() > 0
            &&& session.environment@.field("name"@) matches Some(JsonModel::Text(_))
        }),
{
    let session = delta.session;
    if session.profile_status@ == "resolved"@ {
        let parent = session.parent_profile_id->0@;
        let ids = profile_ids_of(base.profiles@);
        crate::order::positions_of_are_ascending_and_complete(ids, parent, base.profiles@.len() as int);
        let parents = positions_of(ids, parent, base.profiles@.len() as int);
        assert(ids[parents[0]] == parent);
        assert(base.profiles@[parents[0]].id@ == parent);
        assert(base.profiles@[parents[0]]@.language == base.profiles@[parents[0]].language@);
    }
}

proof fn either_list_holds(base: &GraphSnapshot, delta: &RuntimeSessionDelta, id: Seq<char>)
    ensures
        (node_ids_of(base.nodes@) + node_ids_of(delta.nodes@)).contains(id) <==> is_node(base.nodes@, id) || is_node(
            delta.nodes@,
            id,
        ),
{
    let a = node_ids_of(base.nodes@);
    let b = node_ids_of(delta.nodes@);
    if (a + b).contains(id) {
        let i = choose|i: int| 0 <= i < (a + b).len() && (a + b)[i] == id;
        if i < a.len() {
            assert(base.nodes@[i].id@ == id);
        } else {
            assert(delta.nodes@[i - a.len()].id@ == id);
        }
    }
    if is_node(base.nodes@, id) {
        let n = choose|n: int| 0 <= n < base.nodes@.len() && (#[trigger] base.nodes@[n]).id@ == id;
        assert((a + b)[n] == id);
    }
    if is_node(delta.nodes@, id) {
        let n = choose|n: int| 0 <= n < delta.nodes@.len() && (#[trigger] delta.nodes@[n]).id@ == id;
        assert((a + b)[a.len() + n] == id);
    }
}

/// In an accepted session a node that the base has is the node of the base by value, and every
/// other node says that it is known at runtime only; no node stands twice.
pub proof fn accepted_sessions_change_no_node(
    base: &GraphSnapshot,
    derived: &Vec<String>,
    delta: &RuntimeSessionDelta,
    result: Result<(), RuntimeError>,
    i: int,
)
    requires
        call_ensures(validate_runtime_union, (base, derived, delta), result),
        result is Ok,
        0 <= i < delta.nodes@.len(),
    ensures
        ({
            let node = delta.nodes@[i];
            &&& is_node(base.nodes@, node.id@) ==> exists|n: int|
                0 <= n < base.nodes@.len() && (#[trigger] base.nodes@[n])@.value() == node@.value()
            &&& !is_node(base.nodes@, node.id@) ==> node@.properties.field("runtime_only"@) == Some(
                JsonModel::Bool(true),
            )
            &&& forall|j: int| 0 <= j < i ==> (#[trigger] delta.nodes@[j]).id@ != node.id@
        }),
{
    let failure = runtime_node_error(base.nodes@, delta.nodes@);
    no_failure_anywhere(delta.nodes@.len() as int, failure);
    assert(failure(i) is None);
    let node = delta.nodes@[i];
    let ids = node_ids_of(base.nodes@);
    last_position_is_last(ids, node.id@, base.nodes@.len() as int);
    if let Some(n) = crate::order::last_position(ids, node.id@, base.nodes@.len() as int) {
        assert(ids[n] == base.nodes@[n].id@);
        assert(base.nodes@[n]@.value() == node@.value());
        assert(base.nodes@[n].id@ == node.id@);
    } else if is_node(base.nodes@, node.id@) {
        let n = choose|n: int| 0 <= n < base.nodes@.len() && (#[trigger] base.nodes@[n]).id@ == node.id@;
        assert(ids[n] == node.id@);
    }
    assert forall|j: int| 0 <= j < i implies (#[trigger] delta.nodes@[j]).id@ != node.id@ by {
        assert(node_ids_of(delta.nodes@)[j] == delta.nodes@[j].id@);
        assert(node_ids_of(delta.nodes@)[i] == node.id@);
    }
}

/// In an accepted session every site is observed, of the session's profile, and begins and ends at
/// nodes of the base or of the session; every edge is of the runtime phase, observed, of the
/// session's profile and environment, between such nodes and of a site of the session.
pub proof fn accepted_sessions_add_observations(
    base: &GraphSnapshot,
    derived: &Vec<String>,
    delta: &RuntimeSessionDelta,
    result: Result<(), RuntimeError>,
    i: int,
)
    requires
        call_ensures(validate_runtime_union, (base, derived, delta), result),
        result is Ok,
    ensures
        0 <= i < delta.sites@.len() ==> {
            let site = delta.sites@[i];
            &&& site.profile_id@ == delta.session.profile_id@
            &&& site.precision@ == "observed"@
            &&& is_node(base.nodes@, site.source@) || is_node(delta.nodes@, site.source@)
            &&& forall|t: int|
                0 <= t < site.target_ids@.len() ==> is_node(base.nodes@, (#[trigger] site.target_ids@[t])@) || is_node(
                    delta.nodes@,
                    site.target_ids@[t]@,
                )
        },
        0 <= i < delta.edges@.len() ==> {
            let edge = delta.edges@[i];
            &&& edge.phase@ == "runtime"@
            &&& edge.precision@ == "observed"@
            &&& edge.profile_id@ == delta.session.profile_id@
            &&& delta.session.environment@.field("name"@) == Some(JsonModel::Text(edge.environment@))
            &&& is_node(base.nodes@, edge.source@) || is_node(delta.nodes@, edge.source@)
            &&& is_node(base.nodes@, edge.target@) || is_node(delta.nodes@, edge.target@)
            &&& edge.site_id is Some && exists|s: int|
                0 <= s < delta.sites@.len() && (#[trigger] delta.sites@[s]).id@ == edge.site_id->0@
        },
{
    let nodes = node_ids_of(base.nodes@) + node_ids_of(delta.nodes@);
    let session = delta.session;
    assert forall|id: Seq<char>| #[trigger] nodes.contains(id) <==> is_node(base.nodes@, id) || is_node(
        delta.nodes@,
        id,
    ) by {
        either_list_holds(base, delta, id);
    }
    if 0 <= i < delta.sites@.len() {
        let failure = runtime_site_error(base.sites@, nodes, session.profile_id@, delta.sites@);
        no_failure_anywhere(delta.sites@.len() as int, failure);
        assert(failure(i) is None);
        let site = delta.sites@[i];
        assert forall|t: int| 0 <= t < site.target_ids@.len() implies is_node(
            base.nodes@,
            (#[trigger] site.target_ids@[t])@,
        ) || is_node(delta.nodes@, site.target_ids@[t]@) by {
            assert(texts(site.target_ids@)[t] == site.target_ids@[t]@);
            assert(nodes.contains(texts(site.target_ids@)[t]));
        }
    }
    if 0 <= i < delta.edges@.len() {
        let environment = session.environment@.text_field("name"@)->0;
        let failure = runtime_edge_error(
            base.edges@,
            nodes,
            site_ids_of(delta.sites@),
            session.profile_id@,
            environment,
            delta.edges@,
        );
        no_failure_anywhere(delta.edges@.len() as int, failure);
        assert(failure(i) is None);
        let edge = delta.edges@[i];
        let ids = site_ids_of(delta.sites@);
        let s = choose|s: int| 0 <= s < ids.len() && ids[s] == edge.site_id->0@;
        assert(delta.sites@[s].id@ == edge.site_id->0@);
    }
}

/// In an accepted session every piece of evidence is of the runtime, belongs to a site or an edge
/// of the session, names the session, its source and its environment, counts something, and lies
/// within the times of the session; every diagnostic is numbered by its place and names the
/// session.
pub proof fn accepted_evidence_names_its_session(
    base: &GraphSnapshot,
    derived: &Vec<String>,
    delta: &RuntimeSessionDelta,
    result: Result<(), RuntimeError>,
    i: int,
)
    requires
        call_ensures(validate_runtime_union, (base, derived, delta), result),
        result is Ok,
    ensures
        0 <= i < delta.evidence@.len() ==> {
            let item = delta.evidence@[i];
            let properties = item@.properties;
            &&& item.kind@ == "runtime"@
            &&& (item.owner_type@ == "site"@ && site_ids_of(delta.sites@).contains(item.owner_id@)) || (
            item.owner_type@ == "edge"@ && edge_ids_of(delta.edges@).contains(item.owner_id@))
            &&& properties.field("session_id"@) == Some(JsonModel::Text(delta.session.id@))
            &&& properties.field("source_session_id"@) == Some(JsonModel::Text(delta.session.source_session_id@))
            &&& properties.field("environment"@) is Some && properties.field("environment"@)->0.value()
                == delta.session.environment@.value()
            &&& properties.field("count"@) matches Some(JsonModel::Unsigned(count)) && count > 0
            &&& properties.field("first_observed_at"@) matches Some(JsonModel::Text(first)) && properties.field(
                "last_observed_at"@,
            ) matches Some(JsonModel::Text(last)) && !text_lt(last, first) && !text_lt(
                first,
                delta.session.first_observed_at@,
            ) && !text_lt(delta.session.last_observed_at@, last)
        },
        0 <= i < delta.diagnostics@.len() ==> {
            let diagnostic = delta.diagnostics@[i];
            &&& diagnostic.ordinal == i as i64
            &&& diagnostic@.properties.field("session_id"@) == Some(JsonModel::Text(delta.session.id@))
        },
        0 <= i < delta.sites@.len() ==> exists|e: int|
            0 <= e < delta.evidence@.len() && (#[trigger] delta.evidence@[e]).owner_type@ == "site"@
                && delta.evidence@[e].owner_id@ == delta.sites@[i].id@ && delta.evidence@[e].ordinal == 0,
        0 <= i < delta.edges@.len() ==> exists|e: int|
            0 <= e < delta.evidence@.len() && (#[trigger] delta.evidence@[e]).owner_type@ == "edge"@
                && delta.evidence@[e].owner_id@ == delta.edges@[i].id@ && delta.evidence@[e].ordinal == 0,
{
    let session = delta.session;
    let sites = site_ids_of(delta.sites@);
    let edges = edge_ids_of(delta.edges@);
    if 0 <= i < delta.evidence@.len() {
        let failure = runtime_evidence_error(session, sites, edges, delta.evidence@);
        no_failure_anywhere(delta.evidence@.len() as int, failure);
        assert(failure(i) is None);
    }
    if 0 <= i < delta.diagnostics@.len() {
        let failure = runtime_diagnostic_error(session.id@, delta.diagnostics@);
        no_failure_anywhere(delta.diagnostics@.len() as int, failure);
        assert(failure(i) is None);
    }
    if 0 <= i < delta.sites@.len() {
        assert(sites[i] == delta.sites@[i].id@);
        assert(crate::runtime_union::has_primary(delta.evidence@, "site"@, sites[i]));
    }
    if 0 <= i < delta.edges@.len() {
        assert(edges[i] == delta.edges@[i].id@);
        assert(crate::runtime_union::has_primary(delta.evidence@, "edge"@, edges[i]));
    }
}

/// Normalizing a session keeps its nodes, sites and edges, and everything that the session record
/// says but the order and repetition of levels and reasons.
pub proof fn normalized_sessions_hold_the_same(before: RuntimeSessionDelta, after: RuntimeSessionDelta)
    requires
        call_ensures(normalize_runtime_delta, (before,), after),
        before.nodes@.len() <= usize::MAX,
        before.sites@.len() <= usize::MAX,
        before.edges@.len() <= usize::MAX,
    ensures
        after.nodes@.len() == before.nodes@.len(),
        forall|node: crate::records::NodeRecord| #[trigger]
            after.nodes@.contains(node) <==> before.nodes@.contains(node),
        after.sites@.len() == before.sites@.len(),
        forall|site: SiteRecord| #[trigger] after.sites@.contains(site) <==> before.sites@.contains(site),
        after.edges@.len() == before.edges@.len(),
        forall|edge: EdgeRecord| #[trigger] after.edges@.contains(edge) <==> before.edges@.contains(edge),
        after.session.id == before.session.id,
        after.session.status == before.session.status,
        after.session.profile == before.session.profile,
        after.session.environment == before.session.environment,
        after.session.observation_count == before.session.observation_count,
        after.session.coverage.dependency_sites == before.session.coverage.dependency_sites,
        after.session.coverage.project_code_executed == before.session.coverage.project_code_executed,
        forall|level: Seq<char>| #[trigger]
            texts(after.session.coverage.completeness@).contains(level) <==> texts(
                before.session.coverage.completeness@,
            ).contains(level),
        forall|reason: Seq<char>| #[trigger]
            texts(after.session.coverage.reasons@).contains(reason) <==> texts(
                before.session.coverage.reasons@,
            ).contains(reason),
{
    sorted_lists_hold_the_items(before.nodes@, node_ids_of(before.nodes@), after.nodes@);
    sorted_lists_hold_the_items(before.sites@, site_ids_of(before.sites@), after.sites@);
    sorted_lists_hold_the_items(before.edges@, edge_ids_of(before.edges@), after.edges@);
}

/// Two sessions that are one trace agree in everything, by value, but in when they were recorded.
pub proof fn equal_traces_agree(a: &RuntimeSessionDelta, b: &RuntimeSessionDelta)
    requires
        call_ensures(is_same_trace, (a, b), true),
    ensures
        a.session.id@ == b.session.id@,
        a.session.base_snapshot_id@ == b.session.base_snapshot_id@,
        a.session.source_session_id@ == b.session.source_session_id@,
        a.session.status@ == b.session.status@,
        a.session.trace_digest@ == b.session.trace_digest@,
        a.session.profile_id@ == b.session.profile_id@,
        a.session.profile_status@ == b.session.profile_status@,
        a.session.environment@.value() == b.session.environment@.value(),
        a.session.redaction@.value() == b.session.redaction@.value(),
        a.session.started_at@ == b.session.started_at@,
        a.session.first_observed_at@ == b.session.first_observed_at@,
        a.session.last_observed_at@ == b.session.last_observed_at@,
        a.session.event_count == b.session.event_count,
        a.session.observation_count == b.session.observation_count,
        a.session.resolved_targets == b.session.resolved_targets,
        a.session.external_targets == b.session.external_targets,
        a.session.unresolved_targets == b.session.unresolved_targets,
        a.session.redacted_values == b.session.redacted_values,
        a.nodes@.len() == b.nodes@.len(),
        a.sites@.len() == b.sites@.len(),
        a.edges@.len() == b.edges@.len(),
        a.evidence@.len() == b.evidence@.len(),
        a.diagnostics@.len() == b.diagnostics@.len(),
        forall|i: int| 0 <= i < a.nodes@.len() ==> (#[trigger] a.nodes@[i])@.value() == b.nodes@[i]@.value(),
        forall|i: int| 0 <= i < a.sites@.len() ==> (#[trigger] a.sites@[i])@.value() == b.sites@[i]@.value(),
        forall|i: int| 0 <= i < a.edges@.len() ==> (#[trigger] a.edges@[i])@.value() == b.edges@[i]@.value(),
{
    let x = a@.value();
    let y = b@.value();
    assert(x.session.id == a.session.id@ && y.session.id == b.session.id@);
    assert(x.session.environment == a.session.environment@.value());
    assert(x.nodes.len() == a.nodes@.len() && y.nodes.len() == b.nodes@.len());
    assert(x.sites.len() == a.sites@.len() && y.sites.len() == b.sites@.len());
    assert(x.edges.len() == a.edges@.len() && y.edges.len() == b.edges@.len());
    assert(x.evidence.len() == a.evidence@.len() && y.evidence.len() == b.evidence@.len());
    assert(x.diagnostics.len() == a.diagnostics@.len() && y.diagnostics.len() == b.diagnostics@.len());
    assert forall|i: int| 0 <= i < a.nodes@.len() implies (#[trigger] a.nodes@[i])@.value()
        == b.nodes@[i]@.value() by {
        assert(x.nodes[i] == y.nodes[i]);
    }
    assert forall|i: int| 0 <= i < a.sites@.len() implies (#[trigger] a.sites@[i])@.value()
        == b.sites@[i]@.value() by {
        assert(x.sites[i] == y.sites[i]);
    }
    assert forall|i: int| 0 <= i < a.edges@.len() implies (#[trigger] a.edges@[i])@.value()
        == b.edges@[i]@.value() by {
        assert(x.edges[i] == y.edges[i]);
    }
}

proof fn said_is_said(evidence: Seq<EvidenceRecord>, edge_id: Seq<char>, field: ContextField, text: Seq<char>)
    ensures
        said_of_edge(evidence, edge_id, field).contains(text) <==> exists|i: int|
            0 <= i < evidence.len() && observes(#[trigger] evidence[i], edge_id) && context_text(evidence[i], field)
                == Some(text),
{
    let keep = says_of_edge(evidence, edge_id, field);
    let count = evidence.len() as int;
    collect_holds_the_kept_items(count, keep, said_at(evidence, field), text);
    if exists|i: int| 0 <= i < count && #[trigger] keep(i) && said_at(evidence, field)(i) == text {
        let i = choose|i: int| 0 <= i < count && #[trigger] keep(i) && said_at(evidence, field)(i) == text;
        assert(observes(evidence[i], edge_id));
    }
    if exists|i: int|
        0 <= i < evidence.len() && observes(#[trigger] evidence[i], edge_id) && context_text(evidence[i], field)
            == Some(text) {
        let i = choose|i: int|
            0 <= i < evidence.len() && observes(#[trigger] evidence[i], edge_id) && context_text(evidence[i], field)
                == Some(text);
        assert(keep(i) && said_at(evidence, field)(i) == text);
    }
}

/// Whether a piece of evidence is of the runtime and of an edge.
pub open spec fn is_runtime_evidence(evidence: EvidenceRecord, edge_id: Seq<char>) -> bool {
    evidence.owner_type@ == "edge"@ && evidence.owner_id@ == edge_id && evidence.kind@ == "runtime"@
}

/// What the runtime says of an edge: the sessions and their sources, and the names, runtimes and
/// regions of their environments, are those that runtime evidence of the edge gives.
pub proof fn contexts_hold_what_the_evidence_says(
    snapshot: &GraphSnapshot,
    edge: &EdgeRecord,
    context: RuntimeEdgeContext,
    text: Seq<char>,
)
    requires
        call_ensures(runtime_context_for_edge, (snapshot, edge), context),
    ensures
        texts(context.session_ids@).contains(text) <==> exists|i: int|
            0 <= i < snapshot.evidence@.len() && is_runtime_evidence(#[trigger] snapshot.evidence@[i], edge.id@)
                && snapshot.evidence@[i]@.properties.field("session_id"@) == Some(JsonModel::Text(text)),
        texts(context.source_session_ids@).contains(text) <==> exists|i: int|
            0 <= i < snapshot.evidence@.len() && is_runtime_evidence(#[trigger] snapshot.evidence@[i], edge.id@)
                && snapshot.evidence@[i]@.properties.field("source_session_id"@) == Some(JsonModel::Text(text)),
        texts(context.environment_names@).contains(text) <==> exists|i: int|
            0 <= i < snapshot.evidence@.len() && is_runtime_evidence(#[trigger] snapshot.evidence@[i], edge.id@)
                && snapshot.evidence@[i]@.properties.field("environment"@) is Some
                && snapshot.evidence@[i]@.properties.field("environment"@)->0.field("name"@) == Some(
                JsonModel::Text(text),
            ),
        texts(context.runtimes@).contains(text) <==> exists|i: int|
            0 <= i < snapshot.evidence@.len() && is_runtime_evidence(#[trigger] snapshot.evidence@[i], edge.id@)
                && snapshot.evidence@[i]@.properties.field("environment"@) is Some
                && snapshot.evidence@[i]@.properties.field("environment"@)->0.field("runtime"@) == Some(
                JsonModel::Text(text),
            ),
        texts(context.regions@).contains(text) <==> exists|i: int|
            0 <= i < snapshot.evidence@.len() && is_runtime_evidence(#[trigger] snapshot.evidence@[i], edge.id@)
                && snapshot.evidence@[i]@.properties.field("environment"@) is Some
                && snapshot.evidence@[i]@.properties.field("environment"@)->0.field("region"@) == Some(
                JsonModel::Text(text),
            ),
{
    let evidence = snapshot.evidence@;
    said_is_said(evidence, edge.id@, ContextField::Session, text);
    said_is_said(evidence, edge.id@, ContextField::SourceSession, text);
    said_is_said(evidence, edge.id@, ContextField::EnvironmentName, text);
    said_is_said(evidence, edge.id@, ContextField::Runtime, text);
    said_is_said(evidence, edge.id@, ContextField::Region, text);
}

proof fn observed_times_are_bounds(evidence: Seq<EvidenceRecord>, edge_id: Seq<char>, count: int, i: int)
    requires
        0 <= i < count <= evidence.len(),
        observes(evidence[i], edge_id),
    ensures
        evidence[i]@.properties.field("first_observed_at"@) matches Some(JsonModel::Text(time)) ==> first_observed(
            evidence,
            edge_id,
            count,
        ) is Some && !text_lt(time, first_observed(evidence, edge_id, count)->0),
        evidence[i]@.properties.field("last_observed_at"@) matches Some(JsonModel::Text(time)) ==> last_observed(
            evidence,
            edge_id,
            count,
        ) is Some && !text_lt(last_observed(evidence, edge_id, count)->0, time),
    decreases count,
{
    let own = evidence[count - 1];
    let first = first_observed(evidence, edge_id, count - 1);
    let last = last_observed(evidence, edge_id, count - 1);
    if i < count - 1 {
        observed_times_are_bounds(evidence, edge_id, count - 1, i);
        if let Some(JsonModel::Text(time)) = evidence[i]@.properties.field("first_observed_at"@) {
            if let Some(JsonModel::Text(other)) = own@.properties.field("first_observed_at"@) {
                if text_lt(other, first->0) && text_lt(time, other) {
                    crate::text::text_lt_transitive(time, other, first->0);
                }
            }
        }
        if let Some(JsonModel::Text(time)) = evidence[i]@.properties.field("last_observed_at"@) {
            if let Some(JsonModel::Text(other)) = own@.properties.field("last_observed_at"@) {
                if text_lt(last->0, other) && text_lt(other, time) {
                    crate::text::text_lt_transitive(last->0, other, time);
                }
            }
        }
    } else {
        if let Some(JsonModel::Text(time)) = own@.properties.field("first_observed_at"@) {
            crate::text::text_lt_irreflexive(time);
            if first is Some {
                crate::text::text_lt_total(time, first->0);
            }
        }
        if let Some(JsonModel::Text(time)) = own@.properties.field("last_observed_at"@) {
            crate::text::text_lt_irreflexive(time);
            if last is Some {
                crate::text::text_lt_total(time, last->0);
            }
        }
    }
}

proof fn observed_times_are_given(evidence: Seq<EvidenceRecord>, edge_id: Seq<char>, count: int)
    requires
        0 <= count <= evidence.len(),
    ensures
        first_observed(evidence, edge_id, count) matches Some(time) ==> exists|i: int|
            0 <= i < count && observes(#[trigger] evidence[i], edge_id) && evidence[i]@.properties.field(
                "first_observed_at"@,
            ) == Some(JsonModel::Text(time)),
        last_observed(evidence, edge_id, count) matches Some(time) ==> exists|i: int|
            0 <= i < count && observes(#[trigger] evidence[i], edge_id) && evidence[i]@.properties.field(
                "last_observed_at"@,
            ) == Some(JsonModel::Text(time)),
    decreases count,
{
    if count > 0 {
        observed_times_are_given(evidence, edge_id, count - 1);
        let own = evidence[count - 1];
        assert(observes(own, edge_id) == observes(evidence[count - 1], edge_id));
    }
}

/// An edge was first observed at the earliest time, and last at the latest, that runtime evidence
/// of it gives.
pub proof fn observed_times_are_the_first_and_the_last(
    snapshot: &GraphSnapshot,
    edge: &EdgeRecord,
    context: RuntimeEdgeContext,
    i: int,
)
    requires
        call_ensures(runtime_context_for_edge, (snapshot, edge), context),
        0 <= i < snapshot.evidence@.len(),
        is_runtime_evidence(snapshot.evidence@[i], edge.id@),
    ensures
        snapshot.evidence@[i]@.properties.field("first_observed_at"@) matches Some(JsonModel::Text(time))
            ==> context.first_observed_at is Some && !text_lt(time, context.first_observed_at->0@),
        snapshot.evidence@[i]@.properties.field("last_observed_at"@) matches Some(JsonModel::Text(time))
            ==> context.last_observed_at is Some && !text_lt(context.last_observed_at->0@, time),
        context.first_observed_at is Some ==> exists|j: int|
            0 <= j < snapshot.evidence@.len() && is_runtime_evidence(#[trigger] snapshot.evidence@[j], edge.id@)
                && snapshot.evidence@[j]@.properties.field("first_observed_at"@) == Some(
                JsonModel::Text(context.first_observed_at->0@),
            ),
        context.last_observed_at is Some ==> exists|j: int|
            0 <= j < snapshot.evidence@.len() && is_runtime_evidence(#[trigger] snapshot.evidence@[j], edge.id@)
                && snapshot.evidence@[j]@.properties.field("last_observed_at"@) == Some(
                JsonModel::Text(context.last_observed_at->0@),
            ),
{
    let evidence = snapshot.evidence@;
    let count = evidence.len() as int;
    observed_times_are_bounds(evidence, edge.id@, count, i);
    observed_times_are_given(evidence, edge.id@, count);
}

/// How often an edge was observed is the sum of the counts of its runtime evidence, as far as a
/// counter goes.
pub proof fn observations_are_added(evidence: Seq<EvidenceRecord>, edge_id: Seq<char>, count: int)
    requires
        0 <= count <= evidence.len(),
    ensures
        ({
            let sum = evidence.take(count).map_values(
                |item: EvidenceRecord|
                    if is_runtime_evidence(item, edge_id) {
                        match item@.properties.field("count"@) {
                            Some(JsonModel::Unsigned(number)) => number as int,
                            _ => 0int,
                        }
                    } else {
                        0int
                    },
            ).fold_left(0int, |sum: int, part: int| sum + part);
            &&& sum >= 0
            &&& sum <= u64::MAX ==> observations_of(evidence, edge_id, count) == sum
            &&& sum > u64::MAX ==> observations_of(evidence, edge_id, count) == u64::MAX
        }),
    decreases count,
{
    let of = |item: EvidenceRecord|
        if is_runtime_evidence(item, edge_id) {
            match item@.properties.field("count"@) {
                Some(JsonModel::Unsigned(number)) => number as int,
                _ => 0int,
            }
        } else {
            0int
        };
    let plus = |sum: int, part: int| sum + part;
    reveal_with_fuel(Seq::fold_left, 2);
    if count > 0 {
        observations_are_added(evidence, edge_id, count - 1);
        assert(evidence.take(count).map_values(of).drop_last() =~= evidence.take(count - 1).map_values(of));
        assert(evidence.take(count).map_values(of).last() == of(evidence[count - 1]));
    }
}

proof fn nothing_fails<E>(count: int, failure: spec_fn(int) -> Option<E>)
    requires
        forall|i: int| 0 <= i < count ==> (#[trigger] failure(i)) is None,
    ensures
        crate::order::first_failure(count, failure) is None,
    decreases count,
{
    if count > 0 {
        nothing_fails(count - 1, failure);
        assert(failure(count - 1) is None);
    }
}

/// The record of a session is accepted where it is completed or partial, counts events and
/// observations, does not end before it begins, and its profile fits it: with a parent of the base
/// in the same language and with the input of the parent where it is resolved, and without a parent
/// but with a reason where it is not.
pub proof fn sound_session_records_are_accepted(
    base: Seq<crate::records::ProfileRecord>,
    derived: Seq<String>,
    session: crate::runtime_session::RuntimeSessionRecord,
    p: int,
)
    requires
        ({
            let profile = session.profile@;
            &&& exists|i: int| 0 <= i < session.id@.len() && !crate::text::is_space_char(#[trigger] session.id@[i])
            &&& exists|i: int|
                0 <= i < session.source_session_id@.len() && !crate::text::is_space_char(
                    #[trigger] session.source_session_id@[i],
                )
            &&& exists|i: int|
                0 <= i < session.trace_digest@.len() && !crate::text::is_space_char(#[trigger] session.trace_digest@[i])
            &&& session.status@ == "completed"@ || session.status@ == "partial"@
            &&& session.event_count > 0
            &&& session.observation_count > 0
            &&& !text_lt(session.last_observed_at@, session.first_observed_at@)
            &&& profile.id == session.profile_id@
            &&& profile.properties.field("profile_phase"@) == Some(JsonModel::Text("runtime"@))
            &&& profile.properties.field("profile_status"@) == Some(JsonModel::Text(session.profile_status@))
            &&& profile.environment.value() == session.environment@.value()
            &&& (session.profile_status@ == "resolved"@ && {
                &&& 0 <= p < base.len()
                &&& forall|q: int| 0 <= q < base.len() && q != p ==> (#[trigger] base[q]).id@ != base[p].id@
                &&& opt_text(session.parent_profile_id) == Some(base[p].id@)
                &&& declared_parent(profile) == Some(base[p].id@)
                &&& crate::profile_matrix::declared_input(profile) == Some(
                    crate::profile_matrix::canonical_input(base[p]@, derived[p]@),
                )
                &&& profile.language == base[p].language@
                &&& session.profile_reason is None
            }) || (session.profile_status@ == "unresolved"@ && session.parent_profile_id is None && declared_parent(
                profile,
            ) is None && session.profile_reason is Some && session.profile_reason->0@.len() > 0)
        }),
    ensures
        crate::runtime_union::session_error(base, derived, session) is None,
{
    reveal_strlit("resolved");
    reveal_strlit("unresolved");
    assert("resolved"@.len() == 8 && "unresolved"@.len() == 10);
    if session.profile_status@ == "resolved"@ {
        let parent = base[p].id@;
        let ids = profile_ids_of(base);
        crate::order::positions_of_are_ascending_and_complete(ids, parent, base.len() as int);
        let parents = positions_of(ids, parent, base.len() as int);
        assert(ids[p] == parent);
        assert(parents.contains(p));
        assert(ids[parents[0]] == parent);
        assert(base[parents[0]].id@ == parent);
        assert(parents[0] == p);
    }
}

/// A session is accepted where its record is, its environment has a name, its nodes, sites and
/// edges are observations that fit the base and the record, every piece of evidence names the
/// session, and every site and edge has its first evidence.
pub proof fn sound_sessions_are_accepted(base: GraphSnapshot, derived: Seq<String>, delta: RuntimeSessionDelta)
    requires
        crate::runtime_union::session_error(base.profiles@, derived, delta.session) is None,
        delta.session.environment@.field("name"@) matches Some(JsonModel::Text(_)),
        forall|i: int, j: int|
            0 <= i < j < delta.nodes@.len() ==> (#[trigger] delta.nodes@[i]).id@ != (#[trigger] delta.nodes@[j]).id@,
        forall|i: int, j: int|
            0 <= i < j < delta.sites@.len() ==> (#[trigger] delta.sites@[i]).id@ != (#[trigger] delta.sites@[j]).id@,
        forall|i: int, j: int|
            0 <= i < j < delta.edges@.len() ==> (#[trigger] delta.edges@[i]).id@ != (#[trigger] delta.edges@[j]).id@,
        forall|i: int|
            0 <= i < delta.nodes@.len() ==> !is_node(base.nodes@, (#[trigger] delta.nodes@[i]).id@)
                && delta.nodes@[i]@.properties.field("runtime_only"@) == Some(JsonModel::Bool(true)),
        forall|i: int|
            0 <= i < delta.sites@.len() ==> {
                let site = #[trigger] delta.sites@[i];
                &&& !site_ids_of(base.sites@).contains(site.id@)
                &&& site.profile_id@ == delta.session.profile_id@
                &&& site.precision@ == "observed"@
                &&& is_node(base.nodes@, site.source@) || is_node(delta.nodes@, site.source@)
                &&& forall|t: int|
                    0 <= t < site.target_ids@.len() ==> is_node(base.nodes@, (#[trigger] site.target_ids@[t])@)
                        || is_node(delta.nodes@, site.target_ids@[t]@)
            },
        forall|i: int|
            0 <= i < delta.edges@.len() ==> {
                let edge = #[trigger] delta.edges@[i];
                &&& !edge_ids_of(base.edges@).contains(edge.id@)
                &&& edge.phase@ == "runtime"@
                &&& edge.precision@ == "observed"@
                &&& edge.profile_id@ == delta.session.profile_id@
                &&& delta.session.environment@.field("name"@) == Some(JsonModel::Text(edge.environment@))
                &&& is_node(base.nodes@, edge.source@) || is_node(delta.nodes@, edge.source@)
                &&& is_node(base.nodes@, edge.target@) || is_node(delta.nodes@, edge.target@)
                &&& edge.site_id is Some && site_ids_of(delta.sites@).contains(edge.site_id->0@)
            },
        forall|i: int|
            0 <= i < delta.evidence@.len() ==> {
                let item = #[trigger] delta.evidence@[i];
                let properties = item@.properties;
                &&& item.kind@ == "runtime"@
                &&& (item.owner_type@ == "site"@ && site_ids_of(delta.sites@).contains(item.owner_id@)) || (
                item.owner_type@ == "edge"@ && edge_ids_of(delta.edges@).contains(item.owner_id@))
                &&& properties.field("session_id"@) == Some(JsonModel::Text(delta.session.id@))
                &&& properties.field("source_session_id"@) == Some(JsonModel::Text(delta.session.source_session_id@))
                &&& properties.field("environment"@) == Some(delta.session.environment@)
                &&& properties.field("count"@) matches Some(JsonModel::Unsigned(count)) && count > 0
                &&& properties.field("first_observed_at"@) matches Some(JsonModel::Text(first)) && properties.field(
                    "last_observed_at"@,
                ) matches Some(JsonModel::Text(last)) && !text_lt(last, first) && !text_lt(
                    first,
                    delta.session.first_observed_at@,
                ) && !text_lt(delta.session.last_observed_at@, last)
            },
        forall|i: int, j: int|
            0 <= i < j < delta.evidence@.len() ==> (#[trigger] delta.evidence@[i]).owner_type@ != (
            #[trigger] delta.evidence@[j]).owner_type@ || delta.evidence@[i].owner_id@ != delta.evidence@[j].owner_id@
                || delta.evidence@[i].ordinal != delta.evidence@[j].ordinal,
        delta.diagnostics@.len() == 0,
        forall|i: int|
            0 <= i < delta.sites@.len() ==> crate::runtime_union::has_primary(
                delta.evidence@,
                "site"@,
                (#[trigger] delta.sites@[i]).id@,
            ),
        forall|i: int|
            0 <= i < delta.edges@.len() ==> crate::runtime_union::has_primary(
                delta.evidence@,
                "edge"@,
                (#[trigger] delta.edges@[i]).id@,
            ),
    ensures
        crate::runtime_union::runtime_union_error(base, derived, delta) is None,
{
    let session = delta.session;
    let nodes = node_ids_of(base.nodes@) + node_ids_of(delta.nodes@);
    let sites = site_ids_of(delta.sites@);
    let edges = edge_ids_of(delta.edges@);
    let environment = session.environment@.text_field("name"@)->0;
    assert forall|id: Seq<char>| #[trigger] nodes.contains(id) <==> is_node(base.nodes@, id) || is_node(
        delta.nodes@,
        id,
    ) by {
        either_list_holds(&base, &delta, id);
    }
    let a = runtime_node_error(base.nodes@, delta.nodes@);
    assert forall|i: int| 0 <= i < delta.nodes@.len() implies (#[trigger] a(i)) is None by {
        let node = delta.nodes@[i];
        last_position_is_last(node_ids_of(base.nodes@), node.id@, base.nodes@.len() as int);
        if let Some(n) = crate::order::last_position(node_ids_of(base.nodes@), node.id@, base.nodes@.len() as int) {
            assert(base.nodes@[n].id@ == node.id@);
        }
        let ids = node_ids_of(delta.nodes@);
        if crate::runtime_union::occurs_earlier(ids, i) {
            let j = choose|j: int| 0 <= j < i && #[trigger] ids[j] == ids[i];
            assert(delta.nodes@[j].id@ == delta.nodes@[i].id@);
        }
    }
    nothing_fails(delta.nodes@.len() as int, a);
    let b = runtime_site_error(base.sites@, nodes, session.profile_id@, delta.sites@);
    assert forall|i: int| 0 <= i < delta.sites@.len() implies (#[trigger] b(i)) is None by {
        let site = delta.sites@[i];
        last_position_is_last(site_ids_of(base.sites@), site.id@, base.sites@.len() as int);
        if let Some(n) = crate::order::last_position(site_ids_of(base.sites@), site.id@, base.sites@.len() as int) {
            assert(site_ids_of(base.sites@)[n] == site.id@);
        }
        if crate::runtime_union::occurs_earlier(sites, i) {
            let j = choose|j: int| 0 <= j < i && #[trigger] sites[j] == sites[i];
            assert(delta.sites@[j].id@ == delta.sites@[i].id@);
        }
        assert forall|t: int| 0 <= t < texts(site.target_ids@).len() implies nodes.contains(
            #[trigger] texts(site.target_ids@)[t],
        ) by {
            assert(site.target_ids@[t]@ == texts(site.target_ids@)[t]);
        }
    }
    nothing_fails(delta.sites@.len() as int, b);
    let c = runtime_edge_error(base.edges@, nodes, sites, session.profile_id@, environment, delta.edges@);
    assert forall|i: int| 0 <= i < delta.edges@.len() implies (#[trigger] c(i)) is None by {
        let edge = delta.edges@[i];
        last_position_is_last(edge_ids_of(base.edges@), edge.id@, base.edges@.len() as int);
        if let Some(n) = crate::order::last_position(edge_ids_of(base.edges@), edge.id@, base.edges@.len() as int) {
            assert(edge_ids_of(base.edges@)[n] == edge.id@);
        }
        if crate::runtime_union::occurs_earlier(edges, i) {
            let j = choose|j: int| 0 <= j < i && #[trigger] edges[j] == edges[i];
            assert(delta.edges@[j].id@ == delta.edges@[i].id@);
        }
    }
    nothing_fails(delta.edges@.len() as int, c);
    let d = runtime_evidence_error(session, sites, edges, delta.evidence@);
    assert forall|i: int| 0 <= i < delta.evidence@.len() implies (#[trigger] d(i)) is None by {
        let item = delta.evidence@[i];
        if crate::runtime_union::repeats_evidence(delta.evidence@, i) {
            let j = choose|j: int|
                0 <= j < i && (#[trigger] delta.evidence@[j]).owner_type@ == delta.evidence@[i].owner_type@
                    && delta.evidence@[j].owner_id@ == delta.evidence@[i].owner_id@ && delta.evidence@[j].ordinal
                    == delta.evidence@[i].ordinal;
            assert(delta.evidence@[j].owner_type@ == delta.evidence@[i].owner_type@);
        }
    }
    nothing_fails(delta.evidence@.len() as int, d);
    assert forall|i: int| 0 <= i < sites.len() implies crate::runtime_union::has_primary(
        delta.evidence@,
        "site"@,
        #[trigger] sites[i],
    ) by {
        assert(delta.sites@[i].id@ == sites[i]);
    }
    assert forall|i: int| 0 <= i < edges.len() implies crate::runtime_union::has_primary(
        delta.evidence@,
        "edge"@,
        #[trigger] edges[i],
    ) by {
        assert(delta.edges@[i].id@ == edges[i]);
    }
}

/// The context of an edge counts its observations: the sum of the counts of its runtime evidence, as
/// far as a counter goes.
pub proof fn contexts_count_the_observations(snapshot: &GraphSnapshot, edge: &EdgeRecord, context: RuntimeEdgeContext)
    requires
        call_ensures(runtime_context_for_edge, (snapshot, edge), context),
    ensures
        ({
            let sum = snapshot.evidence@.map_values(
                |item: EvidenceRecord|
                    if is_runtime_evidence(item, edge.id@) {
                        match item@.properties.field("count"@) {
                            Some(JsonModel::Unsigned(number)) => number as int,
                            _ => 0int,
                        }
                    } else {
                        0int
                    },
            ).fold_left(0int, |sum: int, part: int| sum + part);
            &&& sum <= u64::MAX ==> context.observation_count == sum
            &&& sum > u64::MAX ==> context.observation_count == u64::MAX
        }),
{
    let evidence = snapshot.evidence@;
    observations_are_added(evidence, edge.id@, evidence.len() as int);
    assert(evidence.take(evidence.len() as int) =~= evidence);
}

} // verus!

//! What a build may add to a scan, and what it adds.

use vstd::prelude::*;

use crate::build_attempt::{
    check_attempt_audit, check_attempt_end, check_build_audit, finished_build_source, first_key_error, is_secret_like_key,
    key_error, secret_parts, start_build_attempt, AttemptBase, AttemptState, BuildError,
};
use crate::build_union::{
    build_union_error, deduplicate_identical_build_evidence, edge_is_new, edge_union_error, evidence_error,
    evidence_is_new, is_united, is_without_held, node_ids_of, node_union_error, site_conflict_error,
    site_is_held, site_is_new, site_union_error, status_at, union_keeps_base_nodes, validate_build_union,
    validate_delta_attempt_metadata, with_nodes,
};
use crate::counting::{selected_is_wanted, sorted_lists_hold_the_items};
use crate::coverage_laws::subtracted_sites_are_taken_from_their_counters;
use crate::digest::is_hex_text;
use crate::json::{Json, JsonModel};
use crate::matrix_facts::{edge_ids_of, site_ids_of};
use crate::matrix_refresh::item_at;
use crate::order::{first_failure, last_position_is_last, no_failure_anywhere};
use crate::profile_matrix::{declared_input, declared_parent, language_name, profile_ids_of};
use crate::records::{
    BuildAttemptRecord, BuildGraphDelta, CompletedSnapshotRecord, EdgeRecord, EvidenceRecord, GraphSnapshot,
    NodeRecord, SiteRecord,
};
use crate::snapshots::SnapshotSource;
use crate::text::{holds_part, opt_text, texts, upper_text};

verus! {

proof fn nothing_fails<E>(count: int, failure: spec_fn(int) -> Option<E>)
    requires
        forall|i: int| 0 <= i < count ==> (#[trigger] failure(i)) is None,
    ensures
        first_failure(count, failure) is None,
    decreases count,
{
    if count > 0 {
        nothing_fails(count - 1, failure);
        assert(failure(count - 1) is None);
    }
}

/// Whether a piece of evidence was produced by a build attempt.
pub open spec fn is_evidence_of(evidence: EvidenceRecord, attempt: BuildAttemptRecord) -> bool {
    let properties = evidence@.properties;
    &&& evidence.kind@ == "build"@
    &&& evidence.extractor@ == attempt.observer@
    &&& evidence.extractor_version@ == attempt.observer_version@
    &&& properties.field("build_run_id"@) == Some(JsonModel::Text(attempt.id@))
    &&& properties.field("profile_id"@) == Some(JsonModel::Text(attempt.profile_id@))
    &&& properties.field("command_plan_digest"@) == Some(JsonModel::Text(attempt.command_plan_digest@))
    &&& properties.field("toolchain_executable_digest"@) == Some(JsonModel::Text(attempt.toolchain_executable_digest@))
    &&& properties.field("environment_key_set_digest"@) == Some(JsonModel::Text(attempt.environment_key_set_digest@))
    &&& properties.field("validated_output_digest"@) == Some(JsonModel::Text(attempt.validated_output_digest->0@))
}

/// The evidence of a build is accepted exactly where the attempt has an output digest and the first
/// evidence of every site and edge was produced by the attempt.
pub proof fn build_evidence_is_that_of_the_attempt(
    evidence: &Vec<EvidenceRecord>,
    attempt: &BuildAttemptRecord,
    result: Result<(), BuildError>,
)
    requires
        call_ensures(validate_delta_attempt_metadata, (evidence, attempt), result),
    ensures
        result is Ok <==> attempt.validated_output_digest is Some && forall|i: int|
            0 <= i < evidence@.len() && ((#[trigger] evidence@[i]).owner_type@ == "site"@ || evidence@[i].owner_type@
                == "edge"@) && evidence@[i].ordinal == 0 ==> is_evidence_of(evidence@[i], *attempt),
{
    if attempt.validated_output_digest is Some {
        let digest = attempt.validated_output_digest->0@;
        let failure = evidence_error(evidence@, *attempt, digest);
        assert forall|i: int| 0 <= i < evidence@.len() implies ((#[trigger] failure(i)) is None <==> (((
        evidence@[i]).owner_type@ == "site"@ || evidence@[i].owner_type@ == "edge"@) && evidence@[i].ordinal == 0
            ==> is_evidence_of(evidence@[i], *attempt))) by {}
        if result is Ok {
            no_failure_anywhere(evidence@.len() as int, failure);
            assert forall|i: int|
                0 <= i < evidence@.len() && ((#[trigger] evidence@[i]).owner_type@ == "site"@
                    || evidence@[i].owner_type@ == "edge"@) && evidence@[i].ordinal == 0 implies is_evidence_of(
                evidence@[i],
                *attempt,
            ) by {
                assert(failure(i) is None);
            }
        } else if forall|i: int|
            0 <= i < evidence@.len() && ((#[trigger] evidence@[i]).owner_type@ == "site"@ || evidence@[i].owner_type@
                == "edge"@) && evidence@[i].ordinal == 0 ==> is_evidence_of(evidence@[i], *attempt) {
            assert forall|i: int| 0 <= i < evidence@.len() implies (#[trigger] failure(i)) is None by {
                let item = evidence@[i];
            }
            nothing_fails(evidence@.len() as int, failure);
        }
    }
}

/// Whether an identity is one of a list of nodes.
pub open spec fn is_node(nodes: Seq<NodeRecord>, id: Seq<char>) -> bool {
    exists|n: int| 0 <= n < nodes.len() && (#[trigger] nodes[n]).id@ == id
}

proof fn node_ids_are(nodes: Seq<NodeRecord>, id: Seq<char>)
    ensures
        node_ids_of(nodes).contains(id) <==> is_node(nodes, id),
{
    let ids = node_ids_of(nodes);
    if ids.contains(id) {
        let n = choose|n: int| 0 <= n < ids.len() && ids[n] == id;
        assert(nodes[n].id@ == id);
    }
    if is_node(nodes, id) {
        let n = choose|n: int| 0 <= n < nodes.len() && (#[trigger] nodes[n]).id@ == id;
        assert(ids[n] == id);
    }
}

proof fn joined_ids_are(a: Seq<Seq<char>>, b: Seq<Seq<char>>, id: Seq<char>)
    ensures
        (a + b).contains(id) <==> a.contains(id) || b.contains(id),
{
    if a.contains(id) {
        let i = choose|i: int| 0 <= i < a.len() && a[i] == id;
        assert((a + b)[i] == id);
    }
    if b.contains(id) {
        let i = choose|i: int| 0 <= i < b.len() && b[i] == id;
        assert((a + b)[a.len() + i] == id);
    }
    if (a + b).contains(id) {
        let i = choose|i: int| 0 <= i < (a + b).len() && (a + b)[i] == id;
        if i < a.len() {
            assert(a[i] == id);
        } else {
            assert(b[i - a.len()] == id);
        }
    }
}

/// An accepted build brings one profile: that of the attempt, of the build phase, with a parent
/// among the profiles of the base in a language that is the same and an input that it declares.
pub proof fn accepted_builds_bring_their_profile(
    base: &GraphSnapshot,
    derived: &Vec<String>,
    delta: &BuildGraphDelta,
    attempt: &BuildAttemptRecord,
    result: Result<(), BuildError>,
)
    requires
        call_ensures(validate_build_union, (base, derived, delta, attempt), result),
        result is Ok,
    ensures
        delta.profiles@.len() == 1,
        delta.profiles@[0].id@ == attempt.profile_id@,
        delta.profiles@[0]@.properties.field("profile_phase"@) == Some(JsonModel::Text("build"@)),
        declared_input(delta.profiles@[0]@) is Some,
        exists|p: int|
            0 <= p < base.profiles@.len() && declared_parent(delta.profiles@[0]@) == Some(
                (#[trigger] base.profiles@[p]).id@,
            ) && language_name(base.profiles@[p].language@) == language_name(delta.profiles@[0].language@),
{
    let parent = declared_parent(delta.profiles@[0]@)->0;
    let ids = profile_ids_of(base.profiles@);
    crate::order::positions_of_are_ascending_and_complete(ids, parent, base.profiles@.len() as int);
    let parents = crate::order::positions_of(ids, parent, base.profiles@.len() as int);
    assert(ids[parents[0]] == parent);
    assert(base.profiles@[parents[0]].id@ == parent);
}

/// In an accepted build every site is new, observed, of a known profile, and begins and ends at
/// nodes of the base or of the build; every edge is new, of the build phase, observed, of a known
/// profile, between such nodes, and of no site but one of the build.
pub proof fn accepted_builds_add_observations(
    base: &GraphSnapshot,
    derived: &Vec<String>,
    delta: &BuildGraphDelta,
    attempt: &BuildAttemptRecord,
    result: Result<(), BuildError>,
    i: int,
)
    requires
        call_ensures(validate_build_union, (base, derived, delta, attempt), result),
        result is Ok,
    ensures
        0 <= i < delta.sites@.len() ==> {
            let site = delta.sites@[i];
            &&& site.precision@ == "observed"@
            &&& forall|s: int| 0 <= s < base.sites@.len() ==> (#[trigger] base.sites@[s]).id@ != site.id@
            &&& is_node(base.nodes@, site.source@) || is_node(delta.nodes@, site.source@)
            &&& forall|t: int|
                0 <= t < site.target_ids@.len() ==> is_node(base.nodes@, (#[trigger] site.target_ids@[t])@) || is_node(
                    delta.nodes@,
                    site.target_ids@[t]@,
                )
        },
        0 <= i < delta.edges@.len() ==> {
            let edge = delta.edges@[i];
            &&& edge.phase@ == "build"@
            &&& edge.precision@ == "observed"@
            &&& forall|e: int| 0 <= e < base.edges@.len() ==> (#[trigger] base.edges@[e]).id@ != edge.id@
            &&& is_node(base.nodes@, edge.source@) || is_node(delta.nodes@, edge.source@)
            &&& is_node(base.nodes@, edge.target@) || is_node(delta.nodes@, edge.target@)
            &&& edge.site_id is Some ==> exists|s: int|
                0 <= s < delta.sites@.len() && (#[trigger] delta.sites@[s]).id@ == edge.site_id->0@
        },
{
    let node_ids = node_ids_of(base.nodes@) + node_ids_of(delta.nodes@);
    let profile_ids = profile_ids_of(base.profiles@) + profile_ids_of(delta.profiles@);
    assert forall|id: Seq<char>| #[trigger] node_ids.contains(id) <==> is_node(base.nodes@, id) || is_node(
        delta.nodes@,
        id,
    ) by {
        joined_ids_are(node_ids_of(base.nodes@), node_ids_of(delta.nodes@), id);
        node_ids_are(base.nodes@, id);
        node_ids_are(delta.nodes@, id);
    }
    if 0 <= i < delta.sites@.len() {
        let failure = site_union_error(site_ids_of(base.sites@), node_ids, profile_ids, delta.sites@);
        no_failure_anywhere(delta.sites@.len() as int, failure);
        assert(failure(i) is None);
        let site = delta.sites@[i];
        assert forall|s: int| 0 <= s < base.sites@.len() implies (#[trigger] base.sites@[s]).id@ != site.id@ by {
            assert(site_ids_of(base.sites@)[s] == base.sites@[s].id@);
        }
        assert forall|t: int| 0 <= t < site.target_ids@.len() implies is_node(
            base.nodes@,
            (#[trigger] site.target_ids@[t])@,
        ) || is_node(delta.nodes@, site.target_ids@[t]@) by {
            assert(texts(site.target_ids@)[t] == site.target_ids@[t]@);
            assert(node_ids.contains(texts(site.target_ids@)[t]));
        }
    }
    if 0 <= i < delta.edges@.len() {
        let failure = edge_union_error(
            edge_ids_of(base.edges@),
            node_ids,
            profile_ids,
            site_ids_of(delta.sites@),
            delta.edges@,
        );
        no_failure_anywhere(delta.edges@.len() as int, failure);
        assert(failure(i) is None);
        let edge = delta.edges@[i];
        assert forall|e: int| 0 <= e < base.edges@.len() implies (#[trigger] base.edges@[e]).id@ != edge.id@ by {
            assert(edge_ids_of(base.edges@)[e] == base.edges@[e].id@);
        }
        if edge.site_id is Some {
            let ids = site_ids_of(delta.sites@);
            let s = choose|s: int| 0 <= s < ids.len() && ids[s] == edge.site_id->0@;
            assert(delta.sites@[s].id@ == edge.site_id->0@);
        }
    }
}

/// In an accepted build a node that the base has is the node of the base by value, and every other
/// node says that the build generated it and that the attempt did so.
pub proof fn accepted_builds_change_no_node(
    base: &GraphSnapshot,
    derived: &Vec<String>,
    delta: &BuildGraphDelta,
    attempt: &BuildAttemptRecord,
    result: Result<(), BuildError>,
    i: int,
)
    requires
        call_ensures(validate_build_union, (base, derived, delta, attempt), result),
        result is Ok,
        0 <= i < delta.nodes@.len(),
    ensures
        ({
            let node = delta.nodes@[i];
            &&& is_node(base.nodes@, node.id@) ==> exists|n: int|
                0 <= n < base.nodes@.len() && (#[trigger] base.nodes@[n])@.value() == node@.value()
            &&& !is_node(base.nodes@, node.id@) ==> {
                let provenance = node@.properties.field("build_provenance"@);
                &&& node@.properties.field("build_generated"@) == Some(JsonModel::Bool(true))
                &&& provenance is Some
                &&& provenance->0.field("build_run_id"@) == Some(JsonModel::Text(attempt.id@))
                &&& provenance->0.field("profile_id"@) == Some(JsonModel::Text(attempt.profile_id@))
                &&& provenance->0.field("observer"@) == Some(JsonModel::Text(attempt.observer@))
                &&& provenance->0.field("observer_version"@) == Some(JsonModel::Text(attempt.observer_version@))
                &&& provenance->0.field("command_plan_digest"@) == Some(JsonModel::Text(attempt.command_plan_digest@))
                &&& provenance->0.field("toolchain_executable_digest"@) == Some(
                    JsonModel::Text(attempt.toolchain_executable_digest@),
                )
                &&& provenance->0.field("environment_key_set_digest"@) == Some(
                    JsonModel::Text(attempt.environment_key_set_digest@),
                )
            }
        }),
{
    let failure = node_union_error(base.nodes@, delta.nodes@, *attempt);
    no_failure_anywhere(delta.nodes@.len() as int, failure);
    assert(failure(i) is None);
    let node = delta.nodes@[i];
    let ids = node_ids_of(base.nodes@);
    last_position_is_last(ids, node.id@, base.nodes@.len() as int);
    node_ids_are(base.nodes@, node.id@);
    if let Some(n) = crate::order::last_position(ids, node.id@, base.nodes@.len() as int) {
        assert(ids[n] == base.nodes@[n].id@);
        assert(base.nodes@[n].id@ == node.id@);
        assert(base.nodes@[n]@.value() == node@.value());
    } else {
        if is_node(base.nodes@, node.id@) {
            let n = choose|n: int| 0 <= n < base.nodes@.len() && (#[trigger] base.nodes@[n]).id@ == node.id@;
            assert(ids[n] == node.id@);
        }
    }
}

proof fn all_selected<T>(items: Seq<T>, keep: spec_fn(int) -> bool, wanted: spec_fn(T) -> bool)
    requires
        forall|i: int| 0 <= i < items.len() ==> #[trigger] keep(i) == wanted(items[i]),
    ensures
        crate::order::collect(items.len() as int, keep, item_at(items)) == items.filter(wanted),
{
    let whole = |item: T| item;
    selected_is_wanted(items, wanted, whole, items.len() as int, keep, item_at(items));
    assert(items.take(items.len() as int) =~= items);
    assert(items.filter(wanted).map_values(whole) =~= items.filter(wanted));
}

/// A build that repeats what the base holds is left with the sites and edges whose identities the
/// base does not hold, in their order, and with the evidence of no other site or edge. Its nodes
/// and diagnostics stay, and its counters lose the sites that go.
pub proof fn repeated_observations_are_dropped(base: GraphSnapshot, delta: BuildGraphDelta, after: BuildGraphDelta)
    requires
        is_without_held(base, delta, after),
    ensures
        after.sites@ == delta.sites@.filter(|site: SiteRecord| !site_ids_of(base.sites@).contains(site.id@)),
        after.edges@ == delta.edges@.filter(|edge: EdgeRecord| !edge_ids_of(base.edges@).contains(edge.id@)),
        after.evidence@ == delta.evidence@.filter(
            |item: EvidenceRecord|
                !(item.owner_type@ == "site"@ && site_ids_of(base.sites@).contains(item.owner_id@) && site_ids_of(
                    delta.sites@,
                ).contains(item.owner_id@)) && !(item.owner_type@ == "edge"@ && edge_ids_of(base.edges@).contains(
                    item.owner_id@,
                ) && edge_ids_of(delta.edges@).contains(item.owner_id@)),
        ),
        after.nodes == delta.nodes,
        after.diagnostics == delta.diagnostics,
        after.profiles@.len() == delta.profiles@.len(),
        ({
            let gone = delta.sites@.filter(|site: SiteRecord| site_ids_of(base.sites@).contains(site.id@));
            gone.len() <= delta.coverage.dependency_sites ==> after.coverage.dependency_sites
                == delta.coverage.dependency_sites - gone.len()
        }),
{
    all_selected(
        delta.sites@,
        site_is_new(base.sites@, delta.sites@),
        |site: SiteRecord| !site_ids_of(base.sites@).contains(site.id@),
    );
    all_selected(
        delta.edges@,
        edge_is_new(base.edges@, delta.edges@),
        |edge: EdgeRecord| !edge_ids_of(base.edges@).contains(edge.id@),
    );
    all_selected(
        delta.evidence@,
        evidence_is_new(base, delta),
        |item: EvidenceRecord|
            !(item.owner_type@ == "site"@ && site_ids_of(base.sites@).contains(item.owner_id@) && site_ids_of(
                delta.sites@,
            ).contains(item.owner_id@)) && !(item.owner_type@ == "edge"@ && edge_ids_of(base.edges@).contains(
                item.owner_id@,
            ) && edge_ids_of(delta.edges@).contains(item.owner_id@)),
    );
    let keep = site_is_held(base.sites@, delta.sites@);
    let held = crate::order::collect(delta.sites@.len() as int, keep, status_at(delta.sites@));
    crate::order::selections_are_counted(delta.sites@.len() as int, keep, status_at(delta.sites@));
    crate::counting::kept_is_wanted(
        delta.sites@,
        |site: SiteRecord| site_ids_of(base.sites@).contains(site.id@),
        keep,
    );
    subtracted_sites_are_taken_from_their_counters(delta.coverage@, held);
}

/// A build that repeats nothing is left as it is. One with a site or an edge that the base holds
/// otherwise is refused.
pub proof fn new_observations_are_kept(
    base: &GraphSnapshot,
    delta: BuildGraphDelta,
    result: Result<BuildGraphDelta, BuildError>,
    i: int,
    j: int,
)
    requires
        call_ensures(deduplicate_identical_build_evidence, (base, delta), result),
    ensures
        result is Ok && (forall|s: int|
            0 <= s < delta.sites@.len() ==> !site_ids_of(base.sites@).contains((#[trigger] delta.sites@[s]).id@)) && (
        forall|e: int|
            0 <= e < delta.edges@.len() ==> !edge_ids_of(base.edges@).contains((#[trigger] delta.edges@[e]).id@))
            ==> result->Ok_0 == delta,
        result is Ok && 0 <= i < delta.sites@.len() && 0 <= j < base.sites@.len() && base.sites@[j].id@
            == delta.sites@[i].id@ && (forall|k: int|
            0 <= k < base.sites@.len() && k != j ==> (#[trigger] base.sites@[k]).id@ != base.sites@[j].id@)
            ==> base.sites@[j]@.value() == delta.sites@[i]@.value(),
{
    if result is Ok && 0 <= i < delta.sites@.len() && 0 <= j < base.sites@.len() && base.sites@[j].id@
        == delta.sites@[i].id@ && (forall|k: int|
        0 <= k < base.sites@.len() && k != j ==> (#[trigger] base.sites@[k]).id@ != base.sites@[j].id@) {
        let failure = site_conflict_error(base.sites@, delta.sites@);
        no_failure_anywhere(delta.sites@.len() as int, failure);
        assert(failure(i) is None);
        let ids = site_ids_of(base.sites@);
        last_position_is_last(ids, delta.sites@[i].id@, base.sites@.len() as int);
        assert(ids[j] == delta.sites@[i].id@);
        let p = crate::order::last_position(ids, delta.sites@[i].id@, base.sites@.len() as int)->0;
        assert(ids[p] == base.sites@[p].id@);
        assert(p == j);
    }
}

proof fn sums_hold_both<T>(a: Seq<T>, b: Seq<T>, x: T)
    ensures
        (a + b).contains(x) <==> a.contains(x) || b.contains(x),
{
    if a.contains(x) {
        let i = choose|i: int| 0 <= i < a.len() && a[i] == x;
        assert((a + b)[i] == x);
    }
    if b.contains(x) {
        let i = choose|i: int| 0 <= i < b.len() && b[i] == x;
        assert((a + b)[a.len() + i] == x);
    }
    if (a + b).contains(x) {
        let i = choose|i: int| 0 <= i < (a + b).len() && (a + b)[i] == x;
        if i < a.len() {
            assert(a[i] == x);
        } else {
            assert(b[i - a.len()] == x);
        }
    }
}

proof fn new_nodes_are_added(nodes: Seq<NodeRecord>, added: Seq<NodeRecord>, count: int, x: NodeRecord)
    requires
        0 <= count <= added.len(),
    ensures
        with_nodes(nodes, added, count).contains(x) ==> nodes.contains(x) || added.contains(x),
        forall|i: int| 0 <= i < count ==> is_node(with_nodes(nodes, added, count), (#[trigger] added[i]).id@),
    decreases count,
{
    if count > 0 {
        new_nodes_are_added(nodes, added, count - 1, x);
        let earlier = with_nodes(nodes, added, count - 1);
        let now = with_nodes(nodes, added, count);
        node_ids_are(earlier, added[count - 1].id@);
        assert(added.contains(added[count - 1]));
        if now.contains(x) && !earlier.contains(x) {
            let i = choose|i: int| 0 <= i < now.len() && now[i] == x;
            if i < earlier.len() {
                assert(earlier[i] == x);
            }
        }
        assert forall|i: int| 0 <= i < count implies is_node(now, (#[trigger] added[i]).id@) by {
            if i < count - 1 {
                assert(is_node(earlier, added[i].id@));
                let n = choose|n: int| 0 <= n < earlier.len() && (#[trigger] earlier[n]).id@ == added[i].id@;
                assert(now[n].id@ == added[i].id@);
            } else if !is_node(earlier, added[i].id@) {
                assert(now[earlier.len() as int].id@ == added[i].id@);
            }
        }
    }
}

/// Uniting a scan with a build keeps every node, site, edge, piece of evidence and diagnostic of
/// the scan and adds those of the build; nothing else is there. The scan has executed project code,
/// and the counters of sites are the sums.
pub proof fn united_graphs_hold_both(
    before: GraphSnapshot,
    delta: BuildGraphDelta,
    after: GraphSnapshot,
    site: SiteRecord,
    edge: EdgeRecord,
    node: NodeRecord,
)
    requires
        is_united(before, delta, after),
        after.nodes@.len() <= usize::MAX,
        after.sites@.len() <= usize::MAX,
        after.edges@.len() <= usize::MAX,
    ensures
        after.sites@.contains(site) <==> before.sites@.contains(site) || delta.sites@.contains(site),
        after.edges@.contains(edge) <==> before.edges@.contains(edge) || delta.edges@.contains(edge),
        before.nodes@.contains(node) ==> after.nodes@.contains(node),
        after.nodes@.contains(node) ==> before.nodes@.contains(node) || delta.nodes@.contains(node),
        after.sites@.len() == before.sites@.len() + delta.sites@.len(),
        after.edges@.len() == before.edges@.len() + delta.edges@.len(),
        after.evidence@ == before.evidence@ + delta.evidence@,
        after.diagnostics@ == before.diagnostics@ + delta.diagnostics@,
        after.scan.project_code_executed,
        after.scan.id == before.scan.id,
        after.scan.root == before.scan.root,
        after.scan.status == before.scan.status,
        after.file_coverage == before.file_coverage,
        after.adapter_logs == before.adapter_logs,
        after.profile_matrix == before.profile_matrix,
        before.coverage.dependency_sites + delta.coverage.dependency_sites <= u64::MAX
            ==> after.coverage.dependency_sites == before.coverage.dependency_sites + delta.coverage.dependency_sites,
        before.coverage.resolved + delta.coverage.resolved <= u64::MAX ==> after.coverage.resolved
            == before.coverage.resolved + delta.coverage.resolved,
        before.coverage.candidates + delta.coverage.candidates <= u64::MAX ==> after.coverage.candidates
            == before.coverage.candidates + delta.coverage.candidates,
        before.coverage.external + delta.coverage.external <= u64::MAX ==> after.coverage.external
            == before.coverage.external + delta.coverage.external,
        before.coverage.unresolved + delta.coverage.unresolved <= u64::MAX ==> after.coverage.unresolved
            == before.coverage.unresolved + delta.coverage.unresolved,
        after.coverage.profiles == after.profiles@.len() as u64,
        after.coverage.files_discovered == before.coverage.files_discovered,
{
    let sites = before.sites@ + delta.sites@;
    let edges = before.edges@ + delta.edges@;
    let nodes = with_nodes(before.nodes@, delta.nodes@, delta.nodes@.len() as int);
    assert(site_ids_of(sites).len() == sites.len() && edge_ids_of(edges).len() == edges.len() && node_ids_of(
        nodes,
    ).len() == nodes.len());
    assert(after.sites@.len() == sites.len() && after.edges@.len() == edges.len() && after.nodes@.len()
        == nodes.len());
    sorted_lists_hold_the_items(sites, site_ids_of(sites), after.sites@);
    sorted_lists_hold_the_items(edges, edge_ids_of(edges), after.edges@);
    sorted_lists_hold_the_items(nodes, node_ids_of(nodes), after.nodes@);
    sums_hold_both(before.sites@, delta.sites@, site);
    sums_hold_both(before.edges@, delta.edges@, edge);
    assert(after.sites@.contains(site) <==> sites.contains(site));
    assert(after.edges@.contains(edge) <==> edges.contains(edge));
    assert(after.nodes@.contains(node) <==> nodes.contains(node));
    union_keeps_base_nodes(before.nodes@, delta.nodes@, delta.nodes@.len() as int);
    new_nodes_are_added(before.nodes@, delta.nodes@, delta.nodes@.len() as int, node);
    if before.nodes@.contains(node) {
        let n = choose|n: int| 0 <= n < before.nodes@.len() && before.nodes@[n] == node;
        assert(nodes[n] == node);
    }
    let profiles = crate::build_union::with_profiles(
        crate::order::views(before.profiles@),
        crate::order::views(delta.profiles@),
        delta.profiles@.len() as int,
    );
    assert(crate::order::views(after.profiles@).len() == profiles.len());
}

/// A key names a secret exactly where, whatever the case of its letters, it holds one of the words
/// that secrets are named by.
pub proof fn secrets_are_told_by_their_names(key: &str, result: bool)
    requires
        call_ensures(is_secret_like_key, (key,), result),
    ensures
        result <==> {
            let upper = upper_text(key@);
            holds_part(upper, "TOKEN"@) || holds_part(upper, "SECRET"@) || holds_part(upper, "PASSWORD"@)
                || holds_part(upper, "PASSWD"@) || holds_part(upper, "API_KEY"@) || holds_part(upper, "PRIVATE_KEY"@)
                || holds_part(upper, "CREDENTIAL"@) || holds_part(upper, "AUTH"@) || holds_part(upper, "COOKIE"@)
                || holds_part(upper, "SESSION"@)
        },
{
    let upper = upper_text(key@);
    let parts = secret_parts();
    assert(parts.len() == 10);
    assert(parts[0] == "TOKEN"@ && parts[1] == "SECRET"@ && parts[2] == "PASSWORD"@ && parts[3] == "PASSWD"@
        && parts[4] == "API_KEY"@ && parts[5] == "PRIVATE_KEY"@ && parts[6] == "CREDENTIAL"@ && parts[7] == "AUTH"@
        && parts[8] == "COOKIE"@ && parts[9] == "SESSION"@);
    if result {
        let i = choose|i: int| 0 <= i < parts.len() && holds_part(upper, #[trigger] parts[i]);
        assert(i == 0 || i == 1 || i == 2 || i == 3 || i == 4 || i == 5 || i == 6 || i == 7 || i == 8 || i == 9);
    }
}

proof fn keys_without_errors(keys: Seq<JsonModel>, count: int)
    requires
        0 <= count <= keys.len(),
    ensures
        first_key_error(keys, count) is None <==> forall|i: int|
            0 <= i < count ==> key_error(#[trigger] keys[i]) is None,
    decreases count,
{
    if count > 0 {
        keys_without_errors(keys, count - 1);
    }
}

/// An audit is accepted exactly where it is an object with a run, a known outcome, a start and an
/// end, whose environment keys are texts none of which names a secret.
pub proof fn accepted_audits_are_complete(audit: &Json, result: Result<(), BuildError>)
    requires
        call_ensures(check_build_audit, (audit,), result),
    ensures
        result is Ok <==> {
            &&& audit@ is Object
            &&& audit@.field("run_id"@) matches Some(JsonModel::Text(run)) && exists|i: int|
                0 <= i < run.len() && !crate::text::is_space_char(#[trigger] run[i])
            &&& audit@.field("outcome"@) matches Some(JsonModel::Text(outcome)) && (outcome == "completed"@ || outcome
                == "failed"@ || outcome == "timed_out"@ || outcome == "cancelled"@ || outcome == "security_failed"@)
            &&& audit@.field("started_at"@) matches Some(JsonModel::Text(_))
            &&& audit@.field("finished_at"@) matches Some(JsonModel::Text(_))
            &&& audit@.field("environment_keys"@) matches Some(JsonModel::Array(keys)) && forall|i: int|
                0 <= i < keys.len() ==> (#[trigger] keys[i]) is Text && !crate::build_attempt::is_secret_name(
                    keys[i]->Text_0,
                )
        },
{
    if let Some(JsonModel::Array(keys)) = audit@.field("environment_keys"@) {
        keys_without_errors(keys, keys.len() as int);
        assert(forall|i: int|
            0 <= i < keys.len() ==> (key_error(#[trigger] keys[i]) is None <==> keys[i] is Text
                && !crate::build_attempt::is_secret_name(keys[i]->Text_0)));
    }
}

/// The audit of an attempt is accepted exactly where it names a run and an outcome, has the three
/// digests that every build has, and a digest of the output where the build completed; every
/// digest is a SHA-256 in hexadecimal.
pub proof fn audits_of_attempts_have_their_digests(audit: &Json, result: Result<(), BuildError>)
    requires
        call_ensures(check_attempt_audit, (audit,), result),
    ensures
        result is Ok <==> {
            &&& audit@.field("run_id"@) matches Some(JsonModel::Text(_))
            &&& audit@.field("outcome"@) matches Some(JsonModel::Text(_))
            &&& audit@.field("command_plan_digest"@) matches Some(JsonModel::Text(digest)) && is_hex_text(digest, 64)
            &&& audit@.field("toolchain_executable_digest"@) matches Some(JsonModel::Text(digest)) && is_hex_text(
                digest,
                64,
            )
            &&& audit@.field("environment_key_set_digest"@) matches Some(JsonModel::Text(digest)) && is_hex_text(
                digest,
                64,
            )
            &&& match audit@.field("validated_output_digest"@) {
                Some(JsonModel::Text(digest)) => if digest.len() > 0 {
                    is_hex_text(digest, 64)
                } else {
                    audit@.field("outcome"@) != Some(JsonModel::Text("completed"@))
                },
                _ => audit@.field("outcome"@) != Some(JsonModel::Text("completed"@)),
            }
        },
{
}

/// An attempt starts as its saved audit says, on a completed scan: staging, over the snapshot that
/// was asked for where that is the snapshot of the scan and valid, or else over the latest.
pub proof fn attempts_start_as_their_audit_says(
    base_scan_id: &str,
    audit: &Json,
    base: &AttemptBase,
    attempt: BuildAttemptRecord,
)
    requires
        call_ensures(start_build_attempt, (base_scan_id, audit, base), Ok(attempt)),
    ensures
        audit@.field("run_id"@) == Some(JsonModel::Text(attempt.id@)),
        audit@.field("run_id"@) == Some(JsonModel::Text(attempt.audit_run_id@)),
        audit@.field("adapter"@) == Some(JsonModel::Text(attempt.observer@)),
        audit@.field("adapter_version"@) == Some(JsonModel::Text(attempt.observer_version@)),
        audit@.field("profile_id"@) == Some(JsonModel::Text(attempt.profile_id@)),
        audit@.field("command_plan_digest"@) == Some(JsonModel::Text(attempt.command_plan_digest@)),
        audit@.field("toolchain_executable_digest"@) == Some(JsonModel::Text(attempt.toolchain_executable_digest@)),
        audit@.field("environment_key_set_digest"@) == Some(JsonModel::Text(attempt.environment_key_set_digest@)),
        attempt.validated_output_digest is Some ==> audit@.field("validated_output_digest"@) == Some(
            JsonModel::Text(attempt.validated_output_digest->0@),
        ),
        audit@.field("started_at"@) == Some(JsonModel::Text(attempt.started_at@)),
        audit@.field("outcome"@) == Some(JsonModel::Text("completed"@)) ==> attempt.validated_output_digest is Some,
        attempt.base_scan_id@ == base_scan_id@,
        attempt.status@ == "staging"@,
        attempt.completed_at is None,
        attempt.error is None,
        base.saved_audit is Some && base.saved_audit->0@.value() == audit@.value(),
        base.scan_status is Some && base.scan_status->0@ == "completed"@,
        attempt.base_snapshot_id is Some,
        base.requested_snapshot_id is Some ==> attempt.base_snapshot_id->0@ == base.requested_snapshot_id->0@
            && opt_text(base.safe_snapshot_id) == Some(base.requested_snapshot_id->0@)
            && base.requested_snapshot_is_valid,
        base.requested_snapshot_id is None ==> opt_text(base.latest_snapshot_id) == Some(
            attempt.base_snapshot_id->0@,
        ),
{
}

/// An attempt ends in one of six ways, once. It completes only with a delta and a completed audit,
/// is promoted only where it completes, and otherwise ends as its audit says where that did not
/// complete.
pub proof fn attempts_end_as_their_audit_says(
    status: &str,
    promote: bool,
    state: Option<&AttemptState>,
    result: Result<(), BuildError>,
)
    requires
        call_ensures(check_attempt_end, (status, promote, state), result),
    ensures
        result is Ok <==> {
            &&& status@ == "completed"@ || status@ == "partial"@ || status@ == "failed"@ || status@ == "timed_out"@
                || status@ == "cancelled"@ || status@ == "security_failed"@
            &&& promote ==> status@ == "completed"@
            &&& state is Some
            &&& state->0.status@ == "staging"@
            &&& status@ == "completed"@ ==> state->0.has_delta && state->0.audit_outcome@ == "completed"@
            &&& state->0.audit_outcome@ != "completed"@ ==> status@ == state->0.audit_outcome@
        },
{
}

/// The snapshot of a completed build stands over the latest snapshot of the scan, with its
/// sessions, where that has sessions, and otherwise over the base of the attempt, with none.
pub proof fn finished_builds_keep_runtime_sessions(
    attempt: &BuildAttemptRecord,
    latest: Option<&CompletedSnapshotRecord>,
    base: Option<&CompletedSnapshotRecord>,
    completed_at: String,
    result: Result<SnapshotSource, BuildError>,
)
    requires
        call_ensures(finished_build_source, (attempt, latest, base, completed_at), result),
    ensures
        result is Ok <==> attempt.base_snapshot_id is Some && latest is Some && (
        latest->0.runtime_session_ids@.len() > 0 || base is Some),
        result is Ok ==> {
            let source = result->Ok_0;
            let parent = if latest->0.runtime_session_ids@.len() > 0 {
                latest->0
            } else {
                base->0
            };
            &&& source.source_kind@ == "build"@
            &&& source.source_attempt_id@ == attempt.id@
            &&& source.scan_id@ == attempt.base_scan_id@
            &&& opt_text(source.build_attempt_id) == Some(attempt.id@)
            &&& source.runtime_import_id is None
            &&& opt_text(source.parent_snapshot_id) == Some(parent.id@)
            &&& opt_text(source.source_revision) == opt_text(parent.source_revision)
            &&& source.created_at@ == completed_at@
            &&& latest->0.runtime_session_ids@.len() > 0 ==> texts(source.runtime_session_ids@) == texts(
                latest->0.runtime_session_ids@,
            )
            &&& latest->0.runtime_session_ids@.len() == 0 ==> source.runtime_session_ids@.len() == 0
        },
{
    if result is Ok {
        assert(texts(result->Ok_0.runtime_session_ids@).len() == result->Ok_0.runtime_session_ids@.len());
    }
}

/// A build is accepted where its profile is and the sites and edges that it adds are new, observed,
/// of known profiles and between nodes of the base and the build, which bring their provenance.
pub proof fn sound_builds_are_accepted(
    base: GraphSnapshot,
    derived: Seq<String>,
    delta: BuildGraphDelta,
    attempt: BuildAttemptRecord,
)
    requires
        crate::build_union::profile_union_error(base.profiles@, derived, delta.profiles@, attempt) is None,
        forall|i: int|
            0 <= i < delta.nodes@.len() ==> {
                let node = #[trigger] delta.nodes@[i];
                let provenance = node@.properties.field("build_provenance"@);
                &&& !is_node(base.nodes@, node.id@)
                &&& node@.properties.field("build_generated"@) == Some(JsonModel::Bool(true))
                &&& provenance is Some
                &&& provenance->0.field("build_run_id"@) == Some(JsonModel::Text(attempt.id@))
                &&& provenance->0.field("profile_id"@) == Some(JsonModel::Text(attempt.profile_id@))
                &&& provenance->0.field("observer"@) == Some(JsonModel::Text(attempt.observer@))
                &&& provenance->0.field("observer_version"@) == Some(JsonModel::Text(attempt.observer_version@))
                &&& provenance->0.field("command_plan_digest"@) == Some(JsonModel::Text(attempt.command_plan_digest@))
                &&& provenance->0.field("toolchain_executable_digest"@) == Some(
                    JsonModel::Text(attempt.toolchain_executable_digest@),
                )
                &&& provenance->0.field("environment_key_set_digest"@) == Some(
                    JsonModel::Text(attempt.environment_key_set_digest@),
                )
                &&& attempt.validated_output_digest is Some
                &&& provenance->0.field("validated_output_digest"@) == Some(
                    JsonModel::Text(attempt.validated_output_digest->0@),
                )
            },
        forall|i: int|
            0 <= i < delta.sites@.len() ==> {
                let site = #[trigger] delta.sites@[i];
                &&& !site_ids_of(base.sites@).contains(site.id@)
                &&& site.precision@ == "observed"@
                &&& site.profile_id@ == attempt.profile_id@
                &&& is_node(base.nodes@, site.source@) || is_node(delta.nodes@, site.source@)
                &&& forall|t: int|
                    0 <= t < site.target_ids@.len() ==> is_node(base.nodes@, (#[trigger] site.target_ids@[t])@)
                        || is_node(delta.nodes@, site.target_ids@[t]@)
            },
        forall|i: int|
            0 <= i < delta.edges@.len() ==> {
                let edge = #[trigger] delta.edges@[i];
                &&& !edge_ids_of(base.edges@).contains(edge.id@)
                &&& edge.phase@ == "build"@
                &&& edge.precision@ == "observed"@
                &&& edge.profile_id@ == attempt.profile_id@
                &&& is_node(base.nodes@, edge.source@) || is_node(delta.nodes@, edge.source@)
                &&& is_node(base.nodes@, edge.target@) || is_node(delta.nodes@, edge.target@)
                &&& edge.site_id is Some ==> site_ids_of(delta.sites@).contains(edge.site_id->0@)
            },
    ensures
        build_union_error(base, derived, delta, attempt) is None,
{
    let node_ids = node_ids_of(base.nodes@) + node_ids_of(delta.nodes@);
    let profile_ids = profile_ids_of(base.profiles@) + profile_ids_of(delta.profiles@);
    assert(profile_ids[base.profiles@.len() as int] == attempt.profile_id@);
    assert(profile_ids.contains(attempt.profile_id@));
    assert forall|id: Seq<char>| #[trigger] node_ids.contains(id) <==> is_node(base.nodes@, id) || is_node(
        delta.nodes@,
        id,
    ) by {
        joined_ids_are(node_ids_of(base.nodes@), node_ids_of(delta.nodes@), id);
        node_ids_are(base.nodes@, id);
        node_ids_are(delta.nodes@, id);
    }
    let a = node_union_error(base.nodes@, delta.nodes@, attempt);
    assert forall|i: int| 0 <= i < delta.nodes@.len() implies (#[trigger] a(i)) is None by {
        let node = delta.nodes@[i];
        let ids = node_ids_of(base.nodes@);
        last_position_is_last(ids, node.id@, base.nodes@.len() as int);
        if let Some(n) = crate::order::last_position(ids, node.id@, base.nodes@.len() as int) {
            assert(base.nodes@[n].id@ == node.id@);
        }
    }
    nothing_fails(delta.nodes@.len() as int, a);
    let b = site_union_error(site_ids_of(base.sites@), node_ids, profile_ids, delta.sites@);
    assert forall|i: int| 0 <= i < delta.sites@.len() implies (#[trigger] b(i)) is None by {
        let site = delta.sites@[i];
        assert forall|t: int| 0 <= t < texts(site.target_ids@).len() implies node_ids.contains(
            #[trigger] texts(site.target_ids@)[t],
        ) by {
            assert(site.target_ids@[t]@ == texts(site.target_ids@)[t]);
        }
    }
    nothing_fails(delta.sites@.len() as int, b);
    let c = edge_union_error(
        edge_ids_of(base.edges@),
        node_ids,
        profile_ids,
        site_ids_of(delta.sites@),
        delta.edges@,
    );
    assert forall|i: int| 0 <= i < delta.edges@.len() implies (#[trigger] c(i)) is None by {
        let edge = delta.edges@[i];
    }
    nothing_fails(delta.edges@.len() as int, c);
}

/// The profile of a build is accepted where it is that of the attempt, of the build phase, new to
/// the base, and a child of a profile of the base in the same language with the input of that.
pub proof fn sound_build_profiles_are_accepted(
    base: Seq<crate::records::ProfileRecord>,
    derived: Seq<String>,
    profile: crate::records::ProfileRecord,
    attempt: BuildAttemptRecord,
    p: int,
)
    requires
        0 <= p < base.len(),
        forall|q: int| 0 <= q < base.len() && q != p ==> (#[trigger] base[q]).id@ != base[p].id@,
        forall|q: int| 0 <= q < base.len() ==> (#[trigger] base[q]).id@ != profile.id@,
        profile.id@ == attempt.profile_id@,
        profile@.properties.field("profile_phase"@) == Some(JsonModel::Text("build"@)),
        declared_parent(profile@) == Some(base[p].id@),
        declared_input(profile@) == Some(crate::profile_matrix::canonical_input(base[p]@, derived[p]@)),
        language_name(profile.language@) == language_name(base[p].language@),
    ensures
        crate::build_union::profile_union_error(base, derived, seq![profile], attempt) is None,
{
    let parent = base[p].id@;
    let ids = profile_ids_of(base);
    crate::order::positions_of_are_ascending_and_complete(ids, parent, base.len() as int);
    let parents = crate::order::positions_of(ids, parent, base.len() as int);
    assert(ids[p] == parent);
    assert(parents.contains(p));
    assert(ids[parents[0]] == parent);
    assert(base[parents[0]].id@ == parent);
    assert(parents[0] == p);
    last_position_is_last(ids, profile.id@, base.len() as int);
    if let Some(q) = crate::profile_matrix::profile_position(base, profile.id@) {
        assert(ids[q] == base[q].id@);
    }
}

/// A delta is saved for an attempt that is staged and whose audit completed with a digest of its
/// output, over a base that is there; otherwise the first thing that is missing is named.
pub proof fn saved_builds_are_of_completed_attempts(
    build: &crate::observed::ObservedBuild,
    attempt: Option<&BuildAttemptRecord>,
    outcome: Option<&str>,
    base: Option<&GraphSnapshot>,
    derived: &Vec<String>,
    result: Result<BuildGraphDelta, BuildError>,
)
    requires
        call_ensures(crate::build_staging::save_build_delta, (build, attempt, outcome, base, derived), result),
    ensures
        attempt is None ==> result matches Err(BuildError::AttemptNotFound),
        attempt is Some && attempt->0.status@ != "staging"@ ==> result matches Err(BuildError::AttemptImmutable),
        attempt is Some && attempt->0.status@ == "staging"@ && build.coverage@.len() == 0 ==> result matches Err(
            BuildError::NoFinalCoverage,
        ),
        attempt is Some && attempt->0.status@ == "staging"@ && build.coverage@.len() > 0 && outcome is None
            ==> result matches Err(BuildError::AuditMissing),
        attempt is Some && attempt->0.status@ == "staging"@ && build.coverage@.len() > 0 && outcome is Some && (
        outcome->0@ != "completed"@ || attempt->0.validated_output_digest is None) ==> result matches Err(
            BuildError::AttemptNotCompleted,
        ),
        result is Ok ==> {
            &&& attempt is Some
            &&& attempt->0.status@ == "staging"@
            &&& build.coverage@.len() > 0
            &&& outcome is Some
            &&& outcome->0@ == "completed"@
            &&& attempt->0.validated_output_digest is Some
            &&& attempt->0.base_snapshot_id is Some
            &&& base is Some
        },
{
}

/// What is saved of a build that repeats nothing of its base is what was observed.
pub proof fn saved_builds_hold_what_was_observed(
    build: &crate::observed::ObservedBuild,
    attempt: &BuildAttemptRecord,
    outcome: Option<&str>,
    base: &GraphSnapshot,
    derived: &Vec<String>,
    saved: BuildGraphDelta,
)
    requires
        call_ensures(
            crate::build_staging::save_build_delta,
            (build, Some(attempt), outcome, Some(base), derived),
            Ok(saved),
        ),
        forall|i: int, j: int|
            0 <= i < build.sites@.len() && 0 <= j < base.sites@.len() ==> (#[trigger] build.sites@[i]).id@ != (
            #[trigger] base.sites@[j]).id@,
        forall|i: int, j: int|
            0 <= i < build.edges@.len() && 0 <= j < base.edges@.len() ==> (#[trigger] build.edges@[i]).id@ != (
            #[trigger] base.edges@[j]).id@,
    ensures
        saved.profiles@.len() == build.profiles@.len(),
        saved.nodes@.len() == build.nodes@.len(),
        saved.sites@.len() == build.sites@.len(),
        saved.edges@.len() == build.edges@.len(),
        saved.diagnostics@.len() == build.diagnostics@.len(),
        saved.coverage@ == build.coverage@.last()@,
        forall|i: int|
            0 <= i < build.sites@.len() ==> (#[trigger] saved.sites@[i]).id@ == build.sites@[i].id@
                && saved.sites@[i].resolution_status@ == build.sites@[i].resolution_status@,
        forall|i: int|
            0 <= i < build.edges@.len() ==> (#[trigger] saved.edges@[i]).id@ == build.edges@[i].id@
                && saved.edges@[i].target@ == build.edges@[i].target@,
{
    let delta = choose|delta: BuildGraphDelta| #[trigger]
        crate::observed::is_delta_of(*build, delta) && crate::build_staging::is_staging_of(
            delta,
            *attempt,
            Some(base),
            derived@,
            Ok(saved),
        );
    let left = choose|left: BuildGraphDelta| #[trigger]
        crate::build_staging::is_left_to_stage(*base, delta, left) && (match build_union_error(
            *base,
            derived@,
            left,
            *attempt,
        ) {
            Some(error) => Ok::<BuildGraphDelta, BuildError>(saved) == Err::<BuildGraphDelta, _>(error),
            None => Ok::<BuildGraphDelta, BuildError>(saved) == Ok::<_, BuildError>(left),
        });
    assert(saved == left);
    let sites = crate::order::views(delta.sites@);
    let edges = crate::order::views(delta.edges@);
    assert(sites.len() == delta.sites@.len() && edges.len() == delta.edges@.len());
    assert(crate::order::views(delta.profiles@).len() == delta.profiles@.len());
    assert(crate::order::views(delta.nodes@).len() == delta.nodes@.len());
    assert(crate::order::views(delta.diagnostics@).len() == delta.diagnostics@.len());
    assert forall|i: int| 0 <= i < delta.sites@.len() implies (#[trigger] delta.sites@[i]).id@ == build.sites@[i].id@
        && delta.sites@[i].resolution_status@ == build.sites@[i].resolution_status@ by {
        assert(sites[i] == delta.sites@[i]@);
        assert(sites[i] == crate::observed::site_of(build.sites@[i]));
    }
    assert forall|i: int| 0 <= i < delta.edges@.len() implies (#[trigger] delta.edges@[i]).id@ == build.edges@[i].id@
        && delta.edges@[i].target@ == build.edges@[i].target@ by {
        assert(edges[i] == delta.edges@[i]@);
        assert(edges[i] == crate::observed::edge_of(build.edges@[i]));
    }
    if crate::build_union::repeats(*base, delta) {
        let of_sites = crate::matrix_facts::site_ids_of(base.sites@);
        let of_edges = crate::matrix_facts::edge_ids_of(base.edges@);
        if exists|i: int| 0 <= i < delta.sites@.len() && of_sites.contains((#[trigger] delta.sites@[i]).id@) {
            let i = choose|i: int| 0 <= i < delta.sites@.len() && of_sites.contains((#[trigger] delta.sites@[i]).id@);
            let j = choose|j: int| 0 <= j < of_sites.len() && of_sites[j] == delta.sites@[i].id@;
            assert(build.sites@[i].id@ != base.sites@[j].id@);
        } else {
            let i = choose|i: int| 0 <= i < delta.edges@.len() && of_edges.contains((#[trigger] delta.edges@[i]).id@);
            let j = choose|j: int| 0 <= j < of_edges.len() && of_edges[j] == delta.edges@[i].id@;
            assert(build.edges@[i].id@ != base.edges@[j].id@);
        }
    }
    assert(left == delta);
}

} // verus!

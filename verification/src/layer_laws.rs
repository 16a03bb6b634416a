//! How snapshots rest on each other: what a chain follows, what a layer adds, what an overlay
//! re-states, and when a snapshot is intact.

use vstd::prelude::*;

use crate::build_union::node_ids_of;
use crate::counting::{selected_is_wanted, sorted_lists_hold_the_items};
use crate::layers::{
    applies_overlay, check_profile_set, is_broken, is_chain, is_layered, is_overlaid, is_semantic_noop,
    layer_plan, link_for, links_for, overlay_error, place_of_id, snapshot_ids, snapshot_integrity,
    snapshot_is_intact, topology_from_snapshot, AncestorCheck, LayerError, LayerPlan, SnapshotFacts, WalkEnd,
    WalkPurpose,
};
use crate::loading::{layer_steps, load_plan, path_steps, snapshot_steps, steps_held, LoadStep, LoadStepModel};
use crate::order::{first_kept, first_kept_is_first, last_position_is_last};
use crate::profile_matrix::profile_ids_of;
use crate::records::{CompletedSnapshotRecord, GraphSnapshot, GraphTopology, ProfileRecord, SnapshotIntegrityRecord};
use crate::text::{opt_text, texts};

verus! {

/// A snapshot re-states its parent exactly where it has neither a build nor a session and its scan
/// is an overlay.
pub proof fn overlays_have_no_layer_of_their_own(facts: &SnapshotFacts, result: bool)
    requires
        call_ensures(is_semantic_noop, (facts,), result),
    ensures
        result <==> facts.record.build_attempt_id is None && facts.record.runtime_session_ids@.len() == 0
            && facts.scan_is_overlay,
{
}

/// A snapshot is more than its scan exactly where it comes from a build or a session, has one, or
/// re-states its parent.
pub proof fn layered_snapshots_are_more_than_their_scan(facts: &SnapshotFacts, result: bool)
    requires
        call_ensures(is_layered, (facts,), result),
    ensures
        result <==> facts.record.source_kind@ != "scan"@ || facts.record.build_attempt_id is Some
            || facts.record.runtime_session_ids@.len() > 0 || facts.scan_is_overlay,
{
}

/// The overlay of a scan is laid over what is below exactly where the scan is an overlay and the
/// snapshot does not go on to its own parent.
pub proof fn overlays_are_laid_over_what_is_below(facts: &SnapshotFacts, result: bool)
    requires
        call_ensures(applies_overlay, (facts,), result),
    ensures
        result ==> facts.scan_is_overlay,
        facts.scan_is_overlay && facts.record.source_kind@ == "scan"@ ==> result,
        facts.scan_is_overlay && facts.record.parent_snapshot_id is None ==> result,
        facts.scan_is_overlay && facts.record.build_attempt_id is Some && facts.record.source_kind@ == "build"@
            && facts.record.parent_snapshot_id is Some ==> !result,
{
    reveal_strlit("scan");
    reveal_strlit("build");
    reveal_strlit("runtime");
    assert("scan"@.len() == 4 && "build"@.len() == 5 && "runtime"@.len() == 7);
}

proof fn place_is_of_the_id(facts: Seq<SnapshotFacts>, id: Seq<char>)
    ensures
        place_of_id(snapshot_ids(facts), id) matches Some(p) ==> 0 <= p < facts.len() && facts[p].record.id@ == id,
        place_of_id(snapshot_ids(facts), id) is None ==> forall|p: int|
            0 <= p < facts.len() ==> (#[trigger] facts[p]).record.id@ != id,
{
    let ids = snapshot_ids(facts);
    last_position_is_last(ids, id, ids.len() as int);
    if place_of_id(ids, id) is None {
        assert forall|p: int| 0 <= p < facts.len() implies (#[trigger] facts[p]).record.id@ != id by {
            assert(ids[p] == facts[p].record.id@);
        }
    }
}

/// A chain of ancestors begins at the snapshot, goes from each snapshot to its parent, comes to no
/// snapshot twice, and ends where there is no parent; where a parent is missing, or was there
/// before, it says so.
pub proof fn ancestors_are_followed_by_parent(
    facts: Seq<SnapshotFacts>,
    start: Seq<char>,
    path: Seq<usize>,
    end: WalkEnd,
    i: int,
)
    requires
        is_chain(facts, start, WalkPurpose::Ancestors, path, end),
        facts.len() <= usize::MAX,
    ensures
        path.len() > 0 ==> path[0] < facts.len() && facts[path[0] as int].record.id@ == start,
        0 <= i < path.len() - 1 ==> opt_text(facts[path[i] as int].record.parent_snapshot_id) == Some(
            facts[path[i + 1] as int].record.id@,
        ),
        end == WalkEnd::End ==> path.len() > 0 && facts[path[path.len() - 1] as int].record.parent_snapshot_id is None,
        end == WalkEnd::Missing && path.len() > 0 ==> {
            let last = facts[path[path.len() - 1] as int].record;
            last.parent_snapshot_id is Some && forall|p: int|
                0 <= p < facts.len() ==> (#[trigger] facts[p]).record.id@ != last.parent_snapshot_id->0@
        },
        end == WalkEnd::Cycle ==> exists|k: int|
            0 <= k < path.len() && opt_text(facts[path[path.len() - 1] as int].record.parent_snapshot_id) == Some(
                facts[#[trigger] path[k] as int].record.id@,
            ),
        !(end is Fail),
{
    let ids = snapshot_ids(facts);
    let links = links_for(WalkPurpose::Ancestors, facts);
    assert forall|k: int| 0 <= k < path.len() implies links[#[trigger] path[k] as int] == link_for(
        WalkPurpose::Ancestors,
        ids,
        facts[path[k] as int],
    ) by {}
    place_is_of_the_id(facts, start);
    if 0 <= i < path.len() - 1 {
        assert(links[path[i] as int] is To);
        place_is_of_the_id(facts, links[path[i] as int]->To_0);
    }
    if path.len() > 0 {
        let last = links[path[path.len() - 1] as int];
        assert(last == link_for(WalkPurpose::Ancestors, ids, facts[path[path.len() - 1] as int]));
        if last is To {
            place_is_of_the_id(facts, last->To_0);
            if end == WalkEnd::Cycle {
                let p = place_of_id(ids, last->To_0)->0;
                assert(path.contains(p as usize));
                let k = choose|k: int| 0 <= k < path.len() && path[k] == p as usize;
                assert(facts[path[k] as int].record.id@ == last->To_0);
            }
        }
    }
}

/// What is loaded for a snapshot goes from a snapshot of a build or a session, and from one that
/// re-states its parent, to that parent, and ends at a snapshot whose scan is a whole graph.
pub proof fn loads_go_down_to_a_whole_scan(
    facts: Seq<SnapshotFacts>,
    start: Seq<char>,
    path: Seq<usize>,
    end: WalkEnd,
    i: int,
)
    requires
        is_chain(facts, start, WalkPurpose::Load, path, end),
    ensures
        path.len() > 0 ==> path[0] < facts.len() && facts[path[0] as int].record.id@ == start,
        0 <= i < path.len() - 1 ==> {
            let own = facts[path[i] as int];
            let below = facts[path[i + 1] as int].record.id@;
            &&& opt_text(own.record.parent_snapshot_id) == Some(below) || opt_text(own.scan_parent_snapshot_id) == Some(
                below,
            )
            &&& (own.record.source_kind@ == "build"@ || own.record.source_kind@ == "runtime"@)
                && own.record.parent_snapshot_id is Some && own.record.build_attempt_id is Some ==> opt_text(
                own.record.parent_snapshot_id,
            ) == Some(below)
            &&& own.record.build_attempt_id is None && own.record.runtime_session_ids@.len() == 0
                && own.scan_is_overlay ==> opt_text(own.record.parent_snapshot_id) == Some(below) && opt_text(
                own.scan_parent_snapshot_id,
            ) == Some(below)
        },
        end == WalkEnd::End ==> path.len() > 0 && {
            let last = facts[path[path.len() - 1] as int];
            &&& !last.scan_is_overlay
            &&& last.record.source_kind@ == "build"@ || last.record.source_kind@ == "runtime"@
                ==> last.record.parent_snapshot_id is None
        },
{
    let ids = snapshot_ids(facts);
    let links = links_for(WalkPurpose::Load, facts);
    assert forall|k: int| 0 <= k < path.len() implies links[#[trigger] path[k] as int] == link_for(
        WalkPurpose::Load,
        ids,
        facts[path[k] as int],
    ) by {}
    place_is_of_the_id(facts, start);
    if 0 <= i < path.len() - 1 {
        assert(links[path[i] as int] is To);
        place_is_of_the_id(facts, links[path[i] as int]->To_0);
    }
    if path.len() > 0 {
        let last = links[path[path.len() - 1] as int];
        assert(last == link_for(WalkPurpose::Load, ids, facts[path[path.len() - 1] as int]));
    }
}

/// A layer adds its build where the parent does not have the same, and the sessions that the parent
/// does not have, in their order.
pub proof fn layers_add_what_the_parent_lacks(
    build_attempt_id: Option<&str>,
    runtime_session_ids: &Vec<String>,
    parent: Option<&CompletedSnapshotRecord>,
    plan: LayerPlan,
)
    requires
        call_ensures(layer_plan, (build_attempt_id, runtime_session_ids, parent), plan),
    ensures
        build_attempt_id is None ==> !plan.apply_build,
        build_attempt_id is Some && parent is None ==> plan.apply_build,
        build_attempt_id is Some && parent is Some ==> (plan.apply_build <==> opt_text(parent->0.build_attempt_id)
            != Some(build_attempt_id->0@)),
        parent is None ==> texts(plan.new_sessions@) == texts(runtime_session_ids@),
        parent is Some ==> texts(plan.new_sessions@) == texts(runtime_session_ids@).filter(
            |id: Seq<char>| !texts(parent->0.runtime_session_ids@).contains(id),
        ),
{
    let ids = texts(runtime_session_ids@);
    let held = match parent {
        Some(parent) => texts(parent.runtime_session_ids@),
        None => Seq::empty(),
    };
    let wanted = |id: Seq<char>| !held.contains(id);
    new_sessions_are_filtered(ids, held, wanted);
    if parent is None {
        assert forall|i: int| 0 <= i < ids.len() implies wanted(#[trigger] ids[i]) by {}
        all_are_kept(ids, wanted);
    } else {
        assert(wanted =~= (|id: Seq<char>| !texts(parent->0.runtime_session_ids@).contains(id)));
    }
}

proof fn new_sessions_are_filtered(ids: Seq<Seq<char>>, held: Seq<Seq<char>>, wanted: spec_fn(Seq<char>) -> bool)
    requires
        forall|id: Seq<char>| #[trigger] wanted(id) == !held.contains(id),
    ensures
        crate::layers::new_sessions_of(ids, held) == ids.filter(wanted),
{
    let whole = |id: Seq<char>| id;
    selected_is_wanted(
        ids,
        wanted,
        whole,
        ids.len() as int,
        crate::layers::is_new_session(ids, held),
        crate::matrix_refresh::item_at(ids),
    );
    assert(ids.take(ids.len() as int) =~= ids);
    assert(ids.filter(wanted).map_values(whole) =~= ids.filter(wanted));
}

proof fn all_are_kept<T>(items: Seq<T>, wanted: spec_fn(T) -> bool)
    requires
        forall|i: int| 0 <= i < items.len() ==> wanted(#[trigger] items[i]),
    ensures
        items.filter(wanted) == items,
    decreases items.len(),
{
    reveal(Seq::filter);
    if items.len() > 0 {
        all_are_kept(items.drop_last(), wanted);
        assert(items.drop_last().push(items.last()) =~= items);
    }
}

/// An overlay holds one node, which the graph has under the same identity, kind, locator and name.
/// Laying it over the graph replaces that node, the scan and the logs of its adapters; nothing else
/// changes.
pub proof fn overlays_replace_one_node(before: GraphSnapshot, overlay: GraphSnapshot, after: GraphSnapshot)
    requires
        overlay_error(before, overlay) is None,
        is_overlaid(before, overlay, after),
        before.nodes@.len() <= usize::MAX,
    ensures
        overlay.nodes@.len() == 1,
        exists|n: int|
            0 <= n < before.nodes@.len() && (#[trigger] before.nodes@[n]).id@ == overlay.nodes@[0].id@
                && before.nodes@[n].kind@ == overlay.nodes@[0].kind@ && before.nodes@[n].locator@
                == overlay.nodes@[0].locator@ && before.nodes@[n].display_name@ == overlay.nodes@[0].display_name@,
        after.nodes@.len() == before.nodes@.len(),
        after.nodes@.contains(overlay.nodes@[0]),
        forall|n: int|
            0 <= n < before.nodes@.len() && (#[trigger] before.nodes@[n]).id@ != overlay.nodes@[0].id@
                ==> after.nodes@.contains(before.nodes@[n]),
        after.scan == overlay.scan,
        after.profiles == before.profiles,
        after.sites == before.sites,
        after.edges == before.edges,
        after.evidence == before.evidence,
        after.diagnostics == before.diagnostics,
        after.file_coverage == before.file_coverage,
        after.coverage == before.coverage,
        after.profile_matrix == before.profile_matrix,
{
    let node = overlay.nodes@[0];
    let keep = crate::layers::has_node_id(before.nodes@, node.id@);
    first_kept_is_first(before.nodes@.len() as int, keep);
    let i = first_kept(before.nodes@.len() as int, keep)->0;
    assert(keep(i));
    let nodes = before.nodes@.update(i, node);
    assert(before.nodes@[i].id@ == node.id@);
    sorted_lists_hold_the_items(nodes, node_ids_of(nodes), after.nodes@);
    assert(nodes[i] == node);
    assert(nodes.contains(node));
    assert forall|n: int|
        0 <= n < before.nodes@.len() && (#[trigger] before.nodes@[n]).id@ != node.id@ implies after.nodes@.contains(
        before.nodes@[n],
    ) by {
        assert(nodes[n] == before.nodes@[n]);
        assert(nodes.contains(before.nodes@[n]));
    }
}

/// What an overlay of no or several nodes, of an unknown node, or of a node with another kind,
/// locator or name is refused for.
pub proof fn other_overlays_are_refused(before: GraphSnapshot, overlay: GraphSnapshot, n: int)
    ensures
        overlay.nodes@.len() != 1 <==> overlay_error(before, overlay) == Some(LayerError::OverlayNotOneNode),
        overlay.nodes@.len() == 1 && (forall|i: int|
            0 <= i < before.nodes@.len() ==> (#[trigger] before.nodes@[i]).id@ != overlay.nodes@[0].id@)
            ==> overlay_error(before, overlay) == Some(LayerError::OverlayUnknownNode),
        overlay.nodes@.len() == 1 && 0 <= n < before.nodes@.len() && before.nodes@[n].id@ == overlay.nodes@[0].id@ && (
        forall|i: int|
            0 <= i < before.nodes@.len() && i != n ==> (#[trigger] before.nodes@[i]).id@ != overlay.nodes@[0].id@)
            ==> (overlay_error(before, overlay) is None <==> before.nodes@[n].kind@ == overlay.nodes@[0].kind@
            && before.nodes@[n].locator@ == overlay.nodes@[0].locator@ && before.nodes@[n].display_name@
            == overlay.nodes@[0].display_name@),
{
    if overlay.nodes@.len() == 1 {
        let keep = crate::layers::has_node_id(before.nodes@, overlay.nodes@[0].id@);
        first_kept_is_first(before.nodes@.len() as int, keep);
        if let Some(i) = first_kept(before.nodes@.len() as int, keep) {
            assert(keep(i));
            assert(before.nodes@[i].id@ == overlay.nodes@[0].id@);
        } else if 0 <= n < before.nodes@.len() && before.nodes@[n].id@ == overlay.nodes@[0].id@ {
            assert(keep(n));
        }
    }
}

/// The profiles of a graph are those of its record exactly where they are the same in the same
/// order.
pub proof fn profile_sets_are_compared(
    profiles: &Vec<ProfileRecord>,
    record: &CompletedSnapshotRecord,
    result: Result<(), LayerError>,
)
    requires
        call_ensures(check_profile_set, (profiles, record), result),
    ensures
        result is Ok <==> profiles@.len() == record.profile_ids@.len() && forall|i: int|
            0 <= i < profiles@.len() ==> (#[trigger] profiles@[i]).id@ == record.profile_ids@[i]@,
{
    let a = profile_ids_of(profiles@);
    let b = texts(record.profile_ids@);
    if a == b {
        assert(a.len() == b.len());
        assert forall|i: int| 0 <= i < profiles@.len() implies (#[trigger] profiles@[i]).id@
            == record.profile_ids@[i]@ by {
            assert(a[i] == b[i]);
        }
    }
    if profiles@.len() == record.profile_ids@.len() && forall|i: int|
        0 <= i < profiles@.len() ==> (#[trigger] profiles@[i]).id@ == record.profile_ids@[i]@ {
        assert forall|i: int| 0 <= i < a.len() implies a[i] == b[i] by {
            assert(profiles@[i].id@ == record.profile_ids@[i]@);
        }
        assert(a =~= b);
    }
}

/// The topology of a graph has the identity and the kind of each node and the two ends of each
/// edge, in their order.
pub proof fn topologies_show_nodes_and_edges(graph: GraphSnapshot, topology: GraphTopology, i: int)
    requires
        call_ensures(topology_from_snapshot, (graph,), topology),
    ensures
        topology.nodes@.len() == graph.nodes@.len(),
        topology.edges@.len() == graph.edges@.len(),
        0 <= i < graph.nodes@.len() ==> topology.nodes@[i].id@ == graph.nodes@[i].id@ && topology.nodes@[i].kind@
            == graph.nodes@[i].kind@,
        0 <= i < graph.edges@.len() ==> topology.edges@[i].source@ == graph.edges@[i].source@
            && topology.edges@[i].target@ == graph.edges@[i].target@,
{
    let a = topology@;
    let b = crate::layers::topology_of(graph);
    assert(a.nodes.len() == topology.nodes@.len() && b.nodes.len() == graph.nodes@.len());
    assert(a.edges.len() == topology.edges@.len() && b.edges.len() == graph.edges@.len());
    if 0 <= i < graph.nodes@.len() {
        assert(a.nodes[i] == b.nodes[i]);
    }
    if 0 <= i < graph.edges@.len() {
        assert(a.edges[i] == b.edges[i]);
    }
}

/// A snapshot is intact exactly where its contents give its identity and its profiles and it is
/// completed.
pub proof fn intact_snapshots_are_what_they_are_named(
    record: &CompletedSnapshotRecord,
    observed_id: &str,
    observed_profiles: &Vec<String>,
    result: bool,
)
    requires
        call_ensures(snapshot_is_intact, (record, observed_id, observed_profiles), result),
    ensures
        result <==> observed_id@ == record.id@ && texts(observed_profiles@) == texts(record.profile_ids@)
            && record.status@ == "completed"@,
{
}

/// The integrity of a snapshot is valid exactly where the snapshot is intact and every ancestor
/// that was looked at is, and each thing that is wrong is named for itself.
pub proof fn integrity_names_what_is_wrong(
    record: &CompletedSnapshotRecord,
    observed_id: &str,
    observed_profiles: &Vec<String>,
    ancestors: Option<&AncestorCheck>,
    integrity: SnapshotIntegrityRecord,
)
    requires
        call_ensures(snapshot_integrity, (record, observed_id, observed_profiles, ancestors), Ok(integrity)),
    ensures
        ({
            let reasons = texts(integrity.reasons@);
            let broken = ancestors is Some && ((exists|i: int|
                0 <= i < ancestors->0.intact@.len() && !#[trigger] ancestors->0.intact@[i]) || ancestors->0.end
                == WalkEnd::Cycle);
            &&& integrity.snapshot_id@ == record.id@
            &&& integrity.expected_id@ == record.id@
            &&& integrity.observed_id@ == observed_id@
            &&& reasons.contains("content_digest_mismatch"@) <==> observed_id@ != record.id@
            &&& reasons.contains("profile_set_mismatch"@) <==> texts(observed_profiles@) != texts(record.profile_ids@)
            &&& reasons.contains("snapshot_not_completed"@) <==> record.status@ != "completed"@
            &&& reasons.contains("parent_integrity_mismatch"@) <==> broken
            &&& integrity.valid <==> observed_id@ == record.id@ && texts(observed_profiles@) == texts(
                record.profile_ids@,
            ) && record.status@ == "completed"@ && !broken
        }),
{
    reveal_strlit("content_digest_mismatch");
    reveal_strlit("profile_set_mismatch");
    reveal_strlit("snapshot_not_completed");
    reveal_strlit("parent_integrity_mismatch");
    assert("content_digest_mismatch"@.len() == 23 && "profile_set_mismatch"@.len() == 20
        && "snapshot_not_completed"@.len() == 22 && "parent_integrity_mismatch"@.len() == 25);
    let broken = ancestors is Some && ((exists|i: int|
        0 <= i < ancestors->0.intact@.len() && !#[trigger] ancestors->0.intact@[i]) || ancestors->0.end
        == WalkEnd::Cycle);
    if ancestors is Some {
        let intact = ancestors->0.intact@;
        first_kept_is_first(intact.len() as int, is_broken(intact));
        if let Some(i) = first_kept(intact.len() as int, is_broken(intact)) {
            assert(is_broken(intact)(i));
            assert(!intact[i]);
        } else if exists|i: int| 0 <= i < intact.len() && !#[trigger] intact[i] {
            let i = choose|i: int| 0 <= i < intact.len() && !#[trigger] intact[i];
            assert(is_broken(intact)(i));
        }
    }
    let reasons = texts(integrity.reasons@);
    let a: int = if observed_id@ != record.id@ {
        1
    } else {
        0
    };
    let b: int = if texts(observed_profiles@) != texts(record.profile_ids@) {
        1
    } else {
        0
    };
    let c: int = if record.status@ != "completed"@ {
        1
    } else {
        0
    };
    if a == 1 {
        assert(reasons[0] == "content_digest_mismatch"@);
    }
    if b == 1 {
        assert(reasons[a] == "profile_set_mismatch"@);
    }
    if c == 1 {
        assert(reasons[a + b] == "snapshot_not_completed"@);
    }
    if broken {
        assert(reasons[a + b + c] == "parent_integrity_mismatch"@);
    }
}

proof fn one_scan_comes_first(facts: Seq<SnapshotFacts>, path: Seq<usize>, from: int)
    requires
        0 <= from < path.len(),
    ensures
        ({
            let steps = path_steps(facts, path, from);
            &&& steps.len() > 0
            &&& steps[0] == LoadStepModel::Scan(facts[path[path.len() - 1] as int].record.scan_id@)
            &&& forall|k: int| 0 < k < steps.len() ==> !((#[trigger] steps[k]) is Scan)
        }),
    decreases path.len() - from,
{
    let own = snapshot_steps(facts, path[from] as int, from == path.len() - 1);
    if from < path.len() - 1 {
        one_scan_comes_first(facts, path, from + 1);
    } else {
        assert(path_steps(facts, path, from + 1) =~= Seq::empty());
        assert(path_steps(facts, path, from) =~= own);
    }
}

/// A snapshot is put together from one scan, that of the snapshot at the bottom of its chain; what
/// follows is laid over it.
pub proof fn snapshots_are_put_together_from_one_scan(
    facts: &Vec<SnapshotFacts>,
    snapshot_id: &str,
    steps: Vec<LoadStep>,
)
    requires
        call_ensures(load_plan, (facts, snapshot_id), Ok(steps)),
    ensures
        steps@.len() > 0,
        steps@[0] is Scan,
        forall|k: int| 0 < k < steps@.len() ==> !((#[trigger] steps@[k]) is Scan),
        exists|p: int|
            0 <= p < facts@.len() && (#[trigger] facts@[p]).record.scan_id@ == steps@[0]->Scan_0@
                && !facts@[p].scan_is_overlay,
{
    let held = steps_held(steps@);
    let (path, end) = choose|path: Seq<usize>, end: WalkEnd| #[trigger]
        is_chain(facts@, snapshot_id@, WalkPurpose::Load, path, end) && Ok::<Seq<LoadStepModel>, LayerError>(held)
            == crate::loading::walk_outcome(facts@, path, end);
    assert(end == WalkEnd::End);
    loads_go_down_to_a_whole_scan(facts@, snapshot_id@, path, end, 0);
    one_scan_comes_first(facts@, path, 0);
    assert(held.len() == steps@.len());
    assert(held[0] == steps@[0]@);
    assert forall|k: int| 0 < k < steps@.len() implies !((#[trigger] steps@[k]) is Scan) by {
        assert(held[k] == steps@[k]@);
    }
    let p = path[path.len() - 1] as int;
    assert(facts@[p].record.scan_id@ == steps@[0]->Scan_0@);
}

/// A layer adds its build over its scan where the parent does not have the same, and then the
/// sessions that the parent does not have; and nothing where there is neither.
pub proof fn layers_add_builds_before_sessions(
    scan_id: Seq<char>,
    build: Option<Seq<char>>,
    sessions: Seq<Seq<char>>,
    parent: Option<CompletedSnapshotRecord>,
)
    ensures
        ({
            let steps = layer_steps(scan_id, build, sessions, parent);
            let held = match parent {
                Some(record) => texts(record.runtime_session_ids@),
                None => Seq::empty(),
            };
            let fresh = sessions.filter(|id: Seq<char>| !held.contains(id));
            let builds = build is Some && (parent is None || opt_text(parent->0.build_attempt_id) != build);
            &&& steps.len() == (if builds {
                1int
            } else {
                0int
            }) + (if fresh.len() > 0 {
                1int
            } else {
                0int
            })
            &&& builds ==> steps[0] == (LoadStepModel::Build { scan_id, attempt_id: build->0 })
            &&& fresh.len() > 0 ==> steps[steps.len() - 1] == LoadStepModel::Sessions(fresh)
        }),
{
    let held = match parent {
        Some(record) => texts(record.runtime_session_ids@),
        None => Seq::empty(),
    };
    new_sessions_are_filtered(sessions, held, |id: Seq<char>| !held.contains(id));
}

} // verus!

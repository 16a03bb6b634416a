//! Where the nodes of a snapshot come from.

use vstd::prelude::*;

use crate::layers::{SnapshotFacts, WalkEnd};
use crate::node_page::{
    as_candidates, chain_candidates, check_node_layers, layer_candidates, layer_is_intact, node_candidates,
    node_sources, session_candidates, sessions_added, sessions_below, sessions_held, LayerNodes, NodeCandidate,
    NodeLayer, NodeSource, PlacedNode,
};
use crate::order::{ascending, collect_holds_the_kept_items};
use crate::snapshots::SnapshotError;
use crate::text::{opt_text, texts};

verus! {

/// A layer takes the nodes of its scan where it is the last of a whole chain, and those of its
/// build where the layer below it has another.
pub proof fn sources_are_what_a_layer_adds(
    facts: &Vec<SnapshotFacts>,
    path: &Vec<usize>,
    end: WalkEnd,
    sources: Vec<NodeSource>,
    depth: int,
)
    requires
        call_ensures(node_sources, (facts, path, end), sources),
        0 <= depth < path@.len(),
    ensures
        sources@.len() == path@.len(),
        sources@[depth].takes_scan <==> depth == path@.len() - 1 && end is End,
        ({
            let own = facts@[path@[depth] as int].record.build_attempt_id;
            let taken = sources@[depth].build_attempt_id;
            &&& own is None ==> taken is None
            &&& own is Some && depth == path@.len() - 1 ==> taken is Some && taken->0@ == own->0@
            &&& own is Some && depth + 1 < path@.len() ==> {
                let below = facts@[path@[depth + 1] as int].record.build_attempt_id;
                &&& below is None || below->0@ != own->0@ ==> taken is Some && taken->0@ == own->0@
                &&& below is Some && below->0@ == own->0@ ==> taken is None
            }
        }),
{
    assert(crate::node_page::is_source(facts@, path@, end, depth, sources@[depth]));
}

/// A layer takes the sessions that the layer below it has not, each with its place.
pub proof fn sources_are_the_sessions_that_a_layer_adds(
    facts: &Vec<SnapshotFacts>,
    path: &Vec<usize>,
    end: WalkEnd,
    sources: Vec<NodeSource>,
    depth: int,
    place: u64,
    id: Seq<char>,
)
    requires
        call_ensures(node_sources, (facts, path, end), sources),
        0 <= depth < path@.len(),
    ensures
        (exists|s: int|
            0 <= s < sources@[depth].sessions@.len() && (#[trigger] sources@[depth].sessions@[s]).ordinal == place
                && sources@[depth].sessions@[s].session_id@ == id) <==> {
            &&& place < facts@[path@[depth] as int].record.runtime_session_ids@.len()
            &&& facts@[path@[depth] as int].record.runtime_session_ids@[place as int]@ == id
            &&& depth + 1 < path@.len() ==> forall|k: int|
                0 <= k < facts@[path@[depth + 1] as int].record.runtime_session_ids@.len() ==> (
                #[trigger] facts@[path@[depth + 1] as int].record.runtime_session_ids@[k])@ != id
        },
{
    assert(crate::node_page::is_source(facts@, path@, end, depth, sources@[depth]));
    let sessions = sources@[depth].sessions@;
    let held = sessions_held(sessions);
    let ids = texts(facts@[path@[depth] as int].record.runtime_session_ids@);
    let below = sessions_below(facts@, path@, depth);
    let keep = crate::layers::is_new_session(ids, below);
    let item = |i: int| (i, ids[i]);
    let count = ids.len() as int;
    let x = (place as int, id);
    collect_holds_the_kept_items(count, keep, item, x);
    if exists|s: int|
        0 <= s < sessions.len() && (#[trigger] sessions[s]).ordinal == place && sessions[s].session_id@ == id {
        let s = choose|s: int|
            0 <= s < sessions.len() && (#[trigger] sessions[s]).ordinal == place && sessions[s].session_id@ == id;
        assert(held[s] == x);
        assert(held.contains(x));
        let i = choose|i: int| 0 <= i < count && #[trigger] keep(i) && item(i) == x;
        assert(i == place as int && ids[i] == id);
        if depth + 1 < path@.len() {
            let others = facts@[path@[depth + 1] as int].record.runtime_session_ids@;
            assert forall|k: int| 0 <= k < others.len() implies (#[trigger] others[k])@ != id by {
                assert(below[k] == others[k]@);
            }
        }
    }
    if place < ids.len() && ids[place as int] == id && (depth + 1 < path@.len() ==> forall|k: int|
        0 <= k < facts@[path@[depth + 1] as int].record.runtime_session_ids@.len() ==> (
        #[trigger] facts@[path@[depth + 1] as int].record.runtime_session_ids@[k])@ != id) {
        if below.contains(id) {
            let k = choose|k: int| 0 <= k < below.len() && below[k] == id;
            assert(facts@[path@[depth + 1] as int].record.runtime_session_ids@[k]@ == id);
        }
        assert(keep(place as int) && item(place as int) == x);
        assert(held.contains(x));
        let s = choose|s: int| 0 <= s < held.len() && held[s] == x;
        assert(sessions[s].ordinal == place && sessions[s].session_id@ == id);
    }
}

proof fn layers_are_held(layers: Seq<LayerNodes>, count: int, l: int, at: int) -> (place: int)
    requires
        0 <= l < count <= layers.len(),
        0 <= at < layer_candidates(layers[l], l as u64).len(),
    ensures
        0 <= place < chain_candidates(layers, count).len(),
        chain_candidates(layers, count)[place] == layer_candidates(layers[l], l as u64)[at],
    decreases count,
{
    if l == count - 1 {
        chain_candidates(layers, count - 1).len() + at
    } else {
        layers_are_held(layers, count - 1, l, at)
    }
}

proof fn sessions_are_held(
    sessions: Seq<crate::node_page::SessionNodes>,
    depth: u64,
    count: int,
    s: int,
    n: int,
) -> (place: int)
    requires
        0 <= s < count <= sessions.len(),
        0 <= n < sessions[s].nodes@.len(),
    ensures
        0 <= place < session_candidates(sessions, depth, count).len(),
        session_candidates(sessions, depth, count)[place] == as_candidates(
            sessions[s].nodes@,
            depth,
            2,
            sessions[s].order,
        )[n],
    decreases count,
{
    if s == count - 1 {
        session_candidates(sessions, depth, count - 1).len() + n
    } else {
        sessions_are_held(sessions, depth, count - 1, s, n)
    }
}

/// Whether a candidate is a node at its place: at a depth, from a source, in a collection.
pub open spec fn is_candidate(
    candidate: NodeCandidate,
    placed: PlacedNode,
    depth: int,
    source: int,
    collection: i64,
) -> bool {
    &&& candidate.node == placed.node
    &&& candidate.place.layer_depth == depth
    &&& candidate.place.source_order == source
    &&& candidate.place.collection_order == collection
    &&& candidate.place.item_order == placed.order
}

/// Every node of a layer is a candidate at the depth of the layer: those of a scan come first, then
/// those of a build, then those of the sessions by their numbers.
pub proof fn nodes_are_candidates_at_their_place(
    layers: Vec<LayerNodes>,
    candidates: Vec<NodeCandidate>,
    l: int,
    s: int,
    n: int,
)
    requires
        call_ensures(node_candidates, (layers,), candidates),
        0 <= l < layers@.len(),
        l <= u64::MAX,
    ensures
        0 <= n < layers@[l].scan_nodes@.len() ==> exists|c: int|
            0 <= c < candidates@.len() && is_candidate(
                #[trigger] candidates@[c],
                layers@[l].scan_nodes@[n],
                l,
                0,
                0,
            ),
        0 <= n < layers@[l].build_nodes@.len() ==> exists|c: int|
            0 <= c < candidates@.len() && is_candidate(
                #[trigger] candidates@[c],
                layers@[l].build_nodes@[n],
                l,
                1,
                0,
            ),
        0 <= s < layers@[l].session_nodes@.len() && 0 <= n < layers@[l].session_nodes@[s].nodes@.len()
            ==> exists|c: int|
            0 <= c < candidates@.len() && is_candidate(
                #[trigger] candidates@[c],
                layers@[l].session_nodes@[s].nodes@[n],
                l,
                2,
                layers@[l].session_nodes@[s].order,
            ),
{
    let layer = layers@[l];
    let depth = l as u64;
    let own = layer_candidates(layer, depth);
    let of_scan = as_candidates(layer.scan_nodes@, depth, 0, 0);
    let of_build = as_candidates(layer.build_nodes@, depth, 1, 0);
    let count = layers@.len() as int;
    if 0 <= n < layer.scan_nodes@.len() {
        assert(own[n] == of_scan[n]);
        let c = layers_are_held(layers@, count, l, n);
        assert(is_candidate(candidates@[c], layer.scan_nodes@[n], l, 0, 0));
    }
    if 0 <= n < layer.build_nodes@.len() {
        assert(own[of_scan.len() + n] == of_build[n]);
        let c = layers_are_held(layers@, count, l, of_scan.len() + n);
        assert(is_candidate(candidates@[c], layer.build_nodes@[n], l, 1, 0));
    }
    if 0 <= s < layer.session_nodes@.len() && 0 <= n < layer.session_nodes@[s].nodes@.len() {
        let total = layer.session_nodes@.len() as int;
        let at = sessions_are_held(layer.session_nodes@, depth, total, s, n);
        let of_sessions = session_candidates(layer.session_nodes@, depth, total);
        assert(own[of_scan.len() + of_build.len() + at] == of_sessions[at]);
        let c = layers_are_held(layers@, count, l, of_scan.len() + of_build.len() + at);
        assert(is_candidate(
            candidates@[c],
            layer.session_nodes@[s].nodes@[n],
            l,
            2,
            layer.session_nodes@[s].order,
        ));
    }
}

/// Layers are accepted where the chain is whole and every layer of it is there and can be read; a
/// chain without layers is of no snapshot.
pub proof fn accepted_layers_are_whole(
    facts: &Vec<SnapshotFacts>,
    path: &Vec<usize>,
    end: WalkEnd,
    layers: &Vec<NodeLayer>,
    candidates: &Vec<NodeCandidate>,
    result: Result<(), SnapshotError>,
    i: int,
)
    requires
        call_ensures(check_node_layers, (facts, path, end, layers, candidates), result),
        path@.len() == layers@.len(),
    ensures
        path@.len() == 0 ==> result matches Err(SnapshotError::NotFound),
        result is Ok ==> path@.len() > 0 && end is End,
        result is Ok && 0 <= i < layers@.len() ==> layers@[i].scan_exists && layers@[i].build_readable
            && layers@[i].sessions_readable && ascending(sessions_added(facts@, path@, i)),
        path@.len() > 0 && result is Err ==> result matches Err(SnapshotError::NotValid),
        path@.len() > 0 && !(end is End) ==> result is Err,
        0 <= i < layers@.len() && (!layers@[i].scan_exists || !layers@[i].build_readable
            || !layers@[i].sessions_readable) ==> result is Err,
{
    if path@.len() > 0 && 0 <= i < layers@.len() {
        if result is Ok {
            assert(layer_is_intact(
                facts@[path@[i] as int],
                sessions_added(facts@, path@, i),
                layers@[i],
                i as u64,
                candidates@,
            ));
        }
    }
}

/// A layer that re-states its parent is accepted where it has the parent of its scan and one node,
/// which can be read and is in effect below it with the same kind, locator and name.
pub proof fn accepted_overlays_restate_their_parent(
    facts: &Vec<SnapshotFacts>,
    path: &Vec<usize>,
    end: WalkEnd,
    layers: &Vec<NodeLayer>,
    candidates: &Vec<NodeCandidate>,
    i: int,
)
    requires
        call_ensures(check_node_layers, (facts, path, end, layers, candidates), Ok(())),
        path@.len() == layers@.len(),
        0 <= i < layers@.len(),
        i <= u64::MAX,
        crate::layers::is_overlay(facts@[path@[i] as int]),
    ensures
        opt_text(facts@[path@[i] as int].record.parent_snapshot_id) == opt_text(
            facts@[path@[i] as int].scan_parent_snapshot_id,
        ),
        layers@[i].overlay_nodes@.len() == 1,
        layers@[i].overlay_properties_readable,
        exists|c: int|
            0 <= c < candidates@.len() && (#[trigger] candidates@[c]).node.id@ == layers@[i].overlay_nodes@[0].id@
                && candidates@[c].place.layer_depth > i && candidates@[c].node.kind@
                == layers@[i].overlay_nodes@[0].kind@ && candidates@[c].node.locator@
                == layers@[i].overlay_nodes@[0].locator@ && candidates@[c].node.display_name@
                == layers@[i].overlay_nodes@[0].display_name@,
{
    assert(layer_is_intact(
        facts@[path@[i] as int],
        sessions_added(facts@, path@, i),
        layers@[i],
        i as u64,
        candidates@,
    ));
    let node = layers@[i].overlay_nodes@[0];
    let c = choose|c: int| #[trigger]
        crate::node_page::is_effective_below(candidates@, i as u64, node.id@, c) && candidates@[c].node.kind@
            == node.kind@ && candidates@[c].node.locator@ == node.locator@ && candidates@[c].node.display_name@
            == node.display_name@;
    assert(crate::node_page::is_below(candidates@, i as u64, node.id@, c));
    assert(candidates@[c].node.id@ == node.id@);
}

} // verus!

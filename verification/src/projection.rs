//! That a page of the nodes of a snapshot shows the nodes that loading the snapshot puts
//! together.

use vstd::prelude::*;

use crate::build_union::{is_united, node_ids_of, with_nodes};
use crate::keyed::{each_once, identities, latest_of, place_of, with_all_exact, Identified};
use crate::layers::{has_node_id, is_overlaid, overlay_error};
use crate::node_page::{
    as_candidates, chain_candidates, found_nodes, found_once, is_effective, is_found, layer_candidates, places_of,
    session_candidates, summary_ids, text_matches, LayerNodes, NodeCandidate, NodePlace, PlacedNode, SessionNodes,
};
use crate::order::{
    ascending, ascending_lists_are_determined_by_their_members, collect, collect_holds_the_kept_items, first_kept, first_kept_is_first, is_stable_order,
    is_stable_sort, last_position, last_position_is_last, views,
};
use crate::records::{BuildGraphDelta, GraphSnapshot, NodeModel, NodeRecord, NodeSummaryRecord, NodeTextMatch};
use crate::runtime_merge::{graph_of, is_with_sessions, with_sessions, MergedGraph};
use crate::runtime_session::{RuntimeError, RuntimeSessionDelta};
use crate::sort::{goes_before, Ranked};
use crate::text::{text_lt, text_lt_irreflexive};

verus! {

// ---------------------------------------------------------------------------------------
// Projections
// ---------------------------------------------------------------------------------------

/// What a page shows of a node.
#[verifier::ext_equal]
pub struct NodeFace {
    pub id: Seq<char>,
    pub kind: Seq<char>,
    pub locator: Seq<char>,
    pub display_name: Seq<char>,
}

/// What a page shows of a node of a graph.
pub open spec fn face_of(node: NodeModel) -> NodeFace {
    NodeFace { id: node.id, kind: node.kind, locator: node.locator, display_name: node.display_name }
}

/// What a page shows of the nodes of a graph.
pub open spec fn faces(nodes: Seq<NodeModel>) -> Seq<NodeFace> {
    Seq::new(nodes.len(), |i: int| face_of(nodes[i]))
}

/// What a node of a page is.
pub open spec fn summary_face(node: NodeSummaryRecord) -> NodeFace {
    NodeFace { id: node.id@, kind: node.kind@, locator: node.locator@, display_name: node.display_name@ }
}

/// What the nodes of a page are.
pub open spec fn summary_faces(nodes: Seq<NodeSummaryRecord>) -> Seq<NodeFace> {
    Seq::new(nodes.len(), |i: int| summary_face(nodes[i]))
}

/// The identities of nodes.
pub open spec fn face_ids(nodes: Seq<NodeFace>) -> Seq<Seq<char>> {
    Seq::new(nodes.len(), |i: int| nodes[i].id)
}

/// Whether a node stands first among those with its identity.
pub open spec fn stands_first(all: Seq<NodeFace>, k: int) -> bool {
    0 <= k < all.len() && forall|j: int| 0 <= j < k ==> (#[trigger] all[j]).id != all[k].id
}

/// Whether a node stands first among those with its identity, somewhere in a list.
pub open spec fn is_first_of(all: Seq<NodeFace>, node: NodeFace) -> bool {
    exists|k: int| #[trigger] stands_first(all, k) && all[k] == node
}

/// Whether a list shows each identity of a longer one once, by the node that stands first.
pub open spec fn is_union(all: Seq<NodeFace>, shown: Seq<NodeFace>) -> bool {
    &&& forall|i: int, j: int| 0 <= i < j < shown.len() ==> (#[trigger] shown[i]).id != (#[trigger] shown[j]).id
    &&& forall|i: int| 0 <= i < shown.len() ==> is_first_of(all, #[trigger] shown[i])
    &&& forall|k: int| 0 <= k < all.len() ==> face_ids(shown).contains((#[trigger] all[k]).id)
}

/// Whether a list is such a union in the order of the identities.
pub open spec fn is_projection(all: Seq<NodeFace>, shown: Seq<NodeFace>) -> bool {
    is_union(all, shown) && ascending(face_ids(shown))
}

proof fn first_is_one(all: Seq<NodeFace>, j: int, k: int)
    requires
        stands_first(all, j),
        stands_first(all, k),
        all[j].id == all[k].id,
    ensures
        j == k,
{
}

proof fn shown_by_id(all: Seq<NodeFace>, shown: Seq<NodeFace>, id: Seq<char>)
    requires
        is_union(all, shown),
    ensures
        face_ids(shown).contains(id) <==> face_ids(all).contains(id),
{
    if face_ids(shown).contains(id) {
        let i = choose|i: int| 0 <= i < shown.len() && face_ids(shown)[i] == id;
        let k = choose|k: int| #[trigger] stands_first(all, k) && all[k] == shown[i];
        assert(face_ids(all)[k] == id);
    }
    if face_ids(all).contains(id) {
        let k = choose|k: int| 0 <= k < all.len() && face_ids(all)[k] == id;
        assert(face_ids(shown).contains(all[k].id));
    }
}

/// There is one projection of a list.
pub proof fn projections_are_unique(all: Seq<NodeFace>, a: Seq<NodeFace>, b: Seq<NodeFace>)
    requires
        is_projection(all, a),
        is_projection(all, b),
    ensures
        a == b,
{
    assert forall|id: Seq<char>| face_ids(a).contains(id) <==> face_ids(b).contains(id) by {
        shown_by_id(all, a, id);
        shown_by_id(all, b, id);
    }
    ascending_lists_are_determined_by_their_members(face_ids(a), face_ids(b));
    assert(a.len() == face_ids(a).len());
    assert(b.len() == face_ids(b).len());
    assert forall|i: int| 0 <= i < a.len() implies a[i] == b[i] by {
        assert(face_ids(a)[i] == face_ids(b)[i]);
        let j = choose|j: int| #[trigger] stands_first(all, j) && all[j] == a[i];
        let k = choose|k: int| #[trigger] stands_first(all, k) && all[k] == b[i];
        first_is_one(all, j, k);
    }
    assert(a =~= b);
}

/// A union of a union and of more is a union of all.
proof fn unions_compose(all: Seq<NodeFace>, mid: Seq<NodeFace>, added: Seq<NodeFace>, shown: Seq<NodeFace>)
    requires
        is_union(all, mid),
        is_union(mid + added, shown),
    ensures
        is_union(all + added, shown),
{
    let whole = all + added;
    let part = mid + added;
    assert forall|i: int| 0 <= i < shown.len() implies is_first_of(whole, #[trigger] shown[i]) by {
        let k = choose|k: int| #[trigger] stands_first(part, k) && part[k] == shown[i];
        if k < mid.len() {
            assert(mid[k] == part[k]);
            let j = choose|j: int| #[trigger] stands_first(all, j) && all[j] == mid[k];
            assert forall|m: int| 0 <= m < j implies (#[trigger] whole[m]).id != whole[j].id by {
                assert(whole[m] == all[m]);
            }
            assert(stands_first(whole, j) && whole[j] == shown[i]);
        } else {
            let a = k - mid.len();
            let j = all.len() + a;
            assert(whole[j] == added[a] && part[k] == added[a]);
            assert forall|m: int| 0 <= m < j implies (#[trigger] whole[m]).id != whole[j].id by {
                if m < all.len() {
                    assert(whole[m] == all[m]);
                    assert(face_ids(mid).contains(all[m].id));
                    let q = choose|q: int| 0 <= q < mid.len() && face_ids(mid)[q] == all[m].id;
                    assert(part[q] == mid[q]);
                    assert(part[q].id != part[k].id);
                } else {
                    let q = m - all.len();
                    assert(whole[m] == added[q]);
                    assert(part[mid.len() + q] == added[q]);
                    assert(part[mid.len() + q].id != part[k].id);
                }
            }
            assert(stands_first(whole, j) && whole[j] == shown[i]);
        }
    }
    assert forall|k: int| 0 <= k < whole.len() implies face_ids(shown).contains((#[trigger] whole[k]).id) by {
        if k < all.len() {
            assert(whole[k] == all[k]);
            assert(face_ids(mid).contains(all[k].id));
            let q = choose|q: int| 0 <= q < mid.len() && face_ids(mid)[q] == all[k].id;
            assert(part[q] == mid[q]);
            assert(face_ids(shown).contains(part[q].id));
        } else {
            let q = k - all.len();
            assert(whole[k] == added[q]);
            assert(part[mid.len() + q] == added[q]);
            assert(face_ids(shown).contains(part[mid.len() + q].id));
        }
    }
}

/// A list with each identity once is its own union.
proof fn union_of_itself(nodes: Seq<NodeFace>)
    requires
        forall|i: int, j: int| 0 <= i < j < nodes.len() ==> (#[trigger] nodes[i]).id != (#[trigger] nodes[j]).id,
    ensures
        is_union(nodes, nodes),
{
    assert forall|i: int| 0 <= i < nodes.len() implies is_first_of(nodes, #[trigger] nodes[i]) by {
        assert(stands_first(nodes, i));
    }
    assert forall|k: int| 0 <= k < nodes.len() implies face_ids(nodes).contains((#[trigger] nodes[k]).id) by {
        assert(face_ids(nodes)[k] == nodes[k].id);
    }
}

/// Sorting a union by the identities makes it a projection.
proof fn sorted_unions_are_projections<T>(
    all: Seq<NodeFace>,
    items: Seq<T>,
    sorted: Seq<T>,
    held: Seq<NodeFace>,
    shown: Seq<NodeFace>,
    face: spec_fn(T) -> NodeFace,
)
    requires
        is_union(all, held),
        is_stable_sort(items, face_ids(held), sorted),
        sorted.len() <= usize::MAX,
        held == Seq::new(items.len(), |i: int| face(items[i])),
        shown == Seq::new(sorted.len(), |i: int| face(sorted[i])),
    ensures
        is_projection(all, shown),
{
    let keys = face_ids(held);
    let order = choose|order: Seq<usize>| #[trigger]
        is_stable_order(keys, order) && sorted == Seq::new(order.len(), |i: int| items[order[i] as int]);
    assert forall|i: int| 0 <= i < shown.len() implies #[trigger] shown[i] == held[order[i] as int] && order[i]
        < held.len() by {}
    assert forall|i: int, j: int| 0 <= i < j < shown.len() implies text_lt(
        (#[trigger] shown[i]).id,
        (#[trigger] shown[j]).id,
    ) by {
        let a = order[i] as int;
        let b = order[j] as int;
        assert(crate::order::before(keys, a, b));
        text_lt_irreflexive(keys[a]);
        assert(keys[a] == held[a].id && keys[b] == held[b].id);
        if a < b {
            assert(held[a].id != held[b].id);
        } else if b < a {
            assert(held[b].id != held[a].id);
        }
    }
    assert forall|i: int, j: int| 0 <= i < j < shown.len() implies (#[trigger] shown[i]).id != (#[trigger] shown[j]).id by {
        text_lt_irreflexive(shown[i].id);
    }
    assert forall|i: int| 0 <= i < shown.len() implies is_first_of(all, #[trigger] shown[i]) by {
        assert(shown[i] == held[order[i] as int]);
    }
    assert forall|k: int| 0 <= k < all.len() implies face_ids(shown).contains((#[trigger] all[k]).id) by {
        assert(face_ids(held).contains(all[k].id));
        let p = choose|p: int| 0 <= p < held.len() && face_ids(held)[p] == all[k].id;
        assert(order.contains(p as usize));
        let i = choose|i: int| 0 <= i < order.len() && order[i] == p as usize;
        assert(shown[i] == held[p]);
        assert(face_ids(shown)[i] == all[k].id);
    }
    assert forall|i: int, j: int| 0 <= i < j < face_ids(shown).len() implies text_lt(
        #[trigger] face_ids(shown)[i],
        #[trigger] face_ids(shown)[j],
    ) by {
        assert(text_lt(shown[i].id, shown[j].id));
    }
}

// ---------------------------------------------------------------------------------------
// What each step of loading does to the nodes
// ---------------------------------------------------------------------------------------

/// What a page shows of the nodes of a graph.
pub open spec fn graph_faces(graph: GraphSnapshot) -> Seq<NodeFace> {
    faces(views(graph.nodes@))
}

/// What a page shows of the nodes of the first `count` sessions.
pub open spec fn delta_faces(deltas: Seq<RuntimeSessionDelta>, count: int) -> Seq<NodeFace>
    decreases count,
{
    if count <= 0 {
        Seq::empty()
    } else {
        delta_faces(deltas, count - 1) + faces(views(deltas[count - 1].nodes@))
    }
}

proof fn union_with_one(held: Seq<NodeFace>, node: NodeFace, after: Seq<NodeFace>)
    requires
        forall|i: int, j: int| 0 <= i < j < held.len() ==> (#[trigger] held[i]).id != (#[trigger] held[j]).id,
        after == if face_ids(held).contains(node.id) {
            held
        } else {
            held.push(node)
        },
    ensures
        is_union(held + seq![node], after),
{
    let all = held + seq![node];
    let known = face_ids(held).contains(node.id);
    assert forall|i: int| 0 <= i < held.len() implies #[trigger] stands_first(all, i) by {
        assert forall|j: int| 0 <= j < i implies (#[trigger] all[j]).id != all[i].id by {
            assert(held[j].id != held[i].id);
        }
    }
    assert forall|i: int| 0 <= i < held.len() implies #[trigger] face_ids(held)[i] == held[i].id by {}
    if !known {
        assert forall|j: int| 0 <= j < held.len() implies (#[trigger] all[j]).id != all[held.len() as int].id by {
            assert(face_ids(held)[j] == held[j].id);
        }
        assert(stands_first(all, held.len() as int));
    }
    assert forall|i: int| 0 <= i < after.len() implies is_first_of(all, #[trigger] after[i]) by {
        assert(stands_first(all, i));
        assert(all[i] == after[i]);
    }
    assert forall|i: int, j: int| 0 <= i < j < after.len() implies (#[trigger] after[i]).id != (#[trigger] after[j]).id by {
        if j < held.len() {
            assert(held[i].id != held[j].id);
        } else {
            assert(face_ids(held)[i] == held[i].id);
        }
    }
    assert forall|k: int| 0 <= k < all.len() implies face_ids(after).contains((#[trigger] all[k]).id) by {
        if k < held.len() {
            assert(face_ids(after)[k] == all[k].id);
        } else if known {
            let i = choose|i: int| 0 <= i < held.len() && face_ids(held)[i] == node.id;
            assert(face_ids(after)[i] == node.id);
        } else {
            assert(face_ids(after)[k] == node.id);
        }
    }
}

proof fn node_ids_are_face_ids(nodes: Seq<NodeRecord>)
    ensures
        node_ids_of(nodes) == face_ids(faces(views(nodes))),
{
    assert(node_ids_of(nodes) =~= face_ids(faces(views(nodes))));
}

proof fn nodes_unite(nodes: Seq<NodeRecord>, added: Seq<NodeRecord>, count: int)
    requires
        is_union(faces(views(nodes)), faces(views(nodes))),
        0 <= count <= added.len(),
    ensures
        is_union(
            faces(views(nodes)) + faces(views(added)).take(count),
            faces(views(with_nodes(nodes, added, count))),
        ),
    decreases count,
{
    let base = faces(views(nodes));
    let more = faces(views(added));
    if count == 0 {
        assert(base + more.take(0) =~= base);
    } else {
        nodes_unite(nodes, added, count - 1);
        let earlier = with_nodes(nodes, added, count - 1);
        let after = with_nodes(nodes, added, count);
        let node = more[count - 1];
        node_ids_are_face_ids(earlier);
        assert(added[count - 1].id@ == node.id);
        if !node_ids_of(earlier).contains(added[count - 1].id@) {
            assert(faces(views(after)) =~= faces(views(earlier)).push(node));
        }
        union_with_one(faces(views(earlier)), node, faces(views(after)));
        unions_compose(base + more.take(count - 1), faces(views(earlier)), seq![node], faces(views(after)));
        assert(base + more.take(count - 1) + seq![node] =~= base + more.take(count));
    }
}

/// The delta of a build adds to the nodes of a graph those that it does not have.
pub proof fn builds_unite_nodes(before: GraphSnapshot, delta: BuildGraphDelta, after: GraphSnapshot)
    requires
        ascending(face_ids(graph_faces(before))),
        is_united(before, delta, after),
    ensures
        is_projection(graph_faces(before) + faces(views(delta.nodes@)), graph_faces(after)),
{
    let count = delta.nodes@.len() as int;
    let nodes = with_nodes(before.nodes@, delta.nodes@, count);
    ascending_is_once(graph_faces(before));
    union_of_itself(graph_faces(before));
    nodes_unite(before.nodes@, delta.nodes@, count);
    assert(faces(views(delta.nodes@)).take(count) =~= faces(views(delta.nodes@)));
    node_ids_are_face_ids(nodes);
    let face = |node: NodeRecord| face_of(node@);
    assert(faces(views(nodes)) =~= Seq::new(nodes.len(), |i: int| face(nodes[i])));
    assert(graph_faces(after) =~= Seq::new(after.nodes@.len(), |i: int| face(after.nodes@[i])));
    assert(after.nodes@.len() == after.nodes.len());
    sorted_unions_are_projections(
        graph_faces(before) + faces(views(delta.nodes@)),
        nodes,
        after.nodes@,
        faces(views(nodes)),
        graph_faces(after),
        face,
    );
}

proof fn ascending_is_once(nodes: Seq<NodeFace>)
    requires
        ascending(face_ids(nodes)),
    ensures
        forall|i: int, j: int| 0 <= i < j < nodes.len() ==> (#[trigger] nodes[i]).id != (#[trigger] nodes[j]).id,
{
    assert forall|i: int, j: int| 0 <= i < j < nodes.len() implies (#[trigger] nodes[i]).id != (#[trigger] nodes[j]).id by {
        assert(text_lt(face_ids(nodes)[i], face_ids(nodes)[j]));
        text_lt_irreflexive(nodes[i].id);
    }
}

proof fn latest_of_distinct(nodes: Seq<NodeModel>, count: int)
    requires
        each_once::<NodeRecord>(nodes),
        0 <= count <= nodes.len(),
    ensures
        latest_of::<NodeRecord>(nodes, count) == nodes.take(count),
    decreases count,
{
    if count == 0 {
        assert(nodes.take(0) =~= Seq::empty());
    } else {
        latest_of_distinct(nodes, count - 1);
        let earlier = nodes.take(count - 1);
        let id = nodes[count - 1].id;
        let ids = identities::<NodeRecord>(earlier);
        last_position_is_last(ids, id, ids.len() as int);
        if let Some(p) = last_position(ids, id, ids.len() as int) {
            assert(ids[p] == nodes[p].id);
            assert(NodeRecord::identity(nodes[p]) != NodeRecord::identity(nodes[count - 1]));
        }
        assert(nodes.take(count) =~= earlier.push(nodes[count - 1]));
    }
}

proof fn exact_nodes_unite(nodes: Seq<NodeModel>, added: Seq<NodeModel>, count: int)
    requires
        is_union(faces(nodes), faces(nodes)),
        0 <= count <= added.len(),
        with_all_exact::<NodeRecord>(nodes, added, count) is Ok,
    ensures
        is_union(
            faces(nodes) + faces(added).take(count),
            faces(with_all_exact::<NodeRecord>(nodes, added, count)->Ok_0),
        ),
    decreases count,
{
    let base = faces(nodes);
    let more = faces(added);
    if count == 0 {
        assert(base + more.take(0) =~= base);
    } else {
        exact_nodes_unite(nodes, added, count - 1);
        let earlier = with_all_exact::<NodeRecord>(nodes, added, count - 1)->Ok_0;
        let after = with_all_exact::<NodeRecord>(nodes, added, count)->Ok_0;
        let node = more[count - 1];
        let ids = identities::<NodeRecord>(earlier);
        assert(ids =~= face_ids(faces(earlier)));
        last_position_is_last(ids, node.id, ids.len() as int);
        match place_of::<NodeRecord>(earlier, node.id) {
            Some(p) => {
                assert(face_ids(faces(earlier))[p] == node.id);
                assert(after == earlier);
            },
            None => {
                assert(faces(after) =~= faces(earlier).push(node));
            },
        }
        union_with_one(faces(earlier), node, faces(after));
        unions_compose(base + more.take(count - 1), faces(earlier), seq![node], faces(after));
        assert(base + more.take(count - 1) + seq![node] =~= base + more.take(count));
    }
}

proof fn merged_nodes_unite(graph: MergedGraph, deltas: Seq<RuntimeSessionDelta>, count: int)
    requires
        is_union(faces(graph.nodes), faces(graph.nodes)),
        0 <= count <= deltas.len(),
        with_sessions(graph, deltas, count) is Ok,
    ensures
        is_union(
            faces(graph.nodes) + delta_faces(deltas, count),
            faces(with_sessions(graph, deltas, count)->Ok_0.nodes),
        ),
    decreases count,
{
    let base = faces(graph.nodes);
    if count == 0 {
        assert(base + delta_faces(deltas, 0) =~= base);
    } else {
        merged_nodes_unite(graph, deltas, count - 1);
        let earlier = with_sessions(graph, deltas, count - 1)->Ok_0;
        let after = with_sessions(graph, deltas, count)->Ok_0;
        let added = deltas[count - 1]@.nodes;
        assert(added == views(deltas[count - 1].nodes@));
        union_of_itself(faces(earlier.nodes));
        exact_nodes_unite(earlier.nodes, added, added.len() as int);
        assert(faces(added).take(added.len() as int) =~= faces(added));
        unions_compose(
            base + delta_faces(deltas, count - 1),
            faces(earlier.nodes),
            faces(added),
            faces(after.nodes),
        );
        assert(base + delta_faces(deltas, count - 1) + faces(added) =~= base + delta_faces(deltas, count));
    }
}

/// Runtime sessions add to the nodes of a graph those that it does not have.
pub proof fn sessions_unite_nodes(
    before: GraphSnapshot,
    deltas: Seq<RuntimeSessionDelta>,
    graph: MergedGraph,
    after: GraphSnapshot,
)
    requires
        ascending(face_ids(graph_faces(before))),
        with_sessions(graph_of(before), deltas, deltas.len() as int) == Ok::<MergedGraph, RuntimeError>(graph),
        is_with_sessions(before, graph, after),
    ensures
        is_projection(graph_faces(before) + delta_faces(deltas, deltas.len() as int), graph_faces(after)),
{
    let nodes = views(before.nodes@);
    ascending_is_once(graph_faces(before));
    union_of_itself(graph_faces(before));
    assert forall|i: int, j: int| 0 <= i < j < nodes.len() implies NodeRecord::identity(#[trigger] nodes[i])
        != NodeRecord::identity(#[trigger] nodes[j]) by {
        assert(faces(nodes)[i].id != faces(nodes)[j].id);
    }
    latest_of_distinct(nodes, nodes.len() as int);
    assert(nodes.take(nodes.len() as int) =~= nodes);
    assert(graph_of(before).nodes == nodes);
    merged_nodes_unite(graph_of(before), deltas, deltas.len() as int);
    let face = |node: NodeModel| face_of(node);
    assert(faces(graph.nodes) =~= Seq::new(graph.nodes.len(), |i: int| face(graph.nodes[i])));
    assert(graph_faces(after) =~= Seq::new(views(after.nodes@).len(), |i: int| face(views(after.nodes@)[i])));
    assert(identities::<NodeRecord>(graph.nodes) =~= face_ids(faces(graph.nodes)));
    assert(after.nodes@.len() == after.nodes.len());
    sorted_unions_are_projections(
        graph_faces(before) + delta_faces(deltas, deltas.len() as int),
        graph.nodes,
        views(after.nodes@),
        faces(graph.nodes),
        graph_faces(after),
        face,
    );
}

/// An overlay that fits changes nothing that a page shows.
pub proof fn overlays_keep_nodes(before: GraphSnapshot, overlay: GraphSnapshot, after: GraphSnapshot)
    requires
        ascending(face_ids(graph_faces(before))),
        overlay_error(before, overlay) is None,
        is_overlaid(before, overlay, after),
    ensures
        graph_faces(after) == graph_faces(before),
{
    let node = overlay.nodes@[0];
    let keep = has_node_id(before.nodes@, node.id@);
    first_kept_is_first(before.nodes@.len() as int, keep);
    let i = first_kept(before.nodes@.len() as int, keep)->0;
    assert(keep(i));
    let nodes = before.nodes@.update(i, node);
    assert(face_of(node@) == face_of(before.nodes@[i]@));
    assert(faces(views(nodes)) =~= graph_faces(before));
    node_ids_are_face_ids(nodes);
    ascending_is_once(graph_faces(before));
    union_of_itself(graph_faces(before));
    let face = |node: NodeRecord| face_of(node@);
    assert(faces(views(nodes)) =~= Seq::new(nodes.len(), |i: int| face(nodes[i])));
    assert(graph_faces(after) =~= Seq::new(after.nodes@.len(), |i: int| face(after.nodes@[i])));
    assert(after.nodes@.len() == after.nodes.len());
    sorted_unions_are_projections(
        graph_faces(before),
        nodes,
        after.nodes@,
        faces(views(nodes)),
        graph_faces(after),
        face,
    );
    projections_are_unique(graph_faces(before), graph_faces(before), graph_faces(after));
}

// ---------------------------------------------------------------------------------------
// What a page finds
// ---------------------------------------------------------------------------------------

/// What a page shows of nodes where they were read.
pub open spec fn placed_faces(nodes: Seq<PlacedNode>) -> Seq<NodeFace> {
    Seq::new(nodes.len(), |i: int| summary_face(nodes[i].node))
}

/// What a page shows of the nodes of the first `count` sessions of a layer.
pub open spec fn session_faces(sessions: Seq<SessionNodes>, count: int) -> Seq<NodeFace>
    decreases count,
{
    if count <= 0 {
        Seq::empty()
    } else {
        session_faces(sessions, count - 1) + placed_faces(sessions[count - 1].nodes@)
    }
}

/// What a page shows of the nodes of a layer, in the order in which they are loaded.
pub open spec fn layer_faces(layer: LayerNodes) -> Seq<NodeFace> {
    placed_faces(layer.scan_nodes@) + placed_faces(layer.build_nodes@) + session_faces(
        layer.session_nodes@,
        layer.session_nodes@.len() as int,
    )
}

/// What a page shows of the nodes of the layers from a depth on, in the order in which they
/// are loaded: the deepest layer first.
pub open spec fn loading_faces(layers: Seq<LayerNodes>, from: int) -> Seq<NodeFace>
    decreases layers.len() - from,
{
    if from < 0 || from >= layers.len() {
        Seq::empty()
    } else {
        loading_faces(layers, from + 1) + layer_faces(layers[from])
    }
}

/// Whether the nodes of a layer stand as the store holds them: the scan and each session hold
/// an identity once, and the items of a build and the sessions are numbered as they stand.
pub open spec fn is_placed(layer: LayerNodes) -> bool {
    let scan = layer.scan_nodes@;
    let build = layer.build_nodes@;
    let sessions = layer.session_nodes@;
    &&& forall|i: int, j: int|
        0 <= i < j < scan.len() ==> (#[trigger] scan[i]).node.id@ != (#[trigger] scan[j]).node.id@
    &&& forall|i: int, j: int| 0 <= i < j < build.len() ==> (#[trigger] build[i]).order < (#[trigger] build[j]).order
    &&& forall|a: int, b: int|
        0 <= a < b < sessions.len() ==> (#[trigger] sessions[a]).order < (#[trigger] sessions[b]).order
    &&& forall|a: int| 0 <= a < sessions.len() ==> holds_once((#[trigger] sessions[a]).nodes@)
}

/// Whether nodes hold each identity once.
pub open spec fn holds_once(nodes: Seq<PlacedNode>) -> bool {
    forall|i: int, j: int| 0 <= i < j < nodes.len() ==> (#[trigger] nodes[i]).node.id@ != (#[trigger] nodes[j]).node.id@
}

/// Whether all layers stand as the store holds them.
pub open spec fn are_placed(layers: Seq<LayerNodes>) -> bool {
    layers.len() <= u64::MAX && forall|d: int| 0 <= d < layers.len() ==> is_placed(#[trigger] layers[d])
}

/// The candidates of the layers from a depth on, in the order in which they are loaded.
spec fn loading_candidates(layers: Seq<LayerNodes>, from: int) -> Seq<NodeCandidate>
    decreases layers.len() - from,
{
    if from < 0 || from >= layers.len() {
        Seq::empty()
    } else {
        loading_candidates(layers, from + 1) + layer_candidates(layers[from], from as u64)
    }
}

spec fn candidate_faces(candidates: Seq<NodeCandidate>) -> Seq<NodeFace> {
    Seq::new(candidates.len(), |i: int| summary_face(candidates[i].node))
}

/// Whether candidates with one identity stand in the order of their places.
spec fn in_order(candidates: Seq<NodeCandidate>) -> bool {
    forall|a: int, b: int|
        0 <= a < b < candidates.len() && (#[trigger] candidates[a]).node.id@ == (#[trigger] candidates[b]).node.id@
            ==> NodePlace::before(candidates[a].place, candidates[b].place)
}

spec fn all_before(left: Seq<NodeCandidate>, right: Seq<NodeCandidate>) -> bool {
    forall|a: int, b: int|
        0 <= a < left.len() && 0 <= b < right.len() ==> NodePlace::before(
            (#[trigger] left[a]).place,
            (#[trigger] right[b]).place,
        )
}

proof fn joined_in_order(left: Seq<NodeCandidate>, right: Seq<NodeCandidate>)
    requires
        in_order(left),
        in_order(right),
        all_before(left, right),
    ensures
        in_order(left + right),
{
    let all = left + right;
    assert forall|a: int, b: int|
        0 <= a < b < all.len() && (#[trigger] all[a]).node.id@ == (#[trigger] all[b]).node.id@ implies NodePlace::before(
        all[a].place,
        all[b].place,
    ) by {
        if b < left.len() {
            assert(left[a] == all[a] && left[b] == all[b]);
        } else if a >= left.len() {
            assert(right[a - left.len()] == all[a] && right[b - left.len()] == all[b]);
        } else {
            assert(left[a] == all[a] && right[b - left.len()] == all[b]);
        }
    }
}

/// Whether candidates lie in one layer, from one source, and before a collection.
spec fn sessions_below(candidates: Seq<NodeCandidate>, depth: u64, order: int) -> bool {
    forall|a: int|
        0 <= a < candidates.len() ==> (#[trigger] candidates[a]).place.layer_depth == depth
            && candidates[a].place.source_order == 2 && candidates[a].place.collection_order < order
}

proof fn sessions_in_order(sessions: Seq<SessionNodes>, depth: u64, count: int)
    requires
        0 <= count <= sessions.len(),
        forall|a: int, b: int|
            0 <= a < b < sessions.len() ==> (#[trigger] sessions[a]).order < (#[trigger] sessions[b]).order,
        forall|a: int| 0 <= a < sessions.len() ==> holds_once((#[trigger] sessions[a]).nodes@),
    ensures
        in_order(session_candidates(sessions, depth, count)),
        count < sessions.len() ==> sessions_below(
            session_candidates(sessions, depth, count),
            depth,
            sessions[count].order as int,
        ),
        forall|a: int|
            0 <= a < session_candidates(sessions, depth, count).len() ==> (#[trigger] session_candidates(
                sessions,
                depth,
                count,
            )[a]).place.layer_depth == depth && session_candidates(sessions, depth, count)[a].place.source_order == 2,
        candidate_faces(session_candidates(sessions, depth, count)) == session_faces(sessions, count),
    decreases count,
{
    if count == 0 {
        assert(candidate_faces(session_candidates(sessions, depth, 0)) =~= session_faces(sessions, 0));
    } else {
        sessions_in_order(sessions, depth, count - 1);
        let earlier = session_candidates(sessions, depth, count - 1);
        let session = sessions[count - 1];
        let own = as_candidates(session.nodes@, depth, 2, session.order);
        assert(holds_once(session.nodes@));
        assert forall|a: int, b: int|
            0 <= a < b < own.len() && (#[trigger] own[a]).node.id@ == (#[trigger] own[b]).node.id@ implies NodePlace::before(
            own[a].place,
            own[b].place,
        ) by {
            assert(session.nodes@[a].node.id@ != session.nodes@[b].node.id@);
        }
        joined_in_order(earlier, own);
        let all = session_candidates(sessions, depth, count);
        assert(all == earlier + own);
        if count < sessions.len() {
            assert(sessions[count - 1].order < sessions[count].order);
            assert forall|a: int| 0 <= a < all.len() implies (#[trigger] all[a]).place.layer_depth == depth
                && all[a].place.source_order == 2 && all[a].place.collection_order < sessions[count].order by {
                if a < earlier.len() {
                    assert(all[a] == earlier[a]);
                }
            }
        }
        assert(candidate_faces(all) =~= session_faces(sessions, count));
    }
}

proof fn layers_in_order(layer: LayerNodes, depth: u64)
    requires
        is_placed(layer),
    ensures
        in_order(layer_candidates(layer, depth)),
        forall|a: int|
            0 <= a < layer_candidates(layer, depth).len() ==> (#[trigger] layer_candidates(layer, depth)[a]).place.layer_depth
                == depth,
        candidate_faces(layer_candidates(layer, depth)) == layer_faces(layer),
{
    let scan = as_candidates(layer.scan_nodes@, depth, 0, 0);
    let build = as_candidates(layer.build_nodes@, depth, 1, 0);
    let count = layer.session_nodes@.len() as int;
    let sessions = session_candidates(layer.session_nodes@, depth, count);
    sessions_in_order(layer.session_nodes@, depth, count);
    assert(in_order(scan)) by {
        assert forall|a: int, b: int|
            0 <= a < b < scan.len() && (#[trigger] scan[a]).node.id@ == (#[trigger] scan[b]).node.id@ implies NodePlace::before(
            scan[a].place,
            scan[b].place,
        ) by {
            assert(layer.scan_nodes@[a].node.id@ != layer.scan_nodes@[b].node.id@);
        }
    }
    assert(in_order(build)) by {
        assert forall|a: int, b: int|
            0 <= a < b < build.len() && (#[trigger] build[a]).node.id@ == (#[trigger] build[b]).node.id@ implies NodePlace::before(
            build[a].place,
            build[b].place,
        ) by {
            assert(layer.build_nodes@[a].order < layer.build_nodes@[b].order);
        }
    }
    joined_in_order(scan, build);
    assert(all_before(scan + build, sessions)) by {
        assert forall|a: int, b: int| 0 <= a < (scan + build).len() && 0 <= b < sessions.len() implies NodePlace::before(
            (#[trigger] (scan + build)[a]).place,
            (#[trigger] sessions[b]).place,
        ) by {
            if a < scan.len() {
                assert((scan + build)[a] == scan[a]);
            } else {
                assert((scan + build)[a] == build[a - scan.len()]);
            }
        }
    }
    joined_in_order(scan + build, sessions);
    let all = layer_candidates(layer, depth);
    assert(all == scan + build + sessions);
    assert forall|a: int| 0 <= a < all.len() implies (#[trigger] all[a]).place.layer_depth == depth by {
        if a >= (scan + build).len() {
            assert(all[a] == sessions[a - (scan + build).len()]);
        }
    }
    assert(candidate_faces(all) =~= layer_faces(layer));
}

proof fn loading_in_order(layers: Seq<LayerNodes>, from: int)
    requires
        are_placed(layers),
        0 <= from <= layers.len(),
    ensures
        in_order(loading_candidates(layers, from)),
        forall|a: int|
            0 <= a < loading_candidates(layers, from).len() ==> (#[trigger] loading_candidates(layers, from)[a]).place.layer_depth
                >= from,
        candidate_faces(loading_candidates(layers, from)) == loading_faces(layers, from),
    decreases layers.len() - from,
{
    if from == layers.len() {
        assert(candidate_faces(loading_candidates(layers, from)) =~= loading_faces(layers, from));
    } else {
        loading_in_order(layers, from + 1);
        let depth = from as u64;
        layers_in_order(layers[from], depth);
        let below = loading_candidates(layers, from + 1);
        let own = layer_candidates(layers[from], depth);
        joined_in_order(below, own);
        assert(candidate_faces(below + own) =~= candidate_faces(below) + candidate_faces(own));
    }
}

spec fn lies_in(layers: Seq<LayerNodes>, d: int, candidate: NodeCandidate) -> bool {
    layer_candidates(layers[d], d as u64).contains(candidate)
}

proof fn chain_holds(layers: Seq<LayerNodes>, count: int, candidate: NodeCandidate)
    requires
        0 <= count <= layers.len(),
    ensures
        chain_candidates(layers, count).contains(candidate) <==> exists|d: int|
            0 <= d < count && #[trigger] lies_in(layers, d, candidate),
    decreases count,
{
    if count > 0 {
        chain_holds(layers, count - 1, candidate);
        either_part_holds(
            chain_candidates(layers, count - 1),
            layer_candidates(layers[count - 1], (count - 1) as u64),
            candidate,
        );
        if lies_in(layers, count - 1, candidate) {
            assert(0 <= count - 1 < count);
        }
    }
}

proof fn loading_holds(layers: Seq<LayerNodes>, from: int, candidate: NodeCandidate)
    requires
        0 <= from <= layers.len(),
    ensures
        loading_candidates(layers, from).contains(candidate) <==> exists|d: int|
            from <= d < layers.len() && #[trigger] lies_in(layers, d, candidate),
    decreases layers.len() - from,
{
    if from < layers.len() {
        loading_holds(layers, from + 1, candidate);
        either_part_holds(
            loading_candidates(layers, from + 1),
            layer_candidates(layers[from], from as u64),
            candidate,
        );
        if lies_in(layers, from, candidate) {
            assert(from <= from < layers.len());
        }
    }
}

proof fn either_part_holds(a: Seq<NodeCandidate>, b: Seq<NodeCandidate>, candidate: NodeCandidate)
    ensures
        (a + b).contains(candidate) <==> a.contains(candidate) || b.contains(candidate),
{
    if a.contains(candidate) {
        let i = choose|i: int| 0 <= i < a.len() && a[i] == candidate;
        assert((a + b)[i] == candidate);
    }
    if b.contains(candidate) {
        let i = choose|i: int| 0 <= i < b.len() && b[i] == candidate;
        assert((a + b)[a.len() + i] == candidate);
    }
}

/// Whether a node is what a query asks for: it is of one of the kinds, where any are given,
/// and its identity, kind, locator or name matches.
pub open spec fn face_matches(node: NodeFace, query: Seq<char>, mode: NodeTextMatch, kinds: Seq<Seq<char>>) -> bool {
    &&& kinds.len() == 0 || kinds.contains(node.kind)
    &&& text_matches(node.id, query, mode) || text_matches(node.kind, query, mode) || text_matches(
        node.locator,
        query,
        mode,
    ) || text_matches(node.display_name, query, mode)
}

/// Which nodes a query asks for.
pub open spec fn is_asked_for(
    nodes: Seq<NodeFace>,
    query: Seq<char>,
    mode: NodeTextMatch,
    kinds: Seq<Seq<char>>,
) -> spec_fn(int) -> bool {
    |i: int| face_matches(nodes[i], query, mode, kinds)
}

/// The nodes that a query asks for, as they stand.
pub open spec fn asked_for(
    nodes: Seq<NodeFace>,
    query: Seq<char>,
    mode: NodeTextMatch,
    kinds: Seq<Seq<char>>,
) -> Seq<NodeFace> {
    collect(nodes.len() as int, is_asked_for(nodes, query, mode, kinds), |i: int| nodes[i])
}

proof fn collect_keeps_relations<T>(
    count: int,
    keep: spec_fn(int) -> bool,
    item: spec_fn(int) -> T,
    related: spec_fn(T, T) -> bool,
)
    requires
        forall|a: int, b: int|
            0 <= a < b < count && #[trigger] keep(a) && #[trigger] keep(b) ==> related(item(a), item(b)),
    ensures
        forall|p: int, q: int|
            0 <= p < q < collect(count, keep, item).len() ==> related(
                #[trigger] collect(count, keep, item)[p],
                #[trigger] collect(count, keep, item)[q],
            ),
    decreases count,
{
    if count > 0 {
        collect_keeps_relations(count - 1, keep, item, related);
        let earlier = collect(count - 1, keep, item);
        let all = collect(count, keep, item);
        assert forall|p: int, q: int| 0 <= p < q < all.len() implies related(#[trigger] all[p], #[trigger] all[q]) by {
            if q < earlier.len() {
                assert(all[p] == earlier[p] && all[q] == earlier[q]);
            } else {
                assert(keep(count - 1));
                assert(earlier.contains(earlier[p]));
                collect_holds_the_kept_items(count - 1, keep, item, earlier[p]);
                let a = choose|a: int| 0 <= a < count - 1 && #[trigger] keep(a) && item(a) == earlier[p];
                assert(related(item(a), item(count - 1)));
            }
        }
    }
}

proof fn found_is_first(layers: Seq<LayerNodes>, i: int) -> (k: int)
    requires
        are_placed(layers),
        0 <= i < chain_candidates(layers, layers.len() as int).len(),
        is_effective(chain_candidates(layers, layers.len() as int), i),
    ensures
        stands_first(loading_faces(layers, 0), k),
        loading_faces(layers, 0)[k] == summary_face(chain_candidates(layers, layers.len() as int)[i].node),
{
    let chain = chain_candidates(layers, layers.len() as int);
    let loading = loading_candidates(layers, 0);
    loading_in_order(layers, 0);
    assert(chain.contains(chain[i]));
    chain_holds(layers, layers.len() as int, chain[i]);
    loading_holds(layers, 0, chain[i]);
    let k = choose|k: int| 0 <= k < loading.len() && loading[k] == chain[i];
    let all = loading_faces(layers, 0);
    assert(all == candidate_faces(loading));
    assert forall|j: int| 0 <= j < k implies (#[trigger] all[j]).id != all[k].id by {
        if all[j].id == all[k].id {
            assert(loading[j].node.id@ == loading[k].node.id@);
            assert(NodePlace::before(loading[j].place, loading[k].place));
            assert(loading.contains(loading[j]));
            chain_holds(layers, layers.len() as int, loading[j]);
            loading_holds(layers, 0, loading[j]);
            let m = choose|m: int| 0 <= m < chain.len() && chain[m] == loading[j];
            assert(goes_before(places_of(chain), m, i));
            assert(chain[m].node.id@ == chain[i].node.id@);
        }
    }
    k
}

proof fn first_is_found(layers: Seq<LayerNodes>, k: int) -> (i: int)
    requires
        are_placed(layers),
        stands_first(loading_faces(layers, 0), k),
    ensures
        0 <= i < chain_candidates(layers, layers.len() as int).len(),
        is_effective(chain_candidates(layers, layers.len() as int), i),
        loading_faces(layers, 0)[k] == summary_face(chain_candidates(layers, layers.len() as int)[i].node),
{
    let chain = chain_candidates(layers, layers.len() as int);
    let loading = loading_candidates(layers, 0);
    loading_in_order(layers, 0);
    let all = loading_faces(layers, 0);
    assert(all == candidate_faces(loading));
    let candidate = loading[k];
    assert(loading.contains(candidate));
    chain_holds(layers, layers.len() as int, candidate);
    loading_holds(layers, 0, candidate);
    let keep = |i: int| chain[i] == candidate;
    first_kept_is_first(chain.len() as int, keep);
    let at = choose|at: int| 0 <= at < chain.len() && chain[at] == candidate;
    assert(keep(at));
    let i = first_kept(chain.len() as int, keep)->0;
    let places = places_of(chain);
    assert forall|j: int|
        0 <= j < chain.len() && (#[trigger] chain[j]).node.id@ == chain[i].node.id@ implies !goes_before(
        places,
        j,
        i,
    ) by {
        assert(chain.contains(chain[j]));
        chain_holds(layers, layers.len() as int, chain[j]);
        loading_holds(layers, 0, chain[j]);
        let m = choose|m: int| 0 <= m < loading.len() && loading[m] == chain[j];
        assert(all[m].id == all[k].id);
        NodePlace::before_is_irreflexive(candidate.place);
        if m < k {
            assert(all[m].id != all[k].id);
        } else if m > k {
            assert(NodePlace::before(loading[k].place, loading[m].place));
            if NodePlace::before(loading[m].place, loading[k].place) {
                NodePlace::before_is_transitive(loading[k].place, loading[m].place, loading[k].place);
            }
        } else if j < i {
            assert(!keep(j));
        }
    }
    i
}

/// A page shows what loading puts together: where `nodes` are the nodes of the layers of a
/// snapshot as they are loaded, a query finds exactly those of them that it asks for, in the
/// order of their identities. `sorted` is the list of which pages are parts.
pub proof fn pages_show_what_is_loaded(
    layers: Seq<LayerNodes>,
    nodes: Seq<NodeFace>,
    query: Seq<char>,
    mode: NodeTextMatch,
    kinds: Seq<Seq<char>>,
    sorted: Seq<NodeSummaryRecord>,
)
    requires
        are_placed(layers),
        is_projection(loading_faces(layers, 0), nodes),
        sorted.len() <= usize::MAX,
        ({
            let found = found_nodes(chain_candidates(layers, layers.len() as int), query, mode, kinds);
            is_stable_sort(found, summary_ids(found), sorted)
        }),
    ensures
        summary_faces(sorted) == asked_for(nodes, query, mode, kinds),
{
    let all = loading_faces(layers, 0);
    let chain = chain_candidates(layers, layers.len() as int);
    let keep = is_found(chain, query, mode, kinds);
    let item = |i: int| chain[i].node;
    let found = found_nodes(chain, query, mode, kinds);
    let held = summary_faces(found);
    let apart = |a: NodeSummaryRecord, b: NodeSummaryRecord| a.id@ != b.id@;
    assert forall|a: int, b: int| 0 <= a < b < chain.len() && #[trigger] keep(a) && #[trigger] keep(b) implies apart(
        item(a),
        item(b),
    ) by {
        found_once(chain, query, mode, kinds, a, b);
    }
    collect_keeps_relations(chain.len() as int, keep, item, apart);
    assert forall|i: int, j: int| 0 <= i < j < held.len() implies (#[trigger] held[i]).id != (#[trigger] held[j]).id by {
        assert(apart(found[i], found[j]));
    }
    union_of_itself(held);
    let face = |node: NodeSummaryRecord| summary_face(node);
    assert(held =~= Seq::new(found.len(), |i: int| face(found[i])));
    assert(summary_faces(sorted) =~= Seq::new(sorted.len(), |i: int| face(sorted[i])));
    assert(summary_ids(found) =~= face_ids(held));
    sorted_unions_are_projections(held, found, sorted, held, summary_faces(sorted), face);

    let asked = is_asked_for(nodes, query, mode, kinds);
    let pick = |i: int| nodes[i];
    let wanted = asked_for(nodes, query, mode, kinds);
    let ordered = |a: NodeFace, b: NodeFace| text_lt(a.id, b.id);
    assert forall|a: int, b: int| 0 <= a < b < nodes.len() && #[trigger] asked(a) && #[trigger] asked(b) implies ordered(
        pick(a),
        pick(b),
    ) by {
        assert(text_lt(face_ids(nodes)[a], face_ids(nodes)[b]));
    }
    collect_keeps_relations(nodes.len() as int, asked, pick, ordered);
    assert forall|i: int, j: int| 0 <= i < j < face_ids(wanted).len() implies text_lt(
        #[trigger] face_ids(wanted)[i],
        #[trigger] face_ids(wanted)[j],
    ) by {
        assert(ordered(wanted[i], wanted[j]));
    }
    ascending_is_once(wanted);
    assert forall|i: int| 0 <= i < wanted.len() implies is_first_of(held, #[trigger] wanted[i]) by {
        assert(wanted.contains(wanted[i]));
        collect_holds_the_kept_items(nodes.len() as int, asked, pick, wanted[i]);
        let m = choose|m: int| 0 <= m < nodes.len() && #[trigger] asked(m) && pick(m) == wanted[i];
        assert(is_first_of(all, nodes[m]));
        let k = choose|k: int| #[trigger] stands_first(all, k) && all[k] == nodes[m];
        let c = first_is_found(layers, k);
        assert(keep(c));
        collect_holds_the_kept_items(chain.len() as int, keep, item, chain[c].node);
        assert(item(c) == chain[c].node);
        assert(found.contains(chain[c].node));
        let p = choose|p: int| 0 <= p < found.len() && found[p] == chain[c].node;
        assert(held[p] == wanted[i]);
        assert(stands_first(held, p));
    }
    assert forall|p: int| 0 <= p < held.len() implies face_ids(wanted).contains((#[trigger] held[p]).id) by {
        assert(found.contains(found[p]));
        collect_holds_the_kept_items(chain.len() as int, keep, item, found[p]);
        let c = choose|c: int| 0 <= c < chain.len() && #[trigger] keep(c) && item(c) == found[p];
        let k = found_is_first(layers, c);
        assert(face_ids(nodes).contains(all[k].id));
        let m = choose|m: int| 0 <= m < nodes.len() && face_ids(nodes)[m] == all[k].id;
        assert(is_first_of(all, nodes[m]));
        let q = choose|q: int| #[trigger] stands_first(all, q) && all[q] == nodes[m];
        first_is_one(all, q, k);
        assert(nodes[m] == held[p]);
        assert(asked(m));
        collect_holds_the_kept_items(nodes.len() as int, asked, pick, nodes[m]);
        assert(pick(m) == nodes[m]);
        assert(wanted.contains(nodes[m]));
        let w = choose|w: int| 0 <= w < wanted.len() && wanted[w] == nodes[m];
        assert(face_ids(wanted)[w] == held[p].id);
    }
    projections_are_unique(held, summary_faces(sorted), wanted);
}

// ---------------------------------------------------------------------------------------
// A loaded graph
// ---------------------------------------------------------------------------------------

/// Whether a graph has the nodes of another with a build laid over it, none where the layer
/// adds no build.
pub open spec fn has_build(before: GraphSnapshot, nodes: Seq<PlacedNode>, after: GraphSnapshot) -> bool {
    ||| nodes.len() == 0 && after.nodes@ == before.nodes@
    ||| exists|delta: BuildGraphDelta, united: GraphSnapshot| #[trigger]
        is_united(before, delta, united) && faces(views(delta.nodes@)) == placed_faces(nodes) && after.nodes@
            == united.nodes@
}

/// Whether a graph has the nodes of another with runtime sessions laid over it, none where the
/// layer adds no session.
pub open spec fn has_sessions(before: GraphSnapshot, sessions: Seq<SessionNodes>, after: GraphSnapshot) -> bool {
    ||| sessions.len() == 0 && after.nodes@ == before.nodes@
    ||| exists|deltas: Seq<RuntimeSessionDelta>, graph: MergedGraph, merged: GraphSnapshot|
        #![trigger with_sessions(graph_of(before), deltas, deltas.len() as int), is_with_sessions(before, graph, merged)]
        with_sessions(graph_of(before), deltas, deltas.len() as int) == Ok::<MergedGraph, RuntimeError>(graph)
            && is_with_sessions(before, graph, merged) && delta_faces(deltas, deltas.len() as int) == session_faces(
            sessions,
            sessions.len() as int,
        ) && after.nodes@ == merged.nodes@
}

/// Whether a graph has the nodes of another, or those under an overlay that fits it.
pub open spec fn may_have_overlay(before: GraphSnapshot, after: GraphSnapshot) -> bool {
    ||| after.nodes@ == before.nodes@
    ||| exists|overlay: GraphSnapshot, laid: GraphSnapshot| #[trigger]
        is_overlaid(before, overlay, laid) && overlay_error(before, overlay) is None && after.nodes@ == laid.nodes@
}

/// The graphs that loading the layers of a snapshot goes through, by depth: what each layer
/// lies on, that with the build of the layer, and that with its sessions too.
pub struct LoadedGraphs {
    pub grounds: Seq<GraphSnapshot>,
    pub built: Seq<GraphSnapshot>,
    pub graphs: Seq<GraphSnapshot>,
}

/// Whether the layer at a depth is laid over its ground. The deepest layer lies on the nodes
/// of its scan, by identity; any other on the graph below, perhaps under an overlay.
pub open spec fn is_laid(layers: Seq<LayerNodes>, loaded: LoadedGraphs, depth: int) -> bool {
    let layer = layers[depth];
    let ground = loaded.grounds[depth];
    &&& if depth == layers.len() - 1 {
        is_projection(placed_faces(layer.scan_nodes@), graph_faces(ground))
    } else {
        layer.scan_nodes@.len() == 0 && may_have_overlay(loaded.graphs[depth + 1], ground)
    }
    &&& has_build(ground, layer.build_nodes@, loaded.built[depth])
    &&& has_sessions(loaded.built[depth], layer.session_nodes@, loaded.graphs[depth])
}

/// Whether graphs are those that loading the layers of a snapshot goes through.
pub open spec fn are_loaded(layers: Seq<LayerNodes>, loaded: LoadedGraphs) -> bool {
    forall|depth: int| 0 <= depth < layers.len() ==> #[trigger] is_laid(layers, loaded, depth)
}

proof fn ground_is_a_projection(layers: Seq<LayerNodes>, loaded: LoadedGraphs, depth: int)
    requires
        are_loaded(layers, loaded),
        0 <= depth < layers.len(),
        depth + 1 < layers.len() ==> is_projection(
            loading_faces(layers, depth + 1),
            graph_faces(loaded.graphs[depth + 1]),
        ),
    ensures
        is_projection(
            loading_faces(layers, depth + 1) + placed_faces(layers[depth].scan_nodes@),
            graph_faces(loaded.grounds[depth]),
        ),
{
    assert(is_laid(layers, loaded, depth));
    let scan = placed_faces(layers[depth].scan_nodes@);
    let ground = loaded.grounds[depth];
    if depth == layers.len() - 1 {
        assert(loading_faces(layers, depth + 1) + scan =~= scan);
    } else {
        let below = loaded.graphs[depth + 1];
        if ground.nodes@ != below.nodes@ {
            let (overlay, laid) = choose|overlay: GraphSnapshot, laid: GraphSnapshot| #[trigger]
                is_overlaid(below, overlay, laid) && overlay_error(below, overlay) is None && ground.nodes@
                    == laid.nodes@;
            overlays_keep_nodes(below, overlay, laid);
            assert(graph_faces(ground) == graph_faces(laid));
        }
        assert(graph_faces(ground) == graph_faces(below));
        assert(loading_faces(layers, depth + 1) + scan =~= loading_faces(layers, depth + 1));
    }
}

/// The nodes of a loaded graph are those of its layers, each identity once, by the node that
/// was loaded first, in the order of the identities.
pub proof fn loaded_nodes_are_a_projection(layers: Seq<LayerNodes>, loaded: LoadedGraphs, depth: int)
    requires
        are_loaded(layers, loaded),
        0 <= depth < layers.len(),
    ensures
        is_projection(loading_faces(layers, depth), graph_faces(loaded.graphs[depth])),
    decreases layers.len() - depth,
{
    if depth + 1 < layers.len() {
        loaded_nodes_are_a_projection(layers, loaded, depth + 1);
    }
    ground_is_a_projection(layers, loaded, depth);
    assert(is_laid(layers, loaded, depth));
    let layer = layers[depth];
    let ground = loaded.grounds[depth];
    let built = loaded.built[depth];
    let graph = loaded.graphs[depth];
    let start = loading_faces(layers, depth + 1) + placed_faces(layer.scan_nodes@);
    let build = placed_faces(layer.build_nodes@);
    let sessions = session_faces(layer.session_nodes@, layer.session_nodes@.len() as int);
    if layer.build_nodes@.len() == 0 && built.nodes@ == ground.nodes@ {
        assert(start + build =~= start);
    } else {
        let (delta, united) = choose|delta: BuildGraphDelta, united: GraphSnapshot| #[trigger]
            is_united(ground, delta, united) && faces(views(delta.nodes@)) == placed_faces(layer.build_nodes@)
                && built.nodes@ == united.nodes@;
        builds_unite_nodes(ground, delta, united);
        assert(graph_faces(built) == graph_faces(united));
        unions_compose(start, graph_faces(ground), build, graph_faces(built));
    }
    assert(is_projection(start + build, graph_faces(built)));
    if layer.session_nodes@.len() == 0 && graph.nodes@ == built.nodes@ {
        assert(start + build + sessions =~= start + build);
    } else {
        let (deltas, with, merged) = choose|
            deltas: Seq<RuntimeSessionDelta>,
            with: MergedGraph,
            merged: GraphSnapshot,
        |
            #![trigger with_sessions(graph_of(built), deltas, deltas.len() as int), is_with_sessions(built, with, merged)]
            with_sessions(graph_of(built), deltas, deltas.len() as int) == Ok::<MergedGraph, RuntimeError>(with)
                && is_with_sessions(built, with, merged) && delta_faces(deltas, deltas.len() as int) == session_faces(
                layer.session_nodes@,
                layer.session_nodes@.len() as int,
            ) && graph.nodes@ == merged.nodes@;
        sessions_unite_nodes(built, deltas, with, merged);
        assert(graph_faces(graph) == graph_faces(merged));
        unions_compose(start + build, graph_faces(built), sessions, graph_faces(graph));
    }
    assert(start + build + sessions =~= loading_faces(layers, depth));
}

/// A page of a snapshot shows the nodes of its loaded graph: those that the query asks for, as
/// they stand there. `sorted` is the list of which pages are parts.
pub proof fn pages_show_the_loaded_graph(
    layers: Seq<LayerNodes>,
    loaded: LoadedGraphs,
    query: Seq<char>,
    mode: NodeTextMatch,
    kinds: Seq<Seq<char>>,
    sorted: Seq<NodeSummaryRecord>,
)
    requires
        layers.len() > 0,
        are_placed(layers),
        are_loaded(layers, loaded),
        sorted.len() <= usize::MAX,
        ({
            let found = found_nodes(chain_candidates(layers, layers.len() as int), query, mode, kinds);
            is_stable_sort(found, summary_ids(found), sorted)
        }),
    ensures
        summary_faces(sorted) == asked_for(graph_faces(loaded.graphs[0]), query, mode, kinds),
{
    loaded_nodes_are_a_projection(layers, loaded, 0);
    pages_show_what_is_loaded(layers, graph_faces(loaded.graphs[0]), query, mode, kinds, sorted);
}

} // verus!

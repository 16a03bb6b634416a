//! Pages of the nodes of a completed snapshot: which of the nodes that its layers hold are
//! in effect, which of them a query finds, and whether the layers are intact.

use vstd::hash_map::StringHashMap;
use vstd::prelude::*;

use crate::layers::{
    is_new_session, is_overlay, is_semantic_noop, layer_plan, new_sessions_of, SnapshotFacts, WalkEnd,
};
use crate::operations::opt_text_is;
use crate::order::{ascending, collect, is_stable_sort, stable_sort};
use crate::records::{CompletedSnapshotRecord, NodeSummaryRecord, NodeTextMatch, StorePage};
use crate::runtime_merge::sessions_are_canonical;
use crate::snapshots::{page_bounds, SnapshotError};
use crate::sort::{
    goes_before, goes_before_is_asymmetric, goes_before_is_transitive, is_rank_order, rank_order, Ranked,
};
use crate::text::{
    characters, characters_hold, contains_text, holds_part, opt_text, same, same_characters, same_option, stands_at,
    texts,
};

verus! {

/// Where a layer holds a node: how deep the layer lies, from which kind of source the node
/// comes, from which collection of it, and its place there.
#[derive(Debug, Clone, Copy, PartialEq, Eq, Structural)]
pub struct NodePlace {
    pub layer_depth: u64,
    pub source_order: u8,
    pub collection_order: i64,
    pub item_order: i64,
}

/// Deeper layers come first, then sources, collections and items in their order.
impl Ranked for NodePlace {
    open spec fn before(a: NodePlace, b: NodePlace) -> bool {
        a.layer_depth > b.layer_depth || (a.layer_depth == b.layer_depth && (a.source_order < b.source_order || (
        a.source_order == b.source_order && (a.collection_order < b.collection_order || (a.collection_order
            == b.collection_order && a.item_order < b.item_order)))))
    }

    proof fn before_is_irreflexive(a: NodePlace) {
    }

    proof fn before_is_transitive(a: NodePlace, b: NodePlace, c: NodePlace) {
    }

    proof fn before_is_weak(a: NodePlace, b: NodePlace, c: NodePlace) {
    }

    fn is_before(a: &NodePlace, b: &NodePlace) -> (result: bool) {
        a.layer_depth > b.layer_depth || (a.layer_depth == b.layer_depth && (a.source_order < b.source_order || (
        a.source_order == b.source_order && (a.collection_order < b.collection_order || (a.collection_order
            == b.collection_order && a.item_order < b.item_order)))))
    }
}

/// A node that a layer holds.
#[derive(Debug, Clone)]
pub struct NodeCandidate {
    pub node: NodeSummaryRecord,
    pub place: NodePlace,
}

/// The places of candidates.
pub open spec fn places_of(candidates: Seq<NodeCandidate>) -> Seq<NodePlace> {
    Seq::new(candidates.len(), |i: int| candidates[i].place)
}

/// Whether a candidate is in effect: no other with its identity comes before it.
pub open spec fn is_effective(candidates: Seq<NodeCandidate>, i: int) -> bool {
    forall|j: int|
        0 <= j < candidates.len() && (#[trigger] candidates[j]).node.id@ == candidates[i].node.id@ ==> !goes_before(
            places_of(candidates),
            j,
            i,
        )
}

/// Whether a text is what a query asks for.
pub open spec fn text_matches(value: Seq<char>, query: Seq<char>, mode: NodeTextMatch) -> bool {
    match mode {
        NodeTextMatch::Exact => value == query,
        NodeTextMatch::Prefix => stands_at(value, query, 0),
        NodeTextMatch::Contains => holds_part(value, query),
    }
}

/// Whether a node is what a query asks for: it is of one of the kinds, where any are given,
/// and its identity, kind, locator or name matches.
pub open spec fn node_matches(
    node: NodeSummaryRecord,
    query: Seq<char>,
    mode: NodeTextMatch,
    kinds: Seq<Seq<char>>,
) -> bool {
    &&& kinds.len() == 0 || kinds.contains(node.kind@)
    &&& text_matches(node.id@, query, mode) || text_matches(node.kind@, query, mode) || text_matches(
        node.locator@,
        query,
        mode,
    ) || text_matches(node.display_name@, query, mode)
}

/// Which candidates a query finds.
pub open spec fn is_found(
    candidates: Seq<NodeCandidate>,
    query: Seq<char>,
    mode: NodeTextMatch,
    kinds: Seq<Seq<char>>,
) -> spec_fn(int) -> bool {
    |i: int| is_effective(candidates, i) && node_matches(candidates[i].node, query, mode, kinds)
}

/// The nodes that a query finds, as they stand.
pub open spec fn found_nodes(
    candidates: Seq<NodeCandidate>,
    query: Seq<char>,
    mode: NodeTextMatch,
    kinds: Seq<Seq<char>>,
) -> Seq<NodeSummaryRecord> {
    collect(candidates.len() as int, is_found(candidates, query, mode, kinds), |i: int| candidates[i].node)
}

/// The identities of nodes.
pub open spec fn summary_ids(nodes: Seq<NodeSummaryRecord>) -> Seq<Seq<char>> {
    Seq::new(nodes.len(), |i: int| nodes[i].id@)
}

/// The lesser of two numbers.
pub open spec fn least(a: int, b: int) -> int {
    if a <= b {
        a
    } else {
        b
    }
}

/// Whether a page shows the items of a list from an offset on, at most so many, and counts
/// all of them.
pub open spec fn is_page_of<T>(items: Seq<T>, offset: int, limit: int, page: StorePage<T>) -> bool {
    &&& page.items@ == items.subrange(least(offset, items.len() as int), least(offset + limit, items.len() as int))
    &&& page.total_items == items.len()
}

fn place_list(candidates: &Vec<NodeCandidate>) -> (result: Vec<NodePlace>)
    ensures
        result@ == places_of(candidates@),
{
    let mut result: Vec<NodePlace> = Vec::new();
    let mut i: usize = 0;
    while i < candidates.len()
        invariant
            i <= candidates.len(),
            result.len() == i,
            forall|k: int| 0 <= k < i ==> result@[k] == candidates@[k].place,
        decreases candidates.len() - i,
    {
        result.push(candidates[i].place);
        i = i + 1;
    }
    assert(result@ =~= places_of(candidates@));
    result
}

/// Which candidates are in effect.
fn effective(candidates: &Vec<NodeCandidate>) -> (result: Vec<bool>)
    ensures
        result.len() == candidates.len(),
        forall|i: int| 0 <= i < result.len() ==> #[trigger] result@[i] == is_effective(candidates@, i),
{
    let places = place_list(candidates);
    let order = rank_order(&places);
    let ghost all = candidates@;
    let mut first: StringHashMap<usize> = StringHashMap::new();
    let mut k: usize = order.len();
    // Going from the last in order to the first, each identity ends with its first place.
    while k > 0
        invariant
            k <= order.len(),
            order.len() == candidates.len(),
            all == candidates@,
            forall|i: int| 0 <= i < order.len() ==> (#[trigger] order@[i]) < candidates.len(),
            forall|m: int|
                k <= m < order.len() ==> first@.contains_key(all[#[trigger] order@[m] as int].node.id@),
            forall|id: Seq<char>| #[trigger]
                first@.contains_key(id) ==> first@[id] < all.len() && all[first@[id] as int].node.id@ == id && exists|
                    m: int,
                |
                    k <= m < order.len() && #[trigger] order@[m] == first@[id] && forall|n: int|
                        k <= n < m ==> all[#[trigger] order@[n] as int].node.id@ != id,
        decreases k,
    {
        let ghost before = first@;
        let ghost after_k = k as int;
        k = k - 1;
        let place: usize = order[k];
        first.insert(candidates[place].node.id.clone(), place);
        proof {
            let new_id = all[place as int].node.id@;
            assert forall|id: Seq<char>| #[trigger] first@.contains_key(id) implies first@[id] < all.len()
                && all[first@[id] as int].node.id@ == id && exists|m: int|
                k <= m < order.len() && #[trigger] order@[m] == first@[id] && forall|n: int|
                    k <= n < m ==> all[#[trigger] order@[n] as int].node.id@ != id by {
                if id == new_id {
                    assert(order@[k as int] == first@[id]);
                } else {
                    assert(before.contains_key(id));
                    let m = choose|m: int|
                        after_k <= m < order.len() && #[trigger] order@[m] == before[id] && forall|n: int|
                            after_k <= n < m ==> all[#[trigger] order@[n] as int].node.id@ != id;
                    assert(order@[m] == first@[id]);
                    assert forall|n: int| k <= n < m implies all[#[trigger] order@[n] as int].node.id@ != id by {
                        if n > k {
                            assert(after_k <= n < m);
                        }
                    }
                }
            }
        }
    }
    let mut result: Vec<bool> = Vec::new();
    let mut i: usize = 0;
    while i < candidates.len()
        invariant
            i <= candidates.len(),
            all == candidates@,
            order.len() == candidates.len(),
            is_rank_order(places_of(all), order@),
            forall|m: int|
                0 <= m < order.len() ==> first@.contains_key(all[#[trigger] order@[m] as int].node.id@),
            forall|id: Seq<char>| #[trigger]
                first@.contains_key(id) ==> first@[id] < all.len() && all[first@[id] as int].node.id@ == id && exists|
                    m: int,
                |
                    0 <= m < order.len() && #[trigger] order@[m] == first@[id] && forall|n: int|
                        0 <= n < m ==> all[#[trigger] order@[n] as int].node.id@ != id,
            result.len() == i,
            forall|k: int| 0 <= k < i ==> #[trigger] result@[k] == is_effective(all, k),
        decreases candidates.len() - i,
    {
        let ghost id = all[i as int].node.id@;
        let is_first: bool = match first.get(candidates[i].node.id.as_str()) {
            Some(place) => *place == i,
            None => false,
        };
        proof {
            assert(order@.contains(i));
            let own = choose|m: int| 0 <= m < order@.len() && order@[m] == i;
            assert(first@.contains_key(all[order@[own] as int].node.id@));
            let m = choose|m: int|
                0 <= m < order.len() && #[trigger] order@[m] == first@[id] && forall|n: int|
                    0 <= n < m ==> all[#[trigger] order@[n] as int].node.id@ != id;
            first_in_order_is_effective(all, order@, i as int, m, own);
        }
        result.push(is_first);
        i = i + 1;
    }
    result
}

proof fn first_in_order_is_effective(
    candidates: Seq<NodeCandidate>,
    order: Seq<usize>,
    i: int,
    first: int,
    own: int,
)
    requires
        candidates.len() <= usize::MAX,
        0 <= i < candidates.len(),
        is_rank_order(places_of(candidates), order),
        0 <= first < order.len(),
        0 <= own < order.len(),
        order[own] == i,
        candidates[order[first] as int].node.id@ == candidates[i].node.id@,
        forall|n: int|
            0 <= n < first ==> candidates[#[trigger] order[n] as int].node.id@ != candidates[i].node.id@,
    ensures
        is_effective(candidates, i) == (order[first] == i),
{
    let keys = places_of(candidates);
    if order[first] == i {
        assert forall|j: int|
            0 <= j < candidates.len() && (#[trigger] candidates[j]).node.id@ == candidates[i].node.id@ implies !goes_before(
            keys,
            j,
            i,
        ) by {
            assert(order.contains(j as usize));
            let m = choose|m: int| 0 <= m < order.len() && order[m] == j;
            if m > first {
                assert(goes_before(keys, order[first] as int, order[m] as int));
                goes_before_is_asymmetric(keys, i, j);
            } else if m < first {
                assert(candidates[order[m] as int].node.id@ != candidates[i].node.id@);
            } else {
                NodePlace::before_is_irreflexive(keys[i]);
            }
        }
    } else {
        if own < first {
            assert(candidates[order[own] as int].node.id@ != candidates[i].node.id@);
        }
        assert(goes_before(keys, order[first] as int, order[own] as int));
        assert(candidates[order[first] as int].node.id@ == candidates[i].node.id@);
        assert(!is_effective(candidates, i));
    }
}

fn matches_text(value: &str, query: &str, mode: NodeTextMatch) -> (result: bool)
    ensures
        result == text_matches(value@, query@, mode),
{
    match mode {
        NodeTextMatch::Exact => same(value, query),
        NodeTextMatch::Prefix => {
            let value = characters(value);
            let query = characters(query);
            value.len() >= query.len() && same_characters(&value, &query, query.len())
        },
        NodeTextMatch::Contains => characters_hold(&characters(value), &characters(query)),
    }
}

fn matches_node(node: &NodeSummaryRecord, query: &str, mode: NodeTextMatch, kinds: &Vec<String>) -> (result: bool)
    ensures
        result == node_matches(*node, query@, mode, texts(kinds@)),
{
    assert(texts(kinds@).len() == kinds@.len());
    if kinds.len() != 0 && !contains_text(kinds, node.kind.as_str()) {
        return false;
    }
    matches_text(node.id.as_str(), query, mode) || matches_text(node.kind.as_str(), query, mode) || matches_text(
        node.locator.as_str(),
        query,
        mode,
    ) || matches_text(node.display_name.as_str(), query, mode)
}

fn page_of(items: Vec<NodeSummaryRecord>, offset: usize, limit: usize) -> (result: StorePage<NodeSummaryRecord>)
    ensures
        is_page_of(items@, offset as int, limit as int, result),
{
    let ghost all = items@;
    let total: usize = items.len();
    let start: usize = if offset < total {
        offset
    } else {
        total
    };
    let end: usize = if limit < total - start {
        start + limit
    } else {
        total
    };
    let mut shown: Vec<NodeSummaryRecord> = Vec::new();
    let mut place: usize = 0;
    for item in it: items
        invariant
            it.seq() == all,
            place == it.index(),
            all.len() == total,
            start <= end <= total,
            shown@ == all.subrange(least(start as int, place as int), least(end as int, place as int)),
    {
        assert(item == all[place as int]);
        if start <= place && place < end {
            shown.push(item);
        }
        place = place + 1;
    }
    StorePage { items: shown, total_items: total as u64 }
}

/// Whether a page, or what is said in its place, answers a search: the nodes that are found, by
/// identity, of which the page shows a part.
pub open spec fn answers_search(
    candidates: Seq<NodeCandidate>,
    query: Seq<char>,
    mode: NodeTextMatch,
    kinds: Seq<Seq<char>>,
    offset: int,
    limit: int,
    result: Result<StorePage<NodeSummaryRecord>, SnapshotError>,
) -> bool {
    if limit == 0 {
        result == Err::<StorePage<NodeSummaryRecord>, _>(SnapshotError::PageEmpty)
    } else if offset > i64::MAX || limit > i64::MAX {
        result == Err::<StorePage<NodeSummaryRecord>, _>(SnapshotError::PageTooLarge)
    } else {
        let found = found_nodes(candidates, query, mode, kinds);
        exists|sorted: Seq<NodeSummaryRecord>|
            result is Ok && #[trigger] is_stable_sort(found, summary_ids(found), sorted) && is_page_of(
                sorted,
                offset,
                limit,
                result->Ok_0,
            )
    }
}

/// The nodes that a query finds among those in effect, in the order of their identities,
/// from an offset on and at most so many.
pub fn find_completed_snapshot_nodes_page(
    candidates: Vec<NodeCandidate>,
    query: &str,
    mode: NodeTextMatch,
    kinds: &Vec<String>,
    offset: usize,
    limit: usize,
) -> (result: Result<StorePage<NodeSummaryRecord>, SnapshotError>)
    ensures
        answers_search(candidates@, query@, mode, texts(kinds@), offset as int, limit as int, result),
{
    match page_bounds(offset, limit) {
        Err(error) => {
            return Err(error);
        },
        Ok(_) => {},
    }
    let ghost all = candidates@;
    let ghost keep = is_found(all, query@, mode, texts(kinds@));
    let ghost item = |i: int| all[i].node;
    let in_effect = effective(&candidates);
    let mut found: Vec<NodeSummaryRecord> = Vec::new();
    let mut keys: Vec<String> = Vec::new();
    let mut place: usize = 0;
    for candidate in it: candidates
        invariant
            it.seq() == all,
            place == it.index(),
            in_effect.len() == all.len(),
            forall|i: int| 0 <= i < in_effect.len() ==> #[trigger] in_effect@[i] == is_effective(all, i),
            keep == is_found(all, query@, mode, texts(kinds@)),
            item == |i: int| all[i].node,
            found@ == collect(place as int, keep, item),
            keys.len() == found.len(),
            forall|k: int| 0 <= k < keys.len() ==> (#[trigger] keys@[k])@ == found@[k].id@,
    {
        assert(candidate == all[place as int]);
        if in_effect[place] && matches_node(&candidate.node, query, mode, kinds) {
            keys.push(candidate.node.id.clone());
            found.push(candidate.node);
        }
        place = place + 1;
    }
    assert(found@ == found_nodes(all, query@, mode, texts(kinds@)));
    assert(texts(keys@) =~= summary_ids(found@));
    let ghost kept = found@;
    let sorted = stable_sort(found, &keys);
    let ghost listed = sorted@;
    let page = page_of(sorted, offset, limit);
    assert(is_stable_sort(kept, summary_ids(kept), listed));
    Ok(page)
}

// ---------------------------------------------------------------------------------------
// Where nodes are read
// ---------------------------------------------------------------------------------------

/// A session that a layer adds, and its place in the list of the snapshot's sessions.
#[derive(Debug, Clone, PartialEq, Eq)]
pub struct NodeSession {
    pub ordinal: usize,
    pub session_id: String,
}

/// What nodes one snapshot of a chain contributes: those of its scan where the chain ends
/// with it, those of its build and of its sessions where the snapshot below does not hold
/// them.
#[derive(Debug, Clone, PartialEq, Eq)]
pub struct NodeSource {
    pub takes_scan: bool,
    pub build_attempt_id: Option<String>,
    pub sessions: Vec<NodeSession>,
}

/// The build of the snapshot below a layer of a path.
pub open spec fn build_below(facts: Seq<SnapshotFacts>, path: Seq<usize>, depth: int) -> Option<Seq<char>> {
    if depth + 1 < path.len() {
        opt_text(facts[path[depth + 1] as int].record.build_attempt_id)
    } else {
        None
    }
}

/// The sessions of the snapshot below a layer of a path.
pub open spec fn sessions_below(facts: Seq<SnapshotFacts>, path: Seq<usize>, depth: int) -> Seq<Seq<char>> {
    if depth + 1 < path.len() {
        texts(facts[path[depth + 1] as int].record.runtime_session_ids@)
    } else {
        Seq::empty()
    }
}

/// The sessions that a layer of a path adds.
pub open spec fn sessions_added(facts: Seq<SnapshotFacts>, path: Seq<usize>, depth: int) -> Seq<Seq<char>> {
    new_sessions_of(
        texts(facts[path[depth] as int].record.runtime_session_ids@),
        sessions_below(facts, path, depth),
    )
}

/// The sessions that a layer adds, each with its place.
pub open spec fn placed_sessions(ids: Seq<Seq<char>>, below: Seq<Seq<char>>) -> Seq<(int, Seq<char>)> {
    collect(ids.len() as int, is_new_session(ids, below), |i: int| (i, ids[i]))
}

/// What sessions with their places hold.
pub open spec fn sessions_held(sessions: Seq<NodeSession>) -> Seq<(int, Seq<char>)> {
    Seq::new(sessions.len(), |i: int| (sessions[i].ordinal as int, sessions[i].session_id@))
}

/// Whether a source is what a layer of a path contributes.
pub open spec fn is_source(
    facts: Seq<SnapshotFacts>,
    path: Seq<usize>,
    end: WalkEnd,
    depth: int,
    source: NodeSource,
) -> bool {
    let record = facts[path[depth] as int].record;
    let build = opt_text(record.build_attempt_id);
    &&& source.takes_scan == (depth + 1 == path.len() && end == WalkEnd::End)
    &&& opt_text(source.build_attempt_id) == if build is Some && build_below(facts, path, depth) != build {
        build
    } else {
        None
    }
    &&& sessions_held(source.sessions@) == placed_sessions(
        texts(record.runtime_session_ids@),
        sessions_below(facts, path, depth),
    )
}

fn added_sessions(ids: &Vec<String>, below: &Vec<String>) -> (result: Vec<NodeSession>)
    ensures
        sessions_held(result@) == placed_sessions(texts(ids@), texts(below@)),
{
    let ghost keys = texts(ids@);
    let ghost keep = is_new_session(keys, texts(below@));
    let ghost item = |i: int| (i, keys[i]);
    let mut sessions: Vec<NodeSession> = Vec::new();
    let mut i: usize = 0;
    assert(sessions_held(sessions@) =~= Seq::empty());
    while i < ids.len()
        invariant
            i <= ids.len(),
            keys == texts(ids@),
            keep == is_new_session(keys, texts(below@)),
            item == (|i: int| (i, keys[i])),
            sessions_held(sessions@) == collect(i as int, keep, item),
        decreases ids.len() - i,
    {
        assert(keys[i as int] == ids@[i as int]@);
        if !contains_text(below, ids[i].as_str()) {
            let ghost earlier = sessions_held(sessions@);
            sessions.push(NodeSession { ordinal: i, session_id: ids[i].clone() });
            assert(sessions_held(sessions@) =~= earlier.push((i as int, keys[i as int])));
        }
        i = i + 1;
    }
    assert(item == (|i: int| (i, keys[i])));
    sessions
}

/// What nodes each snapshot of a chain contributes.
pub fn node_sources(facts: &Vec<SnapshotFacts>, path: &Vec<usize>, end: WalkEnd) -> (result: Vec<NodeSource>)
    requires
        forall|i: int| 0 <= i < path.len() ==> (#[trigger] path@[i]) < facts.len(),
    ensures
        result@.len() == path@.len(),
        forall|i: int| 0 <= i < path@.len() ==> is_source(facts@, path@, end, i, #[trigger] result@[i]),
{
    let none: Vec<String> = Vec::new();
    assert(texts(none@) =~= Seq::empty());
    let mut sources: Vec<NodeSource> = Vec::new();
    let mut i: usize = 0;
    while i < path.len()
        invariant
            i <= path.len(),
            texts(none@) == Seq::<Seq<char>>::empty(),
            forall|i: int| 0 <= i < path.len() ==> (#[trigger] path@[i]) < facts.len(),
            sources.len() == i,
            forall|k: int| 0 <= k < i ==> is_source(facts@, path@, end, k, #[trigger] sources@[k]),
        decreases path.len() - i,
    {
        let is_last: bool = i + 1 == path.len();
        let record = &facts[path[i]].record;
        let build_attempt_id: Option<String> = match &record.build_attempt_id {
            None => None,
            Some(attempt_id) => if !is_last && opt_text_is(
                &facts[path[i + 1]].record.build_attempt_id,
                attempt_id.as_str(),
            ) {
                None
            } else {
                Some(attempt_id.clone())
            },
        };
        let below: &Vec<String> = if is_last {
            &none
        } else {
            &facts[path[i + 1]].record.runtime_session_ids
        };
        let sessions = added_sessions(&record.runtime_session_ids, below);
        let takes_scan: bool = is_last && end == WalkEnd::End;
        sources.push(NodeSource { takes_scan, build_attempt_id, sessions });
        i = i + 1;
    }
    sources
}

/// A node where it was read, with its place there.
#[derive(Debug, Clone)]
pub struct PlacedNode {
    pub order: i64,
    pub node: NodeSummaryRecord,
}

/// The nodes of a session, with the place of the session among those of its snapshot.
#[derive(Debug, Clone)]
pub struct SessionNodes {
    pub order: i64,
    pub nodes: Vec<PlacedNode>,
}

/// The nodes that were read for one snapshot of a chain.
#[derive(Debug, Clone)]
pub struct LayerNodes {
    pub scan_nodes: Vec<PlacedNode>,
    pub build_nodes: Vec<PlacedNode>,
    pub session_nodes: Vec<SessionNodes>,
}

/// Nodes as candidates of one collection of a source of a layer.
pub open spec fn as_candidates(nodes: Seq<PlacedNode>, depth: u64, source: u8, collection: i64) -> Seq<NodeCandidate> {
    Seq::new(
        nodes.len(),
        |i: int|
            NodeCandidate {
                node: nodes[i].node,
                place: NodePlace {
                    layer_depth: depth,
                    source_order: source,
                    collection_order: collection,
                    item_order: nodes[i].order,
                },
            },
    )
}

/// The candidates of the first `count` sessions of a layer.
pub open spec fn session_candidates(sessions: Seq<SessionNodes>, depth: u64, count: int) -> Seq<NodeCandidate>
    decreases count,
{
    if count <= 0 {
        Seq::empty()
    } else {
        session_candidates(sessions, depth, count - 1) + as_candidates(
            sessions[count - 1].nodes@,
            depth,
            2,
            sessions[count - 1].order,
        )
    }
}

/// The candidates of a layer: the nodes of its scan, then of its build, then of its sessions.
pub open spec fn layer_candidates(layer: LayerNodes, depth: u64) -> Seq<NodeCandidate> {
    as_candidates(layer.scan_nodes@, depth, 0, 0) + as_candidates(layer.build_nodes@, depth, 1, 0)
        + session_candidates(layer.session_nodes@, depth, layer.session_nodes@.len() as int)
}

/// The candidates of the first `count` layers of a chain.
pub open spec fn chain_candidates(layers: Seq<LayerNodes>, count: int) -> Seq<NodeCandidate>
    decreases count,
{
    if count <= 0 {
        Seq::empty()
    } else {
        chain_candidates(layers, count - 1) + layer_candidates(layers[count - 1], (count - 1) as u64)
    }
}

fn push_candidates(
    candidates: &mut Vec<NodeCandidate>,
    nodes: Vec<PlacedNode>,
    depth: u64,
    source: u8,
    collection: i64,
)
    ensures
        final(candidates)@ == old(candidates)@ + as_candidates(nodes@, depth, source, collection),
{
    let ghost before = candidates@;
    let ghost all = nodes@;
    let ghost added = as_candidates(all, depth, source, collection);
    for placed in it: nodes
        invariant
            it.seq() == all,
            added == as_candidates(all, depth, source, collection),
            candidates@ == before + added.take(it.index() as int),
    {
        assert(placed == all[it.index() as int]);
        let place = NodePlace {
            layer_depth: depth,
            source_order: source,
            collection_order: collection,
            item_order: placed.order,
        };
        candidates.push(NodeCandidate { node: placed.node, place });
        assert(candidates@ =~= before + added.take(it.index() + 1));
    }
    assert(added.take(added.len() as int) =~= added);
}

/// The nodes that the layers of a chain hold, each with its place. The layers are listed
/// from the snapshot down.
pub fn node_candidates(layers: Vec<LayerNodes>) -> (result: Vec<NodeCandidate>)
    ensures
        result@ == chain_candidates(layers@, layers@.len() as int),
{
    let ghost all = layers@;
    let mut candidates: Vec<NodeCandidate> = Vec::new();
    let mut depth: usize = 0;
    let count: usize = layers.len();
    for layer in it: layers
        invariant
            it.seq() == all,
            all.len() == count,
            depth == it.index(),
            candidates@ == chain_candidates(all, it.index() as int),
    {
        assert(layer == all[it.index() as int]);
        let ghost before = candidates@;
        let at: u64 = depth as u64;
        let ghost sessions = layer.session_nodes@;
        push_candidates(&mut candidates, layer.scan_nodes, at, 0, 0);
        push_candidates(&mut candidates, layer.build_nodes, at, 1, 0);
        let ghost ground = candidates@;
        for session in inner: layer.session_nodes
            invariant
                inner.seq() == sessions,
                candidates@ == ground + session_candidates(sessions, at, inner.index() as int),
        {
            assert(session == sessions[inner.index() as int]);
            push_candidates(&mut candidates, session.nodes, at, 2, session.order);
            assert(candidates@ =~= ground + session_candidates(sessions, at, inner.index() + 1));
        }
        assert(candidates@ =~= before + layer_candidates(layer, at));
        depth = depth + 1;
    }
    candidates
}

// ---------------------------------------------------------------------------------------
// Integrity
// ---------------------------------------------------------------------------------------

/// What was found of one snapshot of the chain from which nodes are taken.
#[derive(Debug, Clone)]
pub struct NodeLayer {
    /// The scan of the snapshot is there.
    pub scan_exists: bool,
    /// The nodes of the scan, where the snapshot only re-states its parent.
    pub overlay_nodes: Vec<NodeSummaryRecord>,
    /// The properties of these nodes can be read.
    pub overlay_properties_readable: bool,
    /// The build that the layer adds completed on its scan and left a readable delta.
    pub build_readable: bool,
    /// The sessions that the layer adds are all there, with readable nodes.
    pub sessions_readable: bool,
}

/// Whether a candidate is the node with an identity under a layer.
pub open spec fn is_below(candidates: Seq<NodeCandidate>, depth: u64, id: Seq<char>, i: int) -> bool {
    0 <= i < candidates.len() && candidates[i].node.id@ == id && candidates[i].place.layer_depth > depth
}

/// Whether a candidate is the node in effect with an identity under a layer.
pub open spec fn is_effective_below(candidates: Seq<NodeCandidate>, depth: u64, id: Seq<char>, i: int) -> bool {
    &&& is_below(candidates, depth, id, i)
    &&& forall|j: int| #[trigger]
        is_below(candidates, depth, id, j) ==> !goes_before(places_of(candidates), j, i)
}

/// Whether the node in effect under a layer has the same kind, locator and name.
pub open spec fn is_restated(candidates: Seq<NodeCandidate>, depth: u64, node: NodeSummaryRecord) -> bool {
    exists|i: int| #[trigger]
        is_effective_below(candidates, depth, node.id@, i) && candidates[i].node.kind@ == node.kind@
            && candidates[i].node.locator@ == node.locator@ && candidates[i].node.display_name@
            == node.display_name@
}

proof fn effective_below_is_unique(candidates: Seq<NodeCandidate>, depth: u64, id: Seq<char>, a: int, b: int)
    requires
        is_effective_below(candidates, depth, id, a),
        is_effective_below(candidates, depth, id, b),
    ensures
        a == b,
{
    let keys = places_of(candidates);
    assert(is_below(candidates, depth, id, a));
    assert(is_below(candidates, depth, id, b));
    if a < b {
        assert(!goes_before(keys, a, b));
    } else if b < a {
        assert(!goes_before(keys, b, a));
    }
}

fn restates(candidates: &Vec<NodeCandidate>, depth: u64, node: &NodeSummaryRecord) -> (result: bool)
    ensures
        result == is_restated(candidates@, depth, *node),
{
    let ghost all = candidates@;
    let ghost keys = places_of(all);
    let ghost id = node.id@;
    let mut best: Option<usize> = None;
    let mut i: usize = 0;
    while i < candidates.len()
        invariant
            i <= candidates.len(),
            all == candidates@,
            keys == places_of(all),
            id == node.id@,
            match best {
                None => forall|j: int| 0 <= j < i ==> !#[trigger] is_below(all, depth, id, j),
                Some(b) => b < i && is_below(all, depth, id, b as int) && forall|j: int|
                    0 <= j < i && #[trigger] is_below(all, depth, id, j) ==> !goes_before(keys, j, b as int),
            },
        decreases candidates.len() - i,
    {
        if candidates[i].node.id == node.id && candidates[i].place.layer_depth > depth {
            assert(is_below(all, depth, id, i as int));
            proof {
                NodePlace::before_is_irreflexive(keys[i as int]);
            }
            match best {
                None => {
                    best = Some(i);
                },
                Some(b) => if NodePlace::is_before(&candidates[i].place, &candidates[b].place) {
                    proof {
                        assert(goes_before(keys, i as int, b as int));
                        assert forall|j: int|
                            0 <= j < i + 1 && #[trigger] is_below(all, depth, id, j) implies !goes_before(
                            keys,
                            j,
                            i as int,
                        ) by {
                            if j < i && goes_before(keys, j, i as int) {
                                goes_before_is_transitive(keys, j, i as int, b as int);
                            }
                        }
                    }
                    best = Some(i);
                },
            }
        } else {
            assert(!is_below(all, depth, id, i as int));
        }
        i = i + 1;
    }
    match best {
        None => {
            assert forall|j: int| !#[trigger] is_effective_below(all, depth, id, j) by {
                if is_effective_below(all, depth, id, j) {
                    assert(is_below(all, depth, id, j));
                }
            }
            false
        },
        Some(b) => {
            assert forall|j: int| #[trigger] is_below(all, depth, id, j) implies !goes_before(
                keys,
                j,
                b as int,
            ) by {}
            assert(is_effective_below(all, depth, id, b as int));
            proof {
                assert forall|j: int| #[trigger] is_effective_below(all, depth, id, j) implies j == b by {
                    effective_below_is_unique(all, depth, id, j, b as int);
                }
            }
            let below = &candidates[b].node;
            below.kind == node.kind && below.locator == node.locator && below.display_name == node.display_name
        },
    }
}

/// Whether one layer is intact; `added` are the sessions that it adds.
pub open spec fn layer_is_intact(
    facts: SnapshotFacts,
    added: Seq<Seq<char>>,
    layer: NodeLayer,
    depth: u64,
    candidates: Seq<NodeCandidate>,
) -> bool {
    &&& layer.scan_exists
    &&& is_overlay(facts) ==> {
        &&& opt_text(facts.record.parent_snapshot_id) == opt_text(facts.scan_parent_snapshot_id)
        &&& layer.overlay_nodes@.len() == 1
        &&& layer.overlay_properties_readable
        &&& is_restated(candidates, depth, layer.overlay_nodes@[0])
    }
    &&& layer.build_readable
    &&& ascending(added)
    &&& layer.sessions_readable
}

fn check_layer(
    facts: &SnapshotFacts,
    parent: Option<&CompletedSnapshotRecord>,
    layer: &NodeLayer,
    depth: u64,
    candidates: &Vec<NodeCandidate>,
) -> (result: bool)
    ensures
        result == layer_is_intact(
            *facts,
            new_sessions_of(
                texts(facts.record.runtime_session_ids@),
                match parent {
                    Some(parent) => texts(parent.runtime_session_ids@),
                    None => Seq::empty(),
                },
            ),
            *layer,
            depth,
            candidates@,
        ),
{
    if !layer.scan_exists || !layer.build_readable || !layer.sessions_readable {
        return false;
    }
    let plan = layer_plan(None, &facts.record.runtime_session_ids, parent);
    if !sessions_are_canonical(&plan.new_sessions) {
        return false;
    }
    if !is_semantic_noop(facts) {
        return true;
    }
    same_option(&facts.record.parent_snapshot_id, &facts.scan_parent_snapshot_id) && layer.overlay_nodes.len() == 1
        && layer.overlay_properties_readable && restates(candidates, depth, &layer.overlay_nodes[0])
}

/// Whether the layers from which nodes are taken are intact: the walk over them ended, and
/// each of them is intact. `path` is the walk's path over `facts`, from the snapshot down,
/// and `layers` what was found of each snapshot on it.
pub fn check_node_layers(
    facts: &Vec<SnapshotFacts>,
    path: &Vec<usize>,
    end: WalkEnd,
    layers: &Vec<NodeLayer>,
    candidates: &Vec<NodeCandidate>,
) -> (result: Result<(), SnapshotError>)
    requires
        path.len() == layers.len(),
        forall|i: int| 0 <= i < path.len() ==> (#[trigger] path@[i]) < facts.len(),
    ensures
        result == if path@.len() == 0 {
            Err::<(), _>(SnapshotError::NotFound)
        } else if end == WalkEnd::End && forall|i: int|
            0 <= i < path@.len() ==> layer_is_intact(
                facts@[#[trigger] path@[i] as int],
                sessions_added(facts@, path@, i),
                layers@[i],
                i as u64,
                candidates@,
            ) {
            Ok(())
        } else {
            Err(SnapshotError::NotValid)
        },
{
    if path.len() == 0 {
        return Err(SnapshotError::NotFound);
    }
    if end != WalkEnd::End {
        return Err(SnapshotError::NotValid);
    }
    let mut i: usize = 0;
    while i < path.len()
        invariant
            i <= path.len(),
            path.len() > 0,
            path.len() == layers.len(),
            end == WalkEnd::End,
            forall|i: int| 0 <= i < path.len() ==> (#[trigger] path@[i]) < facts.len(),
            forall|k: int|
                0 <= k < i ==> layer_is_intact(
                    facts@[#[trigger] path@[k] as int],
                    sessions_added(facts@, path@, k),
                    layers@[k],
                    k as u64,
                    candidates@,
                ),
        decreases path.len() - i,
    {
        let parent: Option<&CompletedSnapshotRecord> = if i + 1 < path.len() {
            Some(&facts[path[i + 1]].record)
        } else {
            None
        };
        if !check_layer(&facts[path[i]], parent, &layers[i], i as u64, candidates) {
            assert(!layer_is_intact(
                facts@[path@[i as int] as int],
                sessions_added(facts@, path@, i as int),
                layers@[i as int],
                i as u64,
                candidates@,
            ));
            return Err(SnapshotError::NotValid);
        }
        i = i + 1;
    }
    Ok(())
}

// ---------------------------------------------------------------------------------------
// Laws
// ---------------------------------------------------------------------------------------

/// No identity is found twice.
pub proof fn found_once(
    candidates: Seq<NodeCandidate>,
    query: Seq<char>,
    mode: NodeTextMatch,
    kinds: Seq<Seq<char>>,
    a: int,
    b: int,
)
    requires
        0 <= a < b < candidates.len(),
        is_found(candidates, query, mode, kinds)(a),
        is_found(candidates, query, mode, kinds)(b),
    ensures
        candidates[a].node.id@ != candidates[b].node.id@,
{
    let keys = places_of(candidates);
    if candidates[a].node.id@ == candidates[b].node.id@ {
        assert(!goes_before(keys, a, b));
        assert(!goes_before(keys, b, a));
    }
}

/// Two pages that follow each other show what one page of both would show, and count the
/// same.
pub proof fn pages_join<T>(items: Seq<T>, offset: int, a: int, b: int, first: StorePage<T>, next: StorePage<T>)
    requires
        0 <= offset,
        0 <= a,
        0 <= b,
        is_page_of(items, offset, a, first),
        is_page_of(items, offset + a, b, next),
    ensures
        first.items@ + next.items@ == items.subrange(
            least(offset, items.len() as int),
            least(offset + a + b, items.len() as int),
        ),
        first.total_items == next.total_items,
{
    assert(first.items@ + next.items@ =~= items.subrange(
        least(offset, items.len() as int),
        least(offset + a + b, items.len() as int),
    ));
}

} // verus!

//! What a search for nodes shows, said of the texts and the places of the nodes themselves.

use vstd::prelude::*;

use crate::counting::{sorted_keys_ascend, sorted_lists_hold_the_items};
use crate::node_page::{
    answers_search, found_nodes, found_once, is_effective, is_found, is_page_of, least, places_of, summary_ids,
    NodeCandidate, NodePlace,
};
use crate::order::{collect_holds_the_kept_items, is_stable_sort, kept_items_stand_in_order, selected_from, selections_are_counted};
use crate::records::{NodeSummaryRecord, NodeTextMatch, StorePage};
use crate::snapshots::SnapshotError;
use crate::sort::{goes_before, Ranked};
use crate::text::{holds_part, stands_at, text_lt};

verus! {

/// Whether one of the four texts of a node is as asked for.
pub open spec fn some_text(node: NodeSummaryRecord, is_wanted: spec_fn(Seq<char>) -> bool) -> bool {
    is_wanted(node.id@) || is_wanted(node.kind@) || is_wanted(node.locator@) || is_wanted(node.display_name@)
}

/// Every node that an exact search shows has the query for its identity, its kind, its locator
/// or its name. Of every node that a prefix search shows one of these is at least as long as the
/// query and begins with it. Of every node that a search for a part shows one of these holds the
/// query, character by character, from some place on.
pub proof fn shown_nodes_hold_the_query(
    candidates: Seq<NodeCandidate>,
    query: Seq<char>,
    mode: NodeTextMatch,
    kinds: Seq<Seq<char>>,
    offset: int,
    limit: int,
    result: Result<StorePage<NodeSummaryRecord>, SnapshotError>,
    k: int,
)
    requires
        answers_search(candidates, query, mode, kinds, offset, limit, result),
        0 <= offset,
        0 <= limit,
        candidates.len() <= usize::MAX,
        result is Ok,
        0 <= k < result->Ok_0.items@.len(),
    ensures
        ({
            let node = result->Ok_0.items@[k];
            &&& mode == NodeTextMatch::Exact ==> some_text(node, |text: Seq<char>| text == query)
            &&& mode == NodeTextMatch::Prefix ==> some_text(
                node,
                |text: Seq<char>|
                    query.len() <= text.len() && forall|c: int|
                        0 <= c < query.len() ==> #[trigger] text[c] == query[c],
            )
            &&& mode == NodeTextMatch::Contains ==> some_text(
                node,
                |text: Seq<char>|
                    exists|place: int|
                        0 <= place && place + query.len() <= text.len() && #[trigger] text.subrange(
                            place,
                            place + query.len(),
                        ) == query,
            )
            &&& kinds.len() > 0 ==> kinds.contains(node.kind@)
        }),
{
    let i = shown_node_is_found(candidates, query, mode, kinds, offset, limit, result, k);
    let node = candidates[i].node;
    if mode == NodeTextMatch::Prefix {
        prefix_is_shared(node.id@, query);
        prefix_is_shared(node.kind@, query);
        prefix_is_shared(node.locator@, query);
        prefix_is_shared(node.display_name@, query);
    }
    if mode == NodeTextMatch::Contains {
        part_is_held(node.id@, query);
        part_is_held(node.kind@, query);
        part_is_held(node.locator@, query);
        part_is_held(node.display_name@, query);
    }
}

proof fn prefix_is_shared(text: Seq<char>, query: Seq<char>)
    ensures
        stands_at(text, query, 0) <==> query.len() <= text.len() && forall|c: int|
            0 <= c < query.len() ==> #[trigger] text[c] == query[c],
{
    if stands_at(text, query, 0) {
        assert forall|c: int| 0 <= c < query.len() implies #[trigger] text[c] == query[c] by {
            assert(text.subrange(0, query.len() as int)[c] == query[c]);
        }
    }
    if query.len() <= text.len() && forall|c: int| 0 <= c < query.len() ==> #[trigger] text[c] == query[c] {
        assert(text.subrange(0, query.len() as int) =~= query);
    }
}

proof fn part_is_held(text: Seq<char>, query: Seq<char>)
    ensures
        holds_part(text, query) <==> exists|place: int|
            0 <= place && place + query.len() <= text.len() && #[trigger] text.subrange(place, place + query.len())
                == query,
{
    if holds_part(text, query) {
        let place = choose|place: int| #[trigger] stands_at(text, query, place);
        assert(text.subrange(place, place + query.len()) == query);
    }
    if exists|place: int|
        0 <= place && place + query.len() <= text.len() && #[trigger] text.subrange(place, place + query.len())
            == query {
        let place = choose|place: int|
            0 <= place && place + query.len() <= text.len() && #[trigger] text.subrange(place, place + query.len())
                == query;
        assert(stands_at(text, query, place));
    }
}

proof fn shown_node_is_found(
    candidates: Seq<NodeCandidate>,
    query: Seq<char>,
    mode: NodeTextMatch,
    kinds: Seq<Seq<char>>,
    offset: int,
    limit: int,
    result: Result<StorePage<NodeSummaryRecord>, SnapshotError>,
    k: int,
) -> (i: int)
    requires
        answers_search(candidates, query, mode, kinds, offset, limit, result),
        0 <= offset,
        0 <= limit,
        candidates.len() <= usize::MAX,
        result is Ok,
        0 <= k < result->Ok_0.items@.len(),
    ensures
        0 <= i < candidates.len(),
        is_found(candidates, query, mode, kinds)(i),
        candidates[i].node == result->Ok_0.items@[k],
{
    let found = found_nodes(candidates, query, mode, kinds);
    let sorted = choose|sorted: Seq<NodeSummaryRecord>|
        result is Ok && #[trigger] is_stable_sort(found, summary_ids(found), sorted) && is_page_of(
            sorted,
            offset,
            limit,
            result->Ok_0,
        );
    let count = candidates.len() as int;
    let keep = is_found(candidates, query, mode, kinds);
    let item = |i: int| candidates[i].node;
    found_are_few(candidates, query, mode, kinds);
    sorted_lists_hold_the_items(found, summary_ids(found), sorted);
    let node = result->Ok_0.items@[k];
    assert(node == sorted[least(offset, sorted.len() as int) + k]);
    assert(sorted.contains(node));
    collect_holds_the_kept_items(count, keep, item, node);
    choose|i: int| 0 <= i < count && #[trigger] keep(i) && item(i) == node
}

proof fn found_are_few(
    candidates: Seq<NodeCandidate>,
    query: Seq<char>,
    mode: NodeTextMatch,
    kinds: Seq<Seq<char>>,
)
    ensures
        found_nodes(candidates, query, mode, kinds).len() <= candidates.len(),
{
    let count = candidates.len() as int;
    let keep = is_found(candidates, query, mode, kinds);
    selections_are_counted(count, keep, |i: int| candidates[i].node);
    crate::order::count_of_is_bounded(count, keep);
}

/// Every node that a search shows is a candidate, and no candidate with its identity stands in a
/// deeper layer, nor in its layer in an earlier source, nor in its source in an earlier
/// collection, nor in its collection in an earlier place.
pub proof fn shown_nodes_are_in_effect(
    candidates: Seq<NodeCandidate>,
    query: Seq<char>,
    mode: NodeTextMatch,
    kinds: Seq<Seq<char>>,
    offset: int,
    limit: int,
    result: Result<StorePage<NodeSummaryRecord>, SnapshotError>,
    k: int,
)
    requires
        answers_search(candidates, query, mode, kinds, offset, limit, result),
        0 <= offset,
        0 <= limit,
        candidates.len() <= usize::MAX,
        result is Ok,
        0 <= k < result->Ok_0.items@.len(),
    ensures
        exists|i: int|
            0 <= i < candidates.len() && (#[trigger] candidates[i]).node == result->Ok_0.items@[k] && forall|j: int|
                0 <= j < candidates.len() && (#[trigger] candidates[j]).node.id@ == candidates[i].node.id@ ==> {
                    let own = candidates[i].place;
                    let other = candidates[j].place;
                    &&& other.layer_depth <= own.layer_depth
                    &&& other.layer_depth == own.layer_depth ==> other.source_order >= own.source_order
                    &&& other.layer_depth == own.layer_depth && other.source_order == own.source_order
                        ==> other.collection_order >= own.collection_order
                    &&& other.layer_depth == own.layer_depth && other.source_order == own.source_order
                        && other.collection_order == own.collection_order ==> other.item_order >= own.item_order
                },
{
    let i = shown_node_is_found(candidates, query, mode, kinds, offset, limit, result, k);
    assert(candidates[i].node == result->Ok_0.items@[k]);
    assert forall|j: int|
        0 <= j < candidates.len() && (#[trigger] candidates[j]).node.id@ == candidates[i].node.id@ implies {
        let own = candidates[i].place;
        let other = candidates[j].place;
        &&& other.layer_depth <= own.layer_depth
        &&& other.layer_depth == own.layer_depth ==> other.source_order >= own.source_order
        &&& other.layer_depth == own.layer_depth && other.source_order == own.source_order ==> other.collection_order
            >= own.collection_order
        &&& other.layer_depth == own.layer_depth && other.source_order == own.source_order && other.collection_order
            == own.collection_order ==> other.item_order >= own.item_order
    } by {
        assert(!goes_before(places_of(candidates), j, i));
        assert(!NodePlace::before(places_of(candidates)[j], places_of(candidates)[i]));
    }
}

proof fn found_identities_differ(
    candidates: Seq<NodeCandidate>,
    query: Seq<char>,
    mode: NodeTextMatch,
    kinds: Seq<Seq<char>>,
)
    ensures
        summary_ids(found_nodes(candidates, query, mode, kinds)).no_duplicates(),
{
    let count = candidates.len() as int;
    let keep = is_found(candidates, query, mode, kinds);
    let item = |i: int| candidates[i].node;
    let found = found_nodes(candidates, query, mode, kinds);
    let ids = summary_ids(found);
    selections_are_counted(count, keep, item);
    assert forall|a: int, b: int| 0 <= a < ids.len() && 0 <= b < ids.len() && a != b implies ids[a] != ids[b] by {
        let i = selected_from(count, keep, a);
        let j = selected_from(count, keep, b);
        kept_items_stand_in_order(count, keep, item, i);
        kept_items_stand_in_order(count, keep, item, j);
        if i < j {
            found_once(candidates, query, mode, kinds, i, j);
        } else {
            found_once(candidates, query, mode, kinds, j, i);
        }
    }
}

/// A page shows nodes by ascending identity, each once, no more than asked for and all that are
/// left where fewer are left; what comes after the last node is an empty page. Every page of a
/// search counts the same nodes.
pub proof fn pages_are_in_order(
    candidates: Seq<NodeCandidate>,
    query: Seq<char>,
    mode: NodeTextMatch,
    kinds: Seq<Seq<char>>,
    offset: int,
    limit: int,
    result: Result<StorePage<NodeSummaryRecord>, SnapshotError>,
)
    requires
        answers_search(candidates, query, mode, kinds, offset, limit, result),
        0 <= offset,
        0 <= limit,
        candidates.len() <= usize::MAX,
        result is Ok,
    ensures
        ({
            let page = result->Ok_0;
            &&& forall|a: int, b: int|
                0 <= a < b < page.items@.len() ==> text_lt((#[trigger] page.items@[a]).id@, (
                #[trigger] page.items@[b]).id@)
            &&& offset + limit <= page.total_items ==> page.items@.len() == limit
            &&& offset <= page.total_items < offset + limit ==> page.items@.len() == page.total_items - offset
            &&& page.total_items < offset ==> page.items@.len() == 0
        }),
{
    let found = found_nodes(candidates, query, mode, kinds);
    let sorted = choose|sorted: Seq<NodeSummaryRecord>|
        result is Ok && #[trigger] is_stable_sort(found, summary_ids(found), sorted) && is_page_of(
            sorted,
            offset,
            limit,
            result->Ok_0,
        );
    found_identities_differ(candidates, query, mode, kinds);
    sorted_keys_ascend(found, summary_ids(found), |node: NodeSummaryRecord| node.id@, sorted);
    let page = result->Ok_0;
    let from = least(offset, sorted.len() as int);
    assert forall|a: int, b: int| 0 <= a < b < page.items@.len() implies text_lt((#[trigger] page.items@[a]).id@, (
    #[trigger] page.items@[b]).id@) by {
        assert(page.items@[a] == sorted[from + a] && page.items@[b] == sorted[from + b]);
    }
}

/// A node that no other with its identity stands before, of a kind that is asked for, with a text
/// that is the query, begins with it or holds it, is on the page that shows everything.
pub proof fn matching_nodes_are_shown(
    candidates: Seq<NodeCandidate>,
    query: Seq<char>,
    mode: NodeTextMatch,
    kinds: Seq<Seq<char>>,
    limit: int,
    result: Result<StorePage<NodeSummaryRecord>, SnapshotError>,
    i: int,
)
    requires
        answers_search(candidates, query, mode, kinds, 0, limit, result),
        0 <= limit,
        candidates.len() <= usize::MAX,
        result is Ok,
        limit >= result->Ok_0.total_items,
        0 <= i < candidates.len(),
        forall|j: int|
            0 <= j < candidates.len() && j != i ==> (#[trigger] candidates[j]).node.id@ != candidates[i].node.id@,
        kinds.len() == 0 || kinds.contains(candidates[i].node.kind@),
        match mode {
            NodeTextMatch::Exact => some_text(candidates[i].node, |text: Seq<char>| text == query),
            NodeTextMatch::Prefix => some_text(
                candidates[i].node,
                |text: Seq<char>|
                    query.len() <= text.len() && forall|c: int|
                        0 <= c < query.len() ==> #[trigger] text[c] == query[c],
            ),
            NodeTextMatch::Contains => some_text(
                candidates[i].node,
                |text: Seq<char>|
                    exists|place: int|
                        0 <= place && place + query.len() <= text.len() && #[trigger] text.subrange(
                            place,
                            place + query.len(),
                        ) == query,
            ),
        },
    ensures
        result->Ok_0.items@.contains(candidates[i].node),
{
    let node = candidates[i].node;
    prefix_is_shared(node.id@, query);
    prefix_is_shared(node.kind@, query);
    prefix_is_shared(node.locator@, query);
    prefix_is_shared(node.display_name@, query);
    part_is_held(node.id@, query);
    part_is_held(node.kind@, query);
    part_is_held(node.locator@, query);
    part_is_held(node.display_name@, query);
    assert(is_effective(candidates, i));
    let found = found_nodes(candidates, query, mode, kinds);
    let sorted = choose|sorted: Seq<NodeSummaryRecord>|
        result is Ok && #[trigger] is_stable_sort(found, summary_ids(found), sorted) && is_page_of(
            sorted,
            0,
            limit,
            result->Ok_0,
        );
    let count = candidates.len() as int;
    let keep = is_found(candidates, query, mode, kinds);
    let item = |i: int| candidates[i].node;
    assert(keep(i));
    collect_holds_the_kept_items(count, keep, item, node);
    assert(item(i) == node);
    found_are_few(candidates, query, mode, kinds);
    sorted_lists_hold_the_items(found, summary_ids(found), sorted);
    assert(found.contains(node));
    assert(sorted.contains(node));
    assert(result->Ok_0.items@ =~= sorted);
}

/// A search asks for at least one node, and neither its first place nor its length is greater
/// than a store can count; every other search is answered with a page.
pub proof fn searches_are_answered(
    candidates: Seq<NodeCandidate>,
    query: Seq<char>,
    mode: NodeTextMatch,
    kinds: Seq<Seq<char>>,
    offset: int,
    limit: int,
    result: Result<StorePage<NodeSummaryRecord>, SnapshotError>,
)
    requires
        answers_search(candidates, query, mode, kinds, offset, limit, result),
        0 <= offset,
        0 <= limit,
    ensures
        result is Ok <==> 0 < limit <= 0x7fff_ffff_ffff_ffff && offset <= 0x7fff_ffff_ffff_ffff,
        limit == 0 <==> result is Err && result->Err_0 == SnapshotError::PageEmpty,
{
}

} // verus!

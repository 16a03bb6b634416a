//! What the graph of a snapshot with its sessions holds and counts.

use vstd::prelude::*;

use crate::counting::{kept_is_wanted, same_items_count_alike, sorted_keys_ascend, sorted_lists_hold_the_items};
use crate::coverage::{is_status, site_statuses};
use crate::keyed::{
    adding_keeps_and_holds, each_once, holds, identities, latest_of, place_of, Held, Identified,
};
use crate::matrix_refresh::model_ids;
use crate::order::{is_stable_sort, last_position_is_last, views};
use crate::records::{
    DiagnosticModel, EdgeRecord, EvidenceModel, GraphSnapshot, NodeRecord, ProfileRecord, SiteModel, SiteRecord,
};
use crate::runtime_merge::{
    are_session_places, graph_of, merges_sessions, numbered_by_owner, owner_start, same_owner, with_diagnostics,
    with_session, with_sessions, MergedGraph, NumberedDiagnostics, SessionPlace,
};
use crate::runtime_session::{RuntimeDeltaModel, RuntimeError, RuntimeSessionDelta};
use crate::snapshot_laws::ranked_lists_hold_the_items;
use crate::sort::is_ranked_sort;
use crate::text::{text_lt, text_lt_irreflexive, text_lt_total};

verus! {

/// Of the graph that merging sessions gives, the coverage counts the sites, each resolution for
/// itself, and the profiles.
pub proof fn merged_coverage_counts_the_sites(
    snapshot: GraphSnapshot,
    runtime_session_ids: Seq<Seq<char>>,
    deltas: Seq<RuntimeSessionDelta>,
    after: GraphSnapshot,
)
    requires
        merges_sessions(snapshot, runtime_session_ids, deltas, Ok(after)),
        after.sites@.len() <= u64::MAX,
        after.profiles@.len() <= u64::MAX,
    ensures
        after.coverage.dependency_sites == after.sites@.len(),
        after.coverage.resolved == after.sites@.filter(
            |site: SiteRecord| site.resolution_status@ == "resolved"@,
        ).len(),
        after.coverage.candidates == after.sites@.filter(
            |site: SiteRecord| site.resolution_status@ == "candidates"@,
        ).len(),
        after.coverage.external == after.sites@.filter(
            |site: SiteRecord| site.resolution_status@ == "external"@,
        ).len(),
        after.coverage.unresolved == after.sites@.filter(
            |site: SiteRecord| site.resolution_status@ == "unresolved"@,
        ).len(),
        after.coverage.profiles == after.profiles@.len(),
{
    let sites = after.sites@;
    let statuses = site_statuses(sites);
    kept_is_wanted(sites, |site: SiteRecord| site.resolution_status@ == "resolved"@, is_status(statuses, "resolved"@));
    kept_is_wanted(
        sites,
        |site: SiteRecord| site.resolution_status@ == "candidates"@,
        is_status(statuses, "candidates"@),
    );
    kept_is_wanted(sites, |site: SiteRecord| site.resolution_status@ == "external"@, is_status(statuses, "external"@));
    kept_is_wanted(
        sites,
        |site: SiteRecord| site.resolution_status@ == "unresolved"@,
        is_status(statuses, "unresolved"@),
    );
    sites.lemma_filter_len(|site: SiteRecord| site.resolution_status@ == "resolved"@);
    sites.lemma_filter_len(|site: SiteRecord| site.resolution_status@ == "candidates"@);
    sites.lemma_filter_len(|site: SiteRecord| site.resolution_status@ == "external"@);
    sites.lemma_filter_len(|site: SiteRecord| site.resolution_status@ == "unresolved"@);
    let graph = with_sessions(graph_of(snapshot), deltas, deltas.len() as int)->Ok_0;
    assert(views(after.profiles@).len() == graph.profiles.len());
}

/// Whether a list holds all that another held, in its place.
pub open spec fn grows<V>(before: Seq<V>, after: Seq<V>) -> bool {
    before.len() <= after.len() && forall|i: int| 0 <= i < before.len() ==> #[trigger] after[i] == before[i]
}

proof fn latest_of_apart_is_all<T: Identified>(items: Seq<T::V>, count: int)
    requires
        each_once::<T>(items),
        0 <= count <= items.len(),
    ensures
        latest_of::<T>(items, count) == items.take(count),
    decreases count,
{
    if count > 0 {
        latest_of_apart_is_all::<T>(items, count - 1);
        let earlier = items.take(count - 1);
        let ids = identities::<T>(earlier);
        let own = T::identity(items[count - 1]);
        last_position_is_last(ids, own, ids.len() as int);
        if place_of::<T>(earlier, own) is Some {
            let p = place_of::<T>(earlier, own)->0;
            assert(ids[p] == T::identity(items[p]));
            assert(T::identity(items[p]) != T::identity(items[count - 1]));
        }
        assert(earlier.push(items[count - 1]) =~= items.take(count));
    } else {
        assert(latest_of::<T>(items, 0) =~= items.take(0));
    }
}

proof fn session_keeps_the_graph(graph: MergedGraph, delta: RuntimeDeltaModel, session: int)
    requires
        each_once::<NodeRecord>(graph.nodes),
        each_once::<SiteRecord>(graph.sites),
        each_once::<EdgeRecord>(graph.edges),
        with_session(graph, delta, session) is Ok,
    ensures
        ({
            let after = with_session(graph, delta, session)->Ok_0;
            &&& each_once::<NodeRecord>(after.nodes)
            &&& each_once::<SiteRecord>(after.sites)
            &&& each_once::<EdgeRecord>(after.edges)
            &&& grows(graph.profiles, after.profiles)
            &&& grows(graph.nodes, after.nodes)
            &&& grows(graph.sites, after.sites)
            &&& grows(graph.edges, after.edges)
            &&& forall|i: int| 0 <= i < delta.nodes.len() ==> holds::<NodeRecord>(after.nodes, #[trigger] delta.nodes[i])
            &&& forall|i: int| 0 <= i < delta.sites.len() ==> holds::<SiteRecord>(after.sites, #[trigger] delta.sites[i])
            &&& forall|i: int| 0 <= i < delta.edges.len() ==> holds::<EdgeRecord>(after.edges, #[trigger] delta.edges[i])
        }),
{
    adding_keeps_and_holds::<NodeRecord>(graph.nodes, delta.nodes, delta.nodes.len() as int);
    adding_keeps_and_holds::<SiteRecord>(graph.sites, delta.sites, delta.sites.len() as int);
    adding_keeps_and_holds::<EdgeRecord>(graph.edges, delta.edges, delta.edges.len() as int);
}

proof fn held_items_stay<T: Held>(before: Seq<T::V>, after: Seq<T::V>, item: T::V)
    requires
        grows(before, after),
        holds::<T>(before, item),
    ensures
        holds::<T>(after, item),
{
    let i = choose|i: int| 0 <= i < before.len() && T::value(#[trigger] before[i]) == T::value(item);
    assert(T::value(after[i]) == T::value(item));
}

proof fn sessions_keep_the_graph(graph: MergedGraph, deltas: Seq<RuntimeSessionDelta>, count: int)
    requires
        each_once::<NodeRecord>(graph.nodes),
        each_once::<SiteRecord>(graph.sites),
        each_once::<EdgeRecord>(graph.edges),
        0 <= count <= deltas.len(),
        with_sessions(graph, deltas, count) is Ok,
    ensures
        ({
            let after = with_sessions(graph, deltas, count)->Ok_0;
            &&& each_once::<NodeRecord>(after.nodes)
            &&& each_once::<SiteRecord>(after.sites)
            &&& each_once::<EdgeRecord>(after.edges)
            &&& grows(graph.profiles, after.profiles)
            &&& grows(graph.nodes, after.nodes)
            &&& grows(graph.sites, after.sites)
            &&& grows(graph.edges, after.edges)
            &&& forall|d: int, i: int|
                0 <= d < count && 0 <= i < deltas[d]@.nodes.len() ==> holds::<NodeRecord>(
                    after.nodes,
                    #[trigger] deltas[d]@.nodes[i],
                )
            &&& forall|d: int, i: int|
                0 <= d < count && 0 <= i < deltas[d]@.sites.len() ==> holds::<SiteRecord>(
                    after.sites,
                    #[trigger] deltas[d]@.sites[i],
                )
            &&& forall|d: int, i: int|
                0 <= d < count && 0 <= i < deltas[d]@.edges.len() ==> holds::<EdgeRecord>(
                    after.edges,
                    #[trigger] deltas[d]@.edges[i],
                )
        }),
    decreases count,
{
    if count > 0 {
        sessions_keep_the_graph(graph, deltas, count - 1);
        let earlier = with_sessions(graph, deltas, count - 1)->Ok_0;
        let after = with_sessions(graph, deltas, count)->Ok_0;
        session_keeps_the_graph(earlier, deltas[count - 1]@, count - 1);
        assert forall|d: int, i: int| 0 <= d < count && 0 <= i < deltas[d]@.nodes.len() implies holds::<NodeRecord>(
            after.nodes,
            #[trigger] deltas[d]@.nodes[i],
        ) by {
            if d < count - 1 {
                held_items_stay::<NodeRecord>(earlier.nodes, after.nodes, deltas[d]@.nodes[i]);
            }
        }
        assert forall|d: int, i: int| 0 <= d < count && 0 <= i < deltas[d]@.sites.len() implies holds::<SiteRecord>(
            after.sites,
            #[trigger] deltas[d]@.sites[i],
        ) by {
            if d < count - 1 {
                held_items_stay::<SiteRecord>(earlier.sites, after.sites, deltas[d]@.sites[i]);
            }
        }
        assert forall|d: int, i: int| 0 <= d < count && 0 <= i < deltas[d]@.edges.len() implies holds::<EdgeRecord>(
            after.edges,
            #[trigger] deltas[d]@.edges[i],
        ) by {
            if d < count - 1 {
                held_items_stay::<EdgeRecord>(earlier.edges, after.edges, deltas[d]@.edges[i]);
            }
        }
    }
}

/// A snapshot whose records have identities of their own loses none of them to its sessions: the
/// merged graph holds every profile, node, site and edge of the snapshot as it was, and every
/// node, site and edge of every session by value. What is no part of a session's graph stays.
pub proof fn merging_keeps_the_snapshot(
    snapshot: GraphSnapshot,
    runtime_session_ids: Seq<Seq<char>>,
    deltas: Seq<RuntimeSessionDelta>,
    after: GraphSnapshot,
)
    requires
        merges_sessions(snapshot, runtime_session_ids, deltas, Ok(after)),
        each_once::<ProfileRecord>(views(snapshot.profiles@)),
        each_once::<NodeRecord>(views(snapshot.nodes@)),
        each_once::<SiteRecord>(views(snapshot.sites@)),
        each_once::<EdgeRecord>(views(snapshot.edges@)),
        after.profiles@.len() <= usize::MAX,
        after.nodes@.len() <= usize::MAX,
        after.sites@.len() <= usize::MAX,
        after.edges@.len() <= usize::MAX,
    ensures
        forall|i: int|
            0 <= i < snapshot.profiles@.len() ==> views(after.profiles@).contains((#[trigger] snapshot.profiles@[i])@),
        forall|i: int|
            0 <= i < snapshot.nodes@.len() ==> views(after.nodes@).contains((#[trigger] snapshot.nodes@[i])@),
        forall|i: int|
            0 <= i < snapshot.sites@.len() ==> views(after.sites@).contains((#[trigger] snapshot.sites@[i])@),
        forall|i: int|
            0 <= i < snapshot.edges@.len() ==> views(after.edges@).contains((#[trigger] snapshot.edges@[i])@),
        forall|d: int, i: int|
            0 <= d < deltas.len() && 0 <= i < deltas[d]@.nodes.len() ==> holds::<NodeRecord>(
                views(after.nodes@),
                #[trigger] deltas[d]@.nodes[i],
            ),
        forall|d: int, i: int|
            0 <= d < deltas.len() && 0 <= i < deltas[d]@.sites.len() ==> holds::<SiteRecord>(
                views(after.sites@),
                #[trigger] deltas[d]@.sites[i],
            ),
        forall|d: int, i: int|
            0 <= d < deltas.len() && 0 <= i < deltas[d]@.edges.len() ==> holds::<EdgeRecord>(
                views(after.edges@),
                #[trigger] deltas[d]@.edges[i],
            ),
        forall|i: int, j: int|
            0 <= i < j < after.nodes@.len() ==> text_lt((#[trigger] after.nodes@[i]).id@, (
            #[trigger] after.nodes@[j]).id@),
        forall|i: int, j: int|
            0 <= i < j < after.sites@.len() ==> text_lt((#[trigger] after.sites@[i]).id@, (
            #[trigger] after.sites@[j]).id@),
        forall|i: int, j: int|
            0 <= i < j < after.edges@.len() ==> text_lt((#[trigger] after.edges@[i]).id@, (
            #[trigger] after.edges@[j]).id@),
        after.scan == snapshot.scan,
        after.file_coverage == snapshot.file_coverage,
        after.adapter_logs == snapshot.adapter_logs,
        after.profile_matrix == snapshot.profile_matrix,
{
    let start = graph_of(snapshot);
    let graph = with_sessions(start, deltas, deltas.len() as int)->Ok_0;
    snapshot_is_its_graph(snapshot);
    sessions_keep_the_graph(start, deltas, deltas.len() as int);
    assert(views(after.profiles@).len() == graph.profiles.len());
    sorted_lists_hold_the_items(graph.profiles, identities::<ProfileRecord>(graph.profiles), views(after.profiles@));
    sorted_records_are_in_order::<NodeRecord>(graph.nodes, views(after.nodes@));
    sorted_records_are_in_order::<SiteRecord>(graph.sites, views(after.sites@));
    sorted_records_are_in_order::<EdgeRecord>(graph.edges, views(after.edges@));
    assert forall|i: int| 0 <= i < snapshot.profiles@.len() implies views(after.profiles@).contains(
        (#[trigger] snapshot.profiles@[i])@,
    ) by {
        assert(graph.profiles[i] == views(snapshot.profiles@)[i]);
        assert(graph.profiles.contains(snapshot.profiles@[i]@));
    }
    assert forall|i: int| 0 <= i < snapshot.nodes@.len() implies views(after.nodes@).contains(
        (#[trigger] snapshot.nodes@[i])@,
    ) by {
        assert(graph.nodes[i] == views(snapshot.nodes@)[i]);
        assert(graph.nodes.contains(snapshot.nodes@[i]@));
    }
    assert forall|i: int| 0 <= i < snapshot.sites@.len() implies views(after.sites@).contains(
        (#[trigger] snapshot.sites@[i])@,
    ) by {
        assert(graph.sites[i] == views(snapshot.sites@)[i]);
        assert(graph.sites.contains(snapshot.sites@[i]@));
    }
    assert forall|i: int| 0 <= i < snapshot.edges@.len() implies views(after.edges@).contains(
        (#[trigger] snapshot.edges@[i])@,
    ) by {
        assert(graph.edges[i] == views(snapshot.edges@)[i]);
        assert(graph.edges.contains(snapshot.edges@[i]@));
    }
    assert forall|d: int, i: int| 0 <= d < deltas.len() && 0 <= i < deltas[d]@.nodes.len() implies holds::<NodeRecord>(
        views(after.nodes@),
        #[trigger] deltas[d]@.nodes[i],
    ) by {
        sorting_keeps_what_is_held::<NodeRecord>(graph.nodes, views(after.nodes@), deltas[d]@.nodes[i]);
    }
    assert forall|d: int, i: int| 0 <= d < deltas.len() && 0 <= i < deltas[d]@.sites.len() implies holds::<SiteRecord>(
        views(after.sites@),
        #[trigger] deltas[d]@.sites[i],
    ) by {
        sorting_keeps_what_is_held::<SiteRecord>(graph.sites, views(after.sites@), deltas[d]@.sites[i]);
    }
    assert forall|d: int, i: int| 0 <= d < deltas.len() && 0 <= i < deltas[d]@.edges.len() implies holds::<EdgeRecord>(
        views(after.edges@),
        #[trigger] deltas[d]@.edges[i],
    ) by {
        sorting_keeps_what_is_held::<EdgeRecord>(graph.edges, views(after.edges@), deltas[d]@.edges[i]);
    }
    assert forall|i: int, j: int| 0 <= i < j < after.nodes@.len() implies text_lt((#[trigger] after.nodes@[i]).id@, (
    #[trigger] after.nodes@[j]).id@) by {
        assert(views(after.nodes@)[i].id == after.nodes@[i].id@ && views(after.nodes@)[j].id == after.nodes@[j].id@);
    }
    assert forall|i: int, j: int| 0 <= i < j < after.sites@.len() implies text_lt((#[trigger] after.sites@[i]).id@, (
    #[trigger] after.sites@[j]).id@) by {
        assert(views(after.sites@)[i].id == after.sites@[i].id@ && views(after.sites@)[j].id == after.sites@[j].id@);
    }
    assert forall|i: int, j: int| 0 <= i < j < after.edges@.len() implies text_lt((#[trigger] after.edges@[i]).id@, (
    #[trigger] after.edges@[j]).id@) by {
        assert(views(after.edges@)[i].id == after.edges@[i].id@ && views(after.edges@)[j].id == after.edges@[j].id@);
    }
}

proof fn sorted_records_are_in_order<T: Identified>(items: Seq<T::V>, sorted: Seq<T::V>)
    requires
        is_stable_sort(items, identities::<T>(items), sorted),
        each_once::<T>(items),
        sorted.len() <= usize::MAX,
    ensures
        sorted.len() == items.len(),
        forall|x: T::V| #[trigger] sorted.contains(x) <==> items.contains(x),
        forall|i: int, j: int|
            0 <= i < j < sorted.len() ==> text_lt(T::identity(#[trigger] sorted[i]), T::identity(#[trigger] sorted[j])),
{
    let ids = identities::<T>(items);
    assert(ids.no_duplicates()) by {
        assert forall|i: int, j: int| 0 <= i < ids.len() && 0 <= j < ids.len() && i != j implies ids[i] != ids[j] by {
            if i < j {
                assert(T::identity(items[i]) != T::identity(items[j]));
            } else {
                assert(T::identity(items[j]) != T::identity(items[i]));
            }
        }
    }
    assert(sorted.len() == items.len());
    sorted_lists_hold_the_items(items, ids, sorted);
    sorted_keys_ascend(items, ids, |item: T::V| T::identity(item), sorted);
}

proof fn sorting_keeps_what_is_held<T: Held>(items: Seq<T::V>, sorted: Seq<T::V>, item: T::V)
    requires
        forall|x: T::V| #[trigger] sorted.contains(x) <==> items.contains(x),
        holds::<T>(items, item),
    ensures
        holds::<T>(sorted, item),
{
    let i = choose|i: int| 0 <= i < items.len() && T::value(#[trigger] items[i]) == T::value(item);
    assert(items.contains(items[i]));
    assert(sorted.contains(items[i]));
    let p = choose|p: int| 0 <= p < sorted.len() && sorted[p] == items[i];
    assert(T::value(sorted[p]) == T::value(item));
}

proof fn snapshot_is_its_graph(snapshot: GraphSnapshot)
    requires
        each_once::<ProfileRecord>(views(snapshot.profiles@)),
        each_once::<NodeRecord>(views(snapshot.nodes@)),
        each_once::<SiteRecord>(views(snapshot.sites@)),
        each_once::<EdgeRecord>(views(snapshot.edges@)),
    ensures
        graph_of(snapshot).profiles == views(snapshot.profiles@),
        graph_of(snapshot).nodes == views(snapshot.nodes@),
        graph_of(snapshot).sites == views(snapshot.sites@),
        graph_of(snapshot).edges == views(snapshot.edges@),
{
    latest_of_apart_is_all::<ProfileRecord>(views(snapshot.profiles@), snapshot.profiles@.len() as int);
    latest_of_apart_is_all::<NodeRecord>(views(snapshot.nodes@), snapshot.nodes@.len() as int);
    latest_of_apart_is_all::<SiteRecord>(views(snapshot.sites@), snapshot.sites@.len() as int);
    latest_of_apart_is_all::<EdgeRecord>(views(snapshot.edges@), snapshot.edges@.len() as int);
    assert(views(snapshot.profiles@).take(snapshot.profiles@.len() as int) =~= views(snapshot.profiles@));
    assert(views(snapshot.nodes@).take(snapshot.nodes@.len() as int) =~= views(snapshot.nodes@));
    assert(views(snapshot.sites@).take(snapshot.sites@.len() as int) =~= views(snapshot.sites@));
    assert(views(snapshot.edges@).take(snapshot.edges@.len() as int) =~= views(snapshot.edges@));
}

proof fn views_count_alike(sites: Seq<SiteRecord>, status: Seq<char>, wanted: spec_fn(SiteRecord) -> bool)
    requires
        forall|site: SiteRecord| #[trigger] wanted(site) == (site.resolution_status@ == status),
    ensures
        sites.filter(wanted).len() == views(sites).filter(
            |site: SiteModel| site.resolution_status == status,
        ).len(),
{
    let keep = |i: int| sites[i].resolution_status@ == status;
    kept_is_wanted(sites, wanted, keep);
    assert forall|i: int| 0 <= i < views(sites).len() implies #[trigger] keep(i) == (|site: SiteModel|
        site.resolution_status == status)(views(sites)[i]) by {
        assert(views(sites)[i] == sites[i]@);
    }
    kept_is_wanted(views(sites), |site: SiteModel| site.resolution_status == status, keep);
}

/// A snapshot whose coverage counts its sites by their resolutions, as that of an accepted scan
/// does, keeps the four counters where its sessions add no site.
pub proof fn merging_no_site_keeps_the_counters(
    snapshot: GraphSnapshot,
    runtime_session_ids: Seq<Seq<char>>,
    deltas: Seq<RuntimeSessionDelta>,
    after: GraphSnapshot,
)
    requires
        merges_sessions(snapshot, runtime_session_ids, deltas, Ok(after)),
        each_once::<ProfileRecord>(views(snapshot.profiles@)),
        each_once::<NodeRecord>(views(snapshot.nodes@)),
        each_once::<SiteRecord>(views(snapshot.sites@)),
        each_once::<EdgeRecord>(views(snapshot.edges@)),
        after.sites@.len() == snapshot.sites@.len() <= usize::MAX,
        after.profiles@.len() <= u64::MAX,
        snapshot.coverage.resolved == snapshot.sites@.filter(
            |site: SiteRecord| site.resolution_status@ == "resolved"@,
        ).len(),
        snapshot.coverage.candidates == snapshot.sites@.filter(
            |site: SiteRecord| site.resolution_status@ == "candidates"@,
        ).len(),
        snapshot.coverage.external == snapshot.sites@.filter(
            |site: SiteRecord| site.resolution_status@ == "external"@,
        ).len(),
        snapshot.coverage.unresolved == snapshot.sites@.filter(
            |site: SiteRecord| site.resolution_status@ == "unresolved"@,
        ).len(),
    ensures
        after.coverage.resolved == snapshot.coverage.resolved,
        after.coverage.candidates == snapshot.coverage.candidates,
        after.coverage.external == snapshot.coverage.external,
        after.coverage.unresolved == snapshot.coverage.unresolved,
{
    merged_coverage_counts_the_sites(snapshot, runtime_session_ids, deltas, after);
    let start = graph_of(snapshot);
    let graph = with_sessions(start, deltas, deltas.len() as int)->Ok_0;
    snapshot_is_its_graph(snapshot);
    sessions_keep_the_graph(start, deltas, deltas.len() as int);
    let old = views(snapshot.sites@);
    let new = views(after.sites@);
    sorted_records_are_in_order::<SiteRecord>(graph.sites, new);
    assert(graph.sites =~= old);
    assert(old.no_duplicates()) by {
        assert forall|i: int, j: int| 0 <= i < old.len() && 0 <= j < old.len() && i != j implies old[i] != old[j] by {
            if i < j {
                assert(SiteRecord::identity(old[i]) != SiteRecord::identity(old[j]));
            } else {
                assert(SiteRecord::identity(old[j]) != SiteRecord::identity(old[i]));
            }
        }
    }
    assert(new.no_duplicates()) by {
        assert forall|i: int, j: int| 0 <= i < new.len() && 0 <= j < new.len() && i != j implies new[i] != new[j] by {
            crate::text::text_lt_irreflexive(SiteRecord::identity(new[i]));
            if i < j {
                assert(text_lt(SiteRecord::identity(new[i]), SiteRecord::identity(new[j])));
            } else {
                assert(text_lt(SiteRecord::identity(new[j]), SiteRecord::identity(new[i])));
            }
        }
    }
    counters_agree(
        snapshot.sites@,
        after.sites@,
        "resolved"@,
        |site: SiteRecord| site.resolution_status@ == "resolved"@,
    );
    counters_agree(
        snapshot.sites@,
        after.sites@,
        "candidates"@,
        |site: SiteRecord| site.resolution_status@ == "candidates"@,
    );
    counters_agree(
        snapshot.sites@,
        after.sites@,
        "external"@,
        |site: SiteRecord| site.resolution_status@ == "external"@,
    );
    counters_agree(
        snapshot.sites@,
        after.sites@,
        "unresolved"@,
        |site: SiteRecord| site.resolution_status@ == "unresolved"@,
    );
}

proof fn counters_agree(
    a: Seq<SiteRecord>,
    b: Seq<SiteRecord>,
    status: Seq<char>,
    wanted: spec_fn(SiteRecord) -> bool,
)
    requires
        forall|site: SiteRecord| #[trigger] wanted(site) == (site.resolution_status@ == status),
        views(a).no_duplicates(),
        views(b).no_duplicates(),
        forall|x: SiteModel| #[trigger] views(b).contains(x) <==> views(a).contains(x),
    ensures
        a.filter(wanted).len() == b.filter(wanted).len(),
{
    views_count_alike(a, status, wanted);
    views_count_alike(b, status, wanted);
    same_items_count_alike(views(b), views(a), |site: SiteModel| site.resolution_status == status);
}

/// Sessions are merged only in ascending order of their identities, each once.
pub proof fn merged_sessions_ascend(
    snapshot: GraphSnapshot,
    runtime_session_ids: Seq<Seq<char>>,
    deltas: Seq<RuntimeSessionDelta>,
    result: Result<GraphSnapshot, RuntimeError>,
)
    requires
        merges_sessions(snapshot, runtime_session_ids, deltas, result),
    ensures
        result is Ok ==> forall|i: int, j: int|
            0 <= i < j < runtime_session_ids.len() ==> text_lt(
                #[trigger] runtime_session_ids[i],
                #[trigger] runtime_session_ids[j],
            ),
        deltas.len() == 0 && (forall|i: int, j: int|
            0 <= i < j < runtime_session_ids.len() ==> text_lt(
                #[trigger] runtime_session_ids[i],
                #[trigger] runtime_session_ids[j],
            )) ==> result is Ok,
{
}

/// A session whose node, site or edge has the identity of one of the snapshot and is another is not
/// merged.
pub proof fn sessions_that_contradict_the_snapshot_are_refused(
    snapshot: GraphSnapshot,
    runtime_session_ids: Seq<Seq<char>>,
    deltas: Seq<RuntimeSessionDelta>,
    result: Result<GraphSnapshot, RuntimeError>,
    d: int,
    i: int,
    j: int,
)
    requires
        merges_sessions(snapshot, runtime_session_ids, deltas, result),
        each_once::<ProfileRecord>(views(snapshot.profiles@)),
        each_once::<NodeRecord>(views(snapshot.nodes@)),
        each_once::<SiteRecord>(views(snapshot.sites@)),
        each_once::<EdgeRecord>(views(snapshot.edges@)),
        result matches Ok(after) ==> after.profiles@.len() <= usize::MAX && after.nodes@.len() <= usize::MAX
            && after.sites@.len() <= usize::MAX && after.edges@.len() <= usize::MAX,
        0 <= d < deltas.len(),
    ensures
        0 <= i < deltas[d].nodes@.len() && 0 <= j < snapshot.nodes@.len() && deltas[d].nodes@[i].id@
            == snapshot.nodes@[j].id@ && (deltas[d].nodes@[i].kind@ != snapshot.nodes@[j].kind@
            || deltas[d].nodes@[i].locator@ != snapshot.nodes@[j].locator@ || deltas[d].nodes@[i].display_name@
            != snapshot.nodes@[j].display_name@) ==> result is Err,
        0 <= i < deltas[d].sites@.len() && 0 <= j < snapshot.sites@.len() && deltas[d].sites@[i].id@
            == snapshot.sites@[j].id@ && (deltas[d].sites@[i].resolution_status@
            != snapshot.sites@[j].resolution_status@ || deltas[d].sites@[i].profile_id@
            != snapshot.sites@[j].profile_id@ || deltas[d].sites@[i].source@ != snapshot.sites@[j].source@
            || deltas[d].sites@[i].condition@.value() != snapshot.sites@[j].condition@.value()) ==> result is Err,
        0 <= i < deltas[d].edges@.len() && 0 <= j < snapshot.edges@.len() && deltas[d].edges@[i].id@
            == snapshot.edges@[j].id@ && (deltas[d].edges@[i].source@ != snapshot.edges@[j].source@
            || deltas[d].edges@[i].target@ != snapshot.edges@[j].target@ || deltas[d].edges@[i].phase@
            != snapshot.edges@[j].phase@ || deltas[d].edges@[i].condition@.value()
            != snapshot.edges@[j].condition@.value()) ==> result is Err,
{
    if let Ok(after) = result {
        merging_keeps_the_snapshot(snapshot, runtime_session_ids, deltas, after);
        let model = deltas[d]@;
        if 0 <= i < deltas[d].nodes@.len() && 0 <= j < snapshot.nodes@.len() && deltas[d].nodes@[i].id@
            == snapshot.nodes@[j].id@ {
            let all = views(after.nodes@);
            assert(model.nodes[i] == deltas[d].nodes@[i]@);
            assert(holds::<NodeRecord>(all, model.nodes[i]));
            assert(all.contains(snapshot.nodes@[j]@));
            let p = choose|p: int| 0 <= p < all.len() && NodeRecord::value(#[trigger] all[p]) == NodeRecord::value(
                model.nodes[i],
            );
            let q = choose|q: int| 0 <= q < all.len() && all[q] == snapshot.nodes@[j]@;
            assert(all[p] == after.nodes@[p]@ && all[q] == after.nodes@[q]@);
            text_lt_irreflexive(all[p].id);
            assert(all[p].id == all[q].id);
            if p < q {
                assert(text_lt(after.nodes@[p].id@, after.nodes@[q].id@));
            } else if q < p {
                assert(text_lt(after.nodes@[q].id@, after.nodes@[p].id@));
            }
        }
        if 0 <= i < deltas[d].sites@.len() && 0 <= j < snapshot.sites@.len() && deltas[d].sites@[i].id@
            == snapshot.sites@[j].id@ {
            let all = views(after.sites@);
            assert(model.sites[i] == deltas[d].sites@[i]@);
            assert(holds::<SiteRecord>(all, model.sites[i]));
            assert(all.contains(snapshot.sites@[j]@));
            let p = choose|p: int| 0 <= p < all.len() && SiteRecord::value(#[trigger] all[p]) == SiteRecord::value(
                model.sites[i],
            );
            let q = choose|q: int| 0 <= q < all.len() && all[q] == snapshot.sites@[j]@;
            assert(all[p] == after.sites@[p]@ && all[q] == after.sites@[q]@);
            text_lt_irreflexive(all[p].id);
            assert(all[p].id == all[q].id);
            if p < q {
                assert(text_lt(after.sites@[p].id@, after.sites@[q].id@));
            } else if q < p {
                assert(text_lt(after.sites@[q].id@, after.sites@[p].id@));
            }
        }
        if 0 <= i < deltas[d].edges@.len() && 0 <= j < snapshot.edges@.len() && deltas[d].edges@[i].id@
            == snapshot.edges@[j].id@ {
            let all = views(after.edges@);
            assert(model.edges[i] == deltas[d].edges@[i]@);
            assert(holds::<EdgeRecord>(all, model.edges[i]));
            assert(all.contains(snapshot.edges@[j]@));
            let p = choose|p: int| 0 <= p < all.len() && EdgeRecord::value(#[trigger] all[p]) == EdgeRecord::value(
                model.edges[i],
            );
            let q = choose|q: int| 0 <= q < all.len() && all[q] == snapshot.edges@[j]@;
            assert(all[p] == after.edges@[p]@ && all[q] == after.edges@[q]@);
            text_lt_irreflexive(all[p].id);
            assert(all[p].id == all[q].id);
            if p < q {
                assert(text_lt(after.edges@[p].id@, after.edges@[q].id@));
            } else if q < p {
                assert(text_lt(after.edges@[q].id@, after.edges@[p].id@));
            }
        }
    }
}

/// The evidence of a snapshot and of the first of its sessions, in order.
pub open spec fn evidence_with_sessions(
    snapshot: GraphSnapshot,
    deltas: Seq<RuntimeSessionDelta>,
    count: int,
) -> Seq<EvidenceModel>
    decreases count,
{
    if count <= 0 {
        views(snapshot.evidence@)
    } else {
        evidence_with_sessions(snapshot, deltas, count - 1) + views(deltas[count - 1].evidence@)
    }
}

proof fn evidence_is_gathered(snapshot: GraphSnapshot, deltas: Seq<RuntimeSessionDelta>, count: int)
    requires
        0 <= count <= deltas.len(),
        with_sessions(graph_of(snapshot), deltas, count) is Ok,
    ensures
        with_sessions(graph_of(snapshot), deltas, count)->Ok_0.evidence == evidence_with_sessions(
            snapshot,
            deltas,
            count,
        ),
    decreases count,
{
    if count > 0 {
        evidence_is_gathered(snapshot, deltas, count - 1);
    }
}

/// The merged graph holds every piece of evidence of the snapshot and of its sessions, each as it was
/// but for its number.
pub proof fn merging_keeps_the_evidence(
    snapshot: GraphSnapshot,
    runtime_session_ids: Seq<Seq<char>>,
    deltas: Seq<RuntimeSessionDelta>,
    after: GraphSnapshot,
    e: int,
)
    requires
        merges_sessions(snapshot, runtime_session_ids, deltas, Ok(after)),
        after.evidence@.len() <= usize::MAX,
    ensures
        after.evidence@.len() == evidence_with_sessions(snapshot, deltas, deltas.len() as int).len(),
        0 <= e < after.evidence@.len() ==> exists|k: int|
            0 <= k < after.evidence@.len() && ({
                let kept = (#[trigger] after.evidence@[k])@;
                kept == (EvidenceModel {
                    ordinal: kept.ordinal,
                    ..evidence_with_sessions(snapshot, deltas, deltas.len() as int)[e]
                })
            }),
{
    let count = deltas.len() as int;
    evidence_is_gathered(snapshot, deltas, count);
    let all = evidence_with_sessions(snapshot, deltas, count);
    let result = views(after.evidence@);
    let (places, sorted) = choose|places: Seq<SessionPlace>, sorted: Seq<EvidenceModel>|
        are_session_places(places, all) && #[trigger] is_ranked_sort(all, places, sorted) && result
            == numbered_by_owner(sorted);
    assert(result.len() == after.evidence@.len());
    let order = choose|order: Seq<usize>| #[trigger]
        crate::sort::is_rank_order(places, order) && sorted == Seq::new(order.len(), |i: int| all[order[i] as int]);
    assert(all.len() == result.len());
    ranked_lists_hold_the_items(all, places, sorted);
    if 0 <= e < after.evidence@.len() {
        assert(all.contains(all[e]));
        assert(sorted.contains(all[e]));
        let k = choose|k: int| 0 <= k < sorted.len() && sorted[k] == all[e];
        assert(result[k] == after.evidence@[k]@);
    }
}

/// Merged evidence stands by the kind of its owner, then by its owner, then by its session; and the
/// first of an owner is numbered zero.
pub proof fn merged_evidence_is_in_order(
    snapshot: GraphSnapshot,
    runtime_session_ids: Seq<Seq<char>>,
    deltas: Seq<RuntimeSessionDelta>,
    after: GraphSnapshot,
    i: int,
    j: int,
)
    requires
        merges_sessions(snapshot, runtime_session_ids, deltas, Ok(after)),
        0 <= i < j < after.evidence@.len(),
    ensures
        ({
            let a = after.evidence@[i];
            let b = after.evidence@[j];
            ||| text_lt(a.owner_type@, b.owner_type@)
            ||| a.owner_type@ == b.owner_type@ && text_lt(a.owner_id@, b.owner_id@)
            ||| a.owner_type@ == b.owner_type@ && a.owner_id@ == b.owner_id@
        }),
        j == i + 1 && (after.evidence@[i].owner_type@ != after.evidence@[j].owner_type@
            || after.evidence@[i].owner_id@ != after.evidence@[j].owner_id@) ==> after.evidence@[j].ordinal == 0,
        i == 0 ==> after.evidence@[0].ordinal == 0,
        j == i + 1 && after.evidence@[i].owner_type@ == after.evidence@[j].owner_type@ && after.evidence@[i].owner_id@
            == after.evidence@[j].owner_id@ && j <= i64::MAX ==> after.evidence@[j].ordinal
            == after.evidence@[i].ordinal + 1,
{
    let count = deltas.len() as int;
    evidence_is_gathered(snapshot, deltas, count);
    let all = evidence_with_sessions(snapshot, deltas, count);
    let result = views(after.evidence@);
    let (places, sorted) = choose|places: Seq<SessionPlace>, sorted: Seq<EvidenceModel>|
        are_session_places(places, all) && #[trigger] is_ranked_sort(all, places, sorted) && result
            == numbered_by_owner(sorted);
    assert(result.len() == after.evidence@.len());
    let order = choose|order: Seq<usize>| #[trigger]
        crate::sort::is_rank_order(places, order) && sorted == Seq::new(order.len(), |k: int| all[order[k] as int]);
    assert(crate::sort::goes_before(places, order[i] as int, order[j] as int));
    assert(result[i] == after.evidence@[i]@);
    assert(result[j] == after.evidence@[j]@);
    let x = places[order[i] as int];
    let y = places[order[j] as int];
    text_lt_total(x.owner_type@, y.owner_type@);
    text_lt_total(x.owner_id@, y.owner_id@);
    starts_are_within(sorted, i);
    starts_are_within(sorted, j);
    if i == 0 {
        assert(result[0] == after.evidence@[0]@);
    }
}

proof fn starts_are_within(evidence: Seq<EvidenceModel>, i: int)
    requires
        0 <= i,
    ensures
        0 <= owner_start(evidence, i) <= i,
    decreases i,
{
    if i > 0 && same_owner(evidence[i - 1], evidence[i]) {
        starts_are_within(evidence, i - 1);
    }
}

proof fn diagnostics_stay(
    start: NumberedDiagnostics,
    added: Seq<DiagnosticModel>,
    count: int,
)
    requires
        0 <= count <= added.len(),
        with_diagnostics(start, added, count) is Ok,
    ensures
        start.list.is_prefix_of(with_diagnostics(start, added, count)->Ok_0.list),
        forall|a: int|
            0 <= a < count ==> model_ids(with_diagnostics(start, added, count)->Ok_0.list).contains(
                (#[trigger] added[a]).id,
            ),
    decreases count,
{
    if count > 0 {
        diagnostics_stay(start, added, count - 1);
        let earlier = with_diagnostics(start, added, count - 1)->Ok_0;
        let later = with_diagnostics(start, added, count)->Ok_0;
        let last = added[count - 1];
        let before = model_ids(earlier.list);
        let now = model_ids(later.list);
        last_position_is_last(before, last.id, earlier.list.len() as int);
        assert forall|a: int| 0 <= a < count implies now.contains((#[trigger] added[a]).id) by {
            if a < count - 1 {
                assert(before.contains(added[a].id));
                let k = choose|k: int| 0 <= k < before.len() && before[k] == added[a].id;
                assert(now[k] == added[a].id);
            } else {
                match crate::runtime_merge::diagnostic_place(earlier.list, last.id) {
                    Some(p) => {
                        assert(now[p] == last.id);
                    },
                    None => {
                        assert(now[earlier.list.len() as int] == last.id);
                    },
                }
            }
        }
        assert(later.list.subrange(0, start.list.len() as int) =~= start.list);
    }
}

proof fn diagnostics_of_sessions_stay(snapshot: GraphSnapshot, deltas: Seq<RuntimeSessionDelta>, count: int)
    requires
        0 <= count <= deltas.len(),
        with_sessions(graph_of(snapshot), deltas, count) is Ok,
    ensures
        views(snapshot.diagnostics@).is_prefix_of(
            with_sessions(graph_of(snapshot), deltas, count)->Ok_0.diagnostics.list,
        ),
        forall|d: int, a: int|
            0 <= d < count && 0 <= a < deltas[d].diagnostics@.len() ==> model_ids(
                with_sessions(graph_of(snapshot), deltas, count)->Ok_0.diagnostics.list,
            ).contains((#[trigger] deltas[d].diagnostics@[a]).id@),
    decreases count,
{
    let start = views(snapshot.diagnostics@);
    if count > 0 {
        diagnostics_of_sessions_stay(snapshot, deltas, count - 1);
        let earlier = with_sessions(graph_of(snapshot), deltas, count - 1)->Ok_0.diagnostics;
        let later = with_sessions(graph_of(snapshot), deltas, count)->Ok_0.diagnostics;
        let added = deltas[count - 1]@.diagnostics;
        diagnostics_stay(earlier, added, added.len() as int);
        assert(later.list.subrange(0, start.len() as int) =~= start) by {
            assert forall|k: int| 0 <= k < start.len() implies later.list[k] == start[k] by {
                assert(earlier.list[k] == start[k]);
                assert(later.list.subrange(0, earlier.list.len() as int)[k] == earlier.list[k]);
            }
        }
        let before = model_ids(earlier.list);
        let now = model_ids(later.list);
        assert forall|d: int, a: int| 0 <= d < count && 0 <= a < deltas[d].diagnostics@.len() implies now.contains(
            (#[trigger] deltas[d].diagnostics@[a]).id@,
        ) by {
            if d < count - 1 {
                assert(before.contains(deltas[d].diagnostics@[a].id@));
                let k = choose|k: int| 0 <= k < before.len() && before[k] == deltas[d].diagnostics@[a].id@;
                assert(later.list.subrange(0, earlier.list.len() as int)[k] == earlier.list[k]);
                assert(now[k] == before[k]);
            } else {
                assert(added[a] == deltas[d].diagnostics@[a]@);
                assert(now.contains(added[a].id));
            }
        }
    } else {
        assert(start.subrange(0, start.len() as int) =~= start);
    }
}

/// The merged graph begins with the diagnostics of the snapshot, as they were, and has one for each
/// of a session.
pub proof fn merging_keeps_the_diagnostics(
    snapshot: GraphSnapshot,
    runtime_session_ids: Seq<Seq<char>>,
    deltas: Seq<RuntimeSessionDelta>,
    after: GraphSnapshot,
    i: int,
    d: int,
    a: int,
)
    requires
        merges_sessions(snapshot, runtime_session_ids, deltas, Ok(after)),
    ensures
        after.diagnostics@.len() >= snapshot.diagnostics@.len(),
        0 <= i < snapshot.diagnostics@.len() ==> after.diagnostics@[i]@ == snapshot.diagnostics@[i]@,
        0 <= d < deltas.len() && 0 <= a < deltas[d].diagnostics@.len() ==> exists|k: int|
            0 <= k < after.diagnostics@.len() && (#[trigger] after.diagnostics@[k]).id@
                == deltas[d].diagnostics@[a].id@,
{
    let count = deltas.len() as int;
    diagnostics_of_sessions_stay(snapshot, deltas, count);
    let shown = views(after.diagnostics@);
    let start = views(snapshot.diagnostics@);
    assert(shown.len() == after.diagnostics@.len() && start.len() == snapshot.diagnostics@.len());
    if 0 <= i < snapshot.diagnostics@.len() {
        assert(shown.subrange(0, start.len() as int)[i] == start[i]);
        assert(shown[i] == after.diagnostics@[i]@ && start[i] == snapshot.diagnostics@[i]@);
    }
    if 0 <= d < deltas.len() && 0 <= a < deltas[d].diagnostics@.len() {
        let ids = model_ids(shown);
        assert(ids.contains(deltas[d].diagnostics@[a].id@));
        let k = choose|k: int| 0 <= k < ids.len() && ids[k] == deltas[d].diagnostics@[a].id@;
        assert(shown[k] == after.diagnostics@[k]@);
    }
}

} // verus!

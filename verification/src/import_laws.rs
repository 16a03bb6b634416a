//! That importing a runtime session again, or promoting an import again, gives what the first
//! time gave and changes nothing.

use vstd::prelude::*;

use crate::build_union::node_ids_of;
use crate::matrix_facts::{edge_ids_of, site_ids_of};
use crate::matrix_laws::evidence_orders_agree;
use crate::matrix_refresh::{evidence_models, is_evidence_order};
use crate::order::{
    ascending, ascending_lists_are_determined_by_their_members, before, is_sorted_set, is_stable_order,
    is_stable_sort, sorted_set_is_unique, stable_sort_of_views, views,
};
use crate::records::{CompletedSnapshotRecord, DiagnosticRecord, EdgeModel, NodeModel, SiteModel};
use crate::runtime_import::{
    current_after, is_completed_row, is_import_source, is_new_import, is_new_row, is_outcome, is_promotion_step,
    is_replay, is_result_of, ImportError, PreparedRuntimeImport, PromotionStep, ReplayStep, RuntimeImportMode,
    RuntimeImportRecoveryIdentity, RuntimeImportRow,
};
use crate::runtime_session::{
    same_trace, RuntimeDeltaModel, RuntimeSessionDelta, RuntimeSessionModel, RuntimeSessionRecord,
};
use crate::runtime_union::{are_diagnostic_places, is_diagnostic_order, is_normalized, DiagnosticPlace};
use crate::snapshots::{is_record_of, SnapshotSource};
use crate::sort::{is_rank_order, is_ranked_sort, rank_orders_agree, Ranked};
use crate::text::{opt_text, text_lt, text_lt_irreflexive, texts};

verus! {

// ---------------------------------------------------------------------------------------
// Normal forms
// ---------------------------------------------------------------------------------------

/// The keys of items.
spec fn keyed_by<T>(items: Seq<T>, key: spec_fn(T) -> Seq<char>) -> Seq<Seq<char>> {
    Seq::new(items.len(), |i: int| key(items[i]))
}

/// Whether no two items have the same key.
pub open spec fn are_told_apart<T>(items: Seq<T>, key: spec_fn(T) -> Seq<char>) -> bool {
    forall|i: int, j: int| 0 <= i < j < items.len() ==> key(#[trigger] items[i]) != key(#[trigger] items[j])
}

/// Whether two lists hold the same items, whatever their order.
pub open spec fn hold_the_same<T>(a: Seq<T>, b: Seq<T>) -> bool {
    forall|item: T| #[trigger] a.contains(item) <==> b.contains(item)
}

/// What is sorted by distinct keys stands in strictly ascending order of them, and holds what
/// it held.
proof fn sorted_items_ascend<T>(items: Seq<T>, key: spec_fn(T) -> Seq<char>, sorted: Seq<T>)
    requires
        is_stable_sort(items, keyed_by(items, key), sorted),
        are_told_apart(items, key),
        sorted.len() <= usize::MAX,
    ensures
        ascending(keyed_by(sorted, key)),
        hold_the_same(items, sorted),
{
    let keys = keyed_by(items, key);
    let order = choose|order: Seq<usize>| #[trigger]
        is_stable_order(keys, order) && sorted == Seq::new(order.len(), |i: int| items[order[i] as int]);
    let own = keyed_by(sorted, key);
    assert forall|i: int, j: int| 0 <= i < j < own.len() implies text_lt(
        #[trigger] own[i],
        #[trigger] own[j],
    ) by {
        assert(before(keys, order[i] as int, order[j] as int));
        assert(own[i] == keys[order[i] as int] && own[j] == keys[order[j] as int]);
        if own[i] == own[j] {
            text_lt_irreflexive(own[i]);
            assert(order[i] < order[j]);
            assert(key(items[order[i] as int]) != key(items[order[j] as int]));
        }
    }
    assert forall|item: T| #[trigger] items.contains(item) <==> sorted.contains(item) by {
        if items.contains(item) {
            let p = choose|p: int| 0 <= p < items.len() && items[p] == item;
            assert(order.contains(p as usize));
            let i = choose|i: int| 0 <= i < order.len() && order[i] == p as usize;
            assert(sorted[i] == item);
        }
        if sorted.contains(item) {
            let i = choose|i: int| 0 <= i < sorted.len() && sorted[i] == item;
            assert(items[order[i] as int] == item);
        }
    }
}

/// Sorting by distinct keys gives the same, whatever the order before.
proof fn sorted_items_agree<T>(
    a: Seq<T>,
    b: Seq<T>,
    key: spec_fn(T) -> Seq<char>,
    sorted_a: Seq<T>,
    sorted_b: Seq<T>,
)
    requires
        is_stable_sort(a, keyed_by(a, key), sorted_a),
        is_stable_sort(b, keyed_by(b, key), sorted_b),
        are_told_apart(a, key),
        are_told_apart(b, key),
        hold_the_same(a, b),
        sorted_a.len() <= usize::MAX,
        sorted_b.len() <= usize::MAX,
    ensures
        sorted_a == sorted_b,
{
    sorted_items_ascend(a, key, sorted_a);
    sorted_items_ascend(b, key, sorted_b);
    let keys_a = keyed_by(sorted_a, key);
    let keys_b = keyed_by(sorted_b, key);
    assert forall|x: Seq<char>| keys_a.contains(x) <==> keys_b.contains(x) by {
        if keys_a.contains(x) {
            let i = choose|i: int| 0 <= i < keys_a.len() && keys_a[i] == x;
            assert(sorted_a.contains(sorted_a[i]));
            assert(a.contains(sorted_a[i]));
            assert(b.contains(sorted_a[i]));
            assert(sorted_b.contains(sorted_a[i]));
            let j = choose|j: int| 0 <= j < sorted_b.len() && sorted_b[j] == sorted_a[i];
            assert(keys_b[j] == x);
        }
        if keys_b.contains(x) {
            let i = choose|i: int| 0 <= i < keys_b.len() && keys_b[i] == x;
            assert(sorted_b.contains(sorted_b[i]));
            assert(b.contains(sorted_b[i]));
            assert(a.contains(sorted_b[i]));
            assert(sorted_a.contains(sorted_b[i]));
            let j = choose|j: int| 0 <= j < sorted_a.len() && sorted_a[j] == sorted_b[i];
            assert(keys_a[j] == x);
        }
    }
    ascending_lists_are_determined_by_their_members(keys_a, keys_b);
    assert forall|i: int| 0 <= i < sorted_a.len() implies sorted_a[i] == sorted_b[i] by {
        let item = sorted_a[i];
        assert(sorted_a.contains(item));
        assert(a.contains(item));
        assert(b.contains(item));
        assert(sorted_b.contains(item));
        let j = choose|j: int| 0 <= j < sorted_b.len() && sorted_b[j] == item;
        assert(keys_b[j] == keys_a[i] && keys_b[i] == keys_a[i]);
        text_lt_irreflexive(keys_a[i]);
        if j < i {
            assert(text_lt(keys_b[j], keys_b[i]));
        } else if i < j {
            assert(text_lt(keys_b[i], keys_b[j]));
        }
    }
    assert(keys_a.len() == sorted_a.len() && keys_b.len() == sorted_b.len());
    assert(sorted_a =~= sorted_b);
}

/// Diagnostics that hold the same are put into the same order.
proof fn diagnostic_orders_agree(
    a: Seq<DiagnosticRecord>,
    b: Seq<DiagnosticRecord>,
    sorted_a: Seq<DiagnosticRecord>,
    sorted_b: Seq<DiagnosticRecord>,
)
    requires
        is_diagnostic_order(a, sorted_a),
        is_diagnostic_order(b, sorted_b),
        views(a) == views(b),
        sorted_a.len() <= usize::MAX,
    ensures
        views(sorted_a) == views(sorted_b),
{
    let places = choose|places: Seq<DiagnosticPlace>| #[trigger]
        are_diagnostic_places(places, a) && is_ranked_sort(a, places, sorted_a);
    let others = choose|places: Seq<DiagnosticPlace>| #[trigger]
        are_diagnostic_places(places, b) && is_ranked_sort(b, places, sorted_b);
    let first = choose|order: Seq<usize>| #[trigger]
        is_rank_order(places, order) && sorted_a == Seq::new(order.len(), |i: int| a[order[i] as int]);
    let second = choose|order: Seq<usize>| #[trigger]
        is_rank_order(others, order) && sorted_b == Seq::new(order.len(), |i: int| b[order[i] as int]);
    assert(views(a).len() == a.len() && views(b).len() == b.len());
    assert forall|x: int| 0 <= x < a.len() implies (#[trigger] a[x])@ == b[x]@ by {
        assert(views(a)[x] == views(b)[x]);
    }
    assert forall|x: int, y: int|
        0 <= x < places.len() && 0 <= y < places.len() implies #[trigger] DiagnosticPlace::before(places[x], places[y])
        == DiagnosticPlace::before(others[x], others[y]) by {
        assert(a[x]@ == b[x]@ && a[y]@ == b[y]@);
        assert(places[x].id@ == others[x].id@ && places[y].id@ == others[y].id@);
        assert(places[x].ordinal == others[x].ordinal && places[y].ordinal == others[y].ordinal);
    }
    rank_orders_agree(places, others, first, second);
    assert(views(sorted_a) =~= views(sorted_b));
}

/// The identity of a node.
pub open spec fn node_key() -> spec_fn(NodeModel) -> Seq<char> {
    |node: NodeModel| node.id
}

/// The identity of a site.
pub open spec fn site_key() -> spec_fn(SiteModel) -> Seq<char> {
    |site: SiteModel| site.id
}

/// The identity of an edge.
pub open spec fn edge_key() -> spec_fn(EdgeModel) -> Seq<char> {
    |edge: EdgeModel| edge.id
}

/// Whether no two nodes, sites or edges of a session have the same identity.
pub open spec fn has_distinct_records(delta: RuntimeDeltaModel) -> bool {
    &&& are_told_apart(delta.nodes, node_key())
    &&& are_told_apart(delta.sites, site_key())
    &&& are_told_apart(delta.edges, edge_key())
}

/// Whether two sessions hold the same, but for the time at which they were prepared and for the
/// order of their nodes, sites and edges.
pub open spec fn is_same_observation(a: RuntimeDeltaModel, b: RuntimeDeltaModel) -> bool {
    &&& a.session == (RuntimeSessionModel { created_at: a.session.created_at, ..b.session })
    &&& hold_the_same(a.nodes, b.nodes)
    &&& hold_the_same(a.sites, b.sites)
    &&& hold_the_same(a.edges, b.edges)
    &&& a.evidence == b.evidence
    &&& a.diagnostics == b.diagnostics
}

// ---------------------------------------------------------------------------------------
// Laws
// ---------------------------------------------------------------------------------------

/// Sessions that differ only in the time at which they were prepared and in the order of their
/// nodes, sites and edges have the same trace in normal form.
pub proof fn equal_observations_have_one_trace(
    first: RuntimeSessionDelta,
    normal: RuntimeSessionDelta,
    second: RuntimeSessionDelta,
    normal_again: RuntimeSessionDelta,
)
    requires
        is_normalized(first, normal),
        is_normalized(second, normal_again),
        has_distinct_records(first@),
        has_distinct_records(second@),
        is_same_observation(first@, second@),
    ensures
        same_trace(normal@, normal_again@),
{
    assert(normal.nodes.len() == normal.nodes@.len() && normal_again.nodes.len() == normal_again.nodes@.len());
    assert(normal.sites.len() == normal.sites@.len() && normal_again.sites.len() == normal_again.sites@.len());
    assert(normal.edges.len() == normal.edges@.len() && normal_again.edges.len() == normal_again.edges@.len());
    assert(normal.evidence.len() == normal.evidence@.len());
    assert(normal.diagnostics.len() == normal.diagnostics@.len());
    stable_sort_of_views(first.nodes@, node_ids_of(first.nodes@), normal.nodes@);
    stable_sort_of_views(second.nodes@, node_ids_of(second.nodes@), normal_again.nodes@);
    assert(node_ids_of(first.nodes@) =~= keyed_by(first@.nodes, node_key()));
    assert(node_ids_of(second.nodes@) =~= keyed_by(second@.nodes, node_key()));
    sorted_items_agree(first@.nodes, second@.nodes, node_key(), normal@.nodes, normal_again@.nodes);
    stable_sort_of_views(first.sites@, site_ids_of(first.sites@), normal.sites@);
    stable_sort_of_views(second.sites@, site_ids_of(second.sites@), normal_again.sites@);
    assert(site_ids_of(first.sites@) =~= keyed_by(first@.sites, site_key()));
    assert(site_ids_of(second.sites@) =~= keyed_by(second@.sites, site_key()));
    sorted_items_agree(first@.sites, second@.sites, site_key(), normal@.sites, normal_again@.sites);
    stable_sort_of_views(first.edges@, edge_ids_of(first.edges@), normal.edges@);
    stable_sort_of_views(second.edges@, edge_ids_of(second.edges@), normal_again.edges@);
    assert(edge_ids_of(first.edges@) =~= keyed_by(first@.edges, edge_key()));
    assert(edge_ids_of(second.edges@) =~= keyed_by(second@.edges, edge_key()));
    sorted_items_agree(first@.edges, second@.edges, edge_key(), normal@.edges, normal_again@.edges);
    evidence_lengths(first, normal);
    assert(evidence_models(first.evidence@) =~= first@.evidence);
    assert(evidence_models(second.evidence@) =~= second@.evidence);
    assert(evidence_models(normal.evidence@) =~= normal@.evidence);
    assert(evidence_models(normal_again.evidence@) =~= normal_again@.evidence);
    evidence_orders_agree(first@.evidence, normal@.evidence, normal_again@.evidence);
    diagnostic_orders_agree(
        first.diagnostics@,
        second.diagnostics@,
        normal.diagnostics@,
        normal_again.diagnostics@,
    );
    assert(first@.session.coverage == second@.session.coverage);
    sorted_set_is_unique(
        texts(normal.session.coverage.completeness@),
        texts(normal_again.session.coverage.completeness@),
        texts(first.session.coverage.completeness@),
    );
    sorted_set_is_unique(
        texts(normal.session.coverage.reasons@),
        texts(normal_again.session.coverage.reasons@),
        texts(first.session.coverage.reasons@),
    );
    assert(normal@.session.coverage =~= normal_again@.session.coverage);
    let moved = RuntimeSessionModel { created_at: normal@.session.created_at, ..normal_again@.session };
    assert(normal@.session =~= moved);
}

proof fn evidence_lengths(before: RuntimeSessionDelta, after: RuntimeSessionDelta)
    requires
        is_evidence_order(evidence_models(before.evidence@), evidence_models(after.evidence@)),
    ensures
        before.evidence@.len() == after.evidence@.len(),
{
    assert(evidence_models(before.evidence@).len() == before.evidence@.len());
    assert(evidence_models(after.evidence@).len() == after.evidence@.len());
}

/// The snapshot that an import makes on its base is recognised as its result.
pub proof fn imported_snapshots_are_results(
    import_id: Seq<char>,
    base: CompletedSnapshotRecord,
    session_id: Seq<char>,
    session_ids: Seq<Seq<char>>,
    created_at: Seq<char>,
    source: SnapshotSource,
    snapshot_id: Seq<char>,
    profile_ids: Seq<Seq<char>>,
    record: CompletedSnapshotRecord,
)
    requires
        is_sorted_set(session_ids, texts(base.runtime_session_ids@).push(session_id)),
        is_import_source(import_id, base, session_ids, created_at, source),
        is_record_of(source, snapshot_id, profile_ids, record),
    ensures
        is_result_of(record, import_id, base.id@, session_id),
        record.status@ == "completed"@,
        record.id@ == snapshot_id,
{
    let members = texts(base.runtime_session_ids@).push(session_id);
    assert(members[members.len() - 1] == session_id);
    assert(members.contains(session_id));
    assert(session_ids.contains(session_id));
}

/// A session that is imported again on the same base, prepared at another time and with its
/// nodes, sites and edges in another order, is the import that was completed: it has the
/// outcome of the first import, as one that was there already, and nothing is promoted.
pub proof fn repeated_imports_find_the_first(
    first: RuntimeSessionDelta,
    normal: RuntimeSessionDelta,
    base: CompletedSnapshotRecord,
    import_id: Seq<char>,
    session_ids: Seq<Seq<char>>,
    created_at: Seq<char>,
    source: SnapshotSource,
    snapshot_id: Seq<char>,
    profile_ids: Seq<Seq<char>>,
    record: CompletedSnapshotRecord,
    row: RuntimeImportRow,
    completed: RuntimeImportRow,
    outcome: PreparedRuntimeImport,
    second: RuntimeSessionDelta,
    normal_again: RuntimeSessionDelta,
    stored: RuntimeSessionDelta,
    mode: RuntimeImportMode,
    expected_snapshot_id: Seq<char>,
    again: Result<ReplayStep, ImportError>,
)
    requires
        is_normalized(first, normal),
        is_sorted_set(session_ids, texts(base.runtime_session_ids@).push(normal.session.id@)),
        is_new_row(import_id, base.id@, normal.session.id@, row),
        is_import_source(import_id, base, session_ids, created_at, source),
        is_record_of(source, snapshot_id, profile_ids, record),
        is_completed_row(row, snapshot_id, completed),
        is_new_import(RuntimeImportMode::Immediate, import_id, normal.session, snapshot_id, outcome),
        is_normalized(second, normal_again),
        has_distinct_records(first@),
        has_distinct_records(second@),
        is_same_observation(first@, second@),
        stored@ == normal@,
        is_replay(
            mode,
            import_id,
            base.id@,
            normal_again,
            completed,
            stored,
            Some((&record, true)),
            expected_snapshot_id,
            again,
        ),
    ensures
        normal_again.session.id@ == normal.session.id@,
        again matches Ok(ReplayStep::Completed { prepared }) && !prepared.staged() && is_outcome(
            prepared.outcome(),
            outcome.outcome().import_id@,
            outcome.outcome().session_id@,
            outcome.outcome().snapshot_id@,
            outcome.outcome().status@,
            true,
        ),
        !outcome.staged(),
        !outcome.outcome().deduplicated,
{
    equal_observations_have_one_trace(first, normal, second, normal_again);
    imported_snapshots_are_results(
        import_id,
        base,
        normal.session.id@,
        session_ids,
        created_at,
        source,
        snapshot_id,
        profile_ids,
        record,
    );
    assert(stored@.session == normal@.session);
    assert(stored.session.status@ == normal.session.status@);
    assert(normal@.session.id == normal_again@.session.id);
}

/// An import that was promoted is promoted again to the same outcome: its snapshot is completed
/// and names the import; it is current exactly where its parent was; and what is current stays
/// where it is.
pub proof fn repeated_promotions_change_nothing(
    row: RuntimeImportRow,
    session: RuntimeSessionRecord,
    derived_session_id: &str,
    recovery: Option<&RuntimeImportRecoveryIdentity<'_>>,
    derived_import_id: Option<&str>,
    found: Option<(&CompletedSnapshotRecord, bool)>,
    step: PromotionStep,
    base: CompletedSnapshotRecord,
    session_ids: Seq<Seq<char>>,
    created_at: Seq<char>,
    source: SnapshotSource,
    snapshot_id: Seq<char>,
    profile_ids: Seq<Seq<char>>,
    record: CompletedSnapshotRecord,
    completed: RuntimeImportRow,
    outcome: PreparedRuntimeImport,
    current: Option<Seq<char>>,
    parent_is_valid: bool,
    again: Result<PromotionStep, ImportError>,
)
    requires
        is_promotion_step(
            row,
            session.id@,
            snapshot_id,
            Some((&session, derived_session_id)),
            recovery,
            derived_import_id,
            found,
            true,
            Ok(step),
        ),
        row.status@ == "staging"@,
        base.id@ == row.parent_snapshot_id@,
        is_sorted_set(session_ids, texts(base.runtime_session_ids@).push(row.session_id@)),
        is_import_source(row.id@, base, session_ids, created_at, source),
        is_record_of(source, snapshot_id, profile_ids, record),
        is_completed_row(row, snapshot_id, completed),
        is_new_import(RuntimeImportMode::Immediate, row.id@, session, snapshot_id, outcome),
        is_promotion_step(
            completed,
            session.id@,
            snapshot_id,
            Some((&session, derived_session_id)),
            recovery,
            derived_import_id,
            Some((&record, true)),
            parent_is_valid,
            again,
        ),
    ensures
        step is Create,
        outcome.outcome().snapshot_id@ == snapshot_id,
        record.id@ == snapshot_id,
        record.status@ == "completed"@,
        opt_text(record.runtime_import_id) == Some(row.id@),
        current_after(step, current, base.id@, snapshot_id) == if current == Some(base.id@) {
            Some(snapshot_id)
        } else {
            current
        },
        again is Ok,
        again->Ok_0 matches PromotionStep::Completed { result } && is_outcome(
            result,
            outcome.outcome().import_id@,
            outcome.outcome().session_id@,
            outcome.outcome().snapshot_id@,
            outcome.outcome().status@,
            outcome.outcome().deduplicated,
        ),
        forall|later: Option<Seq<char>>|
            #[trigger] current_after(again->Ok_0, later, base.id@, snapshot_id) == later,
{
    imported_snapshots_are_results(
        row.id@,
        base,
        row.session_id@,
        session_ids,
        created_at,
        source,
        snapshot_id,
        profile_ids,
        record,
    );
    reveal_strlit("staging");
    reveal_strlit("completed");
    assert(row.status@.len() == 7);
}

} // verus!

//! What runtime imports ask for, replay, promote, recover and cancel.

use vstd::prelude::*;

use crate::counting::kept_is_wanted;
use crate::operations::LEGACY_RUNTIME_IMPORT_OWNER_PREFIX;
use crate::order::{first_kept, first_kept_is_first};
use crate::records::CompletedSnapshotRecord;
use crate::runtime_import::{
    cancel_matching_staged_runtime_session_import, cancel_runtime_session_import_for_operation,
    check_import_base, check_import_request, check_owner_attached, check_owner_attachment, check_promoted,
    check_recovery_with_legacy_owner, completed_import_row, count_owners, import_snapshot_source,
    is_other_import, is_other_owner, is_owner, is_staged_import, is_staged_session, moved_current, new_import,
    new_import_row, parent_is_current, promotion_step, reject_reserved_runtime_import_operation_id,
    replay_import, runtime_recovery_trace_matches, session_storage, sessions_with, ImportCancellation,
    ImportError, PreparedRuntimeImport, PromotionStep, ReplayStep, RuntimeImportMode, RuntimeImportOwnerRow,
    RuntimeImportRecoveryIdentity, RuntimeImportRow,
};
use crate::runtime_session::{RuntimeSessionDelta, RuntimeSessionRecord};
use crate::snapshots::SnapshotSource;
use crate::text::{byte_len, opt_text, texts};

verus! {

/// Whether a name is reserved for owners of before operations.
pub open spec fn is_reserved(operation_id: Seq<char>) -> bool {
    let prefix = "__depgraph_reserved_legacy_runtime_import_owner__:"@;
    prefix.len() <= operation_id.len() && operation_id.subrange(0, prefix.len() as int) == prefix
}

proof fn reserved_names_begin_alike(operation_id: Seq<char>)
    ensures
        LEGACY_RUNTIME_IMPORT_OWNER_PREFIX@.is_prefix_of(operation_id) <==> is_reserved(operation_id),
{
}

/// An immediate import has no owner, and a deferred one has an operation for its owner, whose name
/// is not empty, not too long and not reserved; nothing else is an import.
pub proof fn imports_are_owned_where_they_are_deferred(
    mode: RuntimeImportMode,
    operation_id: Option<&str>,
    result: Result<(), ImportError>,
)
    requires
        call_ensures(check_import_request, (mode, operation_id), result),
    ensures
        mode == RuntimeImportMode::Immediate ==> (result is Ok <==> operation_id is None),
        mode == RuntimeImportMode::Deferred ==> (result is Ok <==> operation_id is Some && operation_id->0@.len() > 0
            && byte_len(operation_id->0@) <= 512 && !is_reserved(operation_id->0@)),
        mode == RuntimeImportMode::Deferred && operation_id is None ==> result == Err::<(), _>(
            ImportError::InvalidOwnership,
        ),
        mode == RuntimeImportMode::Immediate && operation_id is Some ==> result == Err::<(), _>(
            ImportError::InvalidOwnership,
        ),
{
    if operation_id is Some {
        reserved_names_begin_alike(operation_id->0@);
    }
}

/// A reserved name is rejected, and only such a name is.
pub proof fn reserved_names_are_rejected(operation_id: &str, result: Result<(), ImportError>)
    requires
        call_ensures(reject_reserved_runtime_import_operation_id, (operation_id,), result),
    ensures
        result is Err <==> is_reserved(operation_id@),
{
    reserved_names_begin_alike(operation_id@);
}

/// A snapshot of an import stands over its base: with the scan, the build and the revision of the
/// base, with the sessions of the base and the new one, under the import.
pub proof fn import_snapshots_stand_over_their_base(
    import_id: &str,
    base: &CompletedSnapshotRecord,
    sessions: Vec<String>,
    created_at: String,
    session_id: &str,
    source: SnapshotSource,
)
    requires
        call_ensures(sessions_with, (&base.runtime_session_ids, session_id), sessions),
        call_ensures(import_snapshot_source, (import_id, base, sessions, created_at), source),
    ensures
        source.source_kind@ == "runtime"@,
        source.source_attempt_id@ == import_id@,
        source.scan_id@ == base.scan_id@,
        opt_text(source.build_attempt_id) == opt_text(base.build_attempt_id),
        opt_text(source.runtime_import_id) == Some(import_id@),
        opt_text(source.parent_snapshot_id) == Some(base.id@),
        opt_text(source.source_revision) == opt_text(base.source_revision),
        source.created_at@ == created_at@,
        forall|id: Seq<char>| #[trigger]
            texts(source.runtime_session_ids@).contains(id) <==> id == session_id@ || texts(
                base.runtime_session_ids@,
            ).contains(id),
        crate::order::ascending(texts(source.runtime_session_ids@)),
{
    let held = texts(base.runtime_session_ids@);
    let all = held.push(session_id@);
    assert forall|id: Seq<char>| #[trigger] texts(source.runtime_session_ids@).contains(id) <==> id == session_id@
        || held.contains(id) by {
        assert(all[held.len() as int] == session_id@);
        if held.contains(id) {
            let i = choose|i: int| 0 <= i < held.len() && held[i] == id;
            assert(all[i] == id);
        }
        if all.contains(id) && id != session_id@ {
            let i = choose|i: int| 0 <= i < all.len() && all[i] == id;
            assert(held[i] == id);
        }
    }
}

/// A session is imported over the snapshot that it was observed on, which is there and valid. A
/// session that the snapshot has already is found again, where it is the same trace of the same
/// source, with the snapshot for its result.
pub proof fn sessions_are_imported_once(
    session: &RuntimeSessionRecord,
    base_snapshot_id: &str,
    base: Option<&CompletedSnapshotRecord>,
    base_is_valid: bool,
    existing: Option<&RuntimeSessionRecord>,
    result: Result<Option<PreparedRuntimeImport>, ImportError>,
)
    requires
        call_ensures(check_import_base, (session, base_snapshot_id, base, base_is_valid, existing), result),
    ensures
        result is Ok ==> session.base_snapshot_id@ == base_snapshot_id@ && base is Some && base_is_valid,
        result is Ok && result->Ok_0 is None <==> session.base_snapshot_id@ == base_snapshot_id@ && base is Some
            && base_is_valid && !texts(base->0.runtime_session_ids@).contains(session.id@),
        result is Ok && result->Ok_0 is Some ==> {
            let found = result->Ok_0->0;
            &&& texts(base->0.runtime_session_ids@).contains(session.id@)
            &&& existing is Some
            &&& existing->0.trace_digest@ == session.trace_digest@
            &&& existing->0.source_session_id@ == session.source_session_id@
            &&& !found.staged()
            &&& found.outcome().deduplicated
            &&& found.outcome().session_id@ == session.id@
            &&& found.outcome().snapshot_id@ == base_snapshot_id@
            &&& found.outcome().status@ == existing->0.status@
            &&& base->0.runtime_import_id is Some ==> found.outcome().import_id@ == base->0.runtime_import_id->0@
            &&& base->0.runtime_import_id is None ==> found.outcome().import_id@ == "runtime-import:deduplicated"@
        },
{
}

/// A repeated import is of the same parent, the same session and the same trace. It finds the
/// result of the first where that completed; where the first is staged, it is promoted at once or
/// gets a further owner.
pub proof fn repeated_imports_are_of_the_same_trace(
    mode: RuntimeImportMode,
    import_id: &str,
    base_snapshot_id: &str,
    delta: &RuntimeSessionDelta,
    row: &RuntimeImportRow,
    stored: &RuntimeSessionDelta,
    snapshot: Option<(&CompletedSnapshotRecord, bool)>,
    expected_snapshot_id: &str,
    result: Result<ReplayStep, ImportError>,
)
    requires
        call_ensures(
            replay_import,
            (mode, import_id, base_snapshot_id, delta, row, stored, snapshot, expected_snapshot_id),
            result,
        ),
        result is Ok,
    ensures
        row.parent_snapshot_id@ == base_snapshot_id@,
        row.session_id@ == delta.session.id@,
        crate::runtime_session::same_trace(stored@, delta@),
        result->Ok_0 matches ReplayStep::Completed { prepared } ==> {
            &&& row.status@ == "completed"@
            &&& row.result_snapshot_id is Some
            &&& snapshot is Some && (snapshot->0).1
            &&& !prepared.staged()
            &&& prepared.outcome().deduplicated
            &&& prepared.outcome().import_id@ == import_id@
            &&& prepared.outcome().session_id@ == row.session_id@
            &&& prepared.outcome().snapshot_id@ == row.result_snapshot_id->0@
            &&& prepared.outcome().status@ == stored.session.status@
        },
        result->Ok_0 is Promote ==> row.status@ == "staging"@ && row.result_snapshot_id is None && mode
            == RuntimeImportMode::Immediate,
        result->Ok_0 matches ReplayStep::Attach { prepared } ==> {
            &&& row.status@ == "staging"@
            &&& row.result_snapshot_id is None
            &&& mode == RuntimeImportMode::Deferred
            &&& prepared.staged()
            &&& !prepared.outcome().deduplicated
            &&& prepared.outcome().snapshot_id@ == expected_snapshot_id@
            &&& prepared.outcome().status@ == stored.session.status@
        },
{
    reveal_strlit("staging");
    reveal_strlit("completed");
    assert("staging"@.len() == 7 && "completed"@.len() == 9);
}

/// A new import is staged where it is deferred, and its row is staging without a result until it
/// completes with one.
pub proof fn new_imports_are_staged_until_they_complete(
    mode: RuntimeImportMode,
    import_id: &str,
    parent_snapshot_id: &str,
    session: &RuntimeSessionRecord,
    session_id: &str,
    snapshot_id: &str,
    prepared: PreparedRuntimeImport,
    row: RuntimeImportRow,
    completed: RuntimeImportRow,
)
    requires
        call_ensures(new_import, (mode, import_id, session, snapshot_id), prepared),
        call_ensures(new_import_row, (import_id, parent_snapshot_id, session_id), row),
        call_ensures(completed_import_row, (&row, snapshot_id), completed),
    ensures
        prepared.staged() <==> mode == RuntimeImportMode::Deferred,
        prepared.outcome().import_id@ == import_id@,
        prepared.outcome().session_id@ == session.id@,
        prepared.outcome().snapshot_id@ == snapshot_id@,
        prepared.outcome().status@ == session.status@,
        !prepared.outcome().deduplicated,
        row.id@ == import_id@,
        row.parent_snapshot_id@ == parent_snapshot_id@,
        row.session_id@ == session_id@,
        row.status@ == "staging"@,
        row.result_snapshot_id is None,
        completed.id@ == import_id@,
        completed.parent_snapshot_id@ == parent_snapshot_id@,
        completed.session_id@ == session_id@,
        completed.status@ == "completed"@,
        opt_text(completed.result_snapshot_id) == Some(snapshot_id@),
{
}

/// A session is stored where it is new, left where it was stored with the same trace, and refused
/// where it was stored with another.
pub proof fn sessions_are_stored_once(existing: Option<&str>, trace: &str, result: Result<bool, ImportError>)
    requires
        call_ensures(session_storage, (existing, trace), result),
    ensures
        existing is None ==> result == Ok::<bool, ImportError>(true),
        existing is Some && existing->0@ == trace@ ==> result == Ok::<bool, ImportError>(false),
        existing is Some && existing->0@ != trace@ ==> result is Err,
{
}

/// A recovery is of the trace that was retained, or, where none was, of the session whose identity
/// its trace gives.
pub proof fn recovered_traces_are_those_retained(
    session_id: &str,
    derived_session_id: &str,
    stored: &str,
    retained: Option<&str>,
    result: bool,
)
    requires
        call_ensures(runtime_recovery_trace_matches, (session_id, derived_session_id, stored, retained), result),
    ensures
        retained is Some ==> (result <==> stored@ == retained->0@),
        retained is None ==> (result <==> derived_session_id@ == session_id@),
{
}

/// What is promoted is a staged import of the expected session whose identity is derived from what
/// it holds, over a valid parent; what was promoted before is found with its result.
pub proof fn staged_imports_are_promoted(
    row: &RuntimeImportRow,
    expected_session_id: &str,
    expected_snapshot_id: &str,
    session: Option<(&RuntimeSessionRecord, &str)>,
    recovery: Option<&RuntimeImportRecoveryIdentity<'_>>,
    derived_import_id: Option<&str>,
    snapshot: Option<(&CompletedSnapshotRecord, bool)>,
    parent_is_valid: bool,
    result: Result<PromotionStep, ImportError>,
)
    requires
        call_ensures(
            promotion_step,
            (
                row,
                expected_session_id,
                expected_snapshot_id,
                session,
                recovery,
                derived_import_id,
                snapshot,
                parent_is_valid,
            ),
            result,
        ),
        result is Ok,
    ensures
        row.session_id@ == expected_session_id@,
        session is Some,
        derived_import_id is Some && derived_import_id->0@ == row.id@,
        recovery is Some ==> {
            &&& row.parent_snapshot_id@ == recovery->0.parent_snapshot_id@
            &&& (session->0).0.base_snapshot_id@ == recovery->0.parent_snapshot_id@
            &&& (session->0).0.status@ == recovery->0.status@
        },
        result->Ok_0 is Create ==> row.status@ == "staging"@ && row.result_snapshot_id is None && parent_is_valid,
        result->Ok_0 matches PromotionStep::Completed { result: found } ==> {
            &&& row.status@ == "completed"@
            &&& opt_text(row.result_snapshot_id) == Some(expected_snapshot_id@)
            &&& snapshot is Some && (snapshot->0).1
            &&& opt_text((snapshot->0).0.parent_snapshot_id) == Some(row.parent_snapshot_id@)
            &&& opt_text((snapshot->0).0.runtime_import_id) == Some(row.id@)
            &&& texts((snapshot->0).0.runtime_session_ids@).contains(row.session_id@)
            &&& found.import_id@ == row.id@
            &&& found.session_id@ == row.session_id@
            &&& found.snapshot_id@ == expected_snapshot_id@
            &&& found.status@ == (session->0).0.status@
            &&& !found.deduplicated
        },
{
    reveal_strlit("staging");
    reveal_strlit("completed");
    assert("staging"@.len() == 7 && "completed"@.len() == 9);
}

/// A recovery goes on exactly where the import is still staged for the same session, parent, trace
/// and status, and the operation, or the owner of before operations, still owns it.
pub proof fn recoveries_are_of_what_is_owned(
    row: &RuntimeImportRow,
    expected_session_id: &str,
    session: &RuntimeSessionRecord,
    derived_session_id: &str,
    recovery: &RuntimeImportRecoveryIdentity<'_>,
    owners: &Vec<RuntimeImportOwnerRow>,
    legacy_owner: &str,
    result: Result<(), ImportError>,
)
    requires
        call_ensures(
            check_recovery_with_legacy_owner,
            (row, expected_session_id, session, derived_session_id, recovery, owners, legacy_owner),
            result,
        ),
    ensures
        result is Ok <==> {
            &&& row.session_id@ == expected_session_id@
            &&& row.status@ == "staging"@
            &&& row.result_snapshot_id is None
            &&& row.parent_snapshot_id@ == recovery.parent_snapshot_id@
            &&& session.base_snapshot_id@ == recovery.parent_snapshot_id@
            &&& session.status@ == recovery.status@
            &&& match recovery.trace_digest {
                Some(retained) => session.trace_digest@ == retained@,
                None => derived_session_id@ == session.id@,
            }
            &&& exists|o: int|
                0 <= o < owners@.len() && (#[trigger] owners@[o]).import_id@ == row.id@ && (owners@[o].operation_id@
                    == recovery.operation_id@ || owners@[o].operation_id@ == legacy_owner@)
        },
{
    let count = owners@.len() as int;
    let own = is_owner(owners@, row.id@, recovery.operation_id@);
    let legacy = is_owner(owners@, row.id@, legacy_owner@);
    if crate::order::count_of(count, own) == 0 {
        crate::order::count_of_none(count, own);
    } else if forall|i: int| 0 <= i < count ==> !#[trigger] own(i) {
        crate::order::count_of_nothing(count, own);
    }
    if crate::order::count_of(count, legacy) == 0 {
        crate::order::count_of_none(count, legacy);
    } else if forall|i: int| 0 <= i < count ==> !#[trigger] legacy(i) {
        crate::order::count_of_nothing(count, legacy);
    }
    if exists|o: int|
        0 <= o < owners@.len() && (#[trigger] owners@[o]).import_id@ == row.id@ && (owners@[o].operation_id@
            == recovery.operation_id@ || owners@[o].operation_id@ == legacy_owner@) {
        let o = choose|o: int|
            0 <= o < owners@.len() && (#[trigger] owners@[o]).import_id@ == row.id@ && (owners@[o].operation_id@
                == recovery.operation_id@ || owners@[o].operation_id@ == legacy_owner@);
        assert(own(o) || legacy(o));
    }
    if exists|i: int| 0 <= i < count && #[trigger] own(i) {
        let i = choose|i: int| 0 <= i < count && #[trigger] own(i);
        assert(owners@[i].import_id@ == row.id@);
    }
    if exists|i: int| 0 <= i < count && #[trigger] legacy(i) {
        let i = choose|i: int| 0 <= i < count && #[trigger] legacy(i);
        assert(owners@[i].import_id@ == row.id@);
    }
}

/// Owners are counted by import and operation.
pub proof fn owners_are_counted(
    owners: &Vec<RuntimeImportOwnerRow>,
    import_id: &str,
    operation_id: &str,
    result: usize,
)
    requires
        call_ensures(count_owners, (owners, import_id, operation_id), result),
    ensures
        result == owners@.filter(
            |owner: RuntimeImportOwnerRow| owner.import_id@ == import_id@ && owner.operation_id@ == operation_id@,
        ).len(),
{
    kept_is_wanted(
        owners@,
        |owner: RuntimeImportOwnerRow| owner.import_id@ == import_id@ && owner.operation_id@ == operation_id@,
        is_owner(owners@, import_id@, operation_id@),
    );
}

/// A promotion is done where it gave the snapshot that was expected and changed one row.
pub proof fn promotions_change_one_row(
    snapshot_id: &str,
    expected_snapshot_id: &str,
    rows_updated: usize,
    result: Result<(), ImportError>,
)
    requires
        call_ensures(check_promoted, (snapshot_id, expected_snapshot_id, rows_updated), result),
    ensures
        result is Ok <==> snapshot_id@ == expected_snapshot_id@ && rows_updated == 1,
{
}

/// The current snapshot moves to a snapshot that is created over it, and stays where it is
/// otherwise.
pub proof fn the_current_snapshot_moves_with_its_child(
    step: &PromotionStep,
    current: Option<&str>,
    parent_snapshot_id: &str,
    snapshot_id: &str,
    result: Option<&str>,
)
    requires
        call_ensures(moved_current, (step, current, parent_snapshot_id, snapshot_id), result),
    ensures
        result is Some <==> step is Create && current is Some && current->0@ == parent_snapshot_id@,
        result is Some ==> result->0@ == snapshot_id@,
{
}

/// A parent is current where the current snapshot is that parent.
pub proof fn parents_are_current_where_they_are(current: Option<&str>, parent: &str, result: bool)
    requires
        call_ensures(parent_is_current, (current, parent), result),
    ensures
        result <==> current is Some && current->0@ == parent@,
{
}

/// An operation is attached to an import that is staged for the same parent and session, and only
/// where its name can own one; attaching it changes one row.
pub proof fn operations_are_attached_to_staged_imports(
    row: Option<&RuntimeImportRow>,
    base_snapshot_id: &str,
    session_id: &str,
    operation_id: &str,
    result: Result<(), ImportError>,
    rows_attached: u64,
    attached: Result<(), ImportError>,
)
    requires
        call_ensures(check_owner_attachment, (row, base_snapshot_id, session_id, operation_id), result),
        call_ensures(check_owner_attached, (rows_attached,), attached),
    ensures
        result is Ok <==> {
            &&& operation_id@.len() > 0
            &&& byte_len(operation_id@) <= 512
            &&& !is_reserved(operation_id@)
            &&& row is Some
            &&& row->0.parent_snapshot_id@ == base_snapshot_id@
            &&& row->0.session_id@ == session_id@
            &&& row->0.status@ == "staging"@
            &&& row->0.result_snapshot_id is None
        },
        attached is Ok <==> rows_attached == 1,
{
    reserved_names_begin_alike(operation_id@);
}

/// Whether an import has another owner.
pub open spec fn has_other_owner(
    owners: Seq<RuntimeImportOwnerRow>,
    import_id: Seq<char>,
    operation_id: Seq<char>,
) -> bool {
    exists|o: int|
        0 <= o < owners.len() && (#[trigger] owners[o]).import_id@ == import_id && owners[o].operation_id@
            != operation_id
}

/// Whether a session has another import.
pub open spec fn has_other_import(rows: Seq<RuntimeImportRow>, at: int) -> bool {
    exists|i: int|
        0 <= i < rows.len() && (#[trigger] rows[i]).session_id@ == rows[at].session_id@ && rows[i].id@ != rows[at].id@
}

proof fn releases_are_of_what_is_left(
    rows: Seq<RuntimeImportRow>,
    owners: Seq<RuntimeImportOwnerRow>,
    at: int,
    operation_id: Seq<char>,
)
    ensures
        ({
            let release = crate::runtime_import::released(rows, owners, at, operation_id);
            &&& release.delete_import <==> !has_other_owner(owners, rows[at].id@, operation_id)
            &&& release.delete_session <==> !has_other_owner(owners, rows[at].id@, operation_id) && !has_other_import(
                rows,
                at,
            )
        }),
{
    let a = is_other_owner(owners, rows[at].id@, operation_id);
    let b = is_other_import(rows, at);
    first_kept_is_first(owners.len() as int, a);
    first_kept_is_first(rows.len() as int, b);
    if let Some(o) = first_kept(owners.len() as int, a) {
        assert(a(o));
        assert(owners[o].import_id@ == rows[at].id@);
    } else if has_other_owner(owners, rows[at].id@, operation_id) {
        let o = choose|o: int|
            0 <= o < owners.len() && (#[trigger] owners[o]).import_id@ == rows[at].id@ && owners[o].operation_id@
                != operation_id;
        assert(a(o));
    }
    if let Some(i) = first_kept(rows.len() as int, b) {
        assert(b(i));
        assert(rows[i].session_id@ == rows[at].session_id@);
    } else if has_other_import(rows, at) {
        let i = choose|i: int|
            0 <= i < rows.len() && (#[trigger] rows[i]).session_id@ == rows[at].session_id@ && rows[i].id@
                != rows[at].id@;
        assert(b(i));
    }
}

/// Cancelling an import for an operation releases a staged import that the operation owns once: the
/// import goes where no other operation owns it, and its session where no other import has it.
/// What no operation of that name owns stays.
pub proof fn cancelled_imports_go_with_their_last_owner(
    rows: &Vec<RuntimeImportRow>,
    owners: &Vec<RuntimeImportOwnerRow>,
    import_id: &str,
    operation_id: &str,
    result: Result<Option<ImportCancellation>, ImportError>,
)
    requires
        call_ensures(cancel_runtime_session_import_for_operation, (rows, owners, import_id, operation_id), result),
        rows@.len() <= usize::MAX,
    ensures
        is_reserved(operation_id@) <==> result == Err::<Option<ImportCancellation>, _>(ImportError::ReservedOperation),
        result matches Ok(Some(release)) ==> {
            let at = release.import as int;
            &&& 0 <= at < rows@.len()
            &&& rows@[at].id@ == import_id@
            &&& rows@[at].status@ == "staging"@
            &&& rows@[at].result_snapshot_id is None
            &&& owners@.filter(
                |owner: RuntimeImportOwnerRow| owner.import_id@ == import_id@ && owner.operation_id@ == operation_id@,
            ).len() == 1
            &&& release.delete_import <==> !has_other_owner(owners@, import_id@, operation_id@)
            &&& release.delete_session <==> !has_other_owner(owners@, import_id@, operation_id@) && !has_other_import(
                rows@,
                at,
            )
        },
        (forall|i: int|
            0 <= i < rows@.len() ==> (#[trigger] rows@[i]).id@ != import_id@ || rows@[i].status@ != "staging"@)
            && !is_reserved(operation_id@) ==> result == Ok::<Option<ImportCancellation>, ImportError>(None),
{
    reserved_names_begin_alike(operation_id@);
    let keep = is_staged_import(rows@, import_id@);
    first_kept_is_first(rows@.len() as int, keep);
    if let Some(at) = first_kept(rows@.len() as int, keep) {
        assert(keep(at));
        releases_are_of_what_is_left(rows@, owners@, at, operation_id@);
        kept_is_wanted(
            owners@,
            |owner: RuntimeImportOwnerRow| owner.import_id@ == import_id@ && owner.operation_id@ == operation_id@,
            is_owner(owners@, rows@[at].id@, operation_id@),
        );
        assert(rows@[at].id@ == import_id@);
    }
}

/// Cancelling what is staged for a session refuses where the stored trace is another, and otherwise
/// releases the import as cancelling it by its name does.
pub proof fn cancelled_sessions_are_of_the_same_trace(
    rows: &Vec<RuntimeImportRow>,
    trace_digests: &Vec<String>,
    owners: &Vec<RuntimeImportOwnerRow>,
    base_snapshot_id: &str,
    session_id: &str,
    trace_digest: &str,
    operation_id: &str,
    result: Result<Option<ImportCancellation>, ImportError>,
)
    requires
        call_ensures(
            cancel_matching_staged_runtime_session_import,
            (rows, trace_digests, owners, base_snapshot_id, session_id, trace_digest, operation_id),
            result,
        ),
        rows@.len() <= usize::MAX,
    ensures
        is_reserved(operation_id@) <==> result == Err::<Option<ImportCancellation>, _>(ImportError::ReservedOperation),
        result matches Ok(Some(release)) ==> {
            let at = release.import as int;
            &&& 0 <= at < rows@.len()
            &&& rows@[at].parent_snapshot_id@ == base_snapshot_id@
            &&& rows@[at].session_id@ == session_id@
            &&& rows@[at].status@ == "staging"@
            &&& rows@[at].result_snapshot_id is None
            &&& trace_digests@[at]@ == trace_digest@
            &&& release.delete_import <==> !has_other_owner(owners@, rows@[at].id@, operation_id@)
            &&& release.delete_session <==> !has_other_owner(owners@, rows@[at].id@, operation_id@)
                && !has_other_import(rows@, at)
        },
{
    reserved_names_begin_alike(operation_id@);
    let keep = is_staged_session(rows@, base_snapshot_id@, session_id@);
    first_kept_is_first(rows@.len() as int, keep);
    if let Some(at) = first_kept(rows@.len() as int, keep) {
        assert(keep(at));
        releases_are_of_what_is_left(rows@, owners@, at, operation_id@);
    }
}

/// Whether an operation owns an import that is there.
pub open spec fn owns_some_import(
    rows: Seq<RuntimeImportRow>,
    owners: Seq<RuntimeImportOwnerRow>,
    operation_id: Seq<char>,
) -> bool {
    exists|o: int, i: int|
        0 <= o < owners.len() && 0 <= i < rows.len() && (#[trigger] owners[o]).operation_id@ == operation_id
            && owners[o].import_id@ == (#[trigger] rows[i]).id@
}

/// Cancelling what an operation has staged is refused for reserved names and for names that cannot
/// own an import; it releases nothing where the operation owns no import, and otherwise an import
/// that is staged, which goes with its last owner.
pub proof fn cancelled_operations_release_their_import(
    rows: &Vec<RuntimeImportRow>,
    owners: &Vec<RuntimeImportOwnerRow>,
    operation_id: &str,
    result: Result<Option<ImportCancellation>, ImportError>,
)
    requires
        call_ensures(
            crate::runtime_import::cancel_staged_runtime_session_import_for_operation,
            (rows, owners, operation_id),
            result,
        ),
        rows@.len() <= usize::MAX,
    ensures
        is_reserved(operation_id@) <==> result == Err::<Option<ImportCancellation>, _>(ImportError::ReservedOperation),
        !is_reserved(operation_id@) && (operation_id@.len() == 0 || byte_len(operation_id@) > 512) <==> result == Err::<
            Option<ImportCancellation>,
            _,
        >(ImportError::InvalidOperation),
        result == Ok::<Option<ImportCancellation>, ImportError>(None) ==> !owns_some_import(
            rows@,
            owners@,
            operation_id@,
        ),
        !is_reserved(operation_id@) && operation_id@.len() > 0 && byte_len(operation_id@) <= 512 && !owns_some_import(
            rows@,
            owners@,
            operation_id@,
        ) ==> result == Ok::<Option<ImportCancellation>, ImportError>(None),
        result matches Ok(Some(release)) ==> {
            let at = release.import as int;
            &&& 0 <= at < rows@.len()
            &&& rows@[at].status@ == "staging"@
            &&& rows@[at].result_snapshot_id is None
            &&& owners@.filter(
                |owner: RuntimeImportOwnerRow|
                    owner.import_id@ == rows@[at].id@ && owner.operation_id@ == operation_id@,
            ).len() == 1
            &&& release.delete_import <==> !has_other_owner(owners@, rows@[at].id@, operation_id@)
            &&& release.delete_session <==> !has_other_owner(owners@, rows@[at].id@, operation_id@)
                && !has_other_import(rows@, at)
        },
{
    reserved_names_begin_alike(operation_id@);
    let count = owners@.len() as int;
    let keep = crate::runtime_import::owns_import(rows@, owners@, operation_id@);
    first_kept_is_first(count, keep);
    if owns_some_import(rows@, owners@, operation_id@) {
        let (o, i) = choose|o: int, i: int|
            0 <= o < owners@.len() && 0 <= i < rows@.len() && (#[trigger] owners@[o]).operation_id@ == operation_id@
                && owners@[o].import_id@ == (#[trigger] rows@[i]).id@;
        let named = crate::runtime_import::has_import_id(rows@, owners@[o].import_id@);
        first_kept_is_first(rows@.len() as int, named);
        assert(named(i));
        assert(keep(o));
    }
    if let Some(owner) = first_kept(count, keep) {
        assert(keep(owner));
        let named = crate::runtime_import::has_import_id(rows@, owners@[owner].import_id@);
        first_kept_is_first(rows@.len() as int, named);
        let at = first_kept(rows@.len() as int, named)->0;
        assert(named(at));
        assert(owners@[owner].import_id@ == rows@[at].id@);
        releases_are_of_what_is_left(rows@, owners@, at, operation_id@);
        kept_is_wanted(
            owners@,
            |own: RuntimeImportOwnerRow| own.import_id@ == rows@[at].id@ && own.operation_id@ == operation_id@,
            is_owner(owners@, rows@[at].id@, operation_id@),
        );
    }
}

/// A recovery is owned by its operation, or by the reserved name that the import itself gives.
pub proof fn recoveries_without_operations_are_owned_by_name(
    row: &RuntimeImportRow,
    expected_session_id: &str,
    session: &RuntimeSessionRecord,
    derived_session_id: &str,
    recovery: &RuntimeImportRecoveryIdentity<'_>,
    owners: &Vec<RuntimeImportOwnerRow>,
    legacy_owner: &str,
    expected: Result<(), ImportError>,
    result: Result<(), ImportError>,
)
    requires
        call_ensures(
            crate::runtime_import::check_recovery_transaction,
            (row, expected_session_id, session, derived_session_id, recovery, owners),
            result,
        ),
        call_ensures(
            check_recovery_with_legacy_owner,
            (row, expected_session_id, session, derived_session_id, recovery, owners, legacy_owner),
            expected,
        ),
        legacy_owner@ == "__depgraph_reserved_legacy_runtime_import_owner__:"@ + crate::digest::hex_text(
            crate::digest::sha256_digest(
                vstd::utf8::encode_utf8("depgraph-legacy-runtime-import-owner-v1"@) + crate::digest::frame(
                    vstd::utf8::encode_utf8(row.id@),
                ),
            ),
        ),
    ensures
        result == expected,
{
    assert(LEGACY_RUNTIME_IMPORT_OWNER_PREFIX@ == "__depgraph_reserved_legacy_runtime_import_owner__:"@);
    assert(crate::runtime_import::legacy_owner_of(row.id@) == legacy_owner@);
}

} // verus!

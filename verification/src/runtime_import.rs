//! Imports of runtime sessions: who may own one, what a replay finds, when a staged import
//! becomes a snapshot, and what a cancellation removes.

use vstd::prelude::*;

use crate::operations::{
    legacy_owner_input, legacy_owner_name, legacy_runtime_import_owner_id, opt_str, opt_text_is, starts_with,
    LEGACY_RUNTIME_IMPORT_OWNER_PREFIX,
};
use crate::order::{
    count_of, count_of_is_bounded, first_kept, first_kept_is_first, first_kept_remains, is_sorted_set, sorted_set,
};
use crate::records::CompletedSnapshotRecord;
use crate::runtime_session::{is_same_trace, same_trace, RuntimeSessionDelta, RuntimeSessionRecord};
use crate::snapshots::SnapshotSource;
use crate::text::{byte_len, contains_text, copy_texts, opt_text, same, texts};

verus! {

/// The outcome of importing one runtime session.
#[derive(Debug, Clone, PartialEq, Eq)]
pub struct RuntimeImportResult {
    pub import_id: String,
    pub session_id: String,
    pub snapshot_id: String,
    pub status: String,
    pub deduplicated: bool,
}

/// Complete durable binding used by operation-owned runtime import recovery.
pub struct RuntimeImportRecoveryIdentity<'a> {
    pub import_id: &'a str,
    pub session_id: &'a str,
    pub snapshot_id: &'a str,
    pub parent_snapshot_id: &'a str,
    pub trace_digest: Option<&'a str>,
    pub status: &'a str,
    pub operation_id: &'a str,
}

impl<'a> RuntimeImportRecoveryIdentity<'a> {
    /// A binding that retains the digest of the trace.
    pub fn new(
        import_id: &'a str,
        session_id: &'a str,
        snapshot_id: &'a str,
        parent_snapshot_id: &'a str,
        trace_digest: &'a str,
        status: &'a str,
        operation_id: &'a str,
    ) -> (result: Self)
        ensures
            result == (RuntimeImportRecoveryIdentity {
                import_id,
                session_id,
                snapshot_id,
                parent_snapshot_id,
                trace_digest: Some(trace_digest),
                status,
                operation_id,
            }),
    {
        RuntimeImportRecoveryIdentity {
            import_id,
            session_id,
            snapshot_id,
            parent_snapshot_id,
            trace_digest: Some(trace_digest),
            status,
            operation_id,
        }
    }

    /// Binds recovery to the identities in a validated immutable completion outcome where
    /// the normalized input did not retain a trace digest. The stored session has to
    /// reproduce its identity from its source session and its trace digest before it can be
    /// promoted.
    pub fn from_validated_outcome(
        import_id: &'a str,
        session_id: &'a str,
        snapshot_id: &'a str,
        parent_snapshot_id: &'a str,
        status: &'a str,
        operation_id: &'a str,
    ) -> (result: Self)
        ensures
            result == (RuntimeImportRecoveryIdentity {
                import_id,
                session_id,
                snapshot_id,
                parent_snapshot_id,
                trace_digest: None,
                status,
                operation_id,
            }),
    {
        RuntimeImportRecoveryIdentity {
            import_id,
            session_id,
            snapshot_id,
            parent_snapshot_id,
            trace_digest: None,
            status,
            operation_id,
        }
    }
}

/// A runtime import that was published, or staged to be promoted or cancelled later.
#[derive(Debug, Clone, PartialEq, Eq)]
pub struct PreparedRuntimeImport {
    result: RuntimeImportResult,
    pending: bool,
}

impl PreparedRuntimeImport {
    /// The outcome.
    pub closed spec fn outcome(&self) -> RuntimeImportResult {
        self.result
    }

    /// Whether the import is still staged.
    pub closed spec fn staged(&self) -> bool {
        self.pending
    }

    fn prepared(result: RuntimeImportResult, pending: bool) -> (prepared: Self)
        ensures
            prepared.outcome() == result,
            prepared.staged() == pending,
    {
        PreparedRuntimeImport { result, pending }
    }

    /// The outcome.
    pub fn result(&self) -> (result: &RuntimeImportResult)
        ensures
            *result == self.outcome(),
    {
        &self.result
    }

    /// Whether the import is still staged.
    pub fn is_pending(&self) -> (result: bool)
        ensures
            result == self.staged(),
    {
        self.pending
    }

    /// The outcome.
    pub fn into_result(self) -> (result: RuntimeImportResult)
        ensures
            result == self.outcome(),
    {
        self.result
    }
}

/// Whether an import is published at once or only staged.
#[derive(Debug, Clone, Copy, PartialEq, Eq, Structural)]
pub enum RuntimeImportMode {
    Immediate,
    Deferred,
}

/// Why a runtime import was refused.
#[derive(Debug, Clone, Copy, PartialEq, Eq, Structural)]
pub enum ImportError {
    InvalidOperation,
    InvalidOwnership,
    ReservedOperation,
    BaseMismatch,
    BaseMissing,
    BaseIntegrity,
    SessionMissing,
    SessionCollision,
    ImportCollision,
    ReplayMismatch,
    CompletedWithoutResult,
    ResultMissing,
    ResultMismatch,
    InvalidState,
    SessionMismatch,
    RecoveryInputMismatch,
    ParentMissing,
    ImportIdentityMismatch,
    CompletedSnapshotMismatch,
    CompletedEvidenceInvalid,
    NotPromotable,
    ParentIntegrity,
    RecoveryChanged,
    RecoveryNotOwned,
    ProspectiveChanged,
    TransitionNotApplied,
    StagingDisappeared,
    NotAttachable,
    OwnerNotAttached,
    TraceMismatch,
    OwnerNotUnique,
    OwnerNotMutable,
}

/// One row of the imports.
#[derive(Debug, Clone, PartialEq, Eq)]
pub struct RuntimeImportRow {
    pub id: String,
    pub parent_snapshot_id: String,
    pub session_id: String,
    pub status: String,
    pub result_snapshot_id: Option<String>,
}

/// One row of the owners of imports.
#[derive(Debug, Clone, PartialEq, Eq)]
pub struct RuntimeImportOwnerRow {
    pub import_id: String,
    pub operation_id: String,
}

// ---------------------------------------------------------------------------------------
// Ownership
// ---------------------------------------------------------------------------------------

/// Whether an operation may own a runtime import: its identity is bounded and outside the
/// namespace of owners recorded for imports that predate ownership.
pub open spec fn may_own_import(operation_id: Seq<char>) -> bool {
    operation_id.len() > 0 && byte_len(operation_id) <= 512 && !LEGACY_RUNTIME_IMPORT_OWNER_PREFIX@.is_prefix_of(
        operation_id,
    )
}

/// Whether an operation may own a runtime import.
pub fn valid_runtime_import_operation_id(operation_id: &str) -> (result: bool)
    ensures
        result == may_own_import(operation_id@),
{
    !operation_id.is_empty() && operation_id.as_bytes().len() <= 512 && !starts_with(
        operation_id,
        LEGACY_RUNTIME_IMPORT_OWNER_PREFIX,
    )
}

/// Refuses an operation in the reserved namespace.
pub fn reject_reserved_runtime_import_operation_id(operation_id: &str) -> (result: Result<(), ImportError>)
    ensures
        result == if LEGACY_RUNTIME_IMPORT_OWNER_PREFIX@.is_prefix_of(operation_id@) {
            Err::<(), _>(ImportError::ReservedOperation)
        } else {
            Ok(())
        },
{
    if starts_with(operation_id, LEGACY_RUNTIME_IMPORT_OWNER_PREFIX) {
        Err(ImportError::ReservedOperation)
    } else {
        Ok(())
    }
}

/// Whether an import may be requested: at once by nobody, staged by an operation that may
/// own it.
pub fn check_import_request(mode: RuntimeImportMode, operation_id: Option<&str>) -> (result: Result<(), ImportError>)
    ensures
        result == match (mode, operation_id) {
            (RuntimeImportMode::Immediate, None) => Ok::<(), ImportError>(()),
            (RuntimeImportMode::Deferred, Some(operation_id)) => if may_own_import(operation_id@) {
                Ok(())
            } else {
                Err(ImportError::InvalidOperation)
            },
            _ => Err(ImportError::InvalidOwnership),
        },
{
    match (mode, operation_id) {
        (RuntimeImportMode::Immediate, None) => Ok(()),
        (RuntimeImportMode::Deferred, Some(operation_id)) => if valid_runtime_import_operation_id(operation_id) {
            Ok(())
        } else {
            Err(ImportError::InvalidOperation)
        },
        _ => Err(ImportError::InvalidOwnership),
    }
}

/// The sessions of a snapshot with one more, each once, ascending.
pub fn sessions_with(runtime_session_ids: &Vec<String>, session_id: &str) -> (result: Vec<String>)
    ensures
        is_sorted_set(texts(result@), texts(runtime_session_ids@).push(session_id@)),
{
    let mut ids = copy_texts(runtime_session_ids);
    ids.push(String::from_str(session_id));
    assert(texts(ids@) =~= texts(runtime_session_ids@).push(session_id@));
    sorted_set(ids)
}

/// Whether a source makes the snapshot of an import over a base.
pub open spec fn is_import_source(
    import_id: Seq<char>,
    base: CompletedSnapshotRecord,
    runtime_session_ids: Seq<Seq<char>>,
    created_at: Seq<char>,
    source: SnapshotSource,
) -> bool {
    &&& source.source_kind@ == "runtime"@
    &&& source.source_attempt_id@ == import_id
    &&& source.scan_id@ == base.scan_id@
    &&& opt_text(source.build_attempt_id) == opt_text(base.build_attempt_id)
    &&& opt_text(source.runtime_import_id) == Some(import_id)
    &&& texts(source.runtime_session_ids@) == runtime_session_ids
    &&& opt_text(source.parent_snapshot_id) == Some(base.id@)
    &&& opt_text(source.source_revision) == opt_text(base.source_revision)
    &&& source.created_at@ == created_at
}

/// The source of the snapshot of an import: it keeps the scan, the build and the revision of
/// its base, and adds sessions.
pub fn import_snapshot_source(
    import_id: &str,
    base: &CompletedSnapshotRecord,
    runtime_session_ids: Vec<String>,
    created_at: String,
) -> (result: SnapshotSource)
    ensures
        is_import_source(import_id@, *base, texts(runtime_session_ids@), created_at@, result),
{
    SnapshotSource {
        source_kind: String::from_str("runtime"),
        source_attempt_id: String::from_str(import_id),
        scan_id: base.scan_id.clone(),
        build_attempt_id: base.build_attempt_id.clone(),
        runtime_import_id: Some(String::from_str(import_id)),
        runtime_session_ids,
        parent_snapshot_id: Some(base.id.clone()),
        source_revision: base.source_revision.clone(),
        created_at,
    }
}

// ---------------------------------------------------------------------------------------
// Import
// ---------------------------------------------------------------------------------------

/// Whether an outcome has the given identities.
pub open spec fn is_outcome(
    result: RuntimeImportResult,
    import_id: Seq<char>,
    session_id: Seq<char>,
    snapshot_id: Seq<char>,
    status: Seq<char>,
    deduplicated: bool,
) -> bool {
    &&& result.import_id@ == import_id
    &&& result.session_id@ == session_id
    &&& result.snapshot_id@ == snapshot_id
    &&& result.status@ == status
    &&& result.deduplicated == deduplicated
}

fn outcome(
    import_id: &str,
    session_id: &str,
    snapshot_id: &str,
    status: &str,
    deduplicated: bool,
) -> (result: RuntimeImportResult)
    ensures
        is_outcome(result, import_id@, session_id@, snapshot_id@, status@, deduplicated),
{
    RuntimeImportResult {
        import_id: String::from_str(import_id),
        session_id: String::from_str(session_id),
        snapshot_id: String::from_str(snapshot_id),
        status: String::from_str(status),
        deduplicated,
    }
}

/// What the base of an import decides: a base that is missing, corrupt or another one is
/// refused; a session that the base already holds is not imported again; any other import
/// goes on. `existing` is the stored session with the identity of the session.
pub fn check_import_base(
    session: &RuntimeSessionRecord,
    base_snapshot_id: &str,
    base: Option<&CompletedSnapshotRecord>,
    base_is_valid: bool,
    existing: Option<&RuntimeSessionRecord>,
) -> (result: Result<Option<PreparedRuntimeImport>, ImportError>)
    ensures
        if session.base_snapshot_id@ != base_snapshot_id@ {
            result == Err::<Option<PreparedRuntimeImport>, _>(ImportError::BaseMismatch)
        } else {
            match base {
                None => result == Err::<Option<PreparedRuntimeImport>, _>(ImportError::BaseMissing),
                Some(base) => if !base_is_valid {
                    result == Err::<Option<PreparedRuntimeImport>, _>(ImportError::BaseIntegrity)
                } else if !texts(base.runtime_session_ids@).contains(session.id@) {
                    result == Ok::<Option<PreparedRuntimeImport>, ImportError>(None)
                } else {
                    match existing {
                        None => result == Err::<Option<PreparedRuntimeImport>, _>(ImportError::SessionMissing),
                        Some(existing) => if existing.trace_digest@ != session.trace_digest@
                            || existing.source_session_id@ != session.source_session_id@ {
                            result == Err::<Option<PreparedRuntimeImport>, _>(ImportError::SessionCollision)
                        } else {
                            result matches Ok(Some(prepared)) && !prepared.staged() && is_outcome(
                                prepared.outcome(),
                                match opt_text(base.runtime_import_id) {
                                    Some(import_id) => import_id,
                                    None => "runtime-import:deduplicated"@,
                                },
                                session.id@,
                                base_snapshot_id@,
                                existing.status@,
                                true,
                            )
                        },
                    }
                },
            }
        },
{
    if !same(session.base_snapshot_id.as_str(), base_snapshot_id) {
        return Err(ImportError::BaseMismatch);
    }
    let base = match base {
        Some(base) => base,
        None => {
            return Err(ImportError::BaseMissing);
        },
    };
    if !base_is_valid {
        return Err(ImportError::BaseIntegrity);
    }
    if !contains_text(&base.runtime_session_ids, session.id.as_str()) {
        return Ok(None);
    }
    let existing = match existing {
        Some(existing) => existing,
        None => {
            return Err(ImportError::SessionMissing);
        },
    };
    if existing.trace_digest != session.trace_digest || existing.source_session_id != session.source_session_id {
        return Err(ImportError::SessionCollision);
    }
    let import_id: &str = match &base.runtime_import_id {
        Some(import_id) => import_id.as_str(),
        None => "runtime-import:deduplicated",
    };
    Ok(
        Some(
            PreparedRuntimeImport::prepared(
                outcome(import_id, session.id.as_str(), base_snapshot_id, existing.status.as_str(), true),
                false,
            ),
        ),
    )
}

/// Whether a snapshot is the result of an import on a parent.
pub open spec fn is_result_of(
    snapshot: CompletedSnapshotRecord,
    import_id: Seq<char>,
    parent_snapshot_id: Seq<char>,
    session_id: Seq<char>,
) -> bool {
    &&& opt_text(snapshot.parent_snapshot_id) == Some(parent_snapshot_id)
    &&& opt_text(snapshot.runtime_import_id) == Some(import_id)
    &&& texts(snapshot.runtime_session_ids@).contains(session_id)
}

fn snapshot_is_result_of(
    snapshot: &CompletedSnapshotRecord,
    import_id: &str,
    parent_snapshot_id: &str,
    session_id: &str,
) -> (result: bool)
    ensures
        result == is_result_of(*snapshot, import_id@, parent_snapshot_id@, session_id@),
{
    opt_text_is(&snapshot.parent_snapshot_id, parent_snapshot_id) && opt_text_is(
        &snapshot.runtime_import_id,
        import_id,
    ) && contains_text(&snapshot.runtime_session_ids, session_id)
}

/// What a replayed import goes on with.
#[derive(Debug, Clone, PartialEq, Eq)]
pub enum ReplayStep {
    /// It was completed; its owners are released.
    Completed { prepared: PreparedRuntimeImport },
    /// It is staged and is promoted now.
    Promote,
    /// It is staged and gets the operation as a further owner.
    Attach { prepared: PreparedRuntimeImport },
}

/// Whether `result` is what an import with an identity that is already recorded decides.
/// `snapshot` is the recorded result with whether it passed its integrity check,
/// `expected_snapshot_id` the identity that the result will have.
pub open spec fn is_replay(
    mode: RuntimeImportMode,
    import_id: Seq<char>,
    base_snapshot_id: Seq<char>,
    delta: RuntimeSessionDelta,
    row: RuntimeImportRow,
    stored: RuntimeSessionDelta,
    snapshot: Option<(&CompletedSnapshotRecord, bool)>,
    expected_snapshot_id: Seq<char>,
    result: Result<ReplayStep, ImportError>,
) -> bool {
    if row.parent_snapshot_id@ != base_snapshot_id || row.session_id@ != delta.session.id@ {
        result == Err::<ReplayStep, _>(ImportError::ImportCollision)
    } else if !same_trace(stored@, delta@) {
        result == Err::<ReplayStep, _>(ImportError::ReplayMismatch)
    } else if row.status@ == "completed"@ {
        match (row.result_snapshot_id, snapshot) {
            (None, _) => result == Err::<ReplayStep, _>(ImportError::CompletedWithoutResult),
            (Some(_), None) => result == Err::<ReplayStep, _>(ImportError::ResultMissing),
            (Some(snapshot_id), Some((snapshot, valid))) => if !is_result_of(
                *snapshot,
                import_id,
                base_snapshot_id,
                row.session_id@,
            ) || !valid {
                result == Err::<ReplayStep, _>(ImportError::ResultMismatch)
            } else {
                result matches Ok(ReplayStep::Completed { prepared }) && !prepared.staged() && is_outcome(
                    prepared.outcome(),
                    import_id,
                    row.session_id@,
                    snapshot_id@,
                    stored.session.status@,
                    true,
                )
            },
        }
    } else if row.status@ == "staging"@ && row.result_snapshot_id is None {
        match mode {
            RuntimeImportMode::Immediate => result == Ok::<_, ImportError>(ReplayStep::Promote),
            RuntimeImportMode::Deferred => result matches Ok(ReplayStep::Attach { prepared }) && prepared.staged()
                && is_outcome(
                prepared.outcome(),
                import_id,
                row.session_id@,
                expected_snapshot_id,
                stored.session.status@,
                false,
            ),
        }
    } else {
        result == Err::<ReplayStep, _>(ImportError::InvalidState)
    }
}

/// What an import with an identity that is already recorded decides. `snapshot` is the
/// recorded result with whether it passed its integrity check, `expected_snapshot_id` the
/// identity that the result will have.
pub fn replay_import(
    mode: RuntimeImportMode,
    import_id: &str,
    base_snapshot_id: &str,
    delta: &RuntimeSessionDelta,
    row: &RuntimeImportRow,
    stored: &RuntimeSessionDelta,
    snapshot: Option<(&CompletedSnapshotRecord, bool)>,
    expected_snapshot_id: &str,
) -> (result: Result<ReplayStep, ImportError>)
    ensures
        is_replay(
            mode,
            import_id@,
            base_snapshot_id@,
            *delta,
            *row,
            *stored,
            snapshot,
            expected_snapshot_id@,
            result,
        ),
{
    if !same(row.parent_snapshot_id.as_str(), base_snapshot_id) || row.session_id != delta.session.id {
        return Err(ImportError::ImportCollision);
    }
    if !is_same_trace(stored, delta) {
        return Err(ImportError::ReplayMismatch);
    }
    if same(row.status.as_str(), "completed") {
        let snapshot_id = match &row.result_snapshot_id {
            Some(snapshot_id) => snapshot_id,
            None => {
                return Err(ImportError::CompletedWithoutResult);
            },
        };
        let (snapshot, valid) = match snapshot {
            Some(found) => found,
            None => {
                return Err(ImportError::ResultMissing);
            },
        };
        if !snapshot_is_result_of(snapshot, import_id, base_snapshot_id, row.session_id.as_str()) || !valid {
            return Err(ImportError::ResultMismatch);
        }
        return Ok(
            ReplayStep::Completed {
                prepared: PreparedRuntimeImport::prepared(
                    outcome(
                        import_id,
                        row.session_id.as_str(),
                        snapshot_id.as_str(),
                        stored.session.status.as_str(),
                        true,
                    ),
                    false,
                ),
            },
        );
    }
    if same(row.status.as_str(), "staging") && row.result_snapshot_id.is_none() {
        return match mode {
            RuntimeImportMode::Immediate => Ok(ReplayStep::Promote),
            RuntimeImportMode::Deferred => Ok(
                ReplayStep::Attach {
                    prepared: PreparedRuntimeImport::prepared(
                        outcome(
                            import_id,
                            row.session_id.as_str(),
                            expected_snapshot_id,
                            stored.session.status.as_str(),
                            false,
                        ),
                        true,
                    ),
                },
            ),
        };
    }
    Err(ImportError::InvalidState)
}

/// Whether an outcome is that of a new import: still staged where it was deferred.
pub open spec fn is_new_import(
    mode: RuntimeImportMode,
    import_id: Seq<char>,
    session: RuntimeSessionRecord,
    snapshot_id: Seq<char>,
    prepared: PreparedRuntimeImport,
) -> bool {
    &&& is_outcome(prepared.outcome(), import_id, session.id@, snapshot_id, session.status@, false)
    &&& prepared.staged() == (mode == RuntimeImportMode::Deferred)
}

/// The outcome of a new import: still staged where it was deferred.
pub fn new_import(
    mode: RuntimeImportMode,
    import_id: &str,
    session: &RuntimeSessionRecord,
    snapshot_id: &str,
) -> (result: PreparedRuntimeImport)
    ensures
        is_new_import(mode, import_id@, *session, snapshot_id@, result),
{
    PreparedRuntimeImport::prepared(
        outcome(import_id, session.id.as_str(), snapshot_id, session.status.as_str(), false),
        mode == RuntimeImportMode::Deferred,
    )
}

/// Whether a row records a new import, which is staged.
pub open spec fn is_new_row(
    import_id: Seq<char>,
    parent_snapshot_id: Seq<char>,
    session_id: Seq<char>,
    row: RuntimeImportRow,
) -> bool {
    &&& row.id@ == import_id
    &&& row.parent_snapshot_id@ == parent_snapshot_id
    &&& row.session_id@ == session_id
    &&& is_staged(row)
}

/// The row that records a new import.
pub fn new_import_row(import_id: &str, parent_snapshot_id: &str, session_id: &str) -> (result: RuntimeImportRow)
    ensures
        is_new_row(import_id@, parent_snapshot_id@, session_id@, result),
{
    RuntimeImportRow {
        id: String::from_str(import_id),
        parent_snapshot_id: String::from_str(parent_snapshot_id),
        session_id: String::from_str(session_id),
        status: String::from_str("staging"),
        result_snapshot_id: None,
    }
}

/// Whether a row records that an import was completed with a snapshot.
pub open spec fn is_completed_row(row: RuntimeImportRow, snapshot_id: Seq<char>, completed: RuntimeImportRow) -> bool {
    &&& completed.id@ == row.id@
    &&& completed.parent_snapshot_id@ == row.parent_snapshot_id@
    &&& completed.session_id@ == row.session_id@
    &&& completed.status@ == "completed"@
    &&& opt_text(completed.result_snapshot_id) == Some(snapshot_id)
}

/// The row of an import once it is completed with a snapshot.
pub fn completed_import_row(row: &RuntimeImportRow, snapshot_id: &str) -> (result: RuntimeImportRow)
    ensures
        is_completed_row(*row, snapshot_id@, result),
{
    RuntimeImportRow {
        id: row.id.clone(),
        parent_snapshot_id: row.parent_snapshot_id.clone(),
        session_id: row.session_id.clone(),
        status: String::from_str("completed"),
        result_snapshot_id: Some(String::from_str(snapshot_id)),
    }
}

/// The outcome of a promoted import.
pub fn promoted_import(result: RuntimeImportResult) -> (prepared: PreparedRuntimeImport)
    ensures
        prepared.outcome() == result,
        !prepared.staged(),
{
    PreparedRuntimeImport::prepared(result, false)
}

/// Whether a session has to be stored: not where it is stored already with the same trace;
/// refused where it is stored with another.
pub fn session_storage(existing_trace_digest: Option<&str>, trace_digest: &str) -> (result: Result<bool, ImportError>)
    ensures
        result == match existing_trace_digest {
            None => Ok::<bool, ImportError>(true),
            Some(existing) => if existing@ == trace_digest@ {
                Ok(false)
            } else {
                Err(ImportError::SessionCollision)
            },
        },
{
    match existing_trace_digest {
        None => Ok(true),
        Some(existing) => if same(existing, trace_digest) {
            Ok(false)
        } else {
            Err(ImportError::SessionCollision)
        },
    }
}

// ---------------------------------------------------------------------------------------
// Promotion
// ---------------------------------------------------------------------------------------

/// Whether a stored trace is the one that recovery is bound to: by the retained digest, or
/// else by the identity that is derived from the stored source session and digest.
pub open spec fn trace_matches(
    session_id: Seq<char>,
    derived_session_id: Seq<char>,
    stored_trace_digest: Seq<char>,
    retained: Option<Seq<char>>,
) -> bool {
    match retained {
        Some(retained) => stored_trace_digest == retained,
        None => derived_session_id == session_id,
    }
}

/// Whether a stored trace is the one that recovery is bound to. `derived_session_id` is
/// the identity derived from the stored source session and trace digest.
pub fn runtime_recovery_trace_matches(
    session_id: &str,
    derived_session_id: &str,
    stored_trace_digest: &str,
    retained_trace_digest: Option<&str>,
) -> (result: bool)
    ensures
        result == trace_matches(
            session_id@,
            derived_session_id@,
            stored_trace_digest@,
            opt_str(retained_trace_digest),
        ),
{
    match retained_trace_digest {
        Some(retained) => same(stored_trace_digest, retained),
        None => same(derived_session_id, session_id),
    }
}

/// Whether the recorded input of an import is the one that recovery is bound to.
pub open spec fn is_recovery_input(
    row: RuntimeImportRow,
    session: RuntimeSessionRecord,
    derived_session_id: Seq<char>,
    recovery: RuntimeImportRecoveryIdentity<'_>,
) -> bool {
    &&& row.parent_snapshot_id@ == recovery.parent_snapshot_id@
    &&& session.base_snapshot_id@ == recovery.parent_snapshot_id@
    &&& trace_matches(session.id@, derived_session_id, session.trace_digest@, opt_str(recovery.trace_digest))
    &&& session.status@ == recovery.status@
}

fn matches_recovery(
    row: &RuntimeImportRow,
    session: &RuntimeSessionRecord,
    derived_session_id: &str,
    recovery: &RuntimeImportRecoveryIdentity<'_>,
) -> (result: bool)
    ensures
        result == is_recovery_input(*row, *session, derived_session_id@, *recovery),
{
    same(row.parent_snapshot_id.as_str(), recovery.parent_snapshot_id) && same(
        session.base_snapshot_id.as_str(),
        recovery.parent_snapshot_id,
    ) && runtime_recovery_trace_matches(
        session.id.as_str(),
        derived_session_id,
        session.trace_digest.as_str(),
        recovery.trace_digest,
    ) && same(session.status.as_str(), recovery.status)
}

/// What a promotion goes on with.
#[derive(Debug, Clone, PartialEq, Eq)]
pub enum PromotionStep {
    /// It was promoted before; its owners are released.
    Completed { result: RuntimeImportResult },
    /// A snapshot is created.
    Create,
}

/// Whether `result` is what the promotion of an import decides. `session` is the recorded
/// session with the identity that is derived from it, `derived_import_id` the identity that an
/// import of the session on the recorded parent has; `snapshot` is the expected result with
/// whether it passed its integrity check.
pub open spec fn is_promotion_step(
    row: RuntimeImportRow,
    expected_session_id: Seq<char>,
    expected_snapshot_id: Seq<char>,
    session: Option<(&RuntimeSessionRecord, &str)>,
    recovery: Option<&RuntimeImportRecoveryIdentity<'_>>,
    derived_import_id: Option<&str>,
    snapshot: Option<(&CompletedSnapshotRecord, bool)>,
    parent_is_valid: bool,
    result: Result<PromotionStep, ImportError>,
) -> bool {
    if row.session_id@ != expected_session_id {
        result == Err::<PromotionStep, _>(ImportError::SessionMismatch)
    } else {
        match session {
            None => result == Err::<PromotionStep, _>(ImportError::SessionMissing),
            Some((session, derived_session_id)) => if recovery is Some && !is_recovery_input(
                row,
                *session,
                derived_session_id@,
                *recovery->0,
            ) {
                result == Err::<PromotionStep, _>(ImportError::RecoveryInputMismatch)
            } else {
                match derived_import_id {
                    None => result == Err::<PromotionStep, _>(ImportError::ParentMissing),
                    Some(derived) => if derived@ != row.id@ {
                        result == Err::<PromotionStep, _>(ImportError::ImportIdentityMismatch)
                    } else if row.status@ == "completed"@ {
                        if opt_text(row.result_snapshot_id) != Some(expected_snapshot_id) {
                            result == Err::<PromotionStep, _>(ImportError::CompletedSnapshotMismatch)
                        } else {
                            match snapshot {
                                None => result == Err::<PromotionStep, _>(ImportError::ResultMissing),
                                Some((snapshot, valid)) => if !is_result_of(
                                    *snapshot,
                                    row.id@,
                                    row.parent_snapshot_id@,
                                    row.session_id@,
                                ) || !valid {
                                    result == Err::<PromotionStep, _>(ImportError::CompletedEvidenceInvalid)
                                } else {
                                    result matches Ok(PromotionStep::Completed { result: found }) && is_outcome(
                                        found,
                                        row.id@,
                                        row.session_id@,
                                        expected_snapshot_id,
                                        session.status@,
                                        false,
                                    )
                                },
                            }
                        }
                    } else if row.status@ != "staging"@ || row.result_snapshot_id is Some {
                        result == Err::<PromotionStep, _>(ImportError::NotPromotable)
                    } else if !parent_is_valid {
                        result == Err::<PromotionStep, _>(ImportError::ParentIntegrity)
                    } else {
                        result == Ok::<_, ImportError>(PromotionStep::Create)
                    },
                }
            },
        }
    }
}

/// What the promotion of an import decides. `parent` is the snapshot that the import was
/// staged on with the identity that an import of the session on it has; `snapshot` is the
/// expected result with whether it passed its integrity check.
pub fn promotion_step(
    row: &RuntimeImportRow,
    expected_session_id: &str,
    expected_snapshot_id: &str,
    session: Option<(&RuntimeSessionRecord, &str)>,
    recovery: Option<&RuntimeImportRecoveryIdentity<'_>>,
    derived_import_id: Option<&str>,
    snapshot: Option<(&CompletedSnapshotRecord, bool)>,
    parent_is_valid: bool,
) -> (result: Result<PromotionStep, ImportError>)
    ensures
        is_promotion_step(
            *row,
            expected_session_id@,
            expected_snapshot_id@,
            session,
            recovery,
            derived_import_id,
            snapshot,
            parent_is_valid,
            result,
        ),
{
    if !same(row.session_id.as_str(), expected_session_id) {
        return Err(ImportError::SessionMismatch);
    }
    let (session, derived_session_id) = match session {
        Some(found) => found,
        None => {
            return Err(ImportError::SessionMissing);
        },
    };
    if let Some(recovery) = recovery {
        if !matches_recovery(row, session, derived_session_id, recovery) {
            return Err(ImportError::RecoveryInputMismatch);
        }
    }
    match derived_import_id {
        None => {
            return Err(ImportError::ParentMissing);
        },
        Some(derived) => {
            if !same(derived, row.id.as_str()) {
                return Err(ImportError::ImportIdentityMismatch);
            }
        },
    }
    if same(row.status.as_str(), "completed") {
        if !opt_text_is(&row.result_snapshot_id, expected_snapshot_id) {
            return Err(ImportError::CompletedSnapshotMismatch);
        }
        let (snapshot, valid) = match snapshot {
            Some(found) => found,
            None => {
                return Err(ImportError::ResultMissing);
            },
        };
        if !snapshot_is_result_of(
            snapshot,
            row.id.as_str(),
            row.parent_snapshot_id.as_str(),
            row.session_id.as_str(),
        ) || !valid {
            return Err(ImportError::CompletedEvidenceInvalid);
        }
        return Ok(
            PromotionStep::Completed {
                result: outcome(
                    row.id.as_str(),
                    row.session_id.as_str(),
                    expected_snapshot_id,
                    session.status.as_str(),
                    false,
                ),
            },
        );
    }
    if !same(row.status.as_str(), "staging") || row.result_snapshot_id.is_some() {
        return Err(ImportError::NotPromotable);
    }
    if !parent_is_valid {
        return Err(ImportError::ParentIntegrity);
    }
    Ok(PromotionStep::Create)
}

/// The owner that was recorded for an import that predates ownership.
pub open spec fn legacy_owner_of(import_id: Seq<char>) -> Seq<char> {
    legacy_owner_name(crate::digest::sha256_digest(legacy_owner_input(import_id)))
}

/// Which owners have the given import and operation.
pub open spec fn is_owner(
    owners: Seq<RuntimeImportOwnerRow>,
    import_id: Seq<char>,
    operation_id: Seq<char>,
) -> spec_fn(int) -> bool {
    |i: int| owners[i].import_id@ == import_id && owners[i].operation_id@ == operation_id
}

/// How many owners have the given import and operation.
pub fn count_owners(owners: &Vec<RuntimeImportOwnerRow>, import_id: &str, operation_id: &str) -> (result: usize)
    ensures
        result == count_of(owners@.len() as int, is_owner(owners@, import_id@, operation_id@)),
{
    let ghost keep = is_owner(owners@, import_id@, operation_id@);
    let mut count: usize = 0;
    let mut i: usize = 0;
    while i < owners.len()
        invariant
            i <= owners.len(),
            keep == is_owner(owners@, import_id@, operation_id@),
            count == count_of(i as int, keep),
        decreases owners.len() - i,
    {
        proof {
            count_of_is_bounded(i as int, keep);
        }
        if same(owners[i].import_id.as_str(), import_id) && same(owners[i].operation_id.as_str(), operation_id) {
            count = count + 1;
        }
        i = i + 1;
    }
    count
}

/// Why an import may no longer be recovered once the transaction that promotes it has
/// begun: its recorded input changed, or its staging belongs neither to the operation nor
/// to the owner recorded for an import that predates ownership.
pub open spec fn recovery_error(
    row: RuntimeImportRow,
    expected_session_id: Seq<char>,
    session: RuntimeSessionRecord,
    derived_session_id: Seq<char>,
    recovery: RuntimeImportRecoveryIdentity<'_>,
    owners: Seq<RuntimeImportOwnerRow>,
    legacy_owner: Seq<char>,
) -> Option<ImportError> {
    if row.session_id@ != expected_session_id || !is_staged(row) || !is_recovery_input(
        row,
        session,
        derived_session_id,
        recovery,
    ) {
        Some(ImportError::RecoveryChanged)
    } else if count_of(owners.len() as int, is_owner(owners, row.id@, recovery.operation_id@)) == 0 && count_of(
        owners.len() as int,
        is_owner(owners, row.id@, legacy_owner),
    ) == 0 {
        Some(ImportError::RecoveryNotOwned)
    } else {
        None
    }
}

/// Whether an import may still be recovered, given the owner recorded for an import that
/// predates ownership.
pub fn check_recovery_with_legacy_owner(
    row: &RuntimeImportRow,
    expected_session_id: &str,
    session: &RuntimeSessionRecord,
    derived_session_id: &str,
    recovery: &RuntimeImportRecoveryIdentity<'_>,
    owners: &Vec<RuntimeImportOwnerRow>,
    legacy_owner: &str,
) -> (result: Result<(), ImportError>)
    ensures
        result == match recovery_error(
            *row,
            expected_session_id@,
            *session,
            derived_session_id@,
            *recovery,
            owners@,
            legacy_owner@,
        ) {
            Some(error) => Err::<(), _>(error),
            None => Ok(()),
        },
{
    if !same(row.session_id.as_str(), expected_session_id) || !row_is_staged(row) || !matches_recovery(
        row,
        session,
        derived_session_id,
        recovery,
    ) {
        return Err(ImportError::RecoveryChanged);
    }
    if count_owners(owners, row.id.as_str(), recovery.operation_id) == 0 && count_owners(
        owners,
        row.id.as_str(),
        legacy_owner,
    ) == 0 {
        return Err(ImportError::RecoveryNotOwned);
    }
    Ok(())
}

/// Whether an import may still be recovered once the transaction that promotes it has
/// begun.
pub fn check_recovery_transaction(
    row: &RuntimeImportRow,
    expected_session_id: &str,
    session: &RuntimeSessionRecord,
    derived_session_id: &str,
    recovery: &RuntimeImportRecoveryIdentity<'_>,
    owners: &Vec<RuntimeImportOwnerRow>,
) -> (result: Result<(), ImportError>)
    ensures
        result == match recovery_error(
            *row,
            expected_session_id@,
            *session,
            derived_session_id@,
            *recovery,
            owners@,
            legacy_owner_of(row.id@),
        ) {
            Some(error) => Err::<(), _>(error),
            None => Ok(()),
        },
{
    let legacy_owner = legacy_runtime_import_owner_id(row.id.as_str());
    check_recovery_with_legacy_owner(
        row,
        expected_session_id,
        session,
        derived_session_id,
        recovery,
        owners,
        legacy_owner.as_str(),
    )
}

/// Whether a promotion took effect: it created the expected snapshot and changed the one
/// staged row.
pub fn check_promoted(
    snapshot_id: &str,
    expected_snapshot_id: &str,
    rows_updated: usize,
) -> (result: Result<(), ImportError>)
    ensures
        result == if snapshot_id@ != expected_snapshot_id@ {
            Err::<(), _>(ImportError::ProspectiveChanged)
        } else if rows_updated != 1 {
            Err(ImportError::TransitionNotApplied)
        } else {
            Ok(())
        },
{
    if !same(snapshot_id, expected_snapshot_id) {
        Err(ImportError::ProspectiveChanged)
    } else if rows_updated != 1 {
        Err(ImportError::TransitionNotApplied)
    } else {
        Ok(())
    }
}

/// Whether the result of an import becomes the current snapshot: only while its parent is
/// the current one.
pub fn parent_is_current(current_snapshot_id: Option<&str>, parent_snapshot_id: &str) -> (result: bool)
    ensures
        result == (opt_str(current_snapshot_id) == Some(parent_snapshot_id@)),
{
    match current_snapshot_id {
        Some(current) => same(current, parent_snapshot_id),
        None => false,
    }
}

/// The current snapshot after a step of a promotion: the result of the import where the step
/// creates it and the parent is current, else the one that was current.
pub open spec fn current_after(
    step: PromotionStep,
    current: Option<Seq<char>>,
    parent_snapshot_id: Seq<char>,
    snapshot_id: Seq<char>,
) -> Option<Seq<char>> {
    if step is Create && current == Some(parent_snapshot_id) {
        Some(snapshot_id)
    } else {
        current
    }
}

/// The snapshot that a step of a promotion makes current; nothing where the current one stays.
pub fn moved_current<'a>(
    step: &PromotionStep,
    current_snapshot_id: Option<&str>,
    parent_snapshot_id: &str,
    snapshot_id: &'a str,
) -> (result: Option<&'a str>)
    ensures
        match result {
            Some(moved) => moved@ == snapshot_id@ && current_after(
                *step,
                opt_str(current_snapshot_id),
                parent_snapshot_id@,
                snapshot_id@,
            ) == Some(moved@),
            None => current_after(*step, opt_str(current_snapshot_id), parent_snapshot_id@, snapshot_id@) == opt_str(
                current_snapshot_id,
            ),
        },
        result is Some == (step is Create && opt_str(current_snapshot_id) == Some(parent_snapshot_id@)),
{
    match step {
        PromotionStep::Completed { .. } => None,
        PromotionStep::Create => if parent_is_current(current_snapshot_id, parent_snapshot_id) {
            Some(snapshot_id)
        } else {
            None
        },
    }
}

/// Whether a row is staged and has no result.
pub open spec fn is_staged(row: RuntimeImportRow) -> bool {
    row.status@ == "staging"@ && row.result_snapshot_id is None
}

fn row_is_staged(row: &RuntimeImportRow) -> (result: bool)
    ensures
        result == is_staged(*row),
{
    same(row.status.as_str(), "staging") && row.result_snapshot_id.is_none()
}

/// Whether an operation may be recorded as a further owner of a staged import.
pub fn check_owner_attachment(
    row: Option<&RuntimeImportRow>,
    base_snapshot_id: &str,
    session_id: &str,
    operation_id: &str,
) -> (result: Result<(), ImportError>)
    ensures
        result == if !may_own_import(operation_id@) {
            Err::<(), _>(ImportError::InvalidOperation)
        } else {
            match row {
                None => Err(ImportError::StagingDisappeared),
                Some(row) => if row.parent_snapshot_id@ != base_snapshot_id@ || row.session_id@ != session_id@
                    || !is_staged(*row) {
                    Err(ImportError::NotAttachable)
                } else {
                    Ok(())
                },
            }
        },
{
    if !valid_runtime_import_operation_id(operation_id) {
        return Err(ImportError::InvalidOperation);
    }
    match row {
        None => Err(ImportError::StagingDisappeared),
        Some(row) => if !same(row.parent_snapshot_id.as_str(), base_snapshot_id) || !same(
            row.session_id.as_str(),
            session_id,
        ) || !row_is_staged(row) {
            Err(ImportError::NotAttachable)
        } else {
            Ok(())
        },
    }
}

/// Whether an operation was recorded as an owner.
pub fn check_owner_attached(rows_attached: u64) -> (result: Result<(), ImportError>)
    ensures
        result == if rows_attached == 1 {
            Ok::<(), ImportError>(())
        } else {
            Err(ImportError::OwnerNotAttached)
        },
{
    if rows_attached == 1 {
        Ok(())
    } else {
        Err(ImportError::OwnerNotAttached)
    }
}

// ---------------------------------------------------------------------------------------
// Cancellation
// ---------------------------------------------------------------------------------------

/// What a cancellation removes besides the operation's ownership of the import in row
/// `import`: the import itself, and its session.
#[derive(Debug, Clone, Copy, PartialEq, Eq, Structural)]
pub struct ImportCancellation {
    pub import: usize,
    pub delete_import: bool,
    pub delete_session: bool,
}

/// Which owners have the given import and another operation.
pub open spec fn is_other_owner(
    owners: Seq<RuntimeImportOwnerRow>,
    import_id: Seq<char>,
    operation_id: Seq<char>,
) -> spec_fn(int) -> bool {
    |i: int| owners[i].import_id@ == import_id && owners[i].operation_id@ != operation_id
}

/// Which rows are another import of the session of row `at`.
pub open spec fn is_other_import(rows: Seq<RuntimeImportRow>, at: int) -> spec_fn(int) -> bool {
    |i: int| rows[i].session_id@ == rows[at].session_id@ && rows[i].id@ != rows[at].id@
}

/// What an operation removes that gives up its staged import in row `at`: the import where
/// nobody else owns it, and then the session where no other import has it.
pub open spec fn released(
    rows: Seq<RuntimeImportRow>,
    owners: Seq<RuntimeImportOwnerRow>,
    at: int,
    operation_id: Seq<char>,
) -> ImportCancellation {
    let unowned = first_kept(owners.len() as int, is_other_owner(owners, rows[at].id@, operation_id)) is None;
    ImportCancellation {
        import: at as usize,
        delete_import: unowned,
        delete_session: unowned && first_kept(rows.len() as int, is_other_import(rows, at)) is None,
    }
}

fn release(
    rows: &Vec<RuntimeImportRow>,
    owners: &Vec<RuntimeImportOwnerRow>,
    at: usize,
    operation_id: &str,
) -> (result: ImportCancellation)
    requires
        at < rows.len(),
    ensures
        result == released(rows@, owners@, at as int, operation_id@),
{
    let ghost other_owner = is_other_owner(owners@, rows@[at as int].id@, operation_id@);
    let ghost other_import = is_other_import(rows@, at as int);
    let mut unowned: bool = true;
    let mut i: usize = 0;
    while i < owners.len()
        invariant
            i <= owners.len(),
            at < rows.len(),
            other_owner == is_other_owner(owners@, rows@[at as int].id@, operation_id@),
            unowned == (first_kept(i as int, other_owner) is None),
        decreases owners.len() - i,
    {
        if owners[i].import_id == rows[at].id && !same(owners[i].operation_id.as_str(), operation_id) {
            unowned = false;
        }
        i = i + 1;
    }
    let mut unshared: bool = true;
    let mut i: usize = 0;
    while i < rows.len()
        invariant
            i <= rows.len(),
            at < rows.len(),
            other_import == is_other_import(rows@, at as int),
            unshared == (first_kept(i as int, other_import) is None),
        decreases rows.len() - i,
    {
        if rows[i].session_id == rows[at].session_id && rows[i].id != rows[at].id {
            unshared = false;
        }
        i = i + 1;
    }
    ImportCancellation { import: at, delete_import: unowned, delete_session: unowned && unshared }
}

/// Which rows are the staged import with an identity.
pub open spec fn is_staged_import(rows: Seq<RuntimeImportRow>, import_id: Seq<char>) -> spec_fn(int) -> bool {
    |i: int| rows[i].id@ == import_id && is_staged(rows[i])
}

/// Which rows are a staged import of a session on a base.
pub open spec fn is_staged_session(
    rows: Seq<RuntimeImportRow>,
    base_snapshot_id: Seq<char>,
    session_id: Seq<char>,
) -> spec_fn(int) -> bool {
    |i: int|
        rows[i].parent_snapshot_id@ == base_snapshot_id && rows[i].session_id@ == session_id && is_staged(rows[i])
}

/// Which owners have the given operation and an import among the rows.
pub open spec fn owns_import(
    rows: Seq<RuntimeImportRow>,
    owners: Seq<RuntimeImportOwnerRow>,
    operation_id: Seq<char>,
) -> spec_fn(int) -> bool {
    |i: int|
        owners[i].operation_id@ == operation_id && first_kept(
            rows.len() as int,
            has_import_id(rows, owners[i].import_id@),
        ) is Some
}

/// Which rows have the given identity.
pub open spec fn has_import_id(rows: Seq<RuntimeImportRow>, import_id: Seq<char>) -> spec_fn(int) -> bool {
    |i: int| rows[i].id@ == import_id
}

/// What giving up the staged import in row `at` decides: nothing where the operation does
/// not own it. Absence fails safe: staging is retained for another owner or for recovery.
pub open spec fn release_decision(
    rows: Seq<RuntimeImportRow>,
    owners: Seq<RuntimeImportOwnerRow>,
    at: int,
    operation_id: Seq<char>,
) -> Result<Option<ImportCancellation>, ImportError> {
    let owned = count_of(owners.len() as int, is_owner(owners, rows[at].id@, operation_id));
    if owned == 0 {
        Ok(None)
    } else if owned != 1 {
        Err(ImportError::OwnerNotUnique)
    } else {
        Ok(Some(released(rows, owners, at, operation_id)))
    }
}

fn decide_release(
    rows: &Vec<RuntimeImportRow>,
    owners: &Vec<RuntimeImportOwnerRow>,
    at: usize,
    operation_id: &str,
) -> (result: Result<Option<ImportCancellation>, ImportError>)
    requires
        at < rows.len(),
    ensures
        result == release_decision(rows@, owners@, at as int, operation_id@),
{
    let owned: usize = count_owners(owners, rows[at].id.as_str(), operation_id);
    if owned == 0 {
        Ok(None)
    } else if owned != 1 {
        Err(ImportError::OwnerNotUnique)
    } else {
        Ok(Some(release(rows, owners, at, operation_id)))
    }
}

/// What cancelling an import for an operation removes; nothing where no such import is
/// staged or the operation does not own it.
pub fn cancel_runtime_session_import_for_operation(
    rows: &Vec<RuntimeImportRow>,
    owners: &Vec<RuntimeImportOwnerRow>,
    import_id: &str,
    operation_id: &str,
) -> (result: Result<Option<ImportCancellation>, ImportError>)
    ensures
        result == if LEGACY_RUNTIME_IMPORT_OWNER_PREFIX@.is_prefix_of(operation_id@) {
            Err::<Option<ImportCancellation>, _>(ImportError::ReservedOperation)
        } else {
            match first_kept(rows@.len() as int, is_staged_import(rows@, import_id@)) {
                None => Ok(None),
                Some(at) => release_decision(rows@, owners@, at, operation_id@),
            }
        },
{
    if let Err(error) = reject_reserved_runtime_import_operation_id(operation_id) {
        return Err(error);
    }
    let ghost keep = is_staged_import(rows@, import_id@);
    let mut i: usize = 0;
    while i < rows.len()
        invariant
            i <= rows.len(),
            keep == is_staged_import(rows@, import_id@),
            first_kept(i as int, keep) is None,
            !LEGACY_RUNTIME_IMPORT_OWNER_PREFIX@.is_prefix_of(operation_id@),
        decreases rows.len() - i,
    {
        if same(rows[i].id.as_str(), import_id) && row_is_staged(&rows[i]) {
            proof {
                first_kept_remains(i + 1, rows@.len() as int, keep);
            }
            return decide_release(rows, owners, i, operation_id);
        }
        i = i + 1;
    }
    Ok(None)
}

/// What cancelling the staged import of a session on a base removes. `trace_digests` holds,
/// for each row, the trace digest of its session.
pub fn cancel_matching_staged_runtime_session_import(
    rows: &Vec<RuntimeImportRow>,
    trace_digests: &Vec<String>,
    owners: &Vec<RuntimeImportOwnerRow>,
    base_snapshot_id: &str,
    session_id: &str,
    trace_digest: &str,
    operation_id: &str,
) -> (result: Result<Option<ImportCancellation>, ImportError>)
    requires
        trace_digests.len() == rows.len(),
    ensures
        result == if LEGACY_RUNTIME_IMPORT_OWNER_PREFIX@.is_prefix_of(operation_id@) {
            Err::<Option<ImportCancellation>, _>(ImportError::ReservedOperation)
        } else {
            match first_kept(rows@.len() as int, is_staged_session(rows@, base_snapshot_id@, session_id@)) {
                None => Ok(None),
                Some(at) => if trace_digests@[at]@ != trace_digest@ {
                    Err(ImportError::TraceMismatch)
                } else {
                    release_decision(rows@, owners@, at, operation_id@)
                },
            }
        },
{
    if let Err(error) = reject_reserved_runtime_import_operation_id(operation_id) {
        return Err(error);
    }
    let ghost keep = is_staged_session(rows@, base_snapshot_id@, session_id@);
    let mut i: usize = 0;
    while i < rows.len()
        invariant
            i <= rows.len(),
            trace_digests.len() == rows.len(),
            keep == is_staged_session(rows@, base_snapshot_id@, session_id@),
            first_kept(i as int, keep) is None,
            !LEGACY_RUNTIME_IMPORT_OWNER_PREFIX@.is_prefix_of(operation_id@),
        decreases rows.len() - i,
    {
        if same(rows[i].parent_snapshot_id.as_str(), base_snapshot_id) && same(rows[i].session_id.as_str(), session_id)
            && row_is_staged(&rows[i]) {
            proof {
                first_kept_remains(i + 1, rows@.len() as int, keep);
            }
            if !same(trace_digests[i].as_str(), trace_digest) {
                return Err(ImportError::TraceMismatch);
            }
            return decide_release(rows, owners, i, operation_id);
        }
        i = i + 1;
    }
    Ok(None)
}

fn find_import(rows: &Vec<RuntimeImportRow>, import_id: &str) -> (result: Option<usize>)
    ensures
        match result {
            Some(at) => at < rows.len() && first_kept(rows@.len() as int, has_import_id(rows@, import_id@)) == Some(
                at as int,
            ),
            None => first_kept(rows@.len() as int, has_import_id(rows@, import_id@)) is None,
        },
{
    let ghost keep = has_import_id(rows@, import_id@);
    let mut i: usize = 0;
    while i < rows.len()
        invariant
            i <= rows.len(),
            keep == has_import_id(rows@, import_id@),
            first_kept(i as int, keep) is None,
        decreases rows.len() - i,
    {
        if same(rows[i].id.as_str(), import_id) {
            proof {
                first_kept_remains(i + 1, rows@.len() as int, keep);
            }
            return Some(i);
        }
        i = i + 1;
    }
    None
}

/// What giving up the one import that an operation owns decides.
pub open spec fn owned_release(
    rows: Seq<RuntimeImportRow>,
    owners: Seq<RuntimeImportOwnerRow>,
    operation_id: Seq<char>,
) -> Result<Option<ImportCancellation>, ImportError> {
    match first_kept(owners.len() as int, owns_import(rows, owners, operation_id)) {
        None => Ok(None),
        Some(owner) => {
            let at = first_kept(rows.len() as int, has_import_id(rows, owners[owner].import_id@))->0;
            if !is_staged(rows[at]) {
                Err(ImportError::OwnerNotMutable)
            } else if count_of(owners.len() as int, is_owner(owners, rows[at].id@, operation_id)) != 1 {
                Err(ImportError::OwnerNotUnique)
            } else {
                Ok(Some(released(rows, owners, at, operation_id)))
            }
        },
    }
}

/// What cancelling whatever import an operation owns removes.
pub fn cancel_staged_runtime_session_import_for_operation(
    rows: &Vec<RuntimeImportRow>,
    owners: &Vec<RuntimeImportOwnerRow>,
    operation_id: &str,
) -> (result: Result<Option<ImportCancellation>, ImportError>)
    ensures
        result == if LEGACY_RUNTIME_IMPORT_OWNER_PREFIX@.is_prefix_of(operation_id@) {
            Err::<Option<ImportCancellation>, _>(ImportError::ReservedOperation)
        } else if !may_own_import(operation_id@) {
            Err(ImportError::InvalidOperation)
        } else {
            owned_release(rows@, owners@, operation_id@)
        },
{
    if let Err(error) = reject_reserved_runtime_import_operation_id(operation_id) {
        return Err(error);
    }
    if !valid_runtime_import_operation_id(operation_id) {
        return Err(ImportError::InvalidOperation);
    }
    release_owned(rows, owners, operation_id)
}

fn release_owned(rows: &Vec<RuntimeImportRow>, owners: &Vec<RuntimeImportOwnerRow>, operation_id: &str) -> (result: Result<
    Option<ImportCancellation>,
    ImportError,
>)
    ensures
        result == owned_release(rows@, owners@, operation_id@),
{
    let ghost keep = owns_import(rows@, owners@, operation_id@);
    let mut i: usize = 0;
    while i < owners.len()
        invariant
            i <= owners.len(),
            keep == owns_import(rows@, owners@, operation_id@),
            first_kept(i as int, keep) is None,
        decreases owners.len() - i,
    {
        if same(owners[i].operation_id.as_str(), operation_id) {
            match find_import(rows, owners[i].import_id.as_str()) {
                Some(at) => {
                    proof {
                        assert(keep(i as int));
                        first_kept_remains(i + 1, owners@.len() as int, keep);
                    }
                    if !row_is_staged(&rows[at]) {
                        return Err(ImportError::OwnerNotMutable);
                    }
                    if count_owners(owners, rows[at].id.as_str(), operation_id) != 1 {
                        return Err(ImportError::OwnerNotUnique);
                    }
                    return Ok(Some(release(rows, owners, at, operation_id)));
                },
                None => {},
            }
        }
        i = i + 1;
    }
    Ok(None)
}

// ---------------------------------------------------------------------------------------
// Laws
// ---------------------------------------------------------------------------------------

/// Cancelling an import removes nothing but staging: the import was staged without a
/// result, the operation owned it and nobody else did, and a session is removed only where
/// no other import has it.
pub proof fn cancellation_removes_only_own_staging(
    rows: Seq<RuntimeImportRow>,
    owners: Seq<RuntimeImportOwnerRow>,
    import_id: Seq<char>,
    operation_id: Seq<char>,
)
    requires
        first_kept(rows.len() as int, is_staged_import(rows, import_id)) is Some,
        release_decision(
            rows,
            owners,
            first_kept(rows.len() as int, is_staged_import(rows, import_id))->0,
            operation_id,
        ) matches Ok(Some(_)),
    ensures
        ({
            let at = first_kept(rows.len() as int, is_staged_import(rows, import_id))->0;
            let plan = released(rows, owners, at, operation_id);
            &&& 0 <= at < rows.len()
            &&& rows[at].id@ == import_id
            &&& is_staged(rows[at])
            &&& plan.delete_import ==> forall|i: int|
                0 <= i < owners.len() && #[trigger] owners[i].import_id@ == import_id ==> owners[i].operation_id@
                    == operation_id
            &&& plan.delete_session ==> plan.delete_import && forall|i: int|
                0 <= i < rows.len() && #[trigger] rows[i].session_id@ == rows[at].session_id@ ==> rows[i].id@
                    == import_id
        }),
{
    first_kept_is_first(rows.len() as int, is_staged_import(rows, import_id));
    let at = first_kept(rows.len() as int, is_staged_import(rows, import_id))->0;
    let other_owner = is_other_owner(owners, rows[at].id@, operation_id);
    let other_import = is_other_import(rows, at);
    first_kept_is_first(owners.len() as int, other_owner);
    first_kept_is_first(rows.len() as int, other_import);
    let plan = released(rows, owners, at, operation_id);
    if plan.delete_import {
        assert forall|i: int|
            0 <= i < owners.len() && #[trigger] owners[i].import_id@ == import_id implies owners[i].operation_id@
            == operation_id by {
            assert(!other_owner(i));
        }
    }
    if plan.delete_session {
        assert forall|i: int|
            0 <= i < rows.len() && #[trigger] rows[i].session_id@ == rows[at].session_id@ implies rows[i].id@
            == import_id by {
            assert(!other_import(i));
        }
    }
}

/// No operation that may own an import is the owner recorded for one that predates
/// ownership.
pub proof fn legacy_owner_is_no_operation(import_id: Seq<char>)
    ensures
        !may_own_import(legacy_owner_of(import_id)),
{
    let name = legacy_owner_of(import_id);
    assert(name.subrange(0, LEGACY_RUNTIME_IMPORT_OWNER_PREFIX@.len() as int)
        =~= LEGACY_RUNTIME_IMPORT_OWNER_PREFIX@);
}

} // verus!

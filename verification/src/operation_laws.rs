//! What an operation may own, seal, record, recover, adopt and cancel, and what a store may hold
//! of it.

use vstd::prelude::*;
use vstd::utf8::{encode_utf8, valid_utf8};

use crate::counting::kept_is_wanted;
use crate::digest::{hex_text, is_hex_text, sha256_digest};
use crate::operations::{
    decision_digest, decision_of, opt_bytes, scan_attempt_is_bound_to_operation,
    validate_internal_scan_operation_binding, validate_legacy_scan_operation_candidate,
    validate_scan_operation_recovery_binding, zero_digest, OperationError,
};
use crate::order::{count_of_none, count_of_nothing, no_failure_anywhere};
use crate::ownership::{
    authenticate_legacy_runtime_import_candidates, authenticate_legacy_scan_operation_candidates, is_unowned,
    legacy_import_failure, legacy_scan_failure, legacy_sentinel, owner_is_unsound, staging_is_unsound,
    validate_runtime_import_owners, validate_scan_operation_staging_rows, LegacyImportRow, LegacyScanRow,
    NewStagingRow, OwnershipError, StoredBytes, StoredImport, StoredImportOwner, StoredStagingRow,
};
use crate::records::{
    FinishedScan, LegacyRuntimeImportCandidate, LegacyScanOperationCandidate, ScanCompletionRecoveryIdentity,
    ScanOperationRecoveryBinding, ScanOperationStagingIdentity, ValidatedScan,
};
use crate::staging::{
    adopt_legacy_candidate, bind_scan_operation_result, cancel_scan_for_operation, check_recovered_finish,
    check_recovered_snapshot, check_recovered_staging, check_scan_start, finalize_cancelled_scan, first_row_error,
    legacy_adoption, legacy_reconciliation, pending_cancelled_page, reconciliation_page, recovery_step,
    replace_abandoned_scan_attempt, row_error, seal_scan_operation_staging, validate_staging_row, AbandonedAttempt,
    CancelStep, LegacyAdoption, PendingCancelledScanOperations, RecoveryStep,
};
use crate::text::{byte_len, is_control_char, is_space_char, opt_text};

verus! {

/// Whether a name is reserved for scans of before operations.
pub open spec fn is_reserved_for_scans(operation_id: Seq<char>) -> bool {
    let prefix = "__depgraph_reserved_legacy_scan_operation_candidate__:"@;
    prefix.len() <= operation_id.len() && operation_id.subrange(0, prefix.len() as int) == prefix
}

/// Whether a scan is an attempt of an operation: it is named by the digest of the operation and a
/// nonce of its own.
pub open spec fn is_attempt_of_operation(scan_id: Seq<char>, operation_id: Seq<char>) -> bool {
    exists|nonce: Seq<char>| #[trigger]
        is_hex_text(nonce, 32) && scan_id == "scan-attempt:"@ + hex_text(sha256_digest(encode_utf8(operation_id)))
            + ":"@ + nonce
}

/// A scan is bound to the operation whose attempt its name says it is; where names of before
/// attempts are allowed, also to the operation whose name it has.
pub proof fn scans_are_bound_by_their_names(scan_id: &str, operation_id: &str, legacy: bool, result: bool)
    requires
        call_ensures(scan_attempt_is_bound_to_operation, (scan_id, operation_id, legacy), result),
    ensures
        result <==> is_attempt_of_operation(scan_id@, operation_id@) || (legacy && scan_id@ == operation_id@),
{
    let digest = sha256_digest(encode_utf8(operation_id@));
    if is_attempt_of_operation(scan_id@, operation_id@) {
        let nonce = choose|nonce: Seq<char>| #[trigger]
            is_hex_text(nonce, 32) && scan_id@ == "scan-attempt:"@ + hex_text(digest) + ":"@ + nonce;
        assert(is_hex_text(nonce, 32));
        assert(crate::operations::is_attempt_of(scan_id@, digest));
    }
    if crate::operations::is_attempt_of(scan_id@, digest) {
        let nonce = choose|nonce: Seq<char>| #[trigger]
            is_hex_text(nonce, 32) && scan_id@ == "scan-attempt:"@ + hex_text(digest) + ":"@ + nonce;
        assert(is_hex_text(nonce, 32));
    }
}

/// A scan starts without an owner, or for an operation whose name is not empty, not too long,
/// without control characters and not reserved, as an attempt of that operation, and not while a
/// scan of before operations waits. A revision that is given says something.
pub proof fn scans_start_for_operations_that_may_own_them(
    scan_id: &str,
    source_revision: Option<&str>,
    identity: Option<&ScanOperationStagingIdentity<'_>>,
    legacy_candidate_exists: bool,
    result: Result<(), OperationError>,
)
    requires
        call_ensures(check_scan_start, (scan_id, source_revision, identity, legacy_candidate_exists), result),
    ensures
        result is Ok ==> {
            &&& source_revision is Some ==> exists|i: int|
                0 <= i < source_revision->0@.len() && !is_space_char(#[trigger] source_revision->0@[i])
            &&& identity is Some ==> {
                let operation_id = identity->0.operation_id@;
                &&& operation_id.len() > 0
                &&& byte_len(operation_id) <= 512
                &&& forall|i: int| 0 <= i < operation_id.len() ==> !is_control_char(#[trigger] operation_id[i])
                &&& !is_reserved_for_scans(operation_id)
                &&& is_attempt_of_operation(scan_id@, operation_id)
                &&& !legacy_candidate_exists
            }
        },
        source_revision is None && identity is None ==> result is Ok,
        source_revision is Some && (forall|i: int|
            0 <= i < source_revision->0@.len() ==> is_space_char(#[trigger] source_revision->0@[i])) ==> result
            == Err::<(), _>(OperationError::EmptySourceRevision),
{
    if identity is Some {
        let operation_id = identity->0.operation_id@;
        let digest = sha256_digest(encode_utf8(operation_id));
        if crate::operations::is_attempt_of(scan_id@, digest) {
            let nonce = choose|nonce: Seq<char>| #[trigger]
                is_hex_text(nonce, 32) && scan_id@ == "scan-attempt:"@ + hex_text(digest) + ":"@ + nonce;
            assert(is_hex_text(nonce, 32));
        }
    }
}

/// An attempt that was abandoned is replaced only by the same request: the same repository,
/// configuration, root, strictness and cache. One that is staging is cancelled and released, one
/// that is cancelled is released, and no other is replaced.
pub proof fn abandoned_attempts_are_replaced_by_the_same_request(
    existing: Option<&ScanOperationRecoveryBinding>,
    root: &str,
    strict: bool,
    identity: &ScanOperationStagingIdentity<'_>,
    result: Result<AbandonedAttempt, OperationError>,
)
    requires
        call_ensures(replace_abandoned_scan_attempt, (existing, root, strict, identity), result),
    ensures
        result == Ok::<AbandonedAttempt, OperationError>(AbandonedAttempt::Absent) <==> existing is None,
        result is Ok && existing is Some ==> {
            let binding = *existing->0;
            &&& binding.repository_binding_digest@ == identity.repository_binding_digest@
            &&& binding.configuration_digest@ == identity.configuration_digest@
            &&& binding.strict == strict
            &&& binding.scan_strict == strict
            &&& binding.cache_enabled == identity.cache_enabled
            &&& binding.root@ == root@
            &&& opt_text(binding.base_snapshot_id) == opt_text(binding.parent_snapshot_id)
            &&& binding.status@ == "staging"@ ==> result->Ok_0 == AbandonedAttempt::CancelAndRelease
            &&& binding.status@ == "cancelled"@ ==> result->Ok_0 == AbandonedAttempt::Release
            &&& binding.status@ == "staging"@ || binding.status@ == "cancelled"@
        },
{
    reveal_strlit("staging");
    reveal_strlit("cancelled");
    assert("staging"@.len() == 7 && "cancelled"@.len() == 9);
}

/// A staged scan is sealed once, for its own operation, with the changes that were validated and
/// the snapshot that it is to become; nothing else of it changes.
pub proof fn sealed_scans_are_as_they_were_validated(
    existing: Option<ScanOperationRecoveryBinding>,
    operation_id: &str,
    validation: &ValidatedScan,
    prospective_snapshot_id: &str,
    result: Result<ScanOperationRecoveryBinding, OperationError>,
)
    requires
        call_ensures(
            seal_scan_operation_staging,
            (existing, operation_id, validation, prospective_snapshot_id),
            result,
        ),
    ensures
        result matches Ok(sealed) ==> {
            &&& existing is Some
            &&& prospective_snapshot_id@.len() > 0
            &&& existing->0.operation_id@ == operation_id@
            &&& existing->0.scan_id@ == validation.scan_id@
            &&& existing->0.status@ == "staging"@
            &&& existing->0.mutation_count == validation.mutation_count
            &&& existing->0.validated_mutation_count is None
            &&& existing->0.prospective_snapshot_id is None
            &&& existing->0.result_digest is None
            &&& opt_text(existing->0.parent_snapshot_id) == opt_text(existing->0.base_snapshot_id)
            &&& sealed.validated_mutation_count == Some(validation.mutation_count)
            &&& opt_text(sealed.prospective_snapshot_id) == Some(prospective_snapshot_id@)
            &&& sealed.operation_id == existing->0.operation_id
            &&& sealed.scan_id == existing->0.scan_id
            &&& sealed.result_digest is None
            &&& sealed.status == existing->0.status
            &&& sealed.mutation_count == existing->0.mutation_count
            &&& sealed.decision_authorization_digest == existing->0.decision_authorization_digest
        },
        existing is None ==> result is Err,
{
}

/// A result is recorded for the operation that owns the scan, while the scan is staging as it was
/// validated, with the digest that authorizes exactly this decision; the same result can be
/// recorded again, and another cannot.
pub proof fn recorded_results_are_authorized(
    existing: Option<ScanOperationRecoveryBinding>,
    operation_id: &str,
    result_digest: &[u8; 32],
    result: Result<ScanOperationRecoveryBinding, OperationError>,
)
    requires
        call_ensures(bind_scan_operation_result, (existing, operation_id, result_digest), result),
        result is Ok,
    ensures
        existing is Some,
        ({
            let before = existing->0;
            let bound = result->Ok_0;
            &&& before.operation_id@ == operation_id@
            &&& before.status@ == "staging"@
            &&& before.validated_mutation_count == Some(before.mutation_count)
            &&& before.prospective_snapshot_id is Some
            &&& before.result_digest is None || opt_bytes(before.result_digest) == Some(result_digest@)
            &&& opt_bytes(bound.result_digest) == Some(result_digest@)
            &&& opt_bytes(bound.decision_authorization_digest) == Some(
                decision_digest(
                    decision_of(
                        operation_id@,
                        before.scan_id@,
                        before.root@,
                        before.repository_binding_digest@,
                        before.configuration_digest@,
                        before.strict,
                        before.cache_enabled,
                        opt_text(before.base_snapshot_id),
                        before.mutation_count,
                        before.prospective_snapshot_id->0@,
                        result_digest@,
                    ),
                ),
            )
            &&& bound.scan_id == before.scan_id
            &&& bound.validated_mutation_count == before.validated_mutation_count
            &&& bound.prospective_snapshot_id == before.prospective_snapshot_id
            &&& bound.status == before.status
        }),
{
}

/// An owner is consistent exactly where its scan is an attempt of it and no decision is recorded,
/// or the recorded decision is the one that its row gives; its name is not reserved, its digests
/// are whole, and it is as strict and over the same base as its scan.
pub proof fn owners_are_consistent_with_their_scans(
    binding: &ScanOperationRecoveryBinding,
    result: Result<(), OperationError>,
)
    requires
        call_ensures(validate_internal_scan_operation_binding, (binding,), result),
        result is Ok,
    ensures
        !is_reserved_for_scans(binding.operation_id@),
        binding.repository_binding_digest@.len() == 32,
        binding.configuration_digest@.len() == 32,
        binding.strict == binding.scan_strict,
        opt_text(binding.base_snapshot_id) == opt_text(binding.parent_snapshot_id),
        binding.decision_authorization_digest is None ==> is_attempt_of_operation(
            binding.scan_id@,
            binding.operation_id@,
        ) || binding.scan_id@ == binding.operation_id@,
        binding.decision_authorization_digest is Some ==> {
            &&& binding.validated_mutation_count is Some
            &&& binding.prospective_snapshot_id is Some
            &&& binding.result_digest is Some
            &&& opt_bytes(binding.decision_authorization_digest) == Some(
                decision_digest(
                    decision_of(
                        binding.operation_id@,
                        binding.scan_id@,
                        binding.root@,
                        binding.repository_binding_digest@,
                        binding.configuration_digest@,
                        binding.strict,
                        binding.cache_enabled,
                        opt_text(binding.base_snapshot_id),
                        binding.validated_mutation_count->0,
                        binding.prospective_snapshot_id->0@,
                        binding.result_digest->0@,
                    ),
                ),
            )
        },
{
    let digest = sha256_digest(encode_utf8(binding.operation_id@));
    if crate::operations::is_attempt_of(binding.scan_id@, digest) {
        let nonce = choose|nonce: Seq<char>| #[trigger]
            is_hex_text(nonce, 32) && binding.scan_id@ == "scan-attempt:"@ + hex_text(digest) + ":"@ + nonce;
        assert(is_hex_text(nonce, 32));
    }
}

/// A recovery is of the operation, scan, root, repository, strictness, cache, snapshot and result
/// that the row holds, and of a scan that has not changed since it was validated.
pub proof fn recoveries_are_of_the_recorded_result(
    binding: &ScanOperationRecoveryBinding,
    identity: &ScanCompletionRecoveryIdentity<'_>,
    result: Result<(), OperationError>,
)
    requires
        call_ensures(validate_scan_operation_recovery_binding, (binding, identity), result),
        result is Ok,
    ensures
        binding.operation_id@ == identity.operation_id@,
        binding.scan_id@ == identity.scan_id@,
        binding.root@ == identity.repository_root@,
        binding.repository_binding_digest@ == identity.repository_binding_digest@,
        binding.strict == identity.strict,
        binding.scan_strict == identity.strict,
        binding.cache_enabled == identity.cache_enabled,
        binding.validated_mutation_count == Some(binding.mutation_count),
        opt_text(binding.prospective_snapshot_id) == Some(identity.snapshot_id@),
        opt_bytes(binding.result_digest) == Some(identity.result_digest@),
        binding.decision_authorization_digest is Some,
        opt_bytes(binding.decision_authorization_digest) != Some(zero_digest()),
{
}

/// A recovered scan is finished where it is staging and compared where it completed; no other is
/// recovered.
pub proof fn recoveries_finish_or_compare(
    binding: &ScanOperationRecoveryBinding,
    identity: &ScanCompletionRecoveryIdentity<'_>,
    result: Result<RecoveryStep, OperationError>,
)
    requires
        call_ensures(recovery_step, (binding, identity), result),
    ensures
        result is Ok ==> binding.operation_id@ == identity.operation_id@ && binding.scan_id@ == identity.scan_id@,
        result matches Ok(step) ==> (step == RecoveryStep::Finish <==> binding.status@ == "staging"@),
        result matches Ok(step) ==> (step == RecoveryStep::CompareSnapshot <==> binding.status@ == "completed"@),
        binding.status@ != "staging"@ && binding.status@ != "completed"@ ==> result is Err,
{
    reveal_strlit("staging");
    reveal_strlit("completed");
    assert("staging"@.len() == 7 && "completed"@.len() == 9);
}

/// What is recovered is unchanged: a staged scan has the changes and the snapshot that were
/// recorded, a finished one completed with the snapshot and was promoted or overtaken, and a
/// completed one became the snapshot.
pub proof fn recovered_scans_are_unchanged(
    binding: &ScanOperationRecoveryBinding,
    identity: &ScanCompletionRecoveryIdentity<'_>,
    mutation_count: i64,
    prospective_snapshot_id: &str,
    staged: Result<(), OperationError>,
    finished: &FinishedScan,
    current_snapshot_id: &Option<String>,
    done: Result<(), OperationError>,
    source_snapshot_id: &Option<String>,
    compared: Result<(), OperationError>,
)
    requires
        call_ensures(check_recovered_staging, (binding, identity, mutation_count, prospective_snapshot_id), staged),
        call_ensures(check_recovered_finish, (binding, identity, finished, current_snapshot_id), done),
        call_ensures(check_recovered_snapshot, (identity, source_snapshot_id), compared),
    ensures
        staged is Ok <==> binding.validated_mutation_count == Some(mutation_count) && prospective_snapshot_id@
            == identity.snapshot_id@ && opt_text(binding.prospective_snapshot_id) == Some(identity.snapshot_id@),
        done is Ok <==> opt_text(finished.completed_snapshot_id) == Some(identity.snapshot_id@) && (finished.promoted
            || opt_text(*current_snapshot_id) != opt_text(binding.base_snapshot_id)),
        compared is Ok <==> opt_text(*source_snapshot_id) == Some(identity.snapshot_id@),
{
}

/// A scan of before operations stands under the name that its digest gives, without digests, cache
/// and result of its own: staging without a validation, or completed as it was validated with its
/// snapshot.
pub proof fn legacy_candidates_hold_nothing_of_their_own(
    binding: &ScanOperationRecoveryBinding,
    result: Result<(), OperationError>,
)
    requires
        call_ensures(validate_legacy_scan_operation_candidate, (binding,), result),
    ensures
        result is Ok <==> {
            &&& binding.operation_id@ == "__depgraph_reserved_legacy_scan_operation_candidate__:"@ + hex_text(
                sha256_digest(encode_utf8(binding.scan_id@)),
            )
            &&& binding.repository_binding_digest@ == zero_digest()
            &&& binding.configuration_digest@ == zero_digest()
            &&& opt_bytes(binding.decision_authorization_digest) == Some(zero_digest())
            &&& !binding.cache_enabled
            &&& binding.strict == binding.scan_strict
            &&& opt_text(binding.base_snapshot_id) == opt_text(binding.parent_snapshot_id)
            &&& binding.result_digest is None
            &&& (binding.status@ == "staging"@ && binding.validated_mutation_count is None
                && binding.prospective_snapshot_id is None) || (binding.status@ == "completed"@
                && binding.validated_mutation_count == Some(binding.mutation_count)
                && binding.prospective_snapshot_id is Some)
        },
{
}

/// A scan of before operations is adopted for the scan that is asked for, and is validated where
/// it is staging and taken as it was sealed where it completed. What is adopted belongs to the
/// operation, with its repository, cache, snapshot and result, and stays what it was otherwise.
pub proof fn adopted_scans_belong_to_the_operation(
    candidate: ScanOperationRecoveryBinding,
    identity: &ScanCompletionRecoveryIdentity<'_>,
    decided: Result<LegacyAdoption, OperationError>,
    mutation_count: i64,
    snapshot_id: String,
    result: Result<ScanOperationRecoveryBinding, OperationError>,
)
    requires
        call_ensures(legacy_adoption, (&candidate, identity), decided),
        call_ensures(adopt_legacy_candidate, (candidate, identity, mutation_count, snapshot_id), result),
    ensures
        decided is Ok ==> candidate.scan_id@ == identity.scan_id@,
        decided == Ok::<LegacyAdoption, OperationError>(LegacyAdoption::Validate) ==> candidate.status@ == "staging"@,
        decided matches Ok(LegacyAdoption::Sealed { mutation_count, snapshot_id }) ==> candidate.status@
            == "completed"@ && candidate.validated_mutation_count == Some(mutation_count)
            && candidate.prospective_snapshot_id == Some(snapshot_id),
        result is Ok <==> snapshot_id@ == identity.snapshot_id@,
        result matches Ok(adopted) ==> {
            &&& adopted.operation_id@ == identity.operation_id@
            &&& adopted.repository_binding_digest@ == identity.repository_binding_digest@
            &&& adopted.cache_enabled == identity.cache_enabled
            &&& adopted.validated_mutation_count == Some(mutation_count)
            &&& opt_text(adopted.prospective_snapshot_id) == Some(identity.snapshot_id@)
            &&& opt_bytes(adopted.result_digest) == Some(identity.result_digest@)
            &&& adopted.scan_id == candidate.scan_id
            &&& adopted.strict == candidate.strict
            &&& adopted.root == candidate.root
            &&& adopted.status == candidate.status
            &&& adopted.mutation_count == candidate.mutation_count
            &&& adopted.base_snapshot_id == candidate.base_snapshot_id
        },
{
}

/// Scans of before operations are reconciled page by page: those that are staging are cancelled,
/// those that completed are kept.
pub proof fn staging_scans_are_reconciled(
    candidate: &ScanOperationRecoveryBinding,
    cancels: Result<bool, OperationError>,
    candidate_ids: Vec<String>,
    page: (Vec<String>, bool),
)
    requires
        call_ensures(legacy_reconciliation, (candidate,), cancels),
        call_ensures(reconciliation_page, (candidate_ids,), page),
    ensures
        cancels matches Ok(cancelled) ==> (cancelled <==> candidate.status@ == "staging"@),
        page.1 <==> candidate_ids@.len() > 64,
        candidate_ids@.len() <= 64 ==> page.0@ == candidate_ids@,
        candidate_ids@.len() > 64 ==> page.0@ == candidate_ids@.subrange(0, 64),
{
}

/// Cancelling for an operation finishes the scan that it owns where that is staging, and does
/// nothing where it owns none or one that is cancelled already; a scan that ended otherwise, or
/// that nobody owns, is refused.
pub proof fn only_staging_scans_are_cancelled(
    owned_scan_id: &Option<String>,
    binding: Option<&ScanOperationRecoveryBinding>,
    scan_exists: bool,
    result: Result<CancelStep, OperationError>,
    acknowledged: Result<bool, OperationError>,
)
    requires
        call_ensures(cancel_scan_for_operation, (owned_scan_id, binding, scan_exists), result),
        call_ensures(finalize_cancelled_scan, (binding,), acknowledged),
    ensures
        result == Ok::<CancelStep, OperationError>(CancelStep::Cancel) ==> owned_scan_id is Some && binding is Some
            && binding->0.scan_id@ == owned_scan_id->0@ && binding->0.status@ == "staging"@,
        result == Ok::<CancelStep, OperationError>(CancelStep::Nothing) ==> (owned_scan_id is None && !scan_exists) || (
        owned_scan_id is Some && binding is Some && binding->0.status@ == "cancelled"@),
        owned_scan_id is None && scan_exists ==> result == Err::<CancelStep, _>(OperationError::ScanWithoutOwner),
        owned_scan_id is None && !scan_exists ==> result is Ok,
        binding is None ==> acknowledged == Ok::<bool, OperationError>(false),
        acknowledged == Ok::<bool, OperationError>(true) ==> binding is Some && binding->0.status@ == "cancelled"@,
        binding is Some && binding->0.status@ != "cancelled"@ ==> acknowledged is Err,
{
    reveal_strlit("staging");
    reveal_strlit("cancelled");
    assert("staging"@.len() == 7 && "cancelled"@.len() == 9);
}

/// A staging row of a completed scan is sealed: it has a validation, a result and the snapshot that
/// the scan became.
pub proof fn completed_rows_are_sealed(
    binding: &ScanOperationRecoveryBinding,
    source_snapshot_id: &Option<String>,
    result: Result<(), OperationError>,
)
    requires
        call_ensures(validate_staging_row, (binding, source_snapshot_id), result),
        result is Ok,
        !is_reserved_for_scans(binding.operation_id@),
        binding.status@ == "completed"@,
    ensures
        source_snapshot_id is Some,
        binding.validated_mutation_count is Some,
        binding.result_digest is Some,
        opt_text(binding.prospective_snapshot_id) == Some(source_snapshot_id->0@),
{
}

proof fn rows_without_errors(rows: Seq<Vec<u8>>, count: int, i: int)
    requires
        first_row_error(rows, count) is None,
        0 <= i < count <= rows.len(),
    ensures
        row_error(rows[i]@) is None,
    decreases count,
{
    if i < count - 1 {
        rows_without_errors(rows, count - 1, i);
    }
}

/// A page of cancelled operations holds the first of them, no more than it can, in their order, and
/// says where to go on exactly where more are left. Every name on it is a text of no more bytes
/// than a name has.
pub proof fn cancelled_operations_are_paged(
    rows: Vec<Vec<u8>>,
    result: Result<PendingCancelledScanOperations, OperationError>,
    i: int,
)
    requires
        call_ensures(pending_cancelled_page, (rows,), result),
        result is Ok,
    ensures
        ({
            let page = result->Ok_0;
            &&& rows@.len() <= 64 ==> page.ids().len() == rows@.len() && !page.has_more() && page.cursor() is None
            &&& rows@.len() > 64 ==> page.ids().len() == 64 && page.has_more() && page.cursor() == Some(
                page.ids()[63]@,
            )
            &&& 0 <= i < page.ids().len() ==> encode_utf8(page.ids()[i]@) == rows@[i]@ && rows@[i]@.len() <= 512
                && valid_utf8(rows@[i]@)
        }),
{
    let page = result->Ok_0;
    if 0 <= i < page.ids().len() {
        let seen = if rows@.len() > 65 {
            65int
        } else {
            rows@.len() as int
        };
        rows_without_errors(rows@, seen, i);
    }
}

/// Runtime imports of before operations are taken over where each has a name of no more bytes than
/// a name has, a time, and no result; each keeps its name and its time.
pub proof fn legacy_imports_are_taken_over(
    rows: Vec<LegacyImportRow>,
    result: Result<Vec<LegacyRuntimeImportCandidate>, OwnershipError>,
    i: int,
)
    requires
        call_ensures(authenticate_legacy_runtime_import_candidates, (rows,), result),
        0 <= i < rows@.len(),
    ensures
        result matches Ok(candidates) ==> {
            &&& candidates@.len() == rows@.len()
            &&& candidates@[i].import_id@ == rows@[i].id@
            &&& candidates@[i].created_at@ == rows@[i].created_at@
            &&& 1 <= byte_len(rows@[i].id@) <= 512
            &&& rows@[i].created_at@.len() > 0
            &&& !rows@[i].has_result
        },
{
    if result is Ok {
        no_failure_anywhere(rows@.len() as int, legacy_import_failure(rows@));
        assert(legacy_import_failure(rows@)(i) is None);
    }
}

/// Scans of before operations are taken over where each has a name, a time and a flag for its
/// strictness, and a completed one has a snapshot; each keeps what it was, a completed one sealed
/// with its changes and its snapshot.
pub proof fn legacy_scans_are_taken_over(
    rows: Vec<LegacyScanRow>,
    result: Result<Vec<LegacyScanOperationCandidate>, OwnershipError>,
    i: int,
)
    requires
        call_ensures(authenticate_legacy_scan_operation_candidates, (rows,), result),
        0 <= i < rows@.len(),
    ensures
        result matches Ok(candidates) ==> {
            let row = rows@[i];
            let candidate = candidates@[i];
            &&& candidates@.len() == rows@.len()
            &&& 1 <= byte_len(row.id@) <= 512
            &&& row.strict == 0 || row.strict == 1
            &&& row.started_at@.len() > 0
            &&& candidate.scan_id@ == row.id@
            &&& candidate.strict <==> row.strict == 1
            &&& opt_text(candidate.parent_snapshot_id) == opt_text(row.parent_snapshot_id)
            &&& candidate.started_at@ == row.started_at@
            &&& row.status@ == "completed"@ ==> row.mutation_count >= 0 && row.snapshot_id is Some
                && candidate.validated_mutation_count == Some(row.mutation_count) && opt_text(
                candidate.prospective_snapshot_id,
            ) == Some(row.snapshot_id->0@)
            &&& row.status@ != "completed"@ ==> candidate.validated_mutation_count is None
                && candidate.prospective_snapshot_id is None
        },
{
    if result is Ok {
        no_failure_anywhere(rows@.len() as int, legacy_scan_failure(rows@));
        assert(legacy_scan_failure(rows@)(i) is None);
        assert(crate::ownership::is_scan_candidate(rows@[i], result->Ok_0@[i]));
    }
}

/// What stands for a scan of before operations holds its scan, strictness, base, validation and
/// snapshot, and nothing of an operation.
pub proof fn sentinels_stand_for_their_scans(candidate: LegacyScanOperationCandidate, row: NewStagingRow)
    requires
        call_ensures(legacy_sentinel, (candidate,), row),
    ensures
        row.scan_id@ == candidate.scan_id@,
        row.operation_id@ == "__depgraph_reserved_legacy_scan_operation_candidate__:"@ + hex_text(
            sha256_digest(encode_utf8(candidate.scan_id@)),
        ),
        row.strict == candidate.strict,
        !row.cache_enabled,
        row.base_snapshot_id == candidate.parent_snapshot_id,
        row.validated_mutation_count == candidate.validated_mutation_count,
        row.prospective_snapshot_id == candidate.prospective_snapshot_id,
        row.result_digest is None,
        row.created_at@ == candidate.started_at@,
        row.repository_binding_digest@.len() == 32,
        forall|i: int| 0 <= i < 32 ==> #[trigger] row.repository_binding_digest@[i] == 0,
{
}

/// Whether an owner of an import is sound: it names an import that is staging without a result, and
/// an operation, in no more bytes than a name has, and says when.
pub open spec fn is_sound_owner(owner: StoredImportOwner) -> bool {
    &&& owner.import_id is Some && 1 <= owner.import_id->0@.len() <= 512
    &&& owner.operation_id is Some && 1 <= owner.operation_id->0@.len() <= 512
    &&& owner.created_at is Some && owner.created_at->0@.len() > 0 && owner.created_at->0@[0] != 0
    &&& owner.import is Some && owner.import->0.status@ == "staging"@ && !owner.import->0.has_result
}

/// In a store whose owners of imports are accepted every owner is sound and every import that is
/// staging without a result has an owner.
pub proof fn accepted_owners_are_sound(
    owners: &Vec<StoredImportOwner>,
    imports: &Vec<StoredImport>,
    result: Result<(), OwnershipError>,
)
    requires
        call_ensures(validate_runtime_import_owners, (owners, Some(imports)), result),
        owners@.len() <= u64::MAX,
        imports@.len() <= u64::MAX,
    ensures
        result is Ok ==> forall|i: int| 0 <= i < owners@.len() ==> is_sound_owner(#[trigger] owners@[i]),
        result is Ok ==> forall|i: int|
            0 <= i < imports@.len() && (#[trigger] imports@[i]).status@ == "staging"@ && !imports@[i].has_result
                ==> exists|o: int|
                0 <= o < owners@.len() && opt_bytes((#[trigger] owners@[o]).import_id) == Some(imports@[i].id@),
        owners@.filter(|owner: StoredImportOwner| !is_sound_owner(owner)).len() > 0 ==> (result matches Err(
            OwnershipError::ImportRowsInconsistent { invalid, unowned },
        ) && invalid == owners@.filter(|owner: StoredImportOwner| !is_sound_owner(owner)).len()),
        owners@.len() == 0 && (forall|i: int|
            0 <= i < imports@.len() ==> (#[trigger] imports@[i]).status@ != "staging"@) ==> result is Ok,
{
    let a = owner_is_unsound(owners@);
    let b = is_unowned(owners@, imports@);
    kept_is_wanted(owners@, |owner: StoredImportOwner| !is_sound_owner(owner), a);
    owners@.lemma_filter_len(|owner: StoredImportOwner| !is_sound_owner(owner));
    crate::order::count_of_is_bounded(imports@.len() as int, b);
    if result is Ok {
        count_of_none(owners@.len() as int, a);
        count_of_none(imports@.len() as int, b);
        assert forall|i: int| 0 <= i < owners@.len() implies is_sound_owner(#[trigger] owners@[i]) by {
            assert(!a(i));
        }
        assert forall|i: int|
            0 <= i < imports@.len() && (#[trigger] imports@[i]).status@ == "staging"@
                && !imports@[i].has_result implies exists|o: int|
            0 <= o < owners@.len() && opt_bytes((#[trigger] owners@[o]).import_id) == Some(imports@[i].id@) by {
            assert(!b(i));
        }
    }
    if owners@.len() == 0 && (forall|i: int|
        0 <= i < imports@.len() ==> (#[trigger] imports@[i]).status@ != "staging"@) {
        assert forall|i: int| 0 <= i < imports@.len() implies !#[trigger] b(i) by {
            assert(imports@[i].status@ != "staging"@);
        }
        count_of_nothing(imports@.len() as int, b);
    }
}

/// In a store whose staging rows are accepted every row names an operation and a scan, has whole
/// digests and flags, and agrees with a scan that is staging, completed or cancelled: in
/// strictness, in its base, and in the changes that were validated, beside which stands a snapshot.
pub proof fn accepted_staging_rows_agree_with_their_scans(
    rows: &Vec<StoredStagingRow>,
    result: Result<(), OwnershipError>,
    i: int,
)
    requires
        call_ensures(validate_scan_operation_staging_rows, (rows, true), result),
        result is Ok,
        0 <= i < rows@.len(),
    ensures
        ({
            let row = rows@[i];
            &&& row.operation_id is Some && 1 <= row.operation_id->0@.len() <= 512
            &&& row.scan_id is Some && 1 <= row.scan_id->0@.len() <= 512
            &&& row.repository_binding_digest matches StoredBytes::Bytes(bytes) && bytes@.len() == 32
            &&& row.configuration_digest matches StoredBytes::Bytes(bytes) && bytes@.len() == 32
            &&& row.strict == 0 || row.strict == 1
            &&& row.cache_enabled == 0 || row.cache_enabled == 1
            &&& row.scan is Some
            &&& row.scan->0.status@ == "staging"@ || row.scan->0.status@ == "completed"@ || row.scan->0.status@
                == "cancelled"@
            &&& row.strict == row.scan->0.strict
            &&& opt_text(row.base_snapshot_id) == opt_text(row.scan->0.parent_snapshot_id)
            &&& row.validated_mutation_count is Some ==> row.validated_mutation_count->0 == row.scan->0.mutation_count
                && row.validated_mutation_count->0 >= 0 && row.prospective_snapshot_id is Some
            &&& row.validated_mutation_count is None ==> row.prospective_snapshot_id is None && row.result_digest
                == StoredBytes::Null
        }),
{
    count_of_none(rows@.len() as int, staging_is_unsound(rows@));
    assert(!staging_is_unsound(rows@)(i));
}

/// The names that stand for scans and imports of before operations are reserved names, each over
/// the digest of what it stands for.
pub proof fn reserved_names_are_given_by_digests(
    scan_id: &str,
    candidate: String,
    import_id: &str,
    owner: String,
    digest: &[u8],
    other: String,
    another: String,
)
    requires
        call_ensures(crate::operations::legacy_scan_operation_candidate_id, (scan_id,), candidate),
        call_ensures(crate::operations::legacy_runtime_import_owner_id, (import_id,), owner),
        call_ensures(crate::operations::legacy_candidate_from_digest, (digest,), other),
        call_ensures(crate::operations::legacy_owner_from_digest, (digest,), another),
    ensures
        candidate@ == "__depgraph_reserved_legacy_scan_operation_candidate__:"@ + hex_text(
            crate::digest::sha256_digest(vstd::utf8::encode_utf8(scan_id@)),
        ),
        owner@ == "__depgraph_reserved_legacy_runtime_import_owner__:"@ + hex_text(
            crate::digest::sha256_digest(
                vstd::utf8::encode_utf8("depgraph-legacy-runtime-import-owner-v1"@) + crate::digest::frame(
                    vstd::utf8::encode_utf8(import_id@),
                ),
            ),
        ),
        other@ == "__depgraph_reserved_legacy_scan_operation_candidate__:"@ + hex_text(digest@),
        another@ == "__depgraph_reserved_legacy_runtime_import_owner__:"@ + hex_text(digest@),
{
}

/// What authorizes a decision begins with its domain, and then holds its parts in order, each after
/// its length.
pub proof fn decisions_are_authorized_by_their_parts(
    operation_id: &str,
    scan_id: &str,
    root: &str,
    binding: &[u8],
    configuration: &[u8],
    strict: bool,
    cache: bool,
    base: Option<&str>,
    mutations: i64,
    snapshot_id: &str,
    digest: &[u8],
    result: Vec<u8>,
)
    requires
        call_ensures(
            crate::operations::scan_decision_authorization_input,
            (operation_id, scan_id, root, binding, configuration, strict, cache, base, mutations, snapshot_id, digest),
            result,
        ),
    ensures
        result@ == vstd::utf8::encode_utf8("depgraph:scan-operation-completion-decision:v1\0"@) + (
        crate::digest::frame(vstd::utf8::encode_utf8(operation_id@)) + (crate::digest::frame(
            vstd::utf8::encode_utf8(scan_id@),
        ) + (crate::digest::frame(vstd::utf8::encode_utf8(root@)) + (crate::digest::frame(binding@) + (
        crate::digest::frame(configuration@) + (crate::digest::frame(seq![if strict { 1u8 } else { 0u8 }]) + (
        crate::digest::frame(seq![if cache { 1u8 } else { 0u8 }]) + (crate::digest::frame(
            vstd::utf8::encode_utf8(
                match base {
                    Some(id) => id@,
                    None => Seq::empty(),
                },
            ),
        ) + (crate::digest::frame(crate::digest::be64(crate::digest::two_complement(mutations))) + (
        crate::digest::frame(vstd::utf8::encode_utf8(snapshot_id@)) + crate::digest::frame(digest@))))))))))),
{
    let decision = crate::operations::decision_of(
        operation_id@,
        scan_id@,
        root@,
        binding@,
        configuration@,
        strict,
        cache,
        crate::operations::opt_str(base),
        mutations,
        snapshot_id@,
        digest@,
    );
    let parts = crate::operations::decision_parts(decision);
    frames_of_eleven(parts);
    assert(parts[5] =~= seq![if strict { 1u8 } else { 0u8 }]);
    assert(parts[6] =~= seq![if cache { 1u8 } else { 0u8 }]);
}

proof fn frames_of_eleven(parts: Seq<Seq<u8>>)
    requires
        parts.len() == 11,
    ensures
        crate::digest::frames(parts) == crate::digest::frame(parts[0]) + (crate::digest::frame(parts[1]) + (
        crate::digest::frame(parts[2]) + (crate::digest::frame(parts[3]) + (crate::digest::frame(parts[4]) + (
        crate::digest::frame(parts[5]) + (crate::digest::frame(parts[6]) + (crate::digest::frame(parts[7]) + (
        crate::digest::frame(parts[8]) + (crate::digest::frame(parts[9]) + crate::digest::frame(parts[10])))))))))),
{
    crate::digest::frames_from_the_front(parts);
    let a = parts.drop_first();
    crate::digest::frames_from_the_front(a);
    let b = a.drop_first();
    crate::digest::frames_from_the_front(b);
    let c = b.drop_first();
    crate::digest::frames_from_the_front(c);
    let d = c.drop_first();
    crate::digest::frames_from_the_front(d);
    let e = d.drop_first();
    crate::digest::frames_from_the_front(e);
    let f = e.drop_first();
    crate::digest::frames_from_the_front(f);
    let g = f.drop_first();
    crate::digest::frames_from_the_front(g);
    let h = g.drop_first();
    crate::digest::frames_from_the_front(h);
    let i = h.drop_first();
    crate::digest::frames_from_the_front(i);
    let j = i.drop_first();
    crate::digest::frames_from_the_front(j);
    let k = j.drop_first();
    assert(k =~= Seq::empty());
    assert(crate::digest::frames(k) =~= Seq::empty());
    assert(crate::digest::frames(j) =~= crate::digest::frame(parts[10]));
}

} // verus!

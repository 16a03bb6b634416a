//! Decisions on the staging row of an operation-owned scan: start, seal, bind, adopt,
//! recover, cancel and acknowledge.

use vstd::prelude::*;
use vstd::utf8::{encode_utf8, valid_utf8};

use crate::digest::{encoding_is_injective, same_bytes};
use crate::operations::{
    as_opt_str, decision_digest, decision_input, decision_of, decision_parts, is_authorized,
    is_bound_to_operation, is_consistent_owner, is_legacy_candidate, opt_bytes, opt_bytes_are,
    opt_str, opt_text_is, proves_recovery, recorded_decision, scan_attempt_is_bound_to_operation,
    scan_decision_authorization_digest_from_parts, starts_with,
    validate_internal_scan_operation_binding, validate_legacy_scan_operation_candidate,
    validate_scan_operation_recovery_binding, zero_digest, CompletionDecision, OperationError,
    LEGACY_SCAN_OPERATION_CANDIDATE_PREFIX, MAX_PENDING_CANCELLED_SCAN_OPERATIONS,
};
use crate::records::{
    FinishedScan, ScanCompletionRecoveryIdentity, ScanOperationRecoveryBinding, ScanOperationStagingIdentity,
    ValidatedScan,
};
use crate::text::{
    byte_len, decode_text, has_control, is_blank, is_control_char, is_space_char, opt_text, same,
    same_option,
};

verus! {

// ---------------------------------------------------------------------------------------
// Start
// ---------------------------------------------------------------------------------------

/// Whether an operation may own a scan with the given identity.
pub open spec fn may_own(operation_id: Seq<char>, scan_id: Seq<char>) -> bool {
    &&& operation_id.len() > 0
    &&& byte_len(operation_id) <= 512
    &&& !(exists|i: int| 0 <= i < operation_id.len() && is_control_char(#[trigger] operation_id[i]))
    &&& !LEGACY_SCAN_OPERATION_CANDIDATE_PREFIX@.is_prefix_of(operation_id)
    &&& is_bound_to_operation(scan_id, operation_id, false)
}

/// Whether a source revision is given but blank.
pub open spec fn is_blank_revision(source_revision: Option<&str>) -> bool {
    source_revision matches Some(revision) && forall|i: int|
        0 <= i < revision@.len() ==> is_space_char(#[trigger] revision@[i])
}

/// Whether a scan may start. A blank source revision is refused first, then an operation
/// that may not own the scan, then any operation while sentinels of scans that predate
/// ownership remain.
pub fn check_scan_start(
    scan_id: &str,
    source_revision: Option<&str>,
    identity: Option<&ScanOperationStagingIdentity<'_>>,
    legacy_candidate_exists: bool,
) -> (result: Result<(), OperationError>)
    ensures
        result == if is_blank_revision(source_revision) {
            Err::<(), _>(OperationError::EmptySourceRevision)
        } else {
            match identity {
                None => Ok(()),
                Some(identity) => if !may_own(identity.operation_id@, scan_id@) {
                    Err(OperationError::InvalidOperationIdentity)
                } else if legacy_candidate_exists {
                    Err(OperationError::LegacyStagingUnreconciled)
                } else {
                    Ok(())
                },
            }
        },
{
    if let Some(revision) = source_revision {
        if is_blank(revision) {
            return Err(OperationError::EmptySourceRevision);
        }
    }
    if let Some(identity) = identity {
        if identity.operation_id.is_empty() || identity.operation_id.as_bytes().len() > 512 || has_control(
            identity.operation_id,
        ) || starts_with(identity.operation_id, LEGACY_SCAN_OPERATION_CANDIDATE_PREFIX)
            || !scan_attempt_is_bound_to_operation(scan_id, identity.operation_id, false) {
            return Err(OperationError::InvalidOperationIdentity);
        }
        if legacy_candidate_exists {
            return Err(OperationError::LegacyStagingUnreconciled);
        }
    }
    Ok(())
}

/// What to do with an earlier attempt of the same operation before a new one starts.
#[derive(Debug, Clone, Copy, PartialEq, Eq, Structural)]
pub enum AbandonedAttempt {
    /// There is none.
    Absent,
    /// Cancel its scan and release its row.
    CancelAndRelease,
    /// Its scan is cancelled already: release its row.
    Release,
}

/// Whether an earlier attempt was made by the same operation for the same request.
pub open spec fn is_same_request(
    binding: ScanOperationRecoveryBinding,
    root: Seq<char>,
    strict: bool,
    identity: ScanOperationStagingIdentity,
) -> bool {
    &&& is_bound_to_operation(binding.scan_id@, identity.operation_id@, true)
    &&& binding.repository_binding_digest@ == identity.repository_binding_digest@
    &&& binding.configuration_digest@ == identity.configuration_digest@
    &&& binding.strict == strict
    &&& binding.scan_strict == strict
    &&& binding.cache_enabled == identity.cache_enabled
    &&& binding.root@ == root
    &&& opt_text(binding.base_snapshot_id) == opt_text(binding.parent_snapshot_id)
}

/// Decides what becomes of an earlier attempt of the operation.
pub fn replace_abandoned_scan_attempt(
    existing: Option<&ScanOperationRecoveryBinding>,
    root: &str,
    strict: bool,
    identity: &ScanOperationStagingIdentity<'_>,
) -> (result: Result<AbandonedAttempt, OperationError>)
    ensures
        result == match existing {
            None => Ok::<AbandonedAttempt, OperationError>(AbandonedAttempt::Absent),
            Some(binding) => if !is_same_request(*binding, root@, strict, *identity) {
                Err(OperationError::AbandonedAttemptMismatch)
            } else if binding.status@ == "staging"@ {
                Ok(AbandonedAttempt::CancelAndRelease)
            } else if binding.status@ == "cancelled"@ {
                Ok(AbandonedAttempt::Release)
            } else {
                Err(OperationError::AttemptNotReplaceable)
            },
        },
{
    match existing {
        None => Ok(AbandonedAttempt::Absent),
        Some(binding) => {
            if !scan_attempt_is_bound_to_operation(binding.scan_id.as_str(), identity.operation_id, true)
                || !same_bytes(
                binding.repository_binding_digest.as_slice(),
                identity.repository_binding_digest.as_slice(),
            ) || !same_bytes(binding.configuration_digest.as_slice(), identity.configuration_digest.as_slice())
                || binding.strict != strict || binding.scan_strict != strict || binding.cache_enabled
                != identity.cache_enabled || !same(binding.root.as_str(), root) || !same_option(
                &binding.base_snapshot_id,
                &binding.parent_snapshot_id,
            ) {
                return Err(OperationError::AbandonedAttemptMismatch);
            }
            if same(binding.status.as_str(), "staging") {
                Ok(AbandonedAttempt::CancelAndRelease)
            } else if same(binding.status.as_str(), "cancelled") {
                Ok(AbandonedAttempt::Release)
            } else {
                Err(OperationError::AttemptNotReplaceable)
            }
        },
    }
}

// ---------------------------------------------------------------------------------------
// Seal and bind
// ---------------------------------------------------------------------------------------

/// Whether a row is still open for the seal of the given validation.
pub open spec fn is_sealable(
    binding: ScanOperationRecoveryBinding,
    operation_id: Seq<char>,
    validation: ValidatedScan,
) -> bool {
    &&& binding.operation_id@ == operation_id
    &&& binding.scan_id@ == validation.scan_id@
    &&& binding.validated_mutation_count is None
    &&& binding.prospective_snapshot_id is None
    &&& binding.result_digest is None
    &&& binding.status@ == "staging"@
    &&& binding.mutation_count == validation.mutation_count
    &&& opt_text(binding.parent_snapshot_id) == opt_text(binding.base_snapshot_id)
}

/// Seals the mutation count and the prospective snapshot of a validated staging scan.
/// Nothing else of the row changes.
pub fn seal_scan_operation_staging(
    existing: Option<ScanOperationRecoveryBinding>,
    operation_id: &str,
    validation: &ValidatedScan,
    prospective_snapshot_id: &str,
) -> (result: Result<ScanOperationRecoveryBinding, OperationError>)
    ensures
        ({
            let valid = prospective_snapshot_id@.len() > 0 && is_bound_to_operation(
                validation.scan_id@,
                operation_id@,
                true,
            );
            match result {
                Ok(sealed) => {
                    &&& valid
                    &&& existing matches Some(binding) && is_sealable(binding, operation_id@, *validation) && {
                        &&& sealed.validated_mutation_count == Some(validation.mutation_count)
                        &&& opt_text(sealed.prospective_snapshot_id) == Some(prospective_snapshot_id@)
                        &&& sealed == (ScanOperationRecoveryBinding {
                            validated_mutation_count: sealed.validated_mutation_count,
                            prospective_snapshot_id: sealed.prospective_snapshot_id,
                            ..binding
                        })
                    }
                },
                Err(OperationError::SealInvalid) => !valid,
                Err(OperationError::SealMismatch) => valid && !(existing matches Some(binding) && is_sealable(
                    binding,
                    operation_id@,
                    *validation,
                )),
                Err(_) => false,
            }
        }),
{
    if prospective_snapshot_id.is_empty() || !scan_attempt_is_bound_to_operation(
        validation.scan_id.as_str(),
        operation_id,
        true,
    ) {
        return Err(OperationError::SealInvalid);
    }
    match existing {
        None => Err(OperationError::SealMismatch),
        Some(binding) => {
            if !same(binding.operation_id.as_str(), operation_id) || binding.scan_id != validation.scan_id
                || binding.validated_mutation_count.is_some() || binding.prospective_snapshot_id.is_some()
                || binding.result_digest.is_some() || !same(binding.status.as_str(), "staging")
                || binding.mutation_count != validation.mutation_count || !same_option(
                &binding.parent_snapshot_id,
                &binding.base_snapshot_id,
            ) {
                return Err(OperationError::SealMismatch);
            }
            let mut sealed = binding;
            sealed.validated_mutation_count = Some(validation.mutation_count);
            sealed.prospective_snapshot_id = Some(String::from_str(prospective_snapshot_id));
            Ok(sealed)
        },
    }
}

/// Whether a sealed row may record a result: it is staging, unchanged since its seal,
/// under its own operation, and records no other result or decision.
pub open spec fn may_record_result(
    binding: ScanOperationRecoveryBinding,
    operation_id: Seq<char>,
    result_digest: Seq<u8>,
) -> bool {
    &&& binding.operation_id@ == operation_id
    &&& binding.status@ == "staging"@
    &&& binding.validated_mutation_count == Some(binding.mutation_count)
    &&& binding.prospective_snapshot_id matches Some(snapshot_id) && {
        let digest = decision_digest(
            recorded_decision(binding, binding.mutation_count, snapshot_id@, result_digest),
        );
        &&& binding.result_digest is None || opt_bytes(binding.result_digest) == Some(result_digest)
        &&& binding.decision_authorization_digest is None || opt_bytes(
            binding.decision_authorization_digest,
        ) == Some(digest)
    }
}

/// Whether `bound` is `binding` with the result and the digest that authorizes its
/// decision, and nothing else changed.
pub open spec fn records_result(
    binding: ScanOperationRecoveryBinding,
    bound: ScanOperationRecoveryBinding,
    result_digest: Seq<u8>,
) -> bool {
    &&& opt_bytes(bound.result_digest) == Some(result_digest)
    &&& opt_bytes(bound.decision_authorization_digest) == Some(
        decision_digest(
            recorded_decision(
                binding,
                binding.mutation_count,
                binding.prospective_snapshot_id->0@,
                result_digest,
            ),
        ),
    )
    &&& bound == (ScanOperationRecoveryBinding {
        result_digest: bound.result_digest,
        decision_authorization_digest: bound.decision_authorization_digest,
        ..binding
    })
}

/// Binds a result to a sealed row and records the digest that authorizes the decision.
/// Nothing else of the row changes.
pub fn bind_scan_operation_result(
    existing: Option<ScanOperationRecoveryBinding>,
    operation_id: &str,
    result_digest: &[u8; 32],
) -> (result: Result<ScanOperationRecoveryBinding, OperationError>)
    ensures
        match result {
            Ok(bound) => existing matches Some(binding) && is_consistent_owner(binding) && may_record_result(
                binding,
                operation_id@,
                result_digest@,
            ) && records_result(binding, bound, result_digest@),
            Err(OperationError::MissingBinding) => existing is None,
            Err(OperationError::OwnershipInconsistent) => existing matches Some(binding)
                && !is_consistent_owner(binding),
            Err(OperationError::ResultWithoutMutationCount) => existing matches Some(binding)
                && is_consistent_owner(binding) && binding.validated_mutation_count is None,
            Err(OperationError::ResultWithoutSnapshot) => existing matches Some(binding) && is_consistent_owner(
                binding,
            ) && binding.validated_mutation_count is Some && binding.prospective_snapshot_id is None,
            Err(OperationError::ResultMismatch) => existing matches Some(binding) && is_consistent_owner(binding)
                && binding.validated_mutation_count is Some && binding.prospective_snapshot_id is Some
                && !may_record_result(binding, operation_id@, result_digest@),
            Err(_) => false,
        },
{
    let binding = match existing {
        Some(binding) => binding,
        None => {
            return Err(OperationError::MissingBinding);
        },
    };
    match validate_internal_scan_operation_binding(&binding) {
        Ok(_) => {},
        Err(error) => {
            return Err(error);
        },
    }
    let count: i64 = match binding.validated_mutation_count {
        Some(count) => count,
        None => {
            return Err(OperationError::ResultWithoutMutationCount);
        },
    };
    let digest = match &binding.prospective_snapshot_id {
        None => {
            return Err(OperationError::ResultWithoutSnapshot);
        },
        Some(snapshot_id) => {
            if !same(binding.operation_id.as_str(), operation_id) || !same(binding.status.as_str(), "staging")
                || count != binding.mutation_count {
                return Err(OperationError::ResultMismatch);
            }
            scan_decision_authorization_digest_from_parts(
                operation_id,
                binding.scan_id.as_str(),
                binding.root.as_str(),
                binding.repository_binding_digest.as_slice(),
                binding.configuration_digest.as_slice(),
                binding.strict,
                binding.cache_enabled,
                as_opt_str(&binding.base_snapshot_id),
                count,
                snapshot_id.as_str(),
                result_digest.as_slice(),
            )
        },
    };
    if binding.result_digest.is_some() && !opt_bytes_are(&binding.result_digest, result_digest.as_slice()) {
        return Err(OperationError::ResultMismatch);
    }
    if binding.decision_authorization_digest.is_some() && !opt_bytes_are(
        &binding.decision_authorization_digest,
        digest.as_slice(),
    ) {
        return Err(OperationError::ResultMismatch);
    }
    let mut bound = binding;
    let mut recorded: Vec<u8> = Vec::new();
    crate::digest::push_bytes(&mut recorded, result_digest.as_slice());
    assert(recorded@ =~= result_digest@);
    bound.result_digest = Some(recorded);
    bound.decision_authorization_digest = Some(digest);
    Ok(bound)
}

// ---------------------------------------------------------------------------------------
// Adoption of scans that predate ownership
// ---------------------------------------------------------------------------------------

/// Where the seal of an adopted scan comes from.
#[derive(Debug, PartialEq, Eq)]
pub enum LegacyAdoption {
    /// The scan is staging: it is validated now.
    Validate,
    /// The scan is completed: its count and its snapshot are immutable.
    Sealed { mutation_count: i64, snapshot_id: String },
}

/// Decides how the sentinel that a recovery selects is adopted.
pub fn legacy_adoption(
    candidate: &ScanOperationRecoveryBinding,
    identity: &ScanCompletionRecoveryIdentity<'_>,
) -> (result: Result<LegacyAdoption, OperationError>)
    ensures
        match result {
            Ok(LegacyAdoption::Validate) => {
                &&& is_legacy_candidate(*candidate)
                &&& candidate.scan_id@ == identity.scan_id@
                &&& candidate.status@ == "staging"@
            },
            Ok(LegacyAdoption::Sealed { mutation_count, snapshot_id }) => {
                &&& is_legacy_candidate(*candidate)
                &&& candidate.scan_id@ == identity.scan_id@
                &&& candidate.status@ == "completed"@
                &&& candidate.validated_mutation_count == Some(mutation_count)
                &&& candidate.prospective_snapshot_id == Some(snapshot_id)
            },
            Err(OperationError::LegacyCandidateInconsistent) => !is_legacy_candidate(*candidate),
            Err(OperationError::LegacyCandidateIdentityMismatch) => is_legacy_candidate(*candidate)
                && candidate.scan_id@ != identity.scan_id@,
            Err(_) => false,
        },
{
    match validate_legacy_scan_operation_candidate(candidate) {
        Ok(_) => {},
        Err(error) => {
            return Err(error);
        },
    }
    if !same(candidate.scan_id.as_str(), identity.scan_id) {
        return Err(OperationError::LegacyCandidateIdentityMismatch);
    }
    if same(candidate.status.as_str(), "staging") {
        return Ok(LegacyAdoption::Validate);
    }
    match (&candidate.validated_mutation_count, &candidate.prospective_snapshot_id) {
        (Some(count), Some(snapshot_id)) => Ok(
            LegacyAdoption::Sealed { mutation_count: *count, snapshot_id: snapshot_id.clone() },
        ),
        _ => Err(OperationError::LegacyCandidateNotPromotable),
    }
}

fn zero_bytes() -> (result: Vec<u8>)
    ensures
        result@ == zero_digest(),
{
    let mut result: Vec<u8> = Vec::new();
    let mut i: usize = 0;
    while i < 32
        invariant
            i <= 32,
            result.len() == i,
            forall|k: int| 0 <= k < i ==> result@[k] == 0,
        decreases 32 - i,
    {
        result.push(0);
        i = i + 1;
    }
    assert(result@ =~= zero_digest());
    result
}

fn copy_bytes(value: &[u8]) -> (result: Vec<u8>)
    ensures
        result@ == value@,
{
    let mut result: Vec<u8> = Vec::new();
    crate::digest::push_bytes(&mut result, value);
    assert(result@ =~= value@);
    result
}

/// The decision under which a recovery adopts a sentinel.
pub open spec fn adopted_decision(
    candidate: ScanOperationRecoveryBinding,
    identity: ScanCompletionRecoveryIdentity,
    mutation_count: i64,
    snapshot_id: Seq<char>,
) -> CompletionDecision {
    decision_of(
        identity.operation_id@,
        identity.scan_id@,
        identity.repository_root@,
        identity.repository_binding_digest@,
        zero_digest(),
        identity.strict,
        identity.cache_enabled,
        opt_text(candidate.base_snapshot_id),
        mutation_count,
        snapshot_id,
        identity.result_digest@,
    )
}

/// Turns a sentinel into the ownership that a recovery proves: the row takes the
/// operation, the authority, the seal and the result of the recovery; the configuration
/// stays zero. The prospective snapshot has to be that of the recovery.
pub fn adopt_legacy_candidate(
    candidate: ScanOperationRecoveryBinding,
    identity: &ScanCompletionRecoveryIdentity<'_>,
    mutation_count: i64,
    snapshot_id: String,
) -> (result: Result<ScanOperationRecoveryBinding, OperationError>)
    requires
        is_legacy_candidate(candidate),
        candidate.scan_id@ == identity.scan_id@,
    ensures
        match result {
            Ok(adopted) => {
                &&& snapshot_id@ == identity.snapshot_id@
                &&& adopted.operation_id@ == identity.operation_id@
                &&& adopted.repository_binding_digest@ == identity.repository_binding_digest@
                &&& adopted.configuration_digest@ == zero_digest()
                &&& adopted.cache_enabled == identity.cache_enabled
                &&& adopted.validated_mutation_count == Some(mutation_count)
                &&& opt_text(adopted.prospective_snapshot_id) == Some(snapshot_id@)
                &&& opt_bytes(adopted.result_digest) == Some(identity.result_digest@)
                &&& opt_bytes(adopted.decision_authorization_digest) == Some(
                    decision_digest(adopted_decision(candidate, *identity, mutation_count, snapshot_id@)),
                )
                &&& adopted.scan_id == candidate.scan_id
                &&& adopted.strict == candidate.strict
                &&& adopted.base_snapshot_id == candidate.base_snapshot_id
                &&& adopted.root == candidate.root
                &&& adopted.status == candidate.status
                &&& adopted.scan_strict == candidate.scan_strict
                &&& adopted.parent_snapshot_id == candidate.parent_snapshot_id
                &&& adopted.mutation_count == candidate.mutation_count
            },
            Err(error) => error == OperationError::LegacyCandidateSnapshotMismatch && snapshot_id@
                != identity.snapshot_id@,
        },
{
    if !same(snapshot_id.as_str(), identity.snapshot_id) {
        return Err(OperationError::LegacyCandidateSnapshotMismatch);
    }
    let zero = zero_bytes();
    let digest = scan_decision_authorization_digest_from_parts(
        identity.operation_id,
        identity.scan_id,
        identity.repository_root,
        identity.repository_binding_digest.as_slice(),
        zero.as_slice(),
        identity.strict,
        identity.cache_enabled,
        as_opt_str(&candidate.base_snapshot_id),
        mutation_count,
        snapshot_id.as_str(),
        identity.result_digest.as_slice(),
    );
    let mut adopted = candidate;
    adopted.operation_id = String::from_str(identity.operation_id);
    adopted.repository_binding_digest = copy_bytes(identity.repository_binding_digest.as_slice());
    adopted.configuration_digest = zero;
    adopted.cache_enabled = identity.cache_enabled;
    adopted.validated_mutation_count = Some(mutation_count);
    adopted.prospective_snapshot_id = Some(snapshot_id);
    adopted.result_digest = Some(copy_bytes(identity.result_digest.as_slice()));
    adopted.decision_authorization_digest = Some(digest);
    Ok(adopted)
}

/// Whether reconciling an unclaimed sentinel cancels its scan: a staging scan is
/// cancelled, a completed one only loses its sentinel.
pub fn legacy_reconciliation(candidate: &ScanOperationRecoveryBinding) -> (result: Result<bool, OperationError>)
    ensures
        result == if is_legacy_candidate(*candidate) {
            Ok::<bool, OperationError>(candidate.status@ == "staging"@)
        } else {
            Err(OperationError::LegacyCandidateInconsistent)
        },
{
    match validate_legacy_scan_operation_candidate(candidate) {
        Ok(_) => Ok(same(candidate.status.as_str(), "staging")),
        Err(error) => Err(error),
    }
}

/// One page of reconciliation: the first candidates, and whether more remain.
pub fn reconciliation_page(candidate_ids: Vec<String>) -> (result: (Vec<String>, bool))
    ensures
        result.1 == (candidate_ids.len() > MAX_PENDING_CANCELLED_SCAN_OPERATIONS),
        result.0@ == if result.1 {
            candidate_ids@.subrange(0, MAX_PENDING_CANCELLED_SCAN_OPERATIONS as int)
        } else {
            candidate_ids@
        },
{
    let mut page = candidate_ids;
    let more_work: bool = page.len() > MAX_PENDING_CANCELLED_SCAN_OPERATIONS;
    page.truncate(MAX_PENDING_CANCELLED_SCAN_OPERATIONS);
    assert(page@ =~= if more_work {
        candidate_ids@.subrange(0, MAX_PENDING_CANCELLED_SCAN_OPERATIONS as int)
    } else {
        candidate_ids@
    });
    (page, more_work)
}

// ---------------------------------------------------------------------------------------
// Recovery
// ---------------------------------------------------------------------------------------

/// What a proved recovery does next.
#[derive(Debug, Clone, Copy, PartialEq, Eq, Structural)]
pub enum RecoveryStep {
    /// The scan is staging: validate it and finish it.
    Finish,
    /// The scan is completed: compare its snapshot.
    CompareSnapshot,
}

/// Decides how a recovery goes on, once its row proves it.
pub fn recovery_step(
    binding: &ScanOperationRecoveryBinding,
    identity: &ScanCompletionRecoveryIdentity<'_>,
) -> (result: Result<RecoveryStep, OperationError>)
    ensures
        result == if !is_consistent_owner(*binding) {
            Err::<RecoveryStep, _>(OperationError::OwnershipInconsistent)
        } else if !proves_recovery(*binding, *identity) {
            Err(OperationError::RecoveryMismatch)
        } else if binding.status@ == "staging"@ {
            Ok(RecoveryStep::Finish)
        } else if binding.status@ == "completed"@ {
            Ok(RecoveryStep::CompareSnapshot)
        } else {
            Err(OperationError::NotPromotable)
        },
{
    match validate_scan_operation_recovery_binding(binding, identity) {
        Ok(_) => {},
        Err(error) => {
            return Err(error);
        },
    }
    if same(binding.status.as_str(), "staging") {
        Ok(RecoveryStep::Finish)
    } else if same(binding.status.as_str(), "completed") {
        Ok(RecoveryStep::CompareSnapshot)
    } else {
        Err(OperationError::NotPromotable)
    }
}

/// Whether a staging scan, validated anew, is still the one whose result was bound.
pub fn check_recovered_staging(
    binding: &ScanOperationRecoveryBinding,
    identity: &ScanCompletionRecoveryIdentity<'_>,
    mutation_count: i64,
    prospective_snapshot_id: &str,
) -> (result: Result<(), OperationError>)
    ensures
        result == if binding.validated_mutation_count != Some(mutation_count) {
            Err::<(), _>(OperationError::StagingChangedAfterBinding)
        } else if prospective_snapshot_id@ != identity.snapshot_id@ || opt_text(binding.prospective_snapshot_id)
            != Some(prospective_snapshot_id@) {
            Err(OperationError::ProspectiveSnapshotMismatch)
        } else {
            Ok(())
        },
{
    let unchanged: bool = match binding.validated_mutation_count {
        Some(count) => count == mutation_count,
        None => false,
    };
    if !unchanged {
        return Err(OperationError::StagingChangedAfterBinding);
    }
    if !same(prospective_snapshot_id, identity.snapshot_id) || !opt_text_is(
        &binding.prospective_snapshot_id,
        prospective_snapshot_id,
    ) {
        return Err(OperationError::ProspectiveSnapshotMismatch);
    }
    Ok(())
}

/// Whether a recovered scan was finished as intended: it became the expected snapshot
/// and, where it was not promoted, another snapshot has become current since its base.
pub fn check_recovered_finish(
    binding: &ScanOperationRecoveryBinding,
    identity: &ScanCompletionRecoveryIdentity<'_>,
    finished: &FinishedScan,
    current_snapshot_id: &Option<String>,
) -> (result: Result<(), OperationError>)
    ensures
        result == if opt_text(finished.completed_snapshot_id) != Some(identity.snapshot_id@) {
            Err::<(), _>(OperationError::UnexpectedCompletedSnapshot)
        } else if !finished.promoted && opt_text(*current_snapshot_id) == opt_text(binding.base_snapshot_id) {
            Err(OperationError::PromotionNotApplied)
        } else {
            Ok(())
        },
{
    if !opt_text_is(&finished.completed_snapshot_id, identity.snapshot_id) {
        return Err(OperationError::UnexpectedCompletedSnapshot);
    }
    if !finished.promoted && same_option(current_snapshot_id, &binding.base_snapshot_id) {
        return Err(OperationError::PromotionNotApplied);
    }
    Ok(())
}

/// Whether a completed scan became the snapshot that a recovery asks for.
pub fn check_recovered_snapshot(
    identity: &ScanCompletionRecoveryIdentity<'_>,
    source_snapshot_id: &Option<String>,
) -> (result: Result<(), OperationError>)
    ensures
        result == match opt_text(*source_snapshot_id) {
            None => Err::<(), _>(OperationError::CompletedWithoutSnapshotSource),
            Some(snapshot_id) => if snapshot_id != identity.snapshot_id@ {
                Err(OperationError::CompletedSnapshotMismatch)
            } else {
                Ok(())
            },
        },
{
    match source_snapshot_id {
        None => Err(OperationError::CompletedWithoutSnapshotSource),
        Some(snapshot_id) => if !same(snapshot_id.as_str(), identity.snapshot_id) {
            Err(OperationError::CompletedSnapshotMismatch)
        } else {
            Ok(())
        },
    }
}

// ---------------------------------------------------------------------------------------
// Cancellation
// ---------------------------------------------------------------------------------------

/// What cancelling the scan of an operation does.
#[derive(Debug, Clone, Copy, PartialEq, Eq, Structural)]
pub enum CancelStep {
    /// The operation owns no scan, or its scan is cancelled already.
    Nothing,
    /// Finish the scan as cancelled.
    Cancel,
}

/// Decides how the scan of an operation is cancelled. `owned_scan_id` is the scan that the
/// operation owned when it was looked up, `binding` its row when it was loaded.
pub fn cancel_scan_for_operation(
    owned_scan_id: &Option<String>,
    binding: Option<&ScanOperationRecoveryBinding>,
    scan_with_operation_id_exists: bool,
) -> (result: Result<CancelStep, OperationError>)
    ensures
        result == match opt_text(*owned_scan_id) {
            None => if scan_with_operation_id_exists {
                Err::<CancelStep, _>(OperationError::ScanWithoutOwner)
            } else {
                Ok(CancelStep::Nothing)
            },
            Some(scan_id) => match binding {
                None => Err(OperationError::MissingBinding),
                Some(binding) => if !is_consistent_owner(*binding) {
                    Err(OperationError::OwnershipInconsistent)
                } else if binding.scan_id@ != scan_id {
                    Err(OperationError::OwnerChangedDuringCancellation)
                } else if binding.status@ == "staging"@ {
                    Ok(CancelStep::Cancel)
                } else if binding.status@ == "cancelled"@ {
                    Ok(CancelStep::Nothing)
                } else {
                    Err(OperationError::AlreadyTerminal)
                },
            },
        },
{
    let scan_id = match owned_scan_id {
        None => {
            if scan_with_operation_id_exists {
                return Err(OperationError::ScanWithoutOwner);
            }
            return Ok(CancelStep::Nothing);
        },
        Some(scan_id) => scan_id,
    };
    let binding = match binding {
        None => {
            return Err(OperationError::MissingBinding);
        },
        Some(binding) => binding,
    };
    match validate_internal_scan_operation_binding(binding) {
        Ok(_) => {},
        Err(error) => {
            return Err(error);
        },
    }
    if binding.scan_id != *scan_id {
        return Err(OperationError::OwnerChangedDuringCancellation);
    }
    if same(binding.status.as_str(), "staging") {
        Ok(CancelStep::Cancel)
    } else if same(binding.status.as_str(), "cancelled") {
        Ok(CancelStep::Nothing)
    } else {
        Err(OperationError::AlreadyTerminal)
    }
}

/// Whether acknowledging a cancellation releases its row: there is a row, it is
/// consistent and its scan is cancelled. Without a row there is nothing to release.
pub fn finalize_cancelled_scan(binding: Option<&ScanOperationRecoveryBinding>) -> (result: Result<
    bool,
    OperationError,
>)
    ensures
        result == match binding {
            None => Ok::<bool, OperationError>(false),
            Some(binding) => if !is_consistent_owner(*binding) {
                Err(OperationError::OwnershipInconsistent)
            } else if binding.status@ != "cancelled"@ {
                Err(OperationError::NotCancelled)
            } else {
                Ok(true)
            },
        },
{
    match binding {
        None => Ok(false),
        Some(binding) => match validate_internal_scan_operation_binding(binding) {
            Ok(_) => if !same(binding.status.as_str(), "cancelled") {
                Err(OperationError::NotCancelled)
            } else {
                Ok(true)
            },
            Err(error) => Err(error),
        },
    }
}

/// Why a stored row is inconsistent; nothing where it is consistent: a sentinel in its
/// reserved namespace, else an owner, which for a completed scan is sealed with the scan's
/// snapshot and a result.
pub open spec fn staging_row_failure(
    binding: ScanOperationRecoveryBinding,
    source_snapshot_id: Option<Seq<char>>,
) -> Option<OperationError> {
    if LEGACY_SCAN_OPERATION_CANDIDATE_PREFIX@.is_prefix_of(binding.operation_id@) {
        if is_legacy_candidate(binding) {
            None
        } else {
            Some(OperationError::LegacyCandidateInconsistent)
        }
    } else if !is_consistent_owner(binding) {
        Some(OperationError::OwnershipInconsistent)
    } else if binding.status@ == "completed"@ && source_snapshot_id is None {
        Some(OperationError::CompletedWithoutSnapshotSource)
    } else if binding.status@ == "completed"@ && (binding.validated_mutation_count is None
        || binding.result_digest is None || opt_text(binding.prospective_snapshot_id) != source_snapshot_id) {
        Some(OperationError::CompletedNotSealed)
    } else {
        None
    }
}

/// Accepts a stored row exactly where it is consistent. `source_snapshot_id` is the
/// snapshot that the row's scan became.
pub fn validate_staging_row(
    binding: &ScanOperationRecoveryBinding,
    source_snapshot_id: &Option<String>,
) -> (result: Result<(), OperationError>)
    ensures
        result == match staging_row_failure(*binding, opt_text(*source_snapshot_id)) {
            Some(error) => Err::<(), _>(error),
            None => Ok(()),
        },
{
    if starts_with(binding.operation_id.as_str(), LEGACY_SCAN_OPERATION_CANDIDATE_PREFIX) {
        return match validate_legacy_scan_operation_candidate(binding) {
            Ok(_) => Ok(()),
            Err(error) => Err(error),
        };
    }
    match validate_internal_scan_operation_binding(binding) {
        Ok(_) => {},
        Err(error) => {
            return Err(error);
        },
    }
    if same(binding.status.as_str(), "completed") {
        if source_snapshot_id.is_none() {
            return Err(OperationError::CompletedWithoutSnapshotSource);
        }
        if binding.validated_mutation_count.is_none() || binding.result_digest.is_none() || !same_option(
            &binding.prospective_snapshot_id,
            source_snapshot_id,
        ) {
            return Err(OperationError::CompletedNotSealed);
        }
    }
    Ok(())
}

// ---------------------------------------------------------------------------------------
// Pending cancellations
// ---------------------------------------------------------------------------------------

/// One page of cancelled operations that wait for their acknowledgement.
#[derive(Debug, PartialEq, Eq)]
pub struct PendingCancelledScanOperations {
    operation_ids: Vec<String>,
    more_work: bool,
    next_after_operation_id: Option<String>,
}

impl PendingCancelledScanOperations {
    /// The operations of the page.
    pub closed spec fn ids(&self) -> Seq<String> {
        self.operation_ids@
    }

    /// Whether more operations follow the page.
    pub closed spec fn has_more(&self) -> bool {
        self.more_work
    }

    /// The operation after which the next page starts.
    pub closed spec fn cursor(&self) -> Option<Seq<char>> {
        opt_text(self.next_after_operation_id)
    }

    /// The page without operations.
    pub fn empty() -> (result: Self)
        ensures
            result.ids().len() == 0,
            !result.has_more(),
            result.cursor() is None,
    {
        PendingCancelledScanOperations {
            operation_ids: Vec::new(),
            more_work: false,
            next_after_operation_id: None,
        }
    }

    /// The operations of the page.
    pub fn operation_ids(&self) -> (result: &[String])
        ensures
            result@ == self.ids(),
    {
        self.operation_ids.as_slice()
    }

    /// Whether more operations follow the page.
    pub fn more_work(&self) -> (result: bool)
        ensures
            result == self.has_more(),
    {
        self.more_work
    }

    /// The operation after which the next page starts, where more follow.
    pub fn next_after_operation_id(&self) -> (result: Option<&str>)
        ensures
            opt_str(result) == self.cursor(),
    {
        match &self.next_after_operation_id {
            Some(id) => Some(id.as_str()),
            None => None,
        }
    }

    /// The operations of the page, without the page.
    pub fn into_operation_ids(self) -> (result: Vec<String>)
        ensures
            result@ == self.ids(),
    {
        self.operation_ids
    }
}

/// Why a stored operation identity is refused.
pub open spec fn row_error(row: Seq<u8>) -> Option<OperationError> {
    if row.len() > 512 {
        Some(OperationError::OperationIdTooLong)
    } else if !valid_utf8(row) {
        Some(OperationError::OperationIdNotUtf8)
    } else {
        None
    }
}

/// The first refusal among the first `count` rows.
pub open spec fn first_row_error(rows: Seq<Vec<u8>>, count: int) -> Option<OperationError>
    decreases count,
{
    if count <= 0 {
        None
    } else {
        match first_row_error(rows, count - 1) {
            Some(error) => Some(error),
            None => row_error(rows[count - 1]@),
        }
    }
}

proof fn row_error_remains(rows: Seq<Vec<u8>>, a: int, b: int)
    requires
        0 <= a <= b,
        first_row_error(rows, a) is Some,
    ensures
        first_row_error(rows, b) == first_row_error(rows, a),
    decreases b - a,
{
    if a < b {
        row_error_remains(rows, a, b - 1);
    }
}

/// One page of cancelled operations from the stored identities in ascending order. At
/// most one row beyond the page is looked at; it tells whether more follow, and the page
/// then ends with its cursor. The first row of these that is too long or not UTF-8
/// refuses the page.
pub fn pending_cancelled_page(rows: Vec<Vec<u8>>) -> (result: Result<
    PendingCancelledScanOperations,
    OperationError,
>)
    ensures
        ({
            let limit = MAX_PENDING_CANCELLED_SCAN_OPERATIONS as int;
            let seen = if rows.len() > limit + 1 {
                limit + 1
            } else {
                rows.len() as int
            };
            match result {
                Err(error) => first_row_error(rows@, seen) == Some(error),
                Ok(page) => {
                    &&& first_row_error(rows@, seen) is None
                    &&& page.has_more() == (rows.len() > limit)
                    &&& page.ids().len() == if rows.len() > limit {
                        limit
                    } else {
                        rows.len() as int
                    }
                    &&& forall|i: int|
                        0 <= i < page.ids().len() ==> encode_utf8((#[trigger] page.ids()[i])@) == rows@[i]@
                    &&& page.cursor() == if page.has_more() {
                        Some(page.ids().last()@)
                    } else {
                        None
                    }
                },
            }
        }),
{
    let ghost source = rows@;
    let mut operation_ids: Vec<String> = Vec::new();
    let mut more_work: bool = false;
    let mut i: usize = 0;
    while i < rows.len() && !more_work
        invariant
            i <= rows.len(),
            rows@ == source,
            first_row_error(source, i as int) is None,
            more_work ==> i == MAX_PENDING_CANCELLED_SCAN_OPERATIONS + 1 && operation_ids.len()
                == MAX_PENDING_CANCELLED_SCAN_OPERATIONS,
            !more_work ==> i <= MAX_PENDING_CANCELLED_SCAN_OPERATIONS && operation_ids.len() == i,
            forall|k: int|
                0 <= k < operation_ids.len() ==> encode_utf8((#[trigger] operation_ids@[k])@) == source[k]@,
        decreases rows.len() - i,
    {
        let mut bytes: Vec<u8> = Vec::new();
        crate::digest::push_bytes(&mut bytes, rows[i].as_slice());
        assert(bytes@ =~= source[i as int]@);
        if bytes.len() > 512 {
            proof {
                let limit = MAX_PENDING_CANCELLED_SCAN_OPERATIONS as int;
                let seen = if rows.len() > limit + 1 { limit + 1 } else { rows.len() as int };
                assert(first_row_error(source, i + 1) is Some);
                row_error_remains(source, i + 1, seen);
            }
            return Err(OperationError::OperationIdTooLong);
        }
        match decode_text(bytes) {
            None => {
                proof {
                    let limit = MAX_PENDING_CANCELLED_SCAN_OPERATIONS as int;
                    let seen = if rows.len() > limit + 1 { limit + 1 } else { rows.len() as int };
                    assert(first_row_error(source, i + 1) is Some);
                    row_error_remains(source, i + 1, seen);
                }
                return Err(OperationError::OperationIdNotUtf8);
            },
            Some(operation_id) => {
                proof {
                    vstd::utf8::encode_utf8_valid_utf8(operation_id@);
                    assert(row_error(source[i as int]@) is None);
                }
                if operation_ids.len() == MAX_PENDING_CANCELLED_SCAN_OPERATIONS {
                    more_work = true;
                } else {
                    operation_ids.push(operation_id);
                }
            },
        }
        i = i + 1;
    }
    let next_after_operation_id: Option<String> = if more_work {
        Some(operation_ids[operation_ids.len() - 1].clone())
    } else {
        None
    };
    Ok(PendingCancelledScanOperations { operation_ids, more_work, next_after_operation_id })
}

// ---------------------------------------------------------------------------------------
// Laws
// ---------------------------------------------------------------------------------------

/// A sentinel of a scan that predates ownership never passes for an assertion of
/// ownership, and an owner never for a sentinel.
pub proof fn sentinel_is_never_an_owner(binding: ScanOperationRecoveryBinding)
    ensures
        !(is_legacy_candidate(binding) && is_consistent_owner(binding)),
{
    if is_legacy_candidate(binding) {
        let prefix = LEGACY_SCAN_OPERATION_CANDIDATE_PREFIX@;
        assert(binding.operation_id@.subrange(0, prefix.len() as int) =~= prefix);
        assert(prefix.is_prefix_of(binding.operation_id@));
    }
}

/// What is recorded is what recovery accepts: once a result is bound to the row of a
/// consistent owner, a recovery that names the same operation, scan, repository, request,
/// snapshot and result is proved by the row. (A digest of 32 zero bytes is the sentinel
/// and authorizes nothing.)
pub proof fn bound_result_is_recoverable(
    binding: ScanOperationRecoveryBinding,
    bound: ScanOperationRecoveryBinding,
    identity: ScanCompletionRecoveryIdentity,
)
    requires
        is_consistent_owner(binding),
        may_record_result(binding, identity.operation_id@, identity.result_digest@),
        records_result(binding, bound, identity.result_digest@),
        identity.scan_id@ == binding.scan_id@,
        identity.repository_root@ == binding.root@,
        identity.repository_binding_digest@ == binding.repository_binding_digest@,
        identity.strict == binding.strict,
        identity.cache_enabled == binding.cache_enabled,
        opt_text(binding.prospective_snapshot_id) == Some(identity.snapshot_id@),
        opt_bytes(bound.decision_authorization_digest) != Some(zero_digest()),
    ensures
        proves_recovery(bound, identity),
{
    assert(recorded_decision(
        bound,
        binding.mutation_count,
        identity.snapshot_id@,
        identity.result_digest@,
    ) == recorded_decision(binding, binding.mutation_count, identity.snapshot_id@, identity.result_digest@));
    assert(is_authorized(bound));
}

/// An adopted sentinel proves the recovery that adopted it, where the recovery names the
/// scan's own root and strictness and the count is the scan's own.
pub proof fn adopted_sentinel_is_recoverable(
    candidate: ScanOperationRecoveryBinding,
    adopted: ScanOperationRecoveryBinding,
    identity: ScanCompletionRecoveryIdentity,
)
    requires
        is_legacy_candidate(candidate),
        candidate.scan_id@ == identity.scan_id@,
        candidate.root@ == identity.repository_root@,
        candidate.strict == identity.strict,
        !LEGACY_SCAN_OPERATION_CANDIDATE_PREFIX@.is_prefix_of(identity.operation_id@),
        adopted.operation_id@ == identity.operation_id@,
        adopted.repository_binding_digest@ == identity.repository_binding_digest@,
        adopted.configuration_digest@ == zero_digest(),
        adopted.cache_enabled == identity.cache_enabled,
        adopted.validated_mutation_count == Some(candidate.mutation_count),
        opt_text(adopted.prospective_snapshot_id) == Some(identity.snapshot_id@),
        opt_bytes(adopted.result_digest) == Some(identity.result_digest@),
        opt_bytes(adopted.decision_authorization_digest) == Some(
            decision_digest(
                adopted_decision(candidate, identity, candidate.mutation_count, identity.snapshot_id@),
            ),
        ),
        opt_bytes(adopted.decision_authorization_digest) != Some(zero_digest()),
        adopted.scan_id == candidate.scan_id,
        adopted.strict == candidate.strict,
        adopted.base_snapshot_id == candidate.base_snapshot_id,
        adopted.root == candidate.root,
        adopted.scan_strict == candidate.scan_strict,
        adopted.parent_snapshot_id == candidate.parent_snapshot_id,
        adopted.mutation_count == candidate.mutation_count,
    ensures
        proves_recovery(adopted, identity),
{
    assert(identity.repository_binding_digest@.len() == 32);
    assert(zero_digest().len() == 32);
    assert(recorded_decision(
        adopted,
        candidate.mutation_count,
        identity.snapshot_id@,
        identity.result_digest@,
    ) =~= adopted_decision(candidate, identity, candidate.mutation_count, identity.snapshot_id@));
    assert(is_authorized(adopted));
}

/// Different decisions are hashed from different bytes: the bytes determine every part
/// of the decision. (A missing and an empty base snapshot count as one.)
pub proof fn decision_input_is_injective(a: CompletionDecision, b: CompletionDecision)
    requires
        decision_input(a) == decision_input(b),
        forall|i: int| 0 <= i < 11 ==> (#[trigger] decision_parts(a)[i]).len() < 0x1_0000_0000_0000_0000,
        forall|i: int| 0 <= i < 11 ==> (#[trigger] decision_parts(b)[i]).len() < 0x1_0000_0000_0000_0000,
    ensures
        a.operation_id == b.operation_id,
        a.scan_id == b.scan_id,
        a.repository_root == b.repository_root,
        a.repository_binding_digest == b.repository_binding_digest,
        a.configuration_digest == b.configuration_digest,
        a.strict == b.strict,
        a.cache_enabled == b.cache_enabled,
        (match a.base_snapshot_id {
            Some(id) => id,
            None => Seq::empty(),
        }) == (match b.base_snapshot_id {
            Some(id) => id,
            None => Seq::empty(),
        }),
        a.validated_mutation_count == b.validated_mutation_count,
        a.prospective_snapshot_id == b.prospective_snapshot_id,
        a.result_digest == b.result_digest,
{
    let head = encode_utf8("depgraph:scan-operation-completion-decision:v1\0"@);
    let x = decision_parts(a);
    let y = decision_parts(b);
    let n = head.len() as int;
    assert(decision_input(a).subrange(n, decision_input(a).len() as int) =~= crate::digest::frames(x));
    assert(decision_input(b).subrange(n, decision_input(b).len() as int) =~= crate::digest::frames(y));
    crate::digest::frames_are_injective(x, y);
    assert forall|i: int| 0 <= i < 11 implies x[i] == y[i] by {}
    encoding_is_injective(a.operation_id, b.operation_id);
    encoding_is_injective(a.scan_id, b.scan_id);
    encoding_is_injective(a.repository_root, b.repository_root);
    assert(x[3] == y[3] && x[4] == y[4]);
    assert(x[5][0] == y[5][0]);
    assert(x[6][0] == y[6][0]);
    encoding_is_injective(
        match a.base_snapshot_id {
            Some(id) => id,
            None => Seq::empty(),
        },
        match b.base_snapshot_id {
            Some(id) => id,
            None => Seq::empty(),
        },
    );
    assert(x[8] == y[8]);
    crate::digest::be64_is_injective(
        crate::digest::two_complement(a.validated_mutation_count),
        crate::digest::two_complement(b.validated_mutation_count),
    );
    encoding_is_injective(a.prospective_snapshot_id, b.prospective_snapshot_id);
    assert(x[10] == y[10]);
}

} // verus!

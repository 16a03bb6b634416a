use depgraph_store::digest::{hex, is_hex, is_sha256_hex};
use depgraph_store::operations::{
    legacy_runtime_import_owner_id, legacy_scan_operation_candidate_id, scan_attempt_is_bound_to_operation,
    scan_decision_authorization_digest_from_parts, scan_decision_authorization_input,
    validate_internal_scan_operation_binding, validate_legacy_scan_operation_candidate,
    validate_scan_operation_recovery_binding, OperationError, LEGACY_RUNTIME_IMPORT_OWNER_PREFIX,
    LEGACY_SCAN_OPERATION_CANDIDATE_PREFIX, MAX_PENDING_CANCELLED_SCAN_OPERATIONS,
};
use depgraph_store::ownership::{
    authenticate_legacy_scan_operation_candidates, legacy_sentinel, LegacyScanRow,
};
use depgraph_store::records::{
    FinishedScan, ScanCompletionRecoveryIdentity, ScanOperationRecoveryBinding, ScanOperationStagingIdentity,
    ValidatedScan,
};
use depgraph_store::staging::{
    adopt_legacy_candidate, bind_scan_operation_result, cancel_scan_for_operation, check_recovered_finish,
    check_recovered_snapshot, check_recovered_staging, check_scan_start, finalize_cancelled_scan, legacy_adoption,
    legacy_reconciliation, pending_cancelled_page, reconciliation_page, recovery_step, replace_abandoned_scan_attempt,
    seal_scan_operation_staging, validate_staging_row, AbandonedAttempt, CancelStep, LegacyAdoption,
    PendingCancelledScanOperations, RecoveryStep,
};
use sha2::{Digest, Sha256};

fn operation_scan_attempt_id(operation_id: &str, nonce: char) -> String {
    let owner_digest = Sha256::digest(operation_id.as_bytes());
    format!("scan-attempt:{}:{}", hex(owner_digest.as_slice()), nonce.to_string().repeat(32))
}

fn staged(operation_id: &str, scan_id: &str) -> ScanOperationRecoveryBinding {
    ScanOperationRecoveryBinding {
        operation_id: operation_id.to_owned(),
        scan_id: scan_id.to_owned(),
        repository_binding_digest: vec![2; 32],
        configuration_digest: vec![3; 32],
        strict: false,
        cache_enabled: false,
        base_snapshot_id: None,
        validated_mutation_count: None,
        prospective_snapshot_id: None,
        result_digest: None,
        decision_authorization_digest: None,
        root: "/fixture".to_owned(),
        status: "staging".to_owned(),
        scan_strict: false,
        parent_snapshot_id: None,
        mutation_count: 7,
    }
}

#[test]
fn legacy_candidate_identity_is_the_reserved_prefix_and_the_digest_of_the_scan() {
    assert_eq!(
        legacy_scan_operation_candidate_id("hello world"),
        "__depgraph_reserved_legacy_scan_operation_candidate__:b94d27b9934d3e08a52e52d7da7dabfac484efe37a5380ee9088f7ace2efcde9",
    );
}

#[test]
fn legacy_owner_identity_covers_the_length_and_the_bytes_of_the_import() {
    let mut input = b"depgraph-legacy-runtime-import-owner-v1".to_vec();
    input.extend_from_slice(&6u64.to_be_bytes());
    input.extend_from_slice(b"import");
    let expected = hex(Sha256::digest(&input).as_slice());
    assert_eq!(
        legacy_runtime_import_owner_id("import"),
        format!("{LEGACY_RUNTIME_IMPORT_OWNER_PREFIX}{expected}"),
    );
    assert_ne!(legacy_runtime_import_owner_id("import"), legacy_runtime_import_owner_id("import2"));
}

#[test]
fn hexadecimal_digests_are_told_from_other_texts() {
    assert_eq!(hex(&[0, 1, 0xab, 0xff]), "0001abff");
    assert!(is_hex("00ff", 4));
    assert!(!is_hex("00fg", 4));
    assert!(!is_hex("00ff", 6));
    assert!(is_sha256_hex(&"a".repeat(64)));
    assert!(!is_sha256_hex(&"a".repeat(63)));
    assert!(!is_sha256_hex(&"A".repeat(64)));
}

#[test]
fn the_decision_digest_is_that_of_its_framed_parts() {
    let input = scan_decision_authorization_input(
        "op",
        "scan",
        "/fixture",
        &[1; 32],
        &[2; 32],
        true,
        false,
        Some("base"),
        -1,
        "snapshot",
        &[3; 32],
    );
    let mut expected = b"depgraph:scan-operation-completion-decision:v1\0".to_vec();
    let parts: Vec<Vec<u8>> = vec![
        b"op".to_vec(),
        b"scan".to_vec(),
        b"/fixture".to_vec(),
        vec![1; 32],
        vec![2; 32],
        vec![1],
        vec![0],
        b"base".to_vec(),
        (-1i64).to_be_bytes().to_vec(),
        b"snapshot".to_vec(),
        vec![3; 32],
    ];
    for part in &parts {
        expected.extend_from_slice(&(part.len() as u64).to_be_bytes());
        expected.extend_from_slice(part);
    }
    assert_eq!(input, expected);
    assert_eq!(
        scan_decision_authorization_digest_from_parts(
            "op",
            "scan",
            "/fixture",
            &[1; 32],
            &[2; 32],
            true,
            false,
            Some("base"),
            -1,
            "snapshot",
            &[3; 32],
        ),
        Sha256::digest(&expected).to_vec(),
    );
}

#[test]
fn an_attempt_is_bound_to_its_operation_by_the_digest() {
    let operation_id = "op_00000000000000000000000000000001";
    let scan_id = operation_scan_attempt_id(operation_id, '1');
    assert!(scan_attempt_is_bound_to_operation(&scan_id, operation_id, false));
    assert!(!scan_attempt_is_bound_to_operation(&scan_id, "op_other", false));
    assert!(!scan_attempt_is_bound_to_operation(operation_id, operation_id, false));
    assert!(scan_attempt_is_bound_to_operation(operation_id, operation_id, true));
}

#[test]
fn the_empty_page_has_no_cursor() {
    let page = PendingCancelledScanOperations::empty();
    assert!(page.operation_ids().is_empty());
    assert!(!page.more_work());
    assert_eq!(page.next_after_operation_id(), None);
    assert!(page.into_operation_ids().is_empty());
}

#[test]
fn operation_scan_cancellation_retains_idempotent_proof_until_acknowledged() {
    let operation_id = "op_00000000000000000000000000000001";
    let scan_id = operation_scan_attempt_id(operation_id, '1');
    let identity = ScanOperationStagingIdentity {
        operation_id,
        repository_binding_digest: &[2; 32],
        configuration_digest: &[3; 32],
        cache_enabled: false,
    };
    assert_eq!(check_scan_start(&scan_id, Some("revision"), Some(&identity), false), Ok(()));

    let mut binding = staged(operation_id, &scan_id);
    let owned = Some(scan_id.clone());
    assert_eq!(cancel_scan_for_operation(&owned, Some(&binding), false), Ok(CancelStep::Cancel));
    binding.status = "cancelled".to_owned();
    assert_eq!(cancel_scan_for_operation(&owned, Some(&binding), false), Ok(CancelStep::Nothing));

    let pending = pending_cancelled_page(vec![operation_id.as_bytes().to_vec()]).unwrap();
    assert_eq!(pending.operation_ids(), [operation_id]);
    assert!(!pending.more_work());

    assert_eq!(finalize_cancelled_scan(Some(&binding)), Ok(true));
    assert_eq!(finalize_cancelled_scan(None), Ok(false));
    assert!(pending_cancelled_page(vec![]).unwrap().operation_ids().is_empty());
}

#[test]
fn cancelled_scan_reconciliation_is_stably_bounded_across_multiple_pages() {
    let total = MAX_PENDING_CANCELLED_SCAN_OPERATIONS + 5;
    let ids: Vec<String> = (0..total).map(|index| format!("op_{index:032x}")).collect();
    let after = |last: Option<&str>| -> Vec<Vec<u8>> {
        ids.iter()
            .filter(|id| last.is_none() || id.as_str() > last.unwrap())
            .take(MAX_PENDING_CANCELLED_SCAN_OPERATIONS + 1)
            .map(|id| id.as_bytes().to_vec())
            .collect()
    };
    let first = pending_cancelled_page(after(None)).unwrap();
    assert_eq!(first.operation_ids().len(), MAX_PENDING_CANCELLED_SCAN_OPERATIONS);
    assert!(first.more_work());
    let next_after = first.next_after_operation_id().unwrap().to_owned();
    assert_eq!(next_after, ids[MAX_PENDING_CANCELLED_SCAN_OPERATIONS - 1]);
    let second = pending_cancelled_page(after(Some(&next_after))).unwrap();
    assert_eq!(second.operation_ids().len(), 5);
    assert!(!second.more_work());
    for operation_id in first.into_operation_ids().into_iter().chain(second.into_operation_ids()) {
        let mut binding = staged(&operation_id, &operation_scan_attempt_id(&operation_id, 'b'));
        binding.status = "cancelled".to_owned();
        assert_eq!(finalize_cancelled_scan(Some(&binding)), Ok(true));
    }
}

#[test]
fn cancelled_scan_reconciliation_rejects_oversized_corrupt_ids_at_a_fixed_bound() {
    let stored = "x".repeat(4096);
    let read: Vec<u8> = stored.as_bytes()[..513].to_vec();
    assert_eq!(pending_cancelled_page(vec![read]), Err(OperationError::OperationIdTooLong));
    assert_eq!(pending_cancelled_page(vec![vec![0xff]]), Err(OperationError::OperationIdNotUtf8));
    assert!(pending_cancelled_page(vec![vec![b'x'; 512]]).is_ok());
}

#[test]
fn p1a_reserved_legacy_scan_sentinel_cannot_be_attached_as_operation_owner() {
    let operation_id = format!("{LEGACY_SCAN_OPERATION_CANDIDATE_PREFIX}forged-owner");
    let scan_id = operation_scan_attempt_id(&operation_id, 'a');
    let identity = ScanOperationStagingIdentity {
        operation_id: &operation_id,
        repository_binding_digest: &[6; 32],
        configuration_digest: &[7; 32],
        cache_enabled: false,
    };
    assert_eq!(
        check_scan_start(&scan_id, None, Some(&identity), false),
        Err(OperationError::InvalidOperationIdentity),
    );
}

#[test]
fn a_scan_start_refuses_blank_revisions_bad_identities_and_unreconciled_scans() {
    assert_eq!(check_scan_start("scan", Some(" \t"), None, false), Err(OperationError::EmptySourceRevision));
    assert_eq!(check_scan_start("scan", Some("revision"), None, true), Ok(()));
    let operation_id = "op_1";
    let scan_id = operation_scan_attempt_id(operation_id, '1');
    let identity = |operation_id: &'static str| ScanOperationStagingIdentity {
        operation_id,
        repository_binding_digest: &[6; 32],
        configuration_digest: &[7; 32],
        cache_enabled: false,
    };
    assert_eq!(check_scan_start(&scan_id, None, Some(&identity("op_1")), false), Ok(()));
    assert_eq!(
        check_scan_start(&scan_id, None, Some(&identity("op_1")), true),
        Err(OperationError::LegacyStagingUnreconciled),
    );
    for bad in ["", "op\n1", "op_2"] {
        assert_eq!(
            check_scan_start(&scan_id, None, Some(&identity(bad)), false),
            Err(OperationError::InvalidOperationIdentity),
        );
    }
}

#[test]
fn reclaimed_operation_replaces_only_its_canonically_bound_scan_attempt() {
    let operation_id = "op_00000000000000000000000000000002";
    let first_scan_id = operation_scan_attempt_id(operation_id, '2');
    let identity = ScanOperationStagingIdentity {
        operation_id,
        repository_binding_digest: &[4; 32],
        configuration_digest: &[5; 32],
        cache_enabled: true,
    };
    let mut first = staged(operation_id, &first_scan_id);
    first.repository_binding_digest = vec![4; 32];
    first.configuration_digest = vec![5; 32];
    first.cache_enabled = true;
    first.strict = true;
    first.scan_strict = true;
    assert_eq!(replace_abandoned_scan_attempt(None, "/fixture", true, &identity), Ok(AbandonedAttempt::Absent));
    assert_eq!(
        replace_abandoned_scan_attempt(Some(&first), "/fixture", true, &identity),
        Ok(AbandonedAttempt::CancelAndRelease),
    );
    first.status = "cancelled".to_owned();
    assert_eq!(
        replace_abandoned_scan_attempt(Some(&first), "/fixture", true, &identity),
        Ok(AbandonedAttempt::Release),
    );
    first.status = "completed".to_owned();
    assert!(replace_abandoned_scan_attempt(Some(&first), "/fixture", true, &identity).is_err());
    first.status = "staging".to_owned();
    assert_eq!(
        replace_abandoned_scan_attempt(Some(&first), "/elsewhere", true, &identity),
        Err(OperationError::AbandonedAttemptMismatch),
    );

    let mut foreign = first.clone();
    foreign.scan_id = "foreign-scan".to_owned();
    assert_eq!(
        cancel_scan_for_operation(&Some("foreign-scan".to_owned()), Some(&foreign), false),
        Err(OperationError::OwnershipInconsistent),
    );
    assert_eq!(cancel_scan_for_operation(&None, None, false), Ok(CancelStep::Nothing));
    assert_eq!(cancel_scan_for_operation(&None, None, true), Err(OperationError::ScanWithoutOwner));
}

#[test]
fn a_finished_scan_can_no_longer_be_cancelled() {
    let operation_id = "op_1";
    let mut binding = staged(operation_id, &operation_scan_attempt_id(operation_id, '1'));
    let owned = Some(binding.scan_id.clone());
    assert_eq!(
        cancel_scan_for_operation(&owned, None, false),
        Err(OperationError::MissingBinding),
    );
    binding.status = "completed".to_owned();
    assert_eq!(
        cancel_scan_for_operation(&owned, Some(&binding), false),
        Err(OperationError::AlreadyTerminal),
    );
    assert_eq!(finalize_cancelled_scan(Some(&binding)), Err(OperationError::NotCancelled));
}

/// A staged scan that was sealed with a snapshot and bound to a result.
fn decided(operation_id: &str, scan_id: &str, result_digest: &[u8; 32]) -> ScanOperationRecoveryBinding {
    let validation = ValidatedScan { scan_id: scan_id.to_owned(), mutation_count: 7 };
    let sealed =
        seal_scan_operation_staging(Some(staged(operation_id, scan_id)), operation_id, &validation, "snapshot:older")
            .unwrap();
    assert_eq!(sealed.validated_mutation_count, Some(7));
    assert_eq!(sealed.prospective_snapshot_id.as_deref(), Some("snapshot:older"));
    bind_scan_operation_result(Some(sealed), operation_id, result_digest).unwrap()
}

#[test]
fn scan_completion_recovery_accepts_only_the_bound_decision() {
    let operation_id = "op_00000000000000000000000000000003";
    let scan_id = operation_scan_attempt_id(operation_id, '4');
    let result_digest = [8; 32];
    let binding = decided(operation_id, &scan_id, &result_digest);
    assert!(binding.decision_authorization_digest.is_some());
    assert_eq!(binding.result_digest, Some(result_digest.to_vec()));
    assert_eq!(validate_internal_scan_operation_binding(&binding), Ok(()));

    let identity = ScanCompletionRecoveryIdentity {
        operation_id,
        scan_id: &scan_id,
        repository_root: "/fixture",
        repository_binding_digest: &[2; 32],
        strict: false,
        cache_enabled: false,
        snapshot_id: "snapshot:older",
        result_digest: &result_digest,
    };
    assert_eq!(validate_scan_operation_recovery_binding(&binding, &identity), Ok(()));
    assert_eq!(recovery_step(&binding, &identity), Ok(RecoveryStep::Finish));
    assert_eq!(check_recovered_staging(&binding, &identity, 7, "snapshot:older"), Ok(()));
    assert_eq!(
        check_recovered_staging(&binding, &identity, 8, "snapshot:older"),
        Err(OperationError::StagingChangedAfterBinding),
    );
    assert_eq!(
        check_recovered_staging(&binding, &identity, 7, "snapshot:other"),
        Err(OperationError::ProspectiveSnapshotMismatch),
    );
    let finished = FinishedScan { completed_snapshot_id: Some("snapshot:older".to_owned()), promoted: false };
    assert_eq!(
        check_recovered_finish(&binding, &identity, &finished, &Some("snapshot:later".to_owned())),
        Ok(()),
    );
    let stranger = FinishedScan { completed_snapshot_id: Some("snapshot:x".to_owned()), promoted: false };
    assert!(check_recovered_finish(&binding, &identity, &stranger, &None).is_err());
    assert_eq!(check_recovered_snapshot(&identity, &Some("snapshot:older".to_owned())), Ok(()));
    assert!(check_recovered_snapshot(&identity, &None).is_err());

    let other = ScanCompletionRecoveryIdentity { result_digest: &[9; 32], ..identity };
    assert_eq!(
        validate_scan_operation_recovery_binding(&binding, &other),
        Err(OperationError::RecoveryMismatch),
    );
    let mut completed = binding.clone();
    completed.status = "completed".to_owned();
    assert_eq!(recovery_step(&completed, &identity), Ok(RecoveryStep::CompareSnapshot));
    let mut cancelled = binding.clone();
    cancelled.status = "cancelled".to_owned();
    assert_eq!(recovery_step(&cancelled, &identity), Err(OperationError::NotPromotable));
    let mut forged = binding;
    forged.result_digest = Some(vec![9; 32]);
    assert_eq!(validate_internal_scan_operation_binding(&forged), Err(OperationError::OwnershipInconsistent));
}

#[test]
fn a_seal_and_a_result_are_written_once() {
    let operation_id = "op_1";
    let scan_id = operation_scan_attempt_id(operation_id, '1');
    let binding = decided(operation_id, &scan_id, &[8; 32]);
    let again = bind_scan_operation_result(Some(binding.clone()), operation_id, &[8; 32]).unwrap();
    assert_eq!(again.result_digest, binding.result_digest);
    assert_eq!(again.decision_authorization_digest, binding.decision_authorization_digest);
    assert_eq!(
        bind_scan_operation_result(Some(binding), operation_id, &[9; 32]).err(),
        Some(OperationError::ResultMismatch),
    );
    assert_eq!(
        bind_scan_operation_result(Some(staged(operation_id, &scan_id)), operation_id, &[8; 32]).err(),
        Some(OperationError::ResultWithoutMutationCount),
    );
    let validation = ValidatedScan { scan_id: scan_id.clone(), mutation_count: 7 };
    assert_eq!(
        seal_scan_operation_staging(Some(staged(operation_id, &scan_id)), operation_id, &validation, "").err(),
        Some(OperationError::SealInvalid),
    );
    assert_eq!(
        seal_scan_operation_staging(None, operation_id, &validation, "snapshot:1").err(),
        Some(OperationError::SealMismatch),
    );
}

fn sentinel(scan_id: &str) -> ScanOperationRecoveryBinding {
    let mut binding = staged(&legacy_scan_operation_candidate_id(scan_id), scan_id);
    binding.repository_binding_digest = vec![0; 32];
    binding.configuration_digest = vec![0; 32];
    binding.decision_authorization_digest = Some(vec![0; 32]);
    binding
}

#[test]
fn p1a_completed_historical_snapshot_is_untouched_by_sentinel_reconciliation() {
    let rows = vec![LegacyScanRow {
        id: "scan-golden".to_owned(),
        status: "completed".to_owned(),
        strict: 0,
        parent_snapshot_id: None,
        mutation_count: 7,
        started_at: "2026-01-01".to_owned(),
        snapshot_id: Some("snapshot:current".to_owned()),
    }];
    let candidates = authenticate_legacy_scan_operation_candidates(rows).unwrap();
    assert_eq!(candidates.len(), 1);
    let row = legacy_sentinel(candidates[0].clone());
    assert!(row.operation_id.starts_with(LEGACY_SCAN_OPERATION_CANDIDATE_PREFIX));
    assert_eq!(row.prospective_snapshot_id.as_deref(), Some("snapshot:current"));

    let mut stored = sentinel("scan-golden");
    assert_eq!(row.operation_id, stored.operation_id);
    stored.status = "completed".to_owned();
    stored.mutation_count = 7;
    stored.validated_mutation_count = row.validated_mutation_count;
    stored.prospective_snapshot_id = row.prospective_snapshot_id;
    assert_eq!(validate_staging_row(&stored, &Some("snapshot:current".to_owned())), Ok(()));
    assert_eq!(legacy_reconciliation(&stored), Ok(false));
    let mut interrupted = sentinel("scan-golden");
    interrupted.status = "staging".to_owned();
    assert_eq!(legacy_reconciliation(&interrupted), Ok(true));
}

#[test]
fn legacy_sentinels_are_adopted_or_cancelled() {
    let mut candidate = sentinel("op_legacy");
    assert_eq!(validate_legacy_scan_operation_candidate(&candidate), Ok(()));
    assert_eq!(validate_staging_row(&candidate, &None), Ok(()));
    assert_eq!(legacy_reconciliation(&candidate), Ok(true));
    let identity = ScanCompletionRecoveryIdentity {
        operation_id: "op_legacy",
        scan_id: "op_legacy",
        repository_root: "/fixture",
        repository_binding_digest: &[2; 32],
        strict: false,
        cache_enabled: false,
        snapshot_id: "snapshot:1",
        result_digest: &[8; 32],
    };
    assert_eq!(legacy_adoption(&candidate, &identity), Ok(LegacyAdoption::Validate));
    let adopted = adopt_legacy_candidate(candidate.clone(), &identity, 7, "snapshot:1".to_owned()).unwrap();
    assert_eq!(adopted.operation_id, "op_legacy");
    assert_eq!(validate_internal_scan_operation_binding(&adopted), Ok(()));
    assert_eq!(validate_scan_operation_recovery_binding(&adopted, &identity), Ok(()));

    candidate.status = "completed".to_owned();
    candidate.validated_mutation_count = Some(7);
    candidate.prospective_snapshot_id = Some("snapshot:1".to_owned());
    assert_eq!(
        legacy_adoption(&candidate, &identity),
        Ok(LegacyAdoption::Sealed { mutation_count: 7, snapshot_id: "snapshot:1".to_owned() }),
    );
    assert_eq!(legacy_reconciliation(&candidate), Ok(false));
    candidate.configuration_digest = vec![1; 32];
    assert_eq!(
        validate_legacy_scan_operation_candidate(&candidate),
        Err(OperationError::LegacyCandidateInconsistent),
    );
    assert_eq!(validate_staging_row(&candidate, &None), Err(OperationError::LegacyCandidateInconsistent));
}

#[test]
fn a_reconciliation_page_is_bounded() {
    let many: Vec<String> = (0..MAX_PENDING_CANCELLED_SCAN_OPERATIONS + 1).map(|i| format!("{i:04}")).collect();
    let (page, more) = reconciliation_page(many.clone());
    assert_eq!(page, many[..MAX_PENDING_CANCELLED_SCAN_OPERATIONS]);
    assert!(more);
    let (page, more) = reconciliation_page(vec!["a".to_owned()]);
    assert_eq!(page, ["a"]);
    assert!(!more);
}

#[test]
fn a_completed_owner_is_sealed_with_the_snapshot_of_its_scan() {
    let operation_id = "op_1";
    let scan_id = operation_scan_attempt_id(operation_id, '1');
    let mut binding = decided(operation_id, &scan_id, &[8; 32]);
    assert_eq!(validate_staging_row(&binding, &None), Ok(()));
    binding.status = "completed".to_owned();
    assert_eq!(validate_staging_row(&binding, &None), Err(OperationError::CompletedWithoutSnapshotSource));
    assert_eq!(
        validate_staging_row(&binding, &Some("snapshot:x".to_owned())),
        Err(OperationError::CompletedNotSealed),
    );
    assert_eq!(validate_staging_row(&binding, &Some("snapshot:older".to_owned())), Ok(()));
}

use depgraph_store::operations::{
    legacy_runtime_import_owner_id, legacy_scan_operation_candidate_id, OperationError,
    LEGACY_RUNTIME_IMPORT_OWNER_PREFIX,
};
use depgraph_store::ownership::{
    authenticate_legacy_runtime_import_candidates, authenticate_legacy_scan_operation_candidates, legacy_import_owner,
    legacy_sentinel, validate_runtime_import_owners, validate_scan_operation_bindings,
    validate_scan_operation_staging_rows, LegacyImportRow, LegacyScanRow, OwnershipError, StoredBytes, StoredImport,
    StoredImportOwner, StoredScan, StoredStagingRow,
};
use depgraph_store::records::ScanOperationRecoveryBinding;
use depgraph_store::schema::{
    check_read_only, ensure_schema_objects_absent, legacy_scan_reconciliation_requires_writable_store, migrate,
    normalized_schema_sql, runtime_operation_cleanup_requires_writable_store,
    scan_operation_cleanup_requires_writable_store, validate_named_table_indexes, validate_schema_object_sql,
    validate_single_foreign_key, validate_store_foreign_keys, ForeignKeyRow, MigrationStep, NamedIndex, SchemaError,
    RUNTIME_IMPORT_OPERATION_OWNERS_TABLE_SQL, SCAN_OPERATION_STAGING_TABLE_SQL, STORE_CACHE_SIZE_KIB,
    STORE_PAGE_SIZE_BYTES, STORE_SCHEMA_VERSION,
};

#[test]
fn new_stores_use_the_large_graph_page_size() {
    let migration = migrate(0).unwrap();
    assert!(migration.set_page_size);
    assert_eq!(migration.steps.first(), Some(&MigrationStep::CreateTables));
    assert_eq!(migration.steps.last(), Some(&MigrationStep::OperationOwnership));
    assert_eq!(migration.steps.len(), 13);
    assert_eq!(migration.steps.last().unwrap().version(), STORE_SCHEMA_VERSION);
    assert_eq!(STORE_PAGE_SIZE_BYTES, 16 * 1024);
    assert_eq!(STORE_CACHE_SIZE_KIB, 64 * 1024);
}

#[test]
fn older_stores_get_the_steps_that_they_lack() {
    let steps = |current: i64| migrate(current).unwrap().steps;
    assert_eq!(steps(1)[..2], [MigrationStep::EvidenceKinds, MigrationStep::ProfileCoverage]);
    assert_eq!(steps(2)[0], MigrationStep::SkippedSites);
    assert_eq!(steps(3)[0], MigrationStep::EdgeSites);
    assert_eq!(steps(7)[0], MigrationStep::CompletedSnapshots);
    assert_eq!(steps(14), [MigrationStep::SnapshotSeals, MigrationStep::OperationOwnership]);
    assert_eq!(steps(15), [MigrationStep::OperationOwnership]);
    assert_eq!(steps(16), [MigrationStep::ScanOwnership]);
    assert!(steps(17).is_empty());
    assert!(!migrate(1).unwrap().set_page_size);
    assert_eq!(migrate(18).err(), Some(SchemaError::Newer));
}

#[test]
fn read_only_stores_and_cleanups_depend_on_the_version() {
    assert_eq!(check_read_only(17, 17, 17), Ok(()));
    assert_eq!(check_read_only(15, 15, 17), Ok(()));
    assert_eq!(check_read_only(14, 15, 17), Err(SchemaError::OutsideRange));
    assert_eq!(check_read_only(18, 15, 17), Err(SchemaError::OutsideRange));
    assert!(runtime_operation_cleanup_requires_writable_store(16, false));
    assert!(runtime_operation_cleanup_requires_writable_store(15, true));
    assert!(!runtime_operation_cleanup_requires_writable_store(15, false));
    assert!(scan_operation_cleanup_requires_writable_store(17, false, false, false));
    assert!(scan_operation_cleanup_requires_writable_store(16, false, true, true));
    assert!(!scan_operation_cleanup_requires_writable_store(16, false, true, false));
    assert!(legacy_scan_reconciliation_requires_writable_store(16, false, true, true));
    assert!(!legacy_scan_reconciliation_requires_writable_store(16, false, true, false));
    assert!(legacy_scan_reconciliation_requires_writable_store(16, true, false, false));
    assert_eq!(validate_store_foreign_keys(0), Ok(()));
    assert_eq!(validate_store_foreign_keys(2), Err(SchemaError::ForeignKeyViolations { count: 2 }));
}

#[test]
fn schema_texts_are_compared_up_to_white_space() {
    assert_eq!(normalized_schema_sql(" \n CREATE\t TABLE  x (\n a ) "), "CREATE TABLE x ( a )");
    assert_eq!(normalized_schema_sql(" \t"), "");
    let reflowed = SCAN_OPERATION_STAGING_TABLE_SQL.replace('\n', " ");
    assert_eq!(validate_schema_object_sql(Some(&reflowed), SCAN_OPERATION_STAGING_TABLE_SQL), Ok(()));
    assert_eq!(
        validate_schema_object_sql(
            Some(RUNTIME_IMPORT_OPERATION_OWNERS_TABLE_SQL),
            SCAN_OPERATION_STAGING_TABLE_SQL,
        ),
        Err(SchemaError::ObjectDiffers),
    );
    assert_eq!(
        validate_schema_object_sql(None, SCAN_OPERATION_STAGING_TABLE_SQL),
        Err(SchemaError::ObjectMissing),
    );
    let index = |name: &str, sql: &str| NamedIndex { name: name.to_owned(), sql: sql.to_owned() };
    let expected = vec![index("a", "CREATE INDEX a ON t(x)")];
    assert_eq!(validate_named_table_indexes(&vec![index("a", "CREATE  INDEX a ON t(x)")], &expected), Ok(()));
    for actual in [vec![], vec![index("b", "CREATE INDEX a ON t(x)")], vec![index("a", "CREATE INDEX a ON t(y)")]] {
        assert_eq!(validate_named_table_indexes(&actual, &expected), Err(SchemaError::IndexesDiffer));
    }
    let key = |on_delete: &str| ForeignKeyRow {
        parent_table: "scans".to_owned(),
        from: "scan_id".to_owned(),
        to: "id".to_owned(),
        on_update: "NO ACTION".to_owned(),
        on_delete: on_delete.to_owned(),
        match_clause: "NONE".to_owned(),
    };
    let check = |keys: Vec<ForeignKeyRow>| validate_single_foreign_key(&keys, "scan_id", "scans", "id");
    assert_eq!(check(vec![key("CASCADE")]), Ok(()));
    assert_eq!(check(vec![key("NO ACTION")]), Err(SchemaError::ForeignKeyDiffers));
    assert_eq!(check(vec![]), Err(SchemaError::ForeignKeyDiffers));
    assert_eq!(check(vec![key("CASCADE"), key("CASCADE")]), Err(SchemaError::ForeignKeyDiffers));
}

#[test]
fn objects_of_later_versions_are_refused() {
    let names = |values: &[&str]| values.iter().map(|value| (*value).to_owned()).collect::<Vec<String>>();
    let runtime = names(&["scans", "runtime_import_operation_owners"]);
    assert_eq!(ensure_schema_objects_absent(&runtime, true), Err(SchemaError::ForbiddenObject { at: 1 }));
    assert_eq!(ensure_schema_objects_absent(&runtime, false), Ok(()));
    let scans = names(&["legacy_scan_operation_candidates"]);
    assert_eq!(ensure_schema_objects_absent(&scans, false), Err(SchemaError::ForbiddenObject { at: 0 }));
    assert_eq!(ensure_schema_objects_absent(&names(&["scans", "nodes"]), true), Ok(()));
    let several = names(&["scan_operation_staging_scan", "scan_operation_staging", "runtime_import_operation_owners"]);
    assert_eq!(ensure_schema_objects_absent(&several, true), Err(SchemaError::ForbiddenObject { at: 2 }));
    assert_eq!(ensure_schema_objects_absent(&several, false), Err(SchemaError::ForbiddenObject { at: 1 }));
}

fn stored_names(values: &[&str]) -> Vec<String> {
    values.iter().map(|value| (*value).to_owned()).collect()
}

#[test]
fn malformed_preexisting_v15_runtime_ownership_is_rejected_without_mutation() {
    assert_eq!(migrate(15).unwrap().steps, [MigrationStep::OperationOwnership]);
    let objects = stored_names(&["runtime_imports", "runtime_import_operation_owners", "scans"]);
    for _ in 0..2 {
        assert_eq!(ensure_schema_objects_absent(&objects, true), Err(SchemaError::ForbiddenObject { at: 1 }));
    }
    assert_eq!(ensure_schema_objects_absent(&stored_names(&["runtime_imports", "scans"]), true), Ok(()));
}

#[test]
fn malformed_preexisting_v16_scan_staging_is_rejected_without_mutation() {
    assert_eq!(migrate(16).unwrap().steps, [MigrationStep::ScanOwnership]);
    let objects = stored_names(&["runtime_import_operation_owners", "scan_operation_staging"]);
    for _ in 0..2 {
        assert_eq!(ensure_schema_objects_absent(&objects, false), Err(SchemaError::ForbiddenObject { at: 1 }));
    }
}

#[test]
fn p1a_v16_legacy_candidate_state_conflicts_roll_back_without_mutation() {
    let objects = stored_names(&["runtime_import_operation_owners", "legacy_scan_operation_candidates"]);
    for _ in 0..2 {
        assert_eq!(ensure_schema_objects_absent(&objects, false), Err(SchemaError::ForbiddenObject { at: 1 }));
    }
}

#[test]
fn v15_foreign_key_violation_rolls_back_the_entire_v16_migration() {
    assert_eq!(validate_store_foreign_keys(1), Err(SchemaError::ForeignKeyViolations { count: 1 }));
}

#[test]
fn v15_late_v17_candidate_failure_rolls_back_the_entire_migration() {
    let mut sourced = scan_row("completed", Some("snapshot:golden"));
    sourced.id = "scan-golden".to_owned();
    assert!(authenticate_legacy_scan_operation_candidates(vec![sourced.clone()]).is_ok());
    sourced.snapshot_id = None;
    assert_eq!(
        authenticate_legacy_scan_operation_candidates(vec![sourced]).err(),
        Some(OwnershipError::LegacyScanWithoutSnapshot),
    );
}

fn import_row(id: &str, created_at: &str, has_result: bool) -> LegacyImportRow {
    LegacyImportRow { id: id.to_owned(), created_at: created_at.to_owned(), has_result }
}

#[test]
fn staged_imports_that_predate_ownership_get_a_reserved_owner() {
    let candidates = authenticate_legacy_runtime_import_candidates(vec![import_row("import", "now", false)]).unwrap();
    let owner = legacy_import_owner(candidates[0].clone());
    assert_eq!(owner.import_id, "import");
    assert_eq!(owner.operation_id, legacy_runtime_import_owner_id("import"));
    assert_eq!(owner.created_at, "now");
    for bad in [import_row("", "now", false), import_row("import", "", false), import_row("import", "now", true)] {
        assert_eq!(
            authenticate_legacy_runtime_import_candidates(vec![bad]).err(),
            Some(OwnershipError::LegacyImportInconsistent),
        );
    }
    let long = import_row(&"é".repeat(257), "now", false);
    assert!(authenticate_legacy_runtime_import_candidates(vec![long]).is_err());

    let stored = StoredImportOwner {
        import_id: Some(owner.import_id.into_bytes()),
        operation_id: Some(owner.operation_id.into_bytes()),
        created_at: Some(b"now".to_vec()),
        import: Some(StoredImport { id: b"import".to_vec(), status: "staging".to_owned(), has_result: false }),
    };
    let imports = vec![StoredImport { id: b"import".to_vec(), status: "staging".to_owned(), has_result: false }];
    assert_eq!(validate_runtime_import_owners(&vec![stored.clone()], Some(&imports)), Ok(()));
    assert_eq!(
        validate_runtime_import_owners(&vec![], Some(&imports)),
        Err(OwnershipError::ImportRowsInconsistent { invalid: 0, unowned: 1 }),
    );
    assert_eq!(
        validate_runtime_import_owners(&vec![stored.clone()], None),
        Err(OwnershipError::OwnersWithoutImports),
    );
    assert_eq!(validate_runtime_import_owners(&vec![], None), Ok(()));
    let mut forged = stored.clone();
    forged.operation_id = Some(format!("{LEGACY_RUNTIME_IMPORT_OWNER_PREFIX}forged").into_bytes());
    assert_eq!(
        validate_runtime_import_owners(&vec![forged], Some(&imports)),
        Err(OwnershipError::ImportIdentityInconsistent),
    );
    let mut garbled = stored.clone();
    garbled.operation_id = Some(vec![0xff]);
    assert_eq!(validate_runtime_import_owners(&vec![garbled], Some(&imports)), Err(OwnershipError::NotText));
    let mut undated = stored.clone();
    undated.created_at = Some(b"\0now".to_vec());
    assert_eq!(
        validate_runtime_import_owners(&vec![undated], Some(&imports)),
        Err(OwnershipError::ImportRowsInconsistent { invalid: 1, unowned: 0 }),
    );
    let mut dangling = stored;
    dangling.import = None;
    assert_eq!(
        validate_runtime_import_owners(&vec![dangling], Some(&imports)),
        Err(OwnershipError::ImportRowsInconsistent { invalid: 1, unowned: 0 }),
    );
}

fn scan_row(status: &str, snapshot_id: Option<&str>) -> LegacyScanRow {
    LegacyScanRow {
        id: "scan".to_owned(),
        status: status.to_owned(),
        strict: 1,
        parent_snapshot_id: None,
        mutation_count: 3,
        started_at: "now".to_owned(),
        snapshot_id: snapshot_id.map(|id| id.to_owned()),
    }
}

#[test]
fn scans_that_predate_ownership_get_a_sentinel() {
    let rows = vec![scan_row("staging", None), scan_row("completed", Some("snapshot:1"))];
    let candidates = authenticate_legacy_scan_operation_candidates(rows).unwrap();
    assert_eq!(candidates[0].validated_mutation_count, None);
    assert_eq!(candidates[1].validated_mutation_count, Some(3));
    assert_eq!(candidates[1].prospective_snapshot_id.as_deref(), Some("snapshot:1"));
    assert_eq!(
        authenticate_legacy_scan_operation_candidates(vec![scan_row("completed", None)]).err(),
        Some(OwnershipError::LegacyScanWithoutSnapshot),
    );
    let mut bad = scan_row("staging", None);
    bad.strict = 2;
    assert_eq!(
        authenticate_legacy_scan_operation_candidates(vec![bad]).err(),
        Some(OwnershipError::LegacyScanInconsistent),
    );
    let mut negative = scan_row("completed", Some("snapshot:1"));
    negative.mutation_count = -1;
    assert!(authenticate_legacy_scan_operation_candidates(vec![negative]).is_err());

    let sentinel = legacy_sentinel(candidates[0].clone());
    assert_eq!(sentinel.operation_id, legacy_scan_operation_candidate_id("scan"));
    assert_eq!(sentinel.decision_authorization_digest, Some(vec![0; 32]));
    let binding = ScanOperationRecoveryBinding {
        operation_id: sentinel.operation_id,
        scan_id: sentinel.scan_id,
        repository_binding_digest: sentinel.repository_binding_digest,
        configuration_digest: sentinel.configuration_digest,
        strict: sentinel.strict,
        cache_enabled: sentinel.cache_enabled,
        base_snapshot_id: sentinel.base_snapshot_id,
        validated_mutation_count: sentinel.validated_mutation_count,
        prospective_snapshot_id: sentinel.prospective_snapshot_id,
        result_digest: sentinel.result_digest,
        decision_authorization_digest: sentinel.decision_authorization_digest,
        root: "/fixture".to_owned(),
        status: "staging".to_owned(),
        scan_strict: true,
        parent_snapshot_id: None,
        mutation_count: 3,
    };
    assert_eq!(validate_scan_operation_bindings(&vec![binding.clone()], &vec![None]), Ok(()));
    let mut cancelled = binding.clone();
    cancelled.status = "cancelled".to_owned();
    assert_eq!(
        validate_scan_operation_bindings(&vec![binding, cancelled], &vec![None, None]),
        Err(OperationError::LegacyCandidateInconsistent),
    );
}

fn staging_row() -> StoredStagingRow {
    StoredStagingRow {
        operation_id: Some(b"op".to_vec()),
        scan_id: Some(b"scan".to_vec()),
        repository_binding_digest: StoredBytes::Bytes(vec![1; 32]),
        configuration_digest: StoredBytes::Bytes(vec![1; 32]),
        strict: 0,
        cache_enabled: 1,
        base_snapshot_id: None,
        validated_mutation_count: Some(3),
        prospective_snapshot_id: Some("snapshot:1".to_owned()),
        result_digest: StoredBytes::Null,
        decision_authorization_digest: StoredBytes::Null,
        created_at: Some(b"now".to_vec()),
        scan: Some(StoredScan {
            status: "staging".to_owned(),
            strict: 0,
            parent_snapshot_id: None,
            mutation_count: 3,
        }),
    }
}

#[test]
fn rows_of_staged_scans_are_sound_or_refused() {
    assert_eq!(validate_scan_operation_staging_rows(&vec![staging_row()], true), Ok(()));
    assert_eq!(validate_scan_operation_staging_rows(&vec![], false), Ok(()));
    assert_eq!(
        validate_scan_operation_staging_rows(&vec![staging_row()], false),
        Err(OwnershipError::StagingWithoutScans),
    );
    let refused = |change: &dyn Fn(&mut StoredStagingRow)| {
        let mut row = staging_row();
        change(&mut row);
        assert_eq!(
            validate_scan_operation_staging_rows(&vec![staging_row(), row], true),
            Err(OwnershipError::StagingRowsInconsistent { count: 1 }),
        );
    };
    refused(&|row| row.operation_id = None);
    refused(&|row| row.scan_id = Some(vec![b'x'; 513]));
    refused(&|row| row.configuration_digest = StoredBytes::Bytes(vec![1; 31]));
    refused(&|row| row.strict = 1);
    refused(&|row| row.cache_enabled = 2);
    refused(&|row| row.result_digest = StoredBytes::Other);
    refused(&|row| row.validated_mutation_count = Some(4));
    refused(&|row| row.validated_mutation_count = None);
    refused(&|row| row.prospective_snapshot_id = None);
    refused(&|row| row.base_snapshot_id = Some("other".to_owned()));
    refused(&|row| row.created_at = Some(vec![]));
    refused(&|row| row.created_at = Some(b"\0now".to_vec()));
    refused(&|row| row.scan = None);
    refused(&|row| row.scan.as_mut().unwrap().status = "failed".to_owned());
}

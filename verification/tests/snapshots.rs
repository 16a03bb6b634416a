use depgraph_store::identities::snapshot_identity_document;
use depgraph_store::json::Json;
use depgraph_store::layers::{
    applies_overlay,
    is_layered, layer_plan, snapshot_chain, snapshot_integrity, snapshot_is_intact, AncestorCheck, LayerError,
    SnapshotFacts, WalkEnd, WalkPurpose,
};
use depgraph_store::loading::{
    identity_plan, load_plan, profile_source, recorded_contents, source_contents, IdentityPlan, LoadStep, ProfileSource,
};
use depgraph_store::node_page::{check_node_layers, NodeLayer};
use depgraph_store::records::{
    CompletedSnapshotRecord, CoverageRecord, GarbageCollectionReport, ProfileRecord, ValidatedScan,
};
use depgraph_store::seal::{
    check_seal, completed_snapshot_storage_seal, seal_input, SealDomain, SealError, SealTable, StoredValue,
};
use depgraph_store::snapshots::{
    backfill_builds, backfill_current, backfill_scans, build_snapshot_source, check_created_snapshot,
    check_finish_request, check_name_free, check_name_target, check_promotable, check_source_kind,
    check_still_validated, collection_report, completed_scan, ensure_scan_staging, finish_scan_plan,
    garbage_collect_unreferenced_attempts, load_choice, page_bounds, profile_set, promotes_over,
    recover_interrupted_attempts, resolve_completed_snapshot_selector, resolve_scan_id, scan_snapshot_source,
    snapshot_details, snapshot_record,
    validate_snapshot_name, validated_scan, validated_summary, AttemptRow, BuildAttemptRow,
    CollectionRows, DeltaEnd, FinishPlan, LoadChoice, ScanAttemptRow, ScanState, SnapshotError, SnapshotSource,
    UnsealedBuild, UnsealedScan,
};
use depgraph_store::staging::pending_cancelled_page;

fn owned(values: &[&str]) -> Vec<String> {
    values.iter().map(|value| (*value).to_owned()).collect()
}

fn record(id: &str) -> CompletedSnapshotRecord {
    CompletedSnapshotRecord {
        id: id.to_owned(),
        source_kind: "scan".to_owned(),
        source_attempt_id: "scan-golden".to_owned(),
        scan_id: "scan-golden".to_owned(),
        build_attempt_id: None,
        runtime_import_id: None,
        runtime_session_ids: vec![],
        parent_snapshot_id: None,
        source_revision: Some("fixture-revision".to_owned()),
        profile_ids: owned(&["web:production:server"]),
        status: "completed".to_owned(),
        created_at: "2026-01-01T00:00:00.000Z".to_owned(),
    }
}

#[test]
fn snapshot_names_are_bounded_words_that_differ_from_selectors_and_identities() {
    for valid in ["zeta", "alpha-1", "A.b_c-9", &"a".repeat(64)] {
        assert_eq!(validate_snapshot_name(valid), Ok(()));
    }
    for (invalid, error) in [
        ("", SnapshotError::NameEmpty),
        ("current", SnapshotError::NameReserved),
        ("LATEST", SnapshotError::NameReserved),
        ("snapshot:short", SnapshotError::NameLikeIdentity),
        ("-leading", SnapshotError::NameCharacters),
        ("contains space", SnapshotError::NameCharacters),
        ("日本語", SnapshotError::NameNotAscii),
    ] {
        assert_eq!(validate_snapshot_name(invalid), Err(error), "{invalid:?}");
    }
    assert_eq!(validate_snapshot_name(&"a".repeat(65)), Err(SnapshotError::NameTooLong));
    assert_eq!(check_name_free(&owned(&["zeta", "alpha-1"]), "ALPHA-1"), Err(SnapshotError::NameTaken { at: 1 }));
    assert_eq!(check_name_free(&owned(&["zeta", "alpha-1"]), "alpha-2"), Ok(()));
}

#[test]
fn names_are_given_to_completed_and_intact_snapshots() {
    let mut snapshot = record("snapshot:1");
    assert_eq!(check_name_target(None, true), Err(SnapshotError::NotFound));
    assert_eq!(check_name_target(Some(&snapshot), true), Ok(()));
    assert_eq!(check_name_target(Some(&snapshot), false), Err(SnapshotError::NotValid));
    snapshot.status = "staging".to_owned();
    assert_eq!(check_name_target(Some(&snapshot), true), Err(SnapshotError::NotCompleted));
}

#[test]
fn selectors_resolve_to_the_current_the_identified_or_the_named_snapshot() {
    let id = Some("snapshot:1");
    let resolve = resolve_completed_snapshot_selector;
    assert_eq!(resolve("ALPHA-1", id, None, id), Ok("snapshot:1".to_owned()));
    assert_eq!(resolve("snapshot:1", None, id, None), Ok("snapshot:1".to_owned()));
    assert_eq!(resolve("Current", id, None, None), Ok("snapshot:1".to_owned()));
    assert_eq!(resolve("current", None, None, None), Err(SnapshotError::NoCurrentSnapshot));
    assert_eq!(resolve("latest", id, None, None), Err(SnapshotError::SelectorReserved));
    assert_eq!(resolve("missing", id, None, None), Err(SnapshotError::SelectorNotFound));
    assert_eq!(resolve(" \u{3000}", id, None, None), Err(SnapshotError::SelectorEmpty));
    assert_eq!(resolve("x", id, Some("a"), Some("b")), Err(SnapshotError::SelectorAmbiguous));
    assert_eq!(resolve("x", id, Some("a"), Some("a")), Ok("a".to_owned()));
}

#[test]
fn snapshot_names_are_immutable_and_resolve_canonical_completed_details() {
    let snapshot_id = Some("snapshot:1");
    assert_eq!(check_name_target(Some(&record("snapshot:1")), true), Ok(()));
    for selector in ["ALPHA-1", "snapshot:1", "current"] {
        let identified = if selector == "snapshot:1" { snapshot_id } else { None };
        let named = if selector == "ALPHA-1" { snapshot_id } else { None };
        assert_eq!(
            resolve_completed_snapshot_selector(selector, snapshot_id, identified, named),
            Ok("snapshot:1".to_owned()),
        );
    }
    let coverage = CoverageRecord {
        profiles: 1,
        completeness: owned(&["syntax-complete"]),
        ..CoverageRecord::default()
    };
    let details = snapshot_details(record("snapshot:1"), owned(&["zeta", "alpha-1"]), coverage);
    assert_eq!(details.snapshot.status, "completed");
    assert_eq!(details.snapshot.source_revision.as_deref(), Some("fixture-revision"));
    assert_eq!(details.snapshot.profile_ids, ["web:production:server"]);
    assert_eq!(details.names, ["alpha-1", "zeta"]);
    assert_eq!(details.coverage.profiles, 1);
    assert_eq!(details.coverage.completeness, ["syntax-complete"]);
    for invalid in ["", "current", "LATEST", "snapshot:short", "-leading", "contains space", "日本語"] {
        assert!(validate_snapshot_name(invalid).is_err(), "{invalid:?}");
    }
    assert!(validate_snapshot_name(&"a".repeat(65)).is_err());
    assert!(check_name_free(&owned(&["zeta", "alpha-1"]), "ALPHA-1").is_err());
    assert_eq!(
        resolve_completed_snapshot_selector("latest", snapshot_id, None, None),
        Err(SnapshotError::SelectorReserved),
    );
    assert_eq!(
        resolve_completed_snapshot_selector("missing", snapshot_id, None, None),
        Err(SnapshotError::SelectorNotFound),
    );
    assert_eq!(check_name_target(None, true), Err(SnapshotError::NotFound));
}

#[test]
fn details_hold_sorted_names_and_coverage() {
    let coverage = CoverageRecord {
        profiles: 1,
        completeness: owned(&["syntax-complete", "a", "syntax-complete"]),
        reasons: owned(&["z", "y", "z"]),
        ..CoverageRecord::default()
    };
    let details = snapshot_details(record("snapshot:1"), owned(&["zeta", "alpha-1"]), coverage);
    assert_eq!(details.names, ["alpha-1", "zeta"]);
    assert_eq!(details.coverage.profiles, 1);
    assert_eq!(details.coverage.completeness, ["a", "syntax-complete"]);
    assert_eq!(details.coverage.reasons, ["y", "z"]);
    assert_eq!(details.snapshot, record("snapshot:1"));
}

#[test]
fn sources_and_pages_are_checked() {
    assert_eq!(check_source_kind("runtime"), Ok(()));
    assert_eq!(check_source_kind("cache"), Err(SnapshotError::SourceKindInvalid));
    assert_eq!(page_bounds(3, 10), Ok((3, 10)));
    assert_eq!(page_bounds(3, 0), Err(SnapshotError::PageEmpty));
    assert_eq!(page_bounds(usize::MAX, 1), Err(SnapshotError::PageTooLarge));
}

#[test]
fn the_identity_document_names_sessions_only_where_there_are_any() {
    let text = |value: &str| Json::Text(value.to_owned());
    let field = |name: &str, value: Json| (name.to_owned(), value);
    let profiles = owned(&["p"]);
    let document = snapshot_identity_document(None, Some("r"), &profiles, text("graph"), &vec![]);
    assert_eq!(
        document,
        Json::Object(vec![
            field("graph", text("graph")),
            field("parent_snapshot_id", Json::Null),
            field("profile_ids", Json::Array(vec![text("p")])),
            field("schema", text("completed-snapshot-v1")),
            field("source_revision", text("r")),
        ]),
    );
    let document = snapshot_identity_document(Some("s"), None, &profiles, text("graph"), &owned(&["session"]));
    assert_eq!(
        document,
        Json::Object(vec![
            field("graph", text("graph")),
            field("parent_snapshot_id", text("s")),
            field("profile_ids", Json::Array(vec![text("p")])),
            field("runtime_session_ids", Json::Array(vec![text("session")])),
            field("schema", text("completed-snapshot-v2")),
            field("source_revision", Json::Null),
        ]),
    );
}

fn profile(id: &str) -> ProfileRecord {
    ProfileRecord {
        id: id.to_owned(),
        language: "typescript".to_owned(),
        toolchain: None,
        command: None,
        target: None,
        features: vec![],
        environment: Json::Object(vec![]),
        source_revision: None,
        properties: Json::Object(vec![]),
        coverage: None,
    }
}

#[test]
fn a_created_snapshot_is_the_one_that_its_source_makes() {
    assert_eq!(profile_set(&vec![profile("b"), profile("a"), profile("b")]), ["a", "b"]);
    let source = SnapshotSource {
        source_kind: "scan".to_owned(),
        source_attempt_id: "scan-golden".to_owned(),
        scan_id: "scan-golden".to_owned(),
        build_attempt_id: None,
        runtime_import_id: None,
        runtime_session_ids: vec![],
        parent_snapshot_id: None,
        source_revision: Some("fixture-revision".to_owned()),
        created_at: "now".to_owned(),
    };
    let profiles = owned(&["web:production:server"]);
    assert_eq!(check_created_snapshot(None, &source, &profiles), Err(SnapshotError::NotVisible));
    assert_eq!(check_created_snapshot(Some(&record("s")), &source, &profiles), Ok(()));
    let mut other = record("s");
    other.source_revision = None;
    assert_eq!(check_created_snapshot(Some(&other), &source, &profiles), Err(SnapshotError::Collision));
    assert_eq!(check_created_snapshot(Some(&record("s")), &source, &vec![]), Err(SnapshotError::Collision));
}

#[test]
fn scan_completion_recovery_finishes_without_replacing_a_later_current_snapshot() {
    assert_eq!(check_promotable(Some("completed")), Ok(()));
    assert!(!promotes_over(Some("snapshot:later"), Some("snapshot:base")));
}

#[test]
fn a_snapshot_is_promoted_only_over_its_parent() {
    assert_eq!(check_promotable(Some("completed")), Ok(()));
    assert_eq!(check_promotable(Some("failed")), Err(SnapshotError::NotCompleted));
    assert_eq!(check_promotable(None), Err(SnapshotError::NotFound));
    assert!(promotes_over(Some("a"), Some("a")));
    assert!(promotes_over(None, None));
    assert!(!promotes_over(Some("b"), Some("a")));
    assert!(!promotes_over(None, Some("a")));
    assert!(!promotes_over(Some("a"), None));
}

fn staging(mutation_count: i64) -> ScanState {
    ScanState { status: "staging".to_owned(), mutation_count, project_code_executed: false, unapplied_deltas: 0 }
}

#[test]
fn incomplete_scan_is_not_promoted() {
    assert_eq!(check_finish_request("failed", false), Ok(()));
    assert_eq!(
        finish_scan_plan(Some(&staging(0)), "failed", false, None),
        Ok(FinishPlan { create_snapshot: false, delta_end: Some(DeltaEnd::Failed), release_staging: true }),
    );
    assert_eq!(
        finish_scan_plan(Some(&staging(0)), "cancelled", false, None),
        Ok(FinishPlan { create_snapshot: false, delta_end: Some(DeltaEnd::Cancelled), release_staging: false }),
    );
    assert_eq!(
        finish_scan_plan(Some(&staging(4)), "completed", true, Some(4)),
        Ok(FinishPlan { create_snapshot: true, delta_end: None, release_staging: false }),
    );
    assert_eq!(check_finish_request("running", false), Err(SnapshotError::StatusInvalid));
    assert_eq!(check_finish_request("partial", true), Err(SnapshotError::PromotionNotCompleted));
}

#[test]
fn failed_scan_retains_the_previous_completed_snapshot() {
    let completed = record("snapshot:completed");
    let before = vec![facts("snapshot:completed", None, false, "scan")];
    let loaded = load_plan(&before, &completed.id);

    assert_eq!(check_finish_request("failed", false), Ok(()));
    let plan = finish_scan_plan(Some(&staging(1)), "failed", false, None).unwrap();
    assert!(!plan.create_snapshot);
    assert_eq!(plan.delta_end, Some(DeltaEnd::Failed));
    assert!(plan.release_staging);

    let current = Some(completed.id.as_str());
    assert_eq!(resolve_completed_snapshot_selector("current", current, None, None), Ok(completed.id.clone()));
    assert_eq!(load_plan(&before, &completed.id), loaded);
    assert_eq!(loaded, Ok(vec![LoadStep::Scan("scan-golden".to_owned())]));
    assert!(backfill_scans(vec![UnsealedScan {
        id: "failed-scan".to_owned(),
        status: "failed".to_owned(),
        started_at: "2026-01-02".to_owned(),
        completed_at: None,
        parent_snapshot_id: Some(completed.id.clone()),
        source_revision: None,
    }])
    .is_empty());
    let latest = |latest_attempt: bool| {
        resolve_scan_id(None, false, latest_attempt, Some("failed-scan"), Some("scan-golden"))
    };
    assert_eq!(latest(true), Ok("failed-scan".to_owned()));
    assert_eq!(latest(false), Ok("scan-golden".to_owned()));
}

#[test]
fn validated_completion_rejects_an_intervening_scan_mutation() {
    let validation = validated_scan("scan-golden", Some(&staging(4))).unwrap();
    assert_eq!(validation.scan_id, "scan-golden");
    assert_eq!(validation.mutation_count, 4);
    assert_eq!(check_still_validated(&validation, Some(&staging(4))), Ok(()));
    let summary = validated_summary(Some(CoverageRecord::default()), vec![]).unwrap();
    assert_eq!(summary.coverage, CoverageRecord::default());
    assert_eq!(validated_summary(None, vec![]).err(), Some(SnapshotError::NoFinalCoverage));

    assert_eq!(check_still_validated(&validation, Some(&staging(5))), Err(SnapshotError::ChangedAfterValidation));
    assert_eq!(
        finish_scan_plan(Some(&staging(5)), "completed", true, Some(validation.mutation_count)),
        Err(SnapshotError::ScanChanged),
    );
    assert_eq!(check_still_validated(&validation, None), Err(SnapshotError::ScanNotStarted));
    assert_eq!(
        completed_scan(validation, Some("snapshot:1".to_owned())).unwrap().snapshot_id,
        "snapshot:1",
    );
}

#[test]
fn a_scan_ends_only_from_staging_with_its_deltas_applied_and_without_project_code() {
    assert_eq!(finish_scan_plan(None, "failed", false, None), Err(SnapshotError::ScanNotStarted));
    let mut state = staging(0);
    state.unapplied_deltas = 2;
    assert_eq!(
        finish_scan_plan(Some(&state), "completed", false, None),
        Err(SnapshotError::DeltasNotApplied { count: 2 }),
    );
    assert!(finish_scan_plan(Some(&state), "failed", false, None).is_ok());
    let mut state = staging(0);
    state.project_code_executed = true;
    assert_eq!(
        finish_scan_plan(Some(&state), "completed", true, Some(0)),
        Err(SnapshotError::ProjectCodeExecuted),
    );
    assert!(finish_scan_plan(Some(&state), "completed", false, Some(0)).is_ok());
    assert_eq!(ensure_scan_staging(None), Err(SnapshotError::ScanNotStarted));
    assert_eq!(ensure_scan_staging(Some("staging")), Ok(()));
    assert_eq!(validated_scan("s", None).err(), Some(SnapshotError::ScanNotStarted));
    assert_eq!(
        completed_scan(ValidatedScan { scan_id: "s".to_owned(), mutation_count: 0 }, None).err(),
        Some(SnapshotError::NoSnapshotCreated),
    );
}

#[test]
fn scans_and_snapshots_are_found_by_what_is_asked_for() {
    assert_eq!(resolve_scan_id(Some("s"), true, false, None, None), Ok("s".to_owned()));
    assert_eq!(resolve_scan_id(Some("s"), false, false, None, None), Err(SnapshotError::ScanNotFound));
    assert_eq!(resolve_scan_id(None, false, true, Some("a"), Some("b")), Ok("a".to_owned()));
    assert_eq!(resolve_scan_id(None, false, false, Some("a"), Some("b")), Ok("b".to_owned()));
    assert_eq!(resolve_scan_id(None, false, false, Some("a"), None), Err(SnapshotError::NoMatchingScan));
    assert_eq!(load_choice(true, None, None), LoadChoice::Snapshot);
    assert_eq!(
        load_choice(false, Some("completed"), Some("x".to_owned())),
        LoadChoice::Selected("x".to_owned()),
    );
    assert_eq!(load_choice(false, Some("staging"), Some("x".to_owned())), LoadChoice::Scan);
    assert_eq!(load_choice(false, Some("completed"), None), LoadChoice::Scan);
}

fn scan_row(id: &str, status: &str) -> ScanAttemptRow {
    ScanAttemptRow { id: id.to_owned(), status: status.to_owned() }
}

fn build_row(id: &str, status: &str, base: &str) -> BuildAttemptRow {
    BuildAttemptRow {
        id: id.to_owned(),
        status: status.to_owned(),
        base_scan_id: base.to_owned(),
        audit_run_id: id.to_owned(),
    }
}

#[test]
fn explicit_garbage_collection_removes_only_unreferenced_terminal_attempts() {
    let rows = CollectionRows {
        scans: vec![scan_row("scan-golden", "completed"), scan_row("failed-scan", "cancelled")],
        builds: vec![build_row("failed-build", "failed", "scan-golden")],
        audits: owned(&["failed-build"]),
        scan_sources: owned(&["scan-golden"]),
        build_sources: vec![],
        current_scans: owned(&["scan-golden"]),
        current_builds: vec![],
        owned_scans: vec![],
    };
    let collection = garbage_collect_unreferenced_attempts(&rows);
    assert_eq!(
        collection_report(&collection),
        GarbageCollectionReport { scan_attempts_deleted: 1, build_attempts_deleted: 1, build_audits_deleted: 1 },
    );
    assert_eq!(collection.scans, ["failed-scan"]);
    assert_eq!(collection.builds, ["failed-build"]);
    assert_eq!(collection.audits, ["failed-build"]);
}

#[test]
fn collection_keeps_staging_current_and_underlying_attempts() {
    let rows = CollectionRows {
        scans: vec![scan_row("a", "staging"), scan_row("b", "failed"), scan_row("c", "failed"), scan_row("d", "failed")],
        builds: vec![build_row("x", "staging", "b"), build_row("y", "completed", "d"), build_row("z", "failed", "d")],
        audits: owned(&["x", "y", "z", "w"]),
        scan_sources: vec![],
        build_sources: vec![],
        current_scans: owned(&["c"]),
        current_builds: owned(&["y"]),
        owned_scans: vec![],
    };
    let collection = garbage_collect_unreferenced_attempts(&rows);
    assert_eq!(collection.builds, ["z"]);
    assert_eq!(collection.audits, ["z", "w"]);
    assert!(collection.scans.is_empty());
}

#[test]
fn collection_keeps_the_proof_of_a_cancellation_until_it_is_acknowledged() {
    let owners = [("op_1", "owned"), ("op_2", "other")];
    let mut rows = CollectionRows {
        scans: vec![scan_row("owned", "cancelled"), scan_row("other", "cancelled"), scan_row("loose", "cancelled")],
        builds: vec![],
        audits: vec![],
        scan_sources: vec![],
        build_sources: vec![],
        current_scans: vec![],
        current_builds: vec![],
        owned_scans: owned(&["owned", "other"]),
    };
    let collection = garbage_collect_unreferenced_attempts(&rows);
    assert_eq!(collection.scans, ["loose"]);
    let pending = owners
        .iter()
        .filter(|(_operation, scan)| !collection.scans.contains(&(*scan).to_owned()))
        .map(|(operation, _scan)| operation.as_bytes().to_vec())
        .collect();
    assert_eq!(pending_cancelled_page(pending).unwrap().operation_ids(), ["op_1", "op_2"]);

    rows.owned_scans = owned(&["other"]);
    assert_eq!(garbage_collect_unreferenced_attempts(&rows).scans, ["owned", "loose"]);
}

fn attempt(id: &str, root: &str, status: &str, started_at: &str) -> AttemptRow {
    AttemptRow {
        id: id.to_owned(),
        root: root.to_owned(),
        status: status.to_owned(),
        started_at: started_at.to_owned(),
    }
}

#[test]
fn daemon_recovery_cancels_staging_attempts_without_replacing_current_snapshot() {
    let scans = vec![
        attempt("scan-golden", "/fixture", "completed", "1"),
        attempt("interrupted-scan", "/fixture", "staging", "2"),
    ];
    let builds = vec![attempt("interrupted-build", "/fixture", "staging", "3")];
    let recovered = recover_interrupted_attempts(&scans, &builds, "/fixture");
    assert_eq!(recovered.scan_attempt_ids, ["interrupted-scan"]);
    assert_eq!(recovered.build_attempt_ids, ["interrupted-build"]);
}

#[test]
fn recovery_lists_the_interrupted_attempts_of_a_root_by_start() {
    let scans = vec![
        attempt("scan-golden", "/fixture", "completed", "1"),
        attempt("z", "/fixture", "staging", "3"),
        attempt("interrupted-scan", "/fixture", "staging", "2"),
        attempt("a", "/fixture", "staging", "3"),
        attempt("other", "/elsewhere", "staging", "0"),
    ];
    let builds = vec![attempt("interrupted-build", "/fixture", "staging", "2")];
    let recovered = recover_interrupted_attempts(&scans, &builds, "/fixture");
    assert_eq!(recovered.scan_attempt_ids, ["interrupted-scan", "a", "z"]);
    assert_eq!(recovered.build_attempt_ids, ["interrupted-build"]);
}

#[test]
fn older_stores_get_the_snapshots_that_they_lack() {
    let scan = |id: &str, status: &str, started_at: &str, completed_at: Option<&str>| UnsealedScan {
        id: id.to_owned(),
        status: status.to_owned(),
        started_at: started_at.to_owned(),
        completed_at: completed_at.map(|value| value.to_owned()),
        parent_snapshot_id: None,
        source_revision: Some("r".to_owned()),
    };
    let sources = backfill_scans(vec![
        scan("late", "completed", "2", Some("9")),
        scan("failed", "failed", "0", None),
        scan("early", "completed", "1", None),
        scan("tied", "completed", "1", Some("5")),
    ]);
    let listed: Vec<(&str, &str)> =
        sources.iter().map(|source| (source.scan_id.as_str(), source.created_at.as_str())).collect();
    assert_eq!(listed, [("early", "1"), ("tied", "5"), ("late", "9")]);
    assert!(sources.iter().all(|source| source.source_kind == "scan" && source.source_attempt_id == source.scan_id));

    let build = |id: &str, status: &str, has_delta: bool, started_at: &str| UnsealedBuild {
        id: id.to_owned(),
        status: status.to_owned(),
        has_delta,
        base_scan_id: "early".to_owned(),
        started_at: started_at.to_owned(),
        completed_at: None,
    };
    let builds = backfill_builds(vec![
        build("b", "completed", true, "2"),
        build("c", "completed", false, "0"),
        build("d", "failed", true, "0"),
        build("a", "completed", true, "1"),
    ]);
    let ids: Vec<&str> = builds.iter().map(|build| build.id.as_str()).collect();
    assert_eq!(ids, ["a", "b"]);
    let source = build_snapshot_source(builds[0].clone(), Some("snapshot:early"), None).unwrap();
    assert_eq!(source.build_attempt_id.as_deref(), Some("a"));
    assert_eq!(source.parent_snapshot_id.as_deref(), Some("snapshot:early"));
    assert_eq!(source.created_at, "1");
    assert_eq!(
        build_snapshot_source(builds[0].clone(), None, None).err(),
        Some(SnapshotError::NoBaseSnapshot),
    );
    assert_eq!(backfill_current(None, Some("b")), None);
    assert_eq!(backfill_current(Some("s"), None), Some(("scan", "s")));
    assert_eq!(backfill_current(Some("s"), Some("b")), Some(("build", "b")));
}

fn facts(id: &str, parent: Option<&str>, overlay: bool, kind: &str) -> SnapshotFacts {
    let mut record = record(id);
    record.source_kind = kind.to_owned();
    record.parent_snapshot_id = parent.map(|parent| parent.to_owned());
    SnapshotFacts {
        record,
        scan_is_overlay: overlay,
        scan_parent_snapshot_id: parent.map(|parent| parent.to_owned()),
    }
}

#[test]
fn chains_follow_what_each_purpose_rests_on() {
    let all = vec![
        facts("base", None, false, "scan"),
        facts("build", Some("base"), false, "build"),
        facts("overlay", Some("build"), true, "scan"),
        facts("later", Some("overlay"), false, "scan"),
    ];
    assert_eq!(snapshot_chain(&all, "overlay", WalkPurpose::Load), (vec![2, 1, 0], WalkEnd::End));
    assert_eq!(snapshot_chain(&all, "overlay", WalkPurpose::Profiles), (vec![2, 1], WalkEnd::End));
    assert_eq!(snapshot_chain(&all, "overlay", WalkPurpose::Integrity), (vec![2, 1], WalkEnd::End));
    assert_eq!(snapshot_chain(&all, "overlay", WalkPurpose::Nodes), (vec![2, 1, 0], WalkEnd::End));
    assert_eq!(snapshot_chain(&all, "later", WalkPurpose::Load), (vec![3], WalkEnd::End));
    assert_eq!(snapshot_chain(&all, "later", WalkPurpose::Ancestors), (vec![3, 2, 1, 0], WalkEnd::End));
    assert_eq!(snapshot_chain(&all, "missing", WalkPurpose::Load), (vec![], WalkEnd::Missing));
    let ring = vec![facts("a", Some("b"), true, "scan"), facts("b", Some("a"), true, "scan")];
    assert_eq!(snapshot_chain(&ring, "a", WalkPurpose::Load), (vec![0, 1], WalkEnd::Cycle));
    let mut stray = vec![facts("a", Some("b"), true, "scan"), facts("b", None, false, "scan")];
    stray[0].scan_parent_snapshot_id = None;
    assert_eq!(
        snapshot_chain(&stray, "a", WalkPurpose::Load),
        (vec![0], WalkEnd::Fail(LayerError::OverlayParentDiffers)),
    );
    assert!(!is_layered(&all[0]));
    assert!(is_layered(&all[1]));
    assert!(is_layered(&all[2]));
}

#[test]
fn a_layer_adds_what_its_parent_lacks() {
    let mut parent = record("p");
    parent.build_attempt_id = Some("b".to_owned());
    parent.runtime_session_ids = owned(&["s1"]);
    let plan = layer_plan(Some("b"), &owned(&["s1", "s2"]), Some(&parent));
    assert!(!plan.apply_build);
    assert_eq!(plan.new_sessions, ["s2"]);
    let plan = layer_plan(Some("c"), &vec![], Some(&parent));
    assert!(plan.apply_build);
    assert!(plan.new_sessions.is_empty());
    assert!(layer_plan(Some("c"), &vec![], None).apply_build);
    assert!(!layer_plan(None, &vec![], None).apply_build);
}

#[test]
fn snapshot_integrity_detects_persisted_graph_tampering() {
    let profiles = owned(&["web:production:server"]);
    assert!(snapshot_integrity(&record("snapshot:1"), "snapshot:1", &profiles, None).unwrap().valid);
    let integrity = snapshot_integrity(&record("snapshot:1"), "snapshot:2", &profiles, None).unwrap();
    assert!(!integrity.valid);
    assert_eq!(integrity.reasons, ["content_digest_mismatch"]);
    assert_ne!(integrity.expected_id, integrity.observed_id);
}

#[test]
fn snapshot_integrity_names_what_differs() {
    let profiles = owned(&["web:production:server"]);
    let valid = snapshot_integrity(&record("snapshot:1"), "snapshot:1", &profiles, None).unwrap();
    assert!(valid.valid);
    assert!(valid.reasons.is_empty());
    let tampered = snapshot_integrity(&record("snapshot:1"), "snapshot:2", &vec![], None).unwrap();
    assert!(!tampered.valid);
    assert_eq!(tampered.expected_id, "snapshot:1");
    assert_eq!(tampered.observed_id, "snapshot:2");
    assert_eq!(tampered.reasons, ["content_digest_mismatch", "profile_set_mismatch"]);
    let ancestors = AncestorCheck { intact: vec![true, false], end: WalkEnd::End };
    let inherited = snapshot_integrity(&record("snapshot:1"), "snapshot:1", &profiles, Some(&ancestors)).unwrap();
    assert_eq!(inherited.reasons, ["parent_integrity_mismatch"]);
    assert!(snapshot_is_intact(&record("snapshot:1"), "snapshot:1", &profiles));
    assert!(!snapshot_is_intact(&record("snapshot:1"), "snapshot:1", &vec![]));
}

fn tables() -> Vec<SealTable> {
    let mut tables: Vec<SealTable> = (0..20).map(|_| SealTable { columns: 2, rows: vec![] }).collect();
    tables[4].rows.push(vec![StoredValue::Text(b"file:a".to_vec()), StoredValue::Null]);
    tables[4].rows.push(vec![StoredValue::Integer(-1), StoredValue::Real(2.5f64.to_bits())]);
    tables
}

#[test]
fn a_seal_changes_with_every_row() {
    let seal = completed_snapshot_storage_seal("snapshot:1", &tables());
    assert_eq!(seal.len(), 64);
    assert_eq!(seal, {
        let digest = <sha2::Sha256 as sha2::Digest>::digest(&seal_input("snapshot:1", &tables()));
        depgraph_store::digest::hex(digest.as_slice())
    });
    assert_ne!(seal, completed_snapshot_storage_seal("snapshot:2", &tables()));
    let mut changed = tables();
    changed[4].rows[0][1] = StoredValue::Blob(vec![]);
    assert_ne!(seal, completed_snapshot_storage_seal("snapshot:1", &changed));
    let mut swapped = tables();
    swapped[4].rows.swap(0, 1);
    assert_ne!(seal, completed_snapshot_storage_seal("snapshot:1", &swapped));
    assert_eq!(check_seal(Some(&seal), &seal), Ok(()));
    assert_eq!(check_seal(None, &seal), Err(SealError::Missing));
    assert_eq!(check_seal(Some("x"), &seal), Err(SealError::Mismatch));
    assert_eq!(SealDomain::at(0).name(), "completed_snapshots");
    assert_eq!(SealDomain::at(19).name(), "runtime_diagnostics");
}

fn layered() -> Vec<SnapshotFacts> {
    let mut all = vec![
        facts("base", None, false, "scan"),
        facts("build", Some("base"), false, "build"),
        facts("overlay", Some("build"), true, "scan"),
        facts("runtime", Some("overlay"), false, "runtime"),
    ];
    all[0].record.scan_id = "scan:1".to_owned();
    all[1].record.scan_id = "scan:1".to_owned();
    all[1].record.build_attempt_id = Some("attempt:1".to_owned());
    all[2].record.scan_id = "scan:2".to_owned();
    all[3].record.scan_id = "scan:2".to_owned();
    all[3].record.runtime_session_ids = owned(&["session:1"]);
    all
}

fn layered_steps() -> Vec<LoadStep> {
    vec![
        LoadStep::Scan("scan:1".to_owned()),
        LoadStep::Build { scan_id: "scan:1".to_owned(), attempt_id: "attempt:1".to_owned() },
        LoadStep::Overlay("scan:2".to_owned()),
        LoadStep::Sessions(owned(&["session:1"])),
    ]
}

#[test]
fn graphs_are_put_together_from_the_last_snapshot_up() {
    let all = layered();
    assert_eq!(load_plan(&all, "runtime"), Ok(layered_steps()));
    assert_eq!(load_plan(&all, "overlay"), Ok(layered_steps()[..3].to_vec()));
    assert_eq!(load_plan(&all, "build"), Ok(layered_steps()[..2].to_vec()));
    assert_eq!(load_plan(&all, "base"), Ok(layered_steps()[..1].to_vec()));
    assert_eq!(load_plan(&all, "other"), Err(LayerError::SnapshotMissing));
    let ring = vec![facts("a", Some("b"), true, "scan"), facts("b", Some("a"), true, "scan")];
    assert_eq!(load_plan(&ring, "a"), Err(LayerError::ParentCycle));
    let lost = vec![facts("a", Some("b"), false, "build")];
    assert_eq!(load_plan(&lost, "a"), Err(LayerError::ParentMissing));
    let mut rootless = facts("a", None, true, "build");
    rootless.record.build_attempt_id = Some("attempt:1".to_owned());
    assert_eq!(load_plan(&vec![rootless], "a"), Err(LayerError::OverlayWithoutParent));
}

#[test]
fn loading_and_naming_apply_the_same_layers() {
    let all = layered();
    for place in [0, 1, 3] {
        let named = identity_plan(&all, &recorded_contents(&all[place])).unwrap();
        assert_eq!(named, IdentityPlan::Content(load_plan(&all, &all[place].record.id).unwrap()));
    }
    assert_eq!(
        identity_plan(&all, &recorded_contents(&all[2])),
        Ok(IdentityPlan::Overlay { parent_snapshot_id: "build".to_owned() }),
    );
    let mut stray = recorded_contents(&all[2]);
    stray.parent_snapshot_id = None;
    assert_eq!(identity_plan(&all, &stray), Err(LayerError::OverlayWithoutParent));
    let mut orphan = recorded_contents(&all[1]);
    orphan.parent_snapshot_id = Some("other".to_owned());
    assert_eq!(identity_plan(&all, &orphan), Err(LayerError::ParentMissing));
    let mut parentless = recorded_contents(&all[3]);
    parentless.parent_snapshot_id = None;
    parentless.scan_is_overlay = true;
    parentless.scan_parent_snapshot_id = Some("build".to_owned());
    assert_eq!(identity_plan(&all, &parentless), Ok(IdentityPlan::Content(layered_steps())));
}

#[test]
fn profiles_are_read_from_what_holds_them() {
    let all = layered();
    assert_eq!(profile_source(&all, "base"), Ok(ProfileSource::Scan(0)));
    assert_eq!(profile_source(&all, "overlay"), Ok(ProfileSource::Graph(1)));
    assert_eq!(profile_source(&all, "runtime"), Ok(ProfileSource::Graph(3)));
    assert_eq!(profile_source(&all, "other"), Err(LayerError::SnapshotMissing));
}

#[test]
fn an_overlay_is_applied_under_what_rests_on_its_scan() {
    let all = layered();
    assert!(!applies_overlay(&all[0]));
    assert!(applies_overlay(&all[2]));
    assert!(!applies_overlay(&all[3]));
    let mut parentless = all[3].clone();
    parentless.record.parent_snapshot_id = None;
    parentless.scan_is_overlay = true;
    assert!(applies_overlay(&parentless));
}

#[test]
fn prospective_scan_identity_matches_later_promotion() {
    let scan = |status: &str, completed_at: Option<&str>| UnsealedScan {
        id: "scan".to_owned(),
        status: status.to_owned(),
        started_at: "2026-01-01".to_owned(),
        completed_at: completed_at.map(|at| at.to_owned()),
        parent_snapshot_id: Some("base".to_owned()),
        source_revision: Some("revision".to_owned()),
    };
    let named = |scan: UnsealedScan| {
        let contents = source_contents(&scan_snapshot_source(scan), false, Some("base".to_owned()));
        assert_eq!(contents.source_revision.as_deref(), Some("revision"));
        identity_plan(&layered(), &contents).unwrap()
    };
    let prospective = named(scan("staging", None));
    assert_eq!(prospective, IdentityPlan::Content(vec![LoadStep::Scan("scan".to_owned())]));
    assert_eq!(named(scan("completed", Some("2026-01-02"))), prospective);
}

#[test]
fn completed_snapshot_identity_is_stable_across_attempt_timestamps_and_stores() {
    let profile_ids = owned(&["web:production:server"]);
    let named = |started_at: &str, completed_at: &str| {
        let source = scan_snapshot_source(UnsealedScan {
            id: "scan-golden".to_owned(),
            status: "completed".to_owned(),
            started_at: started_at.to_owned(),
            completed_at: Some(completed_at.to_owned()),
            parent_snapshot_id: None,
            source_revision: Some("fixture-revision".to_owned()),
        });
        let contents = source_contents(&source, false, None);
        let plan = identity_plan(&vec![], &contents).unwrap();
        let steps = match &plan {
            IdentityPlan::Content(steps) => steps.clone(),
            IdentityPlan::Overlay { .. } => vec![],
        };
        assert_eq!(steps, [LoadStep::Scan("scan-golden".to_owned())]);
        let graph = Json::Object(vec![("nodes".to_owned(), Json::Array(vec![Json::Text("file:a".to_owned())]))]);
        let document = snapshot_identity_document(
            contents.parent_snapshot_id.as_deref(),
            contents.source_revision.as_deref(),
            &profile_ids,
            graph,
            &contents.runtime_session_ids,
        );
        (document, source)
    };
    let (first, _) = named("2026-01-01T00:00:00.000Z", "2026-01-01T00:00:01.000Z");
    let (second, source) = named("2099-01-01T00:00:00.000Z", "2099-01-01T00:00:01.000Z");
    assert_eq!(first, second);
    assert_eq!(source.created_at, "2099-01-01T00:00:01.000Z");

    let stored = snapshot_record(&source, "snapshot:sha256:1", &profile_ids);
    assert!(snapshot_integrity(&stored, "snapshot:sha256:1", &profile_ids, None).unwrap().valid);
}

#[test]
fn a_plain_snapshot_is_no_more_than_its_scan() {
    let all = layered();
    for place in 0..4 {
        let steps = load_plan(&all, &all[place].record.id).unwrap();
        let scan = vec![LoadStep::Scan(all[place].record.scan_id.clone())];
        assert_eq!(is_layered(&all[place]), place != 0);
        assert_eq!(steps == scan, place == 0);
    }
    let mut later = layered();
    later.push(facts("later", Some("runtime"), false, "scan"));
    later[4].record.scan_id = "scan:3".to_owned();
    assert!(!is_layered(&later[4]));
    assert_eq!(load_plan(&later, "later"), Ok(vec![LoadStep::Scan("scan:3".to_owned())]));
}

#[test]
fn paged_node_projection_rejects_tampered_non_node_canonical_row() {
    let facts = vec![facts("snapshot:1", None, false, "scan")];
    let (path, end) = snapshot_chain(&facts, "snapshot:1", WalkPurpose::Nodes);
    let layers = vec![NodeLayer {
        scan_exists: true,
        overlay_nodes: vec![],
        overlay_properties_readable: true,
        build_readable: true,
        sessions_readable: true,
    }];
    let evidence = |raw: &str| {
        let domain = (0..20).find(|at| SealDomain::at(*at).name() == "evidence").unwrap();
        let mut tables = tables();
        tables[domain].rows = vec![vec![StoredValue::Text(b"scan-golden".to_vec()), StoredValue::Text(raw.into())]];
        completed_snapshot_storage_seal("snapshot:1", &tables)
    };
    let sealed = evidence("{\"properties\":{}}");
    let tampered = evidence("{\"properties\":{\"sealed_tamper\":1}}");

    assert!(load_plan(&facts, "snapshot:1").is_ok());
    assert_eq!(check_node_layers(&facts, &path, end, &layers, &vec![]), Ok(()));
    assert_eq!(check_seal(Some(&sealed), &evidence("{\"properties\":{}}")), Ok(()));
    assert_eq!(check_seal(Some(&sealed), &tampered), Err(SealError::Mismatch));
}

#[test]
fn a_recorded_snapshot_has_the_contents_of_its_source() {
    let source = SnapshotSource {
        source_kind: "build".to_owned(),
        source_attempt_id: "attempt:2".to_owned(),
        scan_id: "scan:2".to_owned(),
        build_attempt_id: Some("attempt:2".to_owned()),
        runtime_import_id: None,
        runtime_session_ids: owned(&["session:1"]),
        parent_snapshot_id: Some("overlay".to_owned()),
        source_revision: Some("revision".to_owned()),
        created_at: "now".to_owned(),
    };
    let profile_ids = owned(&["p"]);
    let record = snapshot_record(&source, "snapshot:new", &profile_ids);
    assert_eq!(check_created_snapshot(Some(&record), &source, &profile_ids), Ok(()));
    assert_eq!(record.id, "snapshot:new");
    assert_eq!(record.source_attempt_id, "attempt:2");
    assert_eq!(record.status, "completed");
    let facts = SnapshotFacts { record, scan_is_overlay: true, scan_parent_snapshot_id: Some("build".to_owned()) };
    let all = layered();
    assert_eq!(
        identity_plan(&all, &recorded_contents(&facts)),
        identity_plan(&all, &source_contents(&source, true, Some("build".to_owned()))),
    );
}

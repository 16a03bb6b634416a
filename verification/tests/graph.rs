use depgraph_store::build_attempt::{
    check_attempt_end, check_build_audit, finished_build_source, is_secret_like_key, start_build_attempt,
    AttemptBase, AttemptState, AuditField, BuildError,
};
use depgraph_store::build_staging::save_build_delta;
use depgraph_store::build_union::merge_build_delta;
use depgraph_store::conditions::{condition_union, ConditionUnion};
use depgraph_store::correlation::finish_correlation;
use depgraph_store::diagnostic_summary::DiagnosticCandidate;
use depgraph_store::digest::hex;
use depgraph_store::identities::{
    axis_conflict_document, correlation_conflict_document, correlation_document, effective_input_document,
    effective_profile_document, runtime_import_document, runtime_session_document,
};
use depgraph_store::json::{same_opt_json, Json, NEGATIVE_ZERO};
use depgraph_store::layers::{apply_semantic_noop_overlay, check_profile_set, topology_from_snapshot, LayerError};
use depgraph_store::matrix_build::{draft_profile_matrix, entry_conditions, finish_profile_matrix, MatrixIds};
use depgraph_store::matrix_facts::correlated_sites;
use depgraph_store::node_page::{
    find_completed_snapshot_nodes_page, node_candidates, LayerNodes, PlacedNode, SessionNodes,
};
use depgraph_store::matrix_refresh::{append_owned_evidence, attach_profile_matrix, begin_matrix_refresh};
use depgraph_store::observed::{
    build_delta_from_protocol, ObservedBuild, ObservedDiagnostic, ObservedEdge, ObservedEvidence, ObservedNode,
    ObservedProfile, ObservedProfileCoverage, ObservedSite,
};
use depgraph_store::operations::legacy_runtime_import_owner_id;
use depgraph_store::ownership::{
    authenticate_legacy_runtime_import_candidates, legacy_import_owner, LegacyImportRow,
};
use depgraph_store::profile_matrix::{
    axis_conflicts, canonical_effective_input_id, correlation_for_edge, correlation_for_site, effective_inputs,
    phase_coverage_for_effective_profile, profile_axis_differences, ProfileMatrixRecord,
};
use depgraph_store::records::{
    BuildAttemptRecord, BuildGraphDelta, CompletedSnapshotRecord, CoverageRecord, DiagnosticRecord, EdgeRecord,
    EvidenceRecord, GraphSnapshot, GraphTopologyEdge, GraphTopologyNode, NodeRecord, NodeSummaryRecord,
    NodeTextMatch, ProfileRecord, ScanAttemptSummaryRecord, ScanRecord, SiteRecord,
};
use depgraph_store::runtime_import::{
    cancel_matching_staged_runtime_session_import, cancel_runtime_session_import_for_operation,
    cancel_staged_runtime_session_import_for_operation, check_import_base, check_import_request,
    check_owner_attached, check_owner_attachment, check_promoted, check_recovery_transaction,
    completed_import_row, import_snapshot_source, moved_current, new_import, new_import_row, parent_is_current, promoted_import, promotion_step, reject_reserved_runtime_import_operation_id,
    replay_import, runtime_recovery_trace_matches, session_storage, sessions_with, valid_runtime_import_operation_id,
    ImportError, PromotionStep, ReplayStep, RuntimeImportMode, RuntimeImportOwnerRow,
    RuntimeImportRecoveryIdentity, RuntimeImportResult, RuntimeImportRow,
};
use depgraph_store::runtime_merge::{merge_runtime_sessions, sessions_are_canonical};
use depgraph_store::runtime_session::{
    is_same_trace, runtime_context_for_edge, RuntimeError, RuntimeSessionDelta, RuntimeSessionRecord,
};
use depgraph_store::runtime_union::{normalize_runtime_delta, validate_runtime_union};
use depgraph_store::snapshots::snapshot_record;
use depgraph_store::summary::IdText;
use depgraph_store::summary_rows::{add_build, add_session, scan_attempt_summary, SummaryRows};
use depgraph_store::written::WrittenJson;
use sha2::{Digest, Sha256};
use std::collections::{BTreeMap, BTreeSet};

// -----------------------------------------------------------------------------------------
// Values
// -----------------------------------------------------------------------------------------

fn text(value: &str) -> Json {
    Json::Text(value.to_owned())
}

fn object(fields: Vec<(&str, Json)>) -> Json {
    Json::Object(fields.into_iter().map(|(name, value)| (name.to_owned(), value)).collect())
}

fn owned(values: &[&str]) -> Vec<String> {
    values.iter().map(|value| (*value).to_owned()).collect()
}

fn set(value: &mut Json, name: &str, field: Json) {
    if let Json::Object(fields) = value {
        fields.retain(|(other, _)| other != name);
        fields.push((name.to_owned(), field));
    }
}

fn scan() -> ScanRecord {
    ScanRecord {
        id: "scan".to_owned(),
        root: "/fixture".to_owned(),
        status: "completed".to_owned(),
        strict: false,
        started_at: "now".to_owned(),
        completed_at: Some("now".to_owned()),
        project_code_executed: false,
        error: None,
        parent_snapshot_id: None,
        source_revision: None,
        health_policy_config_digest: None,
        health_analyzer_version: None,
        health_finding_contract_version: None,
    }
}

fn empty_snapshot() -> GraphSnapshot {
    GraphSnapshot {
        scan: scan(),
        profiles: vec![],
        nodes: vec![],
        sites: vec![],
        edges: vec![],
        evidence: vec![],
        diagnostics: vec![],
        file_coverage: vec![],
        adapter_logs: vec![],
        coverage: CoverageRecord::default(),
        profile_matrix: ProfileMatrixRecord::default(),
    }
}

// -----------------------------------------------------------------------------------------
// The refresh of a profile matrix
// -----------------------------------------------------------------------------------------

fn stable_id(prefix: &str, document: &Json) -> String {
    format!("{prefix}:sha256:{}", hex(Sha256::digest(format!("{document:?}").as_bytes()).as_slice()))
}

fn derived_inputs(profiles: &[ProfileRecord]) -> Vec<String> {
    profiles.iter().map(|profile| stable_id("effective-input", &effective_input_document(&profile.id))).collect()
}

/// The conditions of a list in ascending order.
fn canonical(condition: &Json) -> Json {
    let mut condition = condition.clone();
    if let Json::Object(fields) = &mut condition {
        for (_, value) in fields.iter_mut() {
            if let Json::Array(items) = value {
                items.sort_by_key(|item| format!("{item:?}"));
            }
        }
    }
    condition
}

fn union_of(conditions: &[Json]) -> Json {
    let canonical = conditions
        .iter()
        .map(|condition| {
            let condition = canonical(condition);
            WrittenJson { text: format!("{condition:?}"), value: condition }
        })
        .collect();
    match condition_union(canonical) {
        ConditionUnion::Always => object(vec![("op", text("true"))]),
        ConditionUnion::One(condition) => condition,
        ConditionUnion::Any(conditions) => {
            object(vec![("op", text("any")), ("conditions", Json::Array(conditions))])
        }
    }
}

fn refresh(snapshot: &mut GraphSnapshot, canonicalize_diagnostics: bool) {
    let mark = begin_matrix_refresh(snapshot);
    let inputs = effective_inputs(&snapshot.profiles, &derived_inputs(&snapshot.profiles));
    let entry_ids: Vec<String> =
        inputs.iter().map(|input| stable_id("effective-profile", &effective_profile_document(input))).collect();
    let axis_diagnostic_ids = axis_conflicts(&snapshot.profiles)
        .iter()
        .map(|conflict| match conflict {
            Some(conflict) => stable_id(
                "diagnostic",
                &axis_conflict_document(&conflict.profile_id, &conflict.parent_profile_id, &conflict.fields),
            ),
            None => String::new(),
        })
        .collect();
    let correlation_keys = correlated_sites(&snapshot.profiles, &snapshot.sites, &snapshot.evidence)
        .iter()
        .map(|correlated| {
            let site = &snapshot.sites[correlated.site];
            stable_id(
                "profile-correlation",
                &correlation_document(
                    &entry_ids[correlated.profile],
                    &site.source,
                    &site.kind,
                    site.specifier.as_deref().unwrap_or_default(),
                ),
            )
        })
        .collect();
    let ids = MatrixIds { inputs, entry_ids, axis_diagnostic_ids, correlation_keys };
    let draft =
        draft_profile_matrix(&snapshot.profiles, &snapshot.sites, &snapshot.edges, &snapshot.evidence, &ids);
    let correlations = draft
        .correlations
        .into_iter()
        .map(|draft| {
            let unions: Vec<Json> = draft.conditions.iter().map(|(_, conditions)| union_of(conditions)).collect();
            let union = union_of(&unions);
            let diagnostic_id = stable_id("diagnostic", &correlation_conflict_document(&draft.id));
            finish_correlation(draft, unions, union, diagnostic_id)
        })
        .collect::<Vec<_>>();
    let unions = draft.entries.iter().map(|entry| union_of(&entry_conditions(entry, &correlations))).collect();
    let matrix = finish_profile_matrix(draft.entries, unions, correlations, draft.phase_coverage);
    attach_profile_matrix(snapshot, matrix, mark, canonicalize_diagnostics);
}

#[test]
fn base_refresh_preserves_diagnostic_emission_order_and_ordinals() {
    let diagnostic = |ordinal, id: &str| DiagnosticRecord {
        ordinal,
        id: id.to_owned(),
        severity: "warning".to_owned(),
        code: "FIXTURE".to_owned(),
        message: id.to_owned(),
        path: None,
        adapter: None,
        start_line: None,
        start_column: None,
        end_line: None,
        end_column: None,
        properties: object(vec![]),
    };
    let mut snapshot = empty_snapshot();
    snapshot.diagnostics = vec![diagnostic(4, "diagnostic:z"), diagnostic(9, "diagnostic:a")];
    let listed = |snapshot: &GraphSnapshot| {
        snapshot.diagnostics.iter().map(|item| (item.id.clone(), item.ordinal)).collect::<Vec<_>>()
    };
    refresh(&mut snapshot, false);
    assert_eq!(listed(&snapshot), [("diagnostic:z".to_owned(), 4), ("diagnostic:a".to_owned(), 9)]);
    refresh(&mut snapshot, true);
    assert_eq!(listed(&snapshot), [("diagnostic:a".to_owned(), 0), ("diagnostic:z".to_owned(), 1)]);
}

#[test]
fn the_union_of_conditions_holds_each_once() {
    let condition = |text: &str| WrittenJson { text: text.to_owned(), value: Json::Text(text.to_owned()) };
    assert!(matches!(condition_union(vec![]), ConditionUnion::Always));
    match condition_union(vec![condition("a"), condition("a")]) {
        ConditionUnion::One(one) => assert_eq!(one, text("a")),
        other => panic!("{other:?}"),
    }
    match condition_union(vec![condition("b"), condition("a"), condition("b")]) {
        ConditionUnion::Any(list) => assert_eq!(list, vec![text("a"), text("b")]),
        other => panic!("{other:?}"),
    }
}

#[test]
fn identity_documents_hold_what_an_identity_is_of() {
    assert_eq!(
        effective_input_document("p"),
        object(vec![("root_profile_id", text("p")), ("schema_version", text("profile-matrix-v1"))]),
    );
    assert_eq!(
        runtime_import_document("parent", "session", &owned(&["a", "b"])),
        object(vec![
            ("parent_snapshot_id", text("parent")),
            ("runtime_session_ids", Json::Array(vec![text("a"), text("b")])),
            ("session_id", text("session")),
        ]),
    );
    assert_eq!(
        runtime_session_document("source", "digest"),
        object(vec![("source_session_id", text("source")), ("trace_digest", text("digest"))]),
    );
}

// -----------------------------------------------------------------------------------------
// Builds
// -----------------------------------------------------------------------------------------

fn audit(run_id: &str) -> Json {
    object(vec![
        ("schema_version", text("1.0")),
        ("run_id", text(run_id)),
        ("adapter", text("build-observer")),
        ("adapter_version", text("0.1.0")),
        ("profile_id", text("web:build")),
        ("command_plan_digest", text(&"a".repeat(64))),
        ("toolchain_executable_digest", text(&"b".repeat(64))),
        ("environment_key_set_digest", text(&"c".repeat(64))),
        ("validated_output_digest", text(&"d".repeat(64))),
        ("outcome", text("completed")),
        ("started_at", text("2026-07-22T00:00:00.000Z")),
        ("finished_at", text("2026-07-22T00:00:01.000Z")),
        ("environment_keys", Json::Array(vec![text("CI"), text("PATH")])),
    ])
}

#[test]
fn build_audit_round_trips_without_secret_environment_keys() {
    let safe = object(vec![
        ("run_id", text("build-1")),
        ("outcome", text("completed")),
        ("started_at", text("2026-07-22T00:00:00.000Z")),
        ("finished_at", text("2026-07-22T00:00:01.000Z")),
        ("environment_keys", Json::Array(vec![text("CI"), text("PATH")])),
        ("redacted_secret_key_count", Json::Unsigned(1)),
    ]);
    assert_eq!(check_build_audit(&safe), Ok(()));
    let secret = object(vec![
        ("run_id", text("build-2")),
        ("outcome", text("failed")),
        ("started_at", text("2026-07-22T00:00:00.000Z")),
        ("finished_at", text("2026-07-22T00:00:01.000Z")),
        ("environment_keys", Json::Array(vec![text("API_TOKEN")])),
    ]);
    assert_eq!(check_build_audit(&secret), Err(BuildError::EnvironmentKeySecret));
}

#[test]
fn audits_are_refused_where_they_lack_what_they_need() {
    assert_eq!(check_build_audit(&Json::Null), Err(BuildError::AuditNotObject));
    let mut audit = audit("build-1");
    assert_eq!(check_build_audit(&audit), Ok(()));
    set(&mut audit, "outcome", text("maybe"));
    assert_eq!(check_build_audit(&audit), Err(BuildError::AuditOutcomeInvalid));
    set(&mut audit, "run_id", text(" "));
    assert_eq!(check_build_audit(&audit), Err(BuildError::AuditRunIdBlank));
    set(&mut audit, "run_id", Json::Null);
    assert_eq!(check_build_audit(&audit), Err(BuildError::AuditFieldMissing { field: AuditField::RunId }));
    assert!(is_secret_like_key("my_password"));
    assert!(!is_secret_like_key("PATH"));
}

fn source_condition(mode: &str) -> Json {
    object(vec![
        ("op", text("all")),
        (
            "conditions",
            Json::Array(vec![
                object(vec![("op", text("eq")), ("key", text("mode")), ("value", text(mode))]),
                object(vec![("op", text("eq")), ("key", text("runtime")), ("value", text("server"))]),
            ]),
        ),
    ])
}

fn profile(id: &str) -> ProfileRecord {
    ProfileRecord {
        id: id.to_owned(),
        language: "typescript".to_owned(),
        toolchain: Some(text("typescript 7.0.2")),
        command: Some("scan".to_owned()),
        target: Some("server".to_owned()),
        features: vec![],
        environment: object(vec![("mode", text("production"))]),
        source_revision: Some("fixture".to_owned()),
        properties: object(vec![]),
        coverage: None,
    }
}

fn evidence(owner_type: &str, owner_id: &str, kind: &str, properties: Json) -> EvidenceRecord {
    EvidenceRecord {
        owner_type: owner_type.to_owned(),
        owner_id: owner_id.to_owned(),
        ordinal: 0,
        kind: kind.to_owned(),
        extractor: "fixture".to_owned(),
        extractor_version: "0.1.0".to_owned(),
        path: "src/index.ts".to_owned(),
        start_line: 1,
        start_column: 1,
        end_line: 1,
        end_column: 2,
        detail: None,
        properties,
    }
}

fn file_node(id: &str, locator: &str) -> NodeRecord {
    NodeRecord {
        id: id.to_owned(),
        kind: "file".to_owned(),
        locator: locator.to_owned(),
        display_name: locator.to_owned(),
        properties: object(vec![("language", text("typescript"))]),
    }
}

/// A scan of two files, the first of which imports the second.
fn base() -> GraphSnapshot {
    let mut snapshot = empty_snapshot();
    snapshot.profiles = vec![profile("web:production:server")];
    snapshot.nodes = vec![
        file_node("file:sha256:source", "src/index.ts"),
        file_node("file:sha256:target", "src/lib.ts"),
    ];
    snapshot.sites = vec![SiteRecord {
        id: "site:source".to_owned(),
        source: "file:sha256:source".to_owned(),
        kind: "import".to_owned(),
        specifier: Some("./lib".to_owned()),
        profile_id: "web:production:server".to_owned(),
        resolution_status: "resolved".to_owned(),
        precision: "exact".to_owned(),
        condition: source_condition("production"),
        target_ids: owned(&["file:sha256:target"]),
        reason: None,
    }];
    snapshot.edges = vec![EdgeRecord {
        id: "edge:source".to_owned(),
        site_id: Some("site:source".to_owned()),
        source: "file:sha256:source".to_owned(),
        target: "file:sha256:target".to_owned(),
        kind: "imports".to_owned(),
        phase: "source".to_owned(),
        environment: "server".to_owned(),
        profile_id: "web:production:server".to_owned(),
        resolution_status: "resolved".to_owned(),
        precision: "exact".to_owned(),
        condition: source_condition("production"),
        generated: false,
    }];
    snapshot.evidence = vec![
        evidence("edge", "edge:source", "source", object(vec![])),
        evidence("site", "site:source", "source", object(vec![])),
    ];
    snapshot.coverage = CoverageRecord {
        profiles: 1,
        dependency_sites: 1,
        resolved: 1,
        completeness: owned(&["syntax-complete"]),
        ..CoverageRecord::default()
    };
    refresh(&mut snapshot, false);
    snapshot
}

fn effective_input(snapshot: &GraphSnapshot) -> String {
    canonical_effective_input_id(&snapshot.profiles[0], &derived_inputs(&snapshot.profiles)[0])
}

fn observed(run_id: &str, conflicting_target: bool, mode: &str, effective_input_id: &str) -> ObservedBuild {
    let provenance = object(vec![
        ("build_run_id", text(run_id)),
        ("profile_id", text("web:build")),
        ("command_plan_digest", text(&"a".repeat(64))),
        ("toolchain_executable_digest", text(&"b".repeat(64))),
        ("environment_key_set_digest", text(&"c".repeat(64))),
        ("validated_output_digest", text(&"d".repeat(64))),
        ("logical_artifact_path", text("dist/output.json")),
        ("artifact_digest", text(&"e".repeat(64))),
    ]);
    let build_evidence = || {
        vec![ObservedEvidence {
            kind: "build".to_owned(),
            extractor: "build-observer".to_owned(),
            extractor_version: "0.1.0".to_owned(),
            path: None,
            start_line: None,
            start_column: None,
            end_line: None,
            end_column: None,
            detail: None,
            properties: provenance.clone(),
        }]
    };
    let target = if conflicting_target { "file:sha256:source" } else { "file:sha256:target" };
    let site_id = format!("site:build:{mode}");
    let coverage = CoverageRecord {
        profiles: 1,
        dependency_sites: 1,
        resolved: 1,
        project_code_executed: true,
        completeness: owned(&["build-observed"]),
        ..CoverageRecord::default()
    };
    let node = |id: &str, locator: &str| ObservedNode {
        id: id.to_owned(),
        kind: "file".to_owned(),
        locator: locator.to_owned(),
        display_name: Some(locator.to_owned()),
        properties: object(vec![("language", text("typescript"))]),
    };
    ObservedBuild {
        profiles: vec![ObservedProfile {
            id: "web:build".to_owned(),
            language: "typescript".to_owned(),
            toolchain: Some(text("typescript 7.0.2")),
            command: Some("scan".to_owned()),
            target: Some("server".to_owned()),
            features: vec![],
            environment: object(vec![("mode", text("production"))]),
            source_revision: Some("fixture".to_owned()),
            properties: object(vec![
                ("profile_contract", text("phase-parent-effective-v1")),
                ("profile_phase", text("build")),
                ("parent_profile_id", text("web:production:server")),
                ("effective_input_id", text(effective_input_id)),
            ]),
        }],
        nodes: vec![node("file:sha256:source", "src/index.ts"), node("file:sha256:target", "src/lib.ts")],
        sites: vec![ObservedSite {
            id: site_id.clone(),
            source: "file:sha256:source".to_owned(),
            kind: "import".to_owned(),
            specifier: "./lib".to_owned(),
            profile_id: "web:build".to_owned(),
            resolution_status: "resolved".to_owned(),
            precision: "observed".to_owned(),
            condition: source_condition(mode),
            target_ids: owned(&[target]),
            reason: None,
            evidence: build_evidence(),
        }],
        edges: vec![ObservedEdge {
            id: format!("edge:build:{target}:{mode}"),
            site_id: Some(site_id),
            source: "file:sha256:source".to_owned(),
            target: target.to_owned(),
            kind: "imports".to_owned(),
            phase: "build".to_owned(),
            environment: Some("server".to_owned()),
            profile_id: "web:build".to_owned(),
            resolution_status: "resolved".to_owned(),
            precision: "observed".to_owned(),
            condition: source_condition(mode),
            generated: true,
            evidence: build_evidence(),
        }],
        diagnostics: vec![ObservedDiagnostic {
            id: format!("diagnostic:build:{run_id}"),
            severity: "warning".to_owned(),
            code: "build-observed".to_owned(),
            message: "build observation retained".to_owned(),
            path: None,
            start_line: None,
            start_column: None,
            end_line: None,
            end_column: None,
            properties: object(vec![("private_payload", text("must-not-appear-in-doctor-summary"))]),
            evidence: vec![],
        }],
        profile_coverage: vec![ObservedProfileCoverage {
            profile_id: "web:build".to_owned(),
            coverage: coverage.clone(),
        }],
        coverage: vec![coverage],
    }
}

fn build_attempt(base_snapshot_id: &str) -> BuildAttemptRecord {
    BuildAttemptRecord { base_snapshot_id: Some(base_snapshot_id.to_owned()), ..attempt("run") }
}

fn attempt(run_id: &str) -> BuildAttemptRecord {
    let base = AttemptBase {
        saved_audit: Some(audit(run_id)),
        scan_status: Some("completed".to_owned()),
        requested_snapshot_id: None,
        safe_snapshot_id: Some("snapshot:base".to_owned()),
        requested_snapshot_is_valid: true,
        latest_snapshot_id: Some("snapshot:base".to_owned()),
    };
    start_build_attempt("scan-golden", &audit(run_id), &base).unwrap()
}

fn stage(snapshot: &GraphSnapshot, run_id: &str, build: &ObservedBuild) -> Result<BuildGraphDelta, BuildError> {
    save_build_delta(
        build,
        Some(&attempt(run_id)),
        Some("completed"),
        Some(snapshot),
        &derived_inputs(&snapshot.profiles),
    )
}

fn merge(snapshot: &mut GraphSnapshot, delta: BuildGraphDelta) {
    merge_build_delta(snapshot, delta);
    refresh(snapshot, true);
}

fn is_derived(diagnostic: &DiagnosticRecord) -> bool {
    match &diagnostic.properties {
        Json::Object(fields) => fields.iter().any(|(name, _value)| name == "profile_matrix_schema"),
        _ => false,
    }
}

/// The summary of a scan with the builds and the sessions over it, each build at its depth.
fn doctor_summary(
    base: &GraphSnapshot,
    builds: Vec<BuildGraphDelta>,
    sessions: Vec<RuntimeSessionDelta>,
) -> ScanAttemptSummaryRecord {
    let mut rows = SummaryRows {
        profiles: base
            .profiles
            .iter()
            .map(|profile| IdText { id: profile.id.clone(), text: profile.language.clone() })
            .collect(),
        sites: base
            .sites
            .iter()
            .map(|site| IdText { id: site.id.clone(), text: site.resolution_status.clone() })
            .collect(),
        packages: base
            .nodes
            .iter()
            .filter(|node| node.kind == "package_instance")
            .map(|node| node.id.clone())
            .collect(),
        diagnostics: base
            .diagnostics
            .iter()
            .filter(|diagnostic| !is_derived(diagnostic))
            .map(|diagnostic| DiagnosticCandidate {
                id: diagnostic.id.clone(),
                severity: diagnostic.severity.clone(),
                code: diagnostic.code.clone(),
                message: diagnostic.message.clone(),
                path: diagnostic.path.clone(),
                adapter: diagnostic.adapter.clone(),
                source_rank: 0,
                layer_depth: 0,
                ordinal: diagnostic.ordinal,
            })
            .collect(),
        build_coverages: vec![],
        session_coverages: vec![],
    };
    for (depth, delta) in builds.into_iter().enumerate() {
        add_build(&mut rows, depth as u64, delta);
    }
    for delta in sessions {
        add_session(&mut rows, delta);
    }
    scan_attempt_summary(base.scan.clone(), Some(base.coverage.clone()), rows, &base.file_coverage, vec![]).unwrap()
}

fn profiles_by_language(snapshot: &GraphSnapshot) -> Vec<(String, u64)> {
    let mut counts = BTreeMap::new();
    for profile in &snapshot.profiles {
        *counts.entry(profile.language.clone()).or_default() += 1;
    }
    counts.into_iter().collect()
}

#[test]
fn an_attempt_takes_its_provenance_from_the_audit() {
    let attempt = attempt("build-run-1");
    assert_eq!(attempt.id, "build-run-1");
    assert_eq!(attempt.base_scan_id, "scan-golden");
    assert_eq!(attempt.base_snapshot_id.as_deref(), Some("snapshot:base"));
    assert_eq!(attempt.observer, "build-observer");
    assert_eq!(attempt.profile_id, "web:build");
    assert_eq!(attempt.command_plan_digest, "a".repeat(64));
    assert_eq!(attempt.status, "staging");
    let refused = |change: &dyn Fn(&mut AttemptBase)| {
        let mut base = AttemptBase {
            saved_audit: Some(audit("build-run-1")),
            scan_status: Some("completed".to_owned()),
            requested_snapshot_id: None,
            safe_snapshot_id: Some("snapshot:base".to_owned()),
            requested_snapshot_is_valid: true,
            latest_snapshot_id: Some("snapshot:base".to_owned()),
        };
        change(&mut base);
        start_build_attempt("scan-golden", &audit("build-run-1"), &base).err().unwrap()
    };
    assert_eq!(refused(&|base| base.saved_audit = None), BuildError::AuditNotSaved);
    assert_eq!(refused(&|base| base.saved_audit = Some(audit("other"))), BuildError::AuditDiffers);
    assert_eq!(refused(&|base| base.scan_status = None), BuildError::BaseScanNotFound);
    assert_eq!(refused(&|base| base.scan_status = Some("failed".to_owned())), BuildError::BaseScanNotCompleted);
    let mut unsigned = audit("build-run-1");
    set(&mut unsigned, "command_plan_digest", text("short"));
    assert_eq!(
        depgraph_store::build_attempt::check_attempt_audit(&unsigned),
        Err(BuildError::DigestInvalid { field: AuditField::CommandPlanDigest }),
    );
}

#[test]
fn completed_build_delta_unions_layers_without_overwriting_base_and_failed_delta_is_discarded() {
    let base = base();
    let input = effective_input(&base);
    let delta = stage(&base, "build-run-1", &observed("build-run-1", false, "production", &input)).unwrap();
    let mut union = base.clone();
    merge(&mut union, delta.clone());
    assert_eq!(union.edges.len(), 2);
    assert!(union.scan.project_code_executed);
    let summary = doctor_summary(&base, vec![delta], vec![]);
    assert!(summary.scan.project_code_executed);
    assert_eq!(summary.coverage, union.coverage);
    assert_eq!(summary.profile_count, union.profiles.len() as u64);
    assert_eq!(summary.profiles_by_language, profiles_by_language(&union));
    let packages = union.nodes.iter().filter(|node| node.kind == "package_instance").count();
    assert_eq!(summary.package_instance_count, packages as u64);
    assert_eq!(summary.diagnostics.total, union.diagnostics.len() as u64);
    assert!(summary.diagnostics.groups.iter().any(|group| group.code == "build-observed" && group.count == 1));
    assert!(!format!("{summary:?}").contains("must-not-appear-in-doctor-summary"));
    let phases: BTreeSet<&str> = union.edges.iter().map(|edge| edge.phase.as_str()).collect();
    assert_eq!(phases, BTreeSet::from(["build", "source"]));
    assert_eq!(union.nodes, base.nodes, "base node identity must be reused");
    assert!(union.coverage.completeness.contains(&"build-observed".to_owned()));
    assert_eq!(union.profile_matrix.entries.len(), 1);
    let entry = &union.profile_matrix.entries[0];
    assert_eq!(entry.profile_ids, ["web:build", "web:production:server"]);
    assert_eq!(entry.parent_profile_ids, ["web:production:server"]);
    assert_eq!(entry.phases, ["build", "static"]);
    assert_eq!(entry.selection_reasons, ["direct-effective-input", "parent-effective-input"]);
    let coverage = |phase: &str| {
        let found = entry.phase_coverage.iter().find(|(name, _)| name == phase).unwrap();
        (found.1.sites, found.1.edges)
    };
    assert_eq!(coverage("static"), (1, 1));
    assert_eq!(coverage("build"), (1, 1));
    assert_eq!(union.profile_matrix.correlations.len(), 1);
    let correlation = &union.profile_matrix.correlations[0];
    assert_eq!(correlation.status, "matched");
    assert!(correlation.difference_reasons.is_empty());
    assert_eq!(correlation.conditions_by_phase.len(), 2);
    assert_eq!(correlation.conditions_by_phase[0].1, correlation.conditions_by_phase[1].1);
    assert_eq!(correlation.condition_union, correlation.conditions_by_phase[1].1);
    let count = |status: &str| {
        union.profile_matrix.difference_counts.iter().find(|(name, _)| name == status).unwrap().1
    };
    assert_eq!(count("matched"), 1);
    assert_eq!(count("conflict"), 0);
    assert!(correlation_for_edge(&union.profile_matrix, "edge:source").is_some());
    assert!(correlation_for_site(&union.profile_matrix, "site:source").is_some());
    assert!(correlation_for_site(&union.profile_matrix, "site:none").is_none());
    assert_eq!(phase_coverage_for_effective_profile(&union.profile_matrix, &entry.id).len(), 2);
    assert!(phase_coverage_for_effective_profile(&union.profile_matrix, "none").is_empty());

    assert!(
        stage(&union, "build-run-2", &observed("build-run-2", true, "production", &input)).is_err(),
        "a conflicting later build layer must fail before staging",
    );
    let discarded = AttemptState {
        status: "staging".to_owned(),
        has_delta: false,
        audit_outcome: "completed".to_owned(),
    };
    assert_eq!(check_attempt_end("security_failed", false, Some(&discarded)), Ok(()));
}

#[test]
fn build_target_conflict_keeps_both_layers_and_emits_provenance_diagnostic() {
    let mut snapshot = base();
    let run_id = "build-run-conflict";
    let build = observed(run_id, true, "production", &effective_input(&snapshot));
    let delta = stage(&snapshot, run_id, &build).unwrap();
    merge(&mut snapshot, delta);
    assert_eq!(snapshot.edges.len(), 2);
    let conflict = snapshot
        .diagnostics
        .iter()
        .find(|diagnostic| diagnostic.code == "BUILD_EVIDENCE_CONFLICT")
        .expect("conflict diagnostic");
    assert_eq!(conflict.properties.get_str("build_run_id"), Some("build-run-conflict"));
    assert_eq!(conflict.properties.get_str("profile_matrix_schema"), Some("profile-matrix-v1"));
    let correlation = snapshot
        .profile_matrix
        .correlations
        .iter()
        .find(|correlation| correlation.status == "conflict")
        .expect("conflicting correlation");
    assert_eq!(correlation.difference_reasons, ["target_mismatch"]);
    assert_eq!(
        correlation.targets_by_phase,
        [
            ("build".to_owned(), owned(&["file:sha256:source"])),
            ("static".to_owned(), owned(&["file:sha256:target"])),
        ],
    );
    let kinds: BTreeSet<&str> = snapshot
        .evidence
        .iter()
        .filter(|evidence| evidence.owner_type == "diagnostic" && evidence.owner_id == conflict.id)
        .map(|evidence| evidence.kind.as_str())
        .collect();
    assert_eq!(kinds, BTreeSet::from(["build", "source"]));
}

#[test]
fn refreshing_the_view_again_changes_nothing() {
    let mut snapshot = base();
    let run_id = "build-run-conflict";
    let build = observed(run_id, true, "production", &effective_input(&snapshot));
    let delta = stage(&snapshot, run_id, &build).unwrap();
    merge(&mut snapshot, delta);
    refresh(&mut snapshot, true);
    assert!(snapshot.diagnostics.iter().any(is_derived));
    let once = snapshot.clone();
    refresh(&mut snapshot, true);
    assert_eq!(snapshot, once);
}

#[test]
fn build_condition_conflict_preserves_both_conditions_and_evidence() {
    let mut snapshot = base();
    let run_id = "build-run-condition-conflict";
    let build = observed(run_id, false, "development", &effective_input(&snapshot));
    let delta = stage(&snapshot, run_id, &build).unwrap();
    merge(&mut snapshot, delta);
    let correlation = snapshot
        .profile_matrix
        .correlations
        .iter()
        .find(|correlation| correlation.status == "conflict")
        .expect("condition conflict correlation");
    assert_eq!(correlation.difference_reasons, ["condition_mismatch"]);
    assert_ne!(correlation.conditions_by_phase[0].1, correlation.conditions_by_phase[1].1);
    assert_eq!(correlation.condition_union.get_str("op"), Some("any"));
    let diagnostic_id = correlation.diagnostic_id.as_deref().expect("condition conflict diagnostic");
    let kinds: BTreeSet<&str> = snapshot
        .evidence
        .iter()
        .filter(|evidence| evidence.owner_type == "diagnostic" && evidence.owner_id == diagnostic_id)
        .map(|evidence| evidence.kind.as_str())
        .collect();
    assert_eq!(kinds, BTreeSet::from(["build", "source"]));
}

#[test]
fn repeated_build_of_same_effective_input_keeps_profile_and_graph_identity() {
    let mut snapshot = base();
    let input = effective_input(&snapshot);
    let mut first: Option<Vec<Vec<String>>> = None;
    for run_id in ["build-run-repeat-1", "build-run-repeat-2"] {
        let delta = stage(&snapshot, run_id, &observed(run_id, false, "production", &input)).unwrap();
        merge(&mut snapshot, delta);
        let identity = vec![
            snapshot.profiles.iter().map(|item| item.id.clone()).collect(),
            snapshot.nodes.iter().map(|item| item.id.clone()).collect(),
            snapshot.sites.iter().map(|item| item.id.clone()).collect(),
            snapshot.edges.iter().map(|item| item.id.clone()).collect(),
            snapshot.profile_matrix.entries.iter().map(|item| item.id.clone()).collect(),
            snapshot.profile_matrix.correlations.iter().map(|item| item.id.clone()).collect(),
        ];
        match &first {
            Some(first) => assert_eq!(&identity, first),
            None => first = Some(identity),
        }
    }
}

#[test]
fn build_delta_rejects_forged_effective_input_identity() {
    let snapshot = base();
    let canonical = effective_input(&snapshot);
    let forged = format!("effective-input:sha256:{}", "f".repeat(64));
    let mut root = snapshot.profiles[0].clone();
    set(&mut root.properties, "effective_input_id", text(&forged));
    assert_eq!(
        canonical_effective_input_id(&root, &derived_inputs(&snapshot.profiles)[0]),
        canonical,
        "a root profile cannot self-declare a different effective identity",
    );
    let run_id = "build-run-forged-effective-input";
    let build = observed(run_id, false, "production", &forged);
    assert_eq!(stage(&snapshot, run_id, &build).err(), Some(BuildError::ProfileContract));
}

#[test]
fn a_build_without_final_coverage_or_provenance_is_refused() {
    let snapshot = base();
    let input = effective_input(&snapshot);
    let mut build = observed("build-run-1", false, "production", &input);
    build.coverage.clear();
    assert_eq!(stage(&snapshot, "build-run-1", &build).err(), Some(BuildError::NoFinalCoverage));
    let build = observed("other-run", false, "production", &input);
    assert!(matches!(
        stage(&snapshot, "build-run-1", &build).err(),
        Some(BuildError::EvidenceProperty { .. }) | Some(BuildError::EvidenceProducer { .. })
    ));
    let build = observed("build-run-1", false, "production", &input);
    let refused = |attempt: Option<&BuildAttemptRecord>, outcome: Option<&str>| {
        save_build_delta(&build, attempt, outcome, None, &vec![]).err()
    };
    let staging = attempt("build-run-1");
    assert_eq!(refused(None, Some("completed")), Some(BuildError::AttemptNotFound));
    assert_eq!(refused(Some(&staging), None), Some(BuildError::AuditMissing));
    assert_eq!(refused(Some(&staging), Some("failed")), Some(BuildError::AttemptNotCompleted));
    assert_eq!(refused(Some(&staging), Some("completed")), Some(BuildError::BaseSnapshotInvalid));
    let ended = BuildAttemptRecord { status: "completed".to_owned(), ..staging };
    assert_eq!(refused(Some(&ended), Some("completed")), Some(BuildError::AttemptImmutable));
}

#[test]
fn an_attempt_ends_as_its_audit_did() {
    let state = |status: &str, has_delta: bool, outcome: &str| AttemptState {
        status: status.to_owned(),
        has_delta,
        audit_outcome: outcome.to_owned(),
    };
    assert_eq!(check_attempt_end("completed", true, Some(&state("staging", true, "completed"))), Ok(()));
    assert_eq!(
        check_attempt_end("completed", true, Some(&state("staging", false, "completed"))),
        Err(BuildError::DeltaMissing),
    );
    assert_eq!(check_attempt_end("failed", true, None), Err(BuildError::PromotionNotCompleted));
    assert_eq!(check_attempt_end("odd", false, None), Err(BuildError::StatusInvalid));
    assert_eq!(check_attempt_end("failed", false, None), Err(BuildError::AttemptNotFound));
    assert_eq!(
        check_attempt_end("failed", false, Some(&state("completed", false, "failed"))),
        Err(BuildError::AttemptImmutable),
    );
    let mut latest = CompletedSnapshotRecord {
        id: "snapshot:runtime".to_owned(),
        source_kind: "runtime".to_owned(),
        source_attempt_id: "import".to_owned(),
        scan_id: "scan".to_owned(),
        build_attempt_id: None,
        runtime_import_id: Some("import".to_owned()),
        runtime_session_ids: owned(&["session"]),
        parent_snapshot_id: Some("snapshot:base".to_owned()),
        source_revision: Some("r".to_owned()),
        profile_ids: vec![],
        status: "completed".to_owned(),
        created_at: "now".to_owned(),
    };
    let base = CompletedSnapshotRecord {
        id: "snapshot:base".to_owned(),
        source_revision: Some("b".to_owned()),
        runtime_session_ids: vec![],
        ..latest.clone()
    };
    let attempt = build_attempt("snapshot:base");
    let finish = |latest: Option<&CompletedSnapshotRecord>, base: Option<&CompletedSnapshotRecord>| {
        finished_build_source(&attempt, latest, base, "later".to_owned())
    };
    let over = finish(Some(&latest), None).unwrap();
    assert_eq!(over.source_kind, "build");
    assert_eq!(over.parent_snapshot_id.as_deref(), Some("snapshot:runtime"));
    assert_eq!(over.source_revision.as_deref(), Some("r"));
    assert_eq!(over.runtime_session_ids, ["session"]);
    assert_eq!(over.build_attempt_id.as_deref(), Some(attempt.id.as_str()));
    assert_eq!(over.created_at, "later");
    latest.runtime_session_ids.clear();
    let over = finish(Some(&latest), Some(&base)).unwrap();
    assert_eq!(over.parent_snapshot_id.as_deref(), Some("snapshot:base"));
    assert_eq!(over.source_revision.as_deref(), Some("b"));
    assert!(over.runtime_session_ids.is_empty());
    assert_eq!(finish(Some(&latest), None).err(), Some(BuildError::BaseSnapshotMissing));
    assert_eq!(finish(None, Some(&base)).err(), Some(BuildError::BaseScanWithoutSnapshot));
    let mut rootless = build_attempt("snapshot:base");
    rootless.base_snapshot_id = None;
    assert_eq!(
        finished_build_source(&rootless, Some(&latest), Some(&base), "later".to_owned()).err(),
        Some(BuildError::BaseSnapshotMissing),
    );
}

#[test]
fn profiles_differ_from_their_parents_in_the_axes_that_both_have() {
    let parent = profile("parent");
    let mut child = profile("child");
    assert!(profile_axis_differences(&child, &parent).is_empty());
    child.target = Some("client".to_owned());
    assert_eq!(profile_axis_differences(&child, &parent), ["target"]);
}

// -----------------------------------------------------------------------------------------
// Layers
// -----------------------------------------------------------------------------------------

#[test]
fn completed_topology_matches_the_full_scan_snapshot() {
    let snapshot = base();
    let topology = topology_from_snapshot(snapshot.clone());
    let nodes: Vec<GraphTopologyNode> =
        snapshot.nodes.iter().map(|node| GraphTopologyNode { id: node.id.clone(), kind: node.kind.clone() }).collect();
    let edges: Vec<GraphTopologyEdge> = snapshot
        .edges
        .iter()
        .map(|edge| GraphTopologyEdge { source: edge.source.clone(), target: edge.target.clone() })
        .collect();
    assert_eq!(topology.nodes, nodes);
    assert_eq!(topology.edges, edges);
}

#[test]
fn an_overlay_restates_one_node() {
    let mut snapshot = base();
    let mut overlay = empty_snapshot();
    let mut node = snapshot.nodes[0].clone();
    node.properties = object(vec![("language", text("tsx"))]);
    overlay.nodes = vec![node];
    overlay.scan.id = "overlay".to_owned();
    apply_semantic_noop_overlay(&mut snapshot, overlay.clone()).unwrap();
    assert_eq!(snapshot.nodes[0].properties.get_str("language"), Some("tsx"));
    assert_eq!(snapshot.nodes.len(), 2);
    let mut renamed = overlay.clone();
    renamed.nodes[0].locator = "elsewhere".to_owned();
    assert_eq!(
        apply_semantic_noop_overlay(&mut snapshot, renamed).err(),
        Some(LayerError::OverlayChangesIdentity),
    );
    let mut unknown = overlay.clone();
    unknown.nodes[0].id = "file:new".to_owned();
    assert_eq!(apply_semantic_noop_overlay(&mut snapshot, unknown).err(), Some(LayerError::OverlayUnknownNode));
    overlay.nodes.clear();
    assert_eq!(apply_semantic_noop_overlay(&mut snapshot, overlay).err(), Some(LayerError::OverlayNotOneNode));
}

// -----------------------------------------------------------------------------------------
// Runtime sessions
// -----------------------------------------------------------------------------------------

fn always() -> Json {
    object(vec![("op", text("true"))])
}

fn node(id: &str, kind: &str, locator: &str, name: &str, properties: Json) -> NodeRecord {
    NodeRecord {
        id: id.to_owned(),
        kind: kind.to_owned(),
        locator: locator.to_owned(),
        display_name: name.to_owned(),
        properties,
    }
}

fn seeded() -> GraphSnapshot {
    let mut snapshot = empty_snapshot();
    snapshot.profiles = vec![ProfileRecord {
        id: "profile:base".to_owned(),
        language: "typescript".to_owned(),
        toolchain: None,
        command: None,
        target: Some("server".to_owned()),
        features: vec![],
        environment: object(vec![]),
        source_revision: Some("revision-1".to_owned()),
        properties: object(vec![]),
        coverage: None,
    }];
    snapshot.nodes = vec![
        node("file:source", "file", "file://src/source.ts", "source.ts", object(vec![("path", text("src/source.ts"))])),
        node("route:target", "route", "route:/target", "/target", object(vec![])),
        node(
            "workspace:fixture",
            "workspace",
            "workspace://repository:fixture",
            "fixture",
            object(vec![("repository_identity", text("repository:fixture"))]),
        ),
    ];
    snapshot.coverage = CoverageRecord {
        profiles: 1,
        completeness: owned(&["syntax-complete"]),
        ..CoverageRecord::default()
    };
    refresh(&mut snapshot, false);
    snapshot
}

fn runtime_evidence(owner_type: &str, owner_id: &str, properties: Json) -> EvidenceRecord {
    EvidenceRecord {
        owner_type: owner_type.to_owned(),
        owner_id: owner_id.to_owned(),
        ordinal: 0,
        kind: "runtime".to_owned(),
        extractor: "runtime-trace".to_owned(),
        extractor_version: "1.0".to_owned(),
        path: String::new(),
        start_line: 1,
        start_column: 1,
        end_line: 1,
        end_column: 1,
        detail: None,
        properties,
    }
}

fn valid_delta(base_snapshot_id: &str, base: &GraphSnapshot) -> RuntimeSessionDelta {
    let profile_id = "profile:runtime".to_owned();
    let session_id = "runtime-session:test".to_owned();
    let environment = object(vec![("name", text("test"))]);
    let properties = object(vec![
        ("session_id", text(&session_id)),
        ("source_session_id", text("collector-session")),
        ("environment", environment.clone()),
        ("count", Json::Unsigned(1)),
        ("first_observed_at", text("2026-07-23T00:00:01Z")),
        ("last_observed_at", text("2026-07-23T00:00:01Z")),
    ]);
    RuntimeSessionDelta {
        session: RuntimeSessionRecord {
            id: session_id,
            base_snapshot_id: base_snapshot_id.to_owned(),
            source_session_id: "collector-session".to_owned(),
            schema_version: "1.0".to_owned(),
            status: "completed".to_owned(),
            trace_digest: "runtime-trace:sha256:test".to_owned(),
            profile_id: profile_id.clone(),
            parent_profile_id: Some("profile:base".to_owned()),
            profile_status: "resolved".to_owned(),
            profile_reason: None,
            profile: ProfileRecord {
                id: profile_id.clone(),
                language: "typescript".to_owned(),
                toolchain: None,
                command: None,
                target: Some("server".to_owned()),
                features: vec![],
                environment: environment.clone(),
                source_revision: Some("revision-1".to_owned()),
                properties: object(vec![
                    ("profile_phase", text("runtime")),
                    ("parent_profile_id", text("profile:base")),
                    ("effective_input_id", text(&effective_input(base))),
                    ("profile_status", text("resolved")),
                    ("profile_reason", Json::Null),
                ]),
                coverage: None,
            },
            environment,
            redaction: object(vec![("redacted_value_count", Json::Unsigned(0))]),
            started_at: "2026-07-23T00:00:00Z".to_owned(),
            ended_at: Some("2026-07-23T00:00:02Z".to_owned()),
            first_observed_at: "2026-07-23T00:00:01Z".to_owned(),
            last_observed_at: "2026-07-23T00:00:01Z".to_owned(),
            event_count: 1,
            observation_count: 1,
            resolved_targets: 1,
            external_targets: 0,
            unresolved_targets: 0,
            redacted_values: 0,
            coverage: CoverageRecord {
                profiles: 1,
                dependency_sites: 1,
                resolved: 1,
                project_code_executed: true,
                completeness: owned(&["runtime-observed"]),
                ..CoverageRecord::default()
            },
            created_at: "2026-07-23T00:00:03Z".to_owned(),
        },
        nodes: vec![],
        sites: vec![SiteRecord {
            id: "site:runtime".to_owned(),
            source: "file:source".to_owned(),
            kind: "calls".to_owned(),
            specifier: Some("route:/target".to_owned()),
            profile_id: profile_id.clone(),
            resolution_status: "resolved".to_owned(),
            precision: "observed".to_owned(),
            condition: always(),
            target_ids: owned(&["route:target"]),
            reason: None,
        }],
        edges: vec![EdgeRecord {
            id: "edge:runtime".to_owned(),
            site_id: Some("site:runtime".to_owned()),
            source: "file:source".to_owned(),
            target: "route:target".to_owned(),
            kind: "calls".to_owned(),
            phase: "runtime".to_owned(),
            environment: "test".to_owned(),
            profile_id,
            resolution_status: "resolved".to_owned(),
            precision: "observed".to_owned(),
            condition: always(),
            generated: false,
        }],
        evidence: vec![
            runtime_evidence("site", "site:runtime", properties.clone()),
            runtime_evidence("edge", "edge:runtime", properties),
        ],
        diagnostics: vec![],
    }
}

#[test]
fn runtime_context_aggregates_sessions_and_time_range() {
    let edge = EdgeRecord {
        id: "edge:runtime".to_owned(),
        site_id: Some("site:runtime".to_owned()),
        source: "node:a".to_owned(),
        target: "node:b".to_owned(),
        kind: "calls".to_owned(),
        phase: "runtime".to_owned(),
        environment: "production".to_owned(),
        profile_id: "profile:runtime".to_owned(),
        resolution_status: "resolved".to_owned(),
        precision: "observed".to_owned(),
        condition: always(),
        generated: false,
    };
    let evidence = |session: &str, count: u64, first: &str, last: &str| {
        runtime_evidence(
            "edge",
            "edge:runtime",
            object(vec![
                ("session_id", text(session)),
                ("source_session_id", text(session)),
                ("environment", object(vec![("name", text("production")), ("runtime", text("node"))])),
                ("count", Json::Unsigned(count)),
                ("first_observed_at", text(first)),
                ("last_observed_at", text(last)),
            ]),
        )
    };
    let mut snapshot = empty_snapshot();
    snapshot.edges = vec![edge.clone()];
    snapshot.evidence = vec![
        evidence("session:b", 3, "2026-01-02T00:00:00Z", "2026-01-03T00:00:00Z"),
        evidence("session:a", 2, "2026-01-01T00:00:00Z", "2026-01-04T00:00:00Z"),
    ];
    let context = runtime_context_for_edge(&snapshot, &edge);
    assert_eq!(context.session_ids, ["session:a", "session:b"]);
    assert_eq!(context.observation_count, 5);
    assert_eq!(context.first_observed_at.as_deref(), Some("2026-01-01T00:00:00Z"));
    assert_eq!(context.last_observed_at.as_deref(), Some("2026-01-04T00:00:00Z"));
    assert_eq!(context.environment_names, ["production"]);
    assert_eq!(context.runtimes, ["node"]);
}

fn import(snapshot: &GraphSnapshot, deltas: Vec<RuntimeSessionDelta>) -> Result<GraphSnapshot, RuntimeError> {
    let ids = deltas.iter().map(|delta| delta.session.id.clone()).collect();
    let mut merged = merge_runtime_sessions(snapshot.clone(), &ids, deltas)?;
    refresh(&mut merged, true);
    Ok(merged)
}

#[test]
fn later_build_promotion_preserves_imported_runtime_sessions() {
    let base = seeded();
    let mut delta = valid_delta("snapshot:base", &base);
    delta.nodes.push(node(
        "runtime:build-layer",
        "runtime_target",
        "runtime://build-layer",
        "runtime build layer",
        object(vec![("runtime_only", Json::Bool(true))]),
    ));
    delta.diagnostics.push(DiagnosticRecord {
        ordinal: 0,
        id: "diagnostic:runtime".to_owned(),
        severity: "warning".to_owned(),
        code: "runtime-observed".to_owned(),
        message: "runtime observation retained".to_owned(),
        path: None,
        adapter: Some("runtime-trace".to_owned()),
        start_line: None,
        start_column: None,
        end_line: None,
        end_column: None,
        properties: object(vec![
            ("session_id", text("runtime-session:test")),
            ("private_payload", text("must-not-appear-in-doctor-summary")),
        ]),
    });
    assert_eq!(validate_runtime_union(&base, &derived_inputs(&base.profiles), &delta), Ok(()));
    let mut snapshot = import(&base, vec![delta.clone()]).unwrap();

    let imported = completed_snapshot("snapshot:runtime");
    let attempt = build_attempt("snapshot:runtime");
    let over = finished_build_source(&attempt, Some(&imported), None, "later".to_owned()).unwrap();
    assert_eq!(over.runtime_session_ids, ["runtime-session:test"]);
    assert_eq!(over.parent_snapshot_id.as_deref(), Some("snapshot:runtime"));
    let empty = BuildGraphDelta {
        profiles: vec![],
        nodes: vec![],
        sites: vec![],
        edges: vec![],
        evidence: vec![],
        diagnostics: vec![],
        coverage: CoverageRecord::default(),
    };
    merge(&mut snapshot, empty.clone());
    assert!(snapshot.edges.iter().any(|edge| edge.id == "edge:runtime"));
    assert!(snapshot.nodes.iter().any(|node| node.id == "runtime:build-layer"));
    assert!(snapshot.diagnostics.iter().any(|diagnostic| diagnostic.code == "runtime-observed"));
    let summary = doctor_summary(&base, vec![empty], vec![delta]);
    assert_eq!(summary.coverage, snapshot.coverage);
    assert_eq!(summary.profile_count, snapshot.profiles.len() as u64);
    assert_eq!(summary.profiles_by_language, profiles_by_language(&snapshot));
    let reported = snapshot.diagnostics.iter().filter(|diagnostic| !is_derived(diagnostic)).count();
    assert_eq!(summary.diagnostics.total, reported as u64);
    assert!(summary.diagnostics.groups.iter().any(|group| group.code == "runtime-observed" && group.count == 1));
    assert!(!format!("{summary:?}").contains("must-not-appear-in-doctor-summary"));
}

fn second(base_snapshot_id: &str, base: &GraphSnapshot) -> RuntimeSessionDelta {
    let mut second = valid_delta(base_snapshot_id, base);
    second.session.id = "runtime-session:test-2".to_owned();
    second.session.source_session_id = "collector-session-2".to_owned();
    second.session.trace_digest = "runtime-trace:sha256:test-2".to_owned();
    for evidence in &mut second.evidence {
        set(&mut evidence.properties, "session_id", text("runtime-session:test-2"));
        set(&mut evidence.properties, "source_session_id", text("collector-session-2"));
    }
    second
}

#[test]
fn multiple_sessions_keep_coverage_aligned_with_the_deduplicated_graph() {
    let base = seeded();
    let first = valid_delta("snapshot:base", &base);
    assert_eq!(validate_runtime_union(&base, &derived_inputs(&base.profiles), &first), Ok(()));
    let once = import(&base, vec![first]).unwrap();
    let later = second("snapshot:first", &base);
    assert_eq!(validate_runtime_union(&once, &derived_inputs(&once.profiles), &later), Ok(()));
    let snapshot = import(&once, vec![later]).unwrap();
    assert_eq!(snapshot.sites.len(), 1);
    assert_eq!(snapshot.coverage.dependency_sites, 1);
    assert_eq!(snapshot.coverage.resolved, 1);
    assert_eq!(snapshot.coverage.candidates, 0);
    assert_eq!(snapshot.coverage.external, 0);
    assert_eq!(snapshot.coverage.unresolved, 0);
    assert_eq!(
        snapshot
            .evidence
            .iter()
            .filter(|evidence| evidence.kind == "runtime")
            .count(),
        4,
    );
    let mut ordinals: Vec<(String, i64)> = snapshot
        .evidence
        .iter()
        .filter(|evidence| evidence.owner_type == "edge")
        .map(|evidence| (evidence.properties.get_str("session_id").unwrap().to_owned(), evidence.ordinal))
        .collect();
    ordinals.sort();
    assert_eq!(
        ordinals,
        [("runtime-session:test".to_owned(), 0), ("runtime-session:test-2".to_owned(), 1)],
    );
}

#[test]
fn sessions_are_merged_in_their_order_and_never_overwrite() {
    let base = seeded();
    let mut colliding = second("snapshot:base", &base);
    colliding.sites[0].resolution_status = "external".to_owned();
    let collision = import(&base, vec![valid_delta("snapshot:base", &base), colliding]);
    assert!(matches!(collision, Err(RuntimeError::Collision { session: 1, .. })));
    let disordered =
        import(&base, vec![second("snapshot:base", &base), valid_delta("snapshot:base", &base)]);
    assert_eq!(disordered.err(), Some(RuntimeError::SessionsNotCanonical));
    assert!(sessions_are_canonical(&owned(&["a", "b"])));
    assert!(!sessions_are_canonical(&owned(&["a", "a"])));
    let again = import(&import(&base, vec![valid_delta("s", &base)]).unwrap(), vec![valid_delta("s", &base)]);
    assert_eq!(again.unwrap().sites.len(), 1);
}

#[test]
fn sessions_are_checked_against_the_graph_that_they_observe() {
    let base = seeded();
    let derived = derived_inputs(&base.profiles);
    let refused = |change: &dyn Fn(&mut RuntimeSessionDelta)| {
        let mut delta = valid_delta("snapshot:base", &base);
        change(&mut delta);
        validate_runtime_union(&base, &derived, &delta).err().expect("the session is refused")
    };
    assert_eq!(refused(&|delta| delta.session.status = "odd".to_owned()), RuntimeError::SessionMetadata);
    assert_eq!(
        refused(&|delta| delta.session.parent_profile_id = Some("profile:none".to_owned())),
        RuntimeError::ParentMissing,
    );
    assert_eq!(
        refused(&|delta| delta.nodes.push(NodeRecord { kind: "route".to_owned(), ..base.nodes[0].clone() })),
        RuntimeError::NodeOverwrites { node: 0 },
    );
    assert_eq!(
        refused(&|delta| delta.nodes.push(file_node("file:new", "src/new.ts"))),
        RuntimeError::NodeNotSentinel { node: 0 },
    );
    assert_eq!(
        refused(&|delta| delta.sites[0].source = "file:none".to_owned()),
        RuntimeError::SiteUnauthorized { site: 0 },
    );
    assert_eq!(
        refused(&|delta| delta.edges[0].phase = "build".to_owned()),
        RuntimeError::EdgeUnauthorized { edge: 0 },
    );
    assert_eq!(
        refused(&|delta| delta.evidence[0].properties = Json::Null),
        RuntimeError::EvidenceNotObject { evidence: 0 },
    );
    assert_eq!(
        refused(&|delta| {
            delta.evidence.pop();
        }),
        RuntimeError::OwnerWithoutPrimaryEvidence,
    );
}

#[test]
fn numbers_are_compared_by_kind_and_by_value() {
    let zero = |sign: u64| object(vec![("list", Json::Array(vec![Json::Float(sign)]))]);
    assert_eq!(NEGATIVE_ZERO, (-0.0f64).to_bits());
    assert_eq!(Json::Float(0), Json::Float(NEGATIVE_ZERO));
    assert_eq!(zero(0), zero(NEGATIVE_ZERO));
    assert!(zero(0).same_value(&zero(NEGATIVE_ZERO)));
    assert!(!zero(0).same_text(&zero(NEGATIVE_ZERO)));
    assert!(zero(NEGATIVE_ZERO).same_text(&zero(NEGATIVE_ZERO)));
    assert!(same_opt_json(&Some(zero(0)), &Some(zero(NEGATIVE_ZERO))));
    assert!(!same_opt_json(&Some(zero(0)), &None));
    assert_ne!(Json::Float(1.5f64.to_bits()), Json::Float((-1.5f64).to_bits()));
    assert_ne!(Json::Float(0), Json::Unsigned(0));
    assert_ne!(Json::Negative(-1), Json::Negative(-2));
    assert_eq!(Json::Negative(-1), Json::Negative(-1));
}

#[test]
fn the_sign_of_a_zero_makes_no_conflict() {
    let weighed = |sign: u64| object(vec![("weight", Json::Float(sign))]);
    let mut base = seeded();
    base.nodes[1].properties = weighed(0);
    let derived = derived_inputs(&base.profiles);
    let mut delta = valid_delta("snapshot:base", &base);
    delta.nodes = vec![NodeRecord { properties: weighed(NEGATIVE_ZERO), ..base.nodes[1].clone() }];
    assert_eq!(validate_runtime_union(&base, &derived, &delta), Ok(()));
    let merged = import(&base, vec![delta.clone()]).unwrap();
    assert_eq!(merged.nodes.len(), base.nodes.len());
    assert!(merged.nodes.iter().any(|node| node.properties.same_text(&weighed(0))));

    let mut replayed = delta.clone();
    replayed.nodes[0].properties = weighed(0);
    assert!(is_same_trace(&delta, &replayed));
    replayed.nodes[0].properties = weighed(1.0f64.to_bits());
    assert!(!is_same_trace(&delta, &replayed));
    assert_eq!(
        validate_runtime_union(&base, &derived, &replayed),
        Err(RuntimeError::NodeOverwrites { node: 0 }),
    );

    let condition = |text: &str, sign: u64| WrittenJson { text: text.to_owned(), value: weighed(sign) };
    match condition_union(vec![condition("b", NEGATIVE_ZERO), condition("a", 0)]) {
        ConditionUnion::One(one) => assert!(one.same_text(&weighed(0))),
        other => panic!("{other:?}"),
    }
}

#[test]
fn observations_that_are_written_differently_are_both_kept() {
    let observed = |sign: u64| evidence("site", "site:1", "source", object(vec![("weight", Json::Float(sign))]));
    let mut kept = vec![];
    append_owned_evidence(&mut kept, vec![observed(0), observed(0), observed(NEGATIVE_ZERO)], "diagnostic:1");
    assert_eq!(kept.len(), 2);
    assert_eq!((kept[0].ordinal, kept[1].ordinal), (0, 1));
    assert_eq!(kept[1].owner_id, "diagnostic:1");
}

#[test]
fn a_normalized_session_is_ordered_and_numbered() {
    let base = seeded();
    let mut delta = valid_delta("snapshot:base", &base);
    delta.nodes = vec![
        node("runtime:b", "runtime_target", "runtime://b", "b", object(vec![])),
        node("runtime:a", "runtime_target", "runtime://a", "a", object(vec![])),
    ];
    let normalized = normalize_runtime_delta(delta.clone());
    let ids: Vec<&str> = normalized.nodes.iter().map(|node| node.id.as_str()).collect();
    assert_eq!(ids, ["runtime:a", "runtime:b"]);
    let mut later = delta.clone();
    later.session.created_at = "later".to_owned();
    assert!(is_same_trace(&delta, &later));
    later.session.trace_digest = "other".to_owned();
    assert!(!is_same_trace(&delta, &later));
}

fn import_row(status: &str, result: Option<&str>) -> RuntimeImportRow {
    RuntimeImportRow {
        id: "import".to_owned(),
        parent_snapshot_id: "snapshot:base".to_owned(),
        session_id: "runtime-session:test".to_owned(),
        status: status.to_owned(),
        result_snapshot_id: result.map(|result| result.to_owned()),
    }
}

fn owner(operation_id: &str) -> RuntimeImportOwnerRow {
    RuntimeImportOwnerRow { import_id: "import".to_owned(), operation_id: operation_id.to_owned() }
}

fn completed_snapshot(id: &str) -> CompletedSnapshotRecord {
    CompletedSnapshotRecord {
        id: id.to_owned(),
        source_kind: "runtime".to_owned(),
        source_attempt_id: "import".to_owned(),
        scan_id: "scan".to_owned(),
        build_attempt_id: None,
        runtime_import_id: Some("import".to_owned()),
        runtime_session_ids: owned(&["runtime-session:test"]),
        parent_snapshot_id: Some("snapshot:base".to_owned()),
        source_revision: None,
        profile_ids: vec![],
        status: "completed".to_owned(),
        created_at: "now".to_owned(),
    }
}

#[test]
fn operation_only_runtime_cleanup_is_idempotent_and_rejects_reserved_owners() {
    let operation_id = "op_00000000000000000000000000000003";
    let rows = vec![import_row("staging", None)];
    let owners = vec![owner(operation_id)];
    let cancellation =
        cancel_staged_runtime_session_import_for_operation(&rows, &owners, operation_id).unwrap().unwrap();
    assert_eq!(cancellation.import, 0);
    assert!(cancellation.delete_import);
    assert!(cancellation.delete_session);
    assert!(cancel_staged_runtime_session_import_for_operation(&vec![], &vec![], operation_id).unwrap().is_none());
    let sentinel = legacy_runtime_import_owner_id("import");
    assert_eq!(
        cancel_staged_runtime_session_import_for_operation(&rows, &owners, &sentinel).err(),
        Some(ImportError::ReservedOperation),
    );
}

#[test]
fn a_shared_import_outlives_the_cancellation_of_one_owner() {
    let rows = vec![import_row("staging", None)];
    let owners = vec![owner("op_1"), owner("op_2")];
    let cancellation =
        cancel_runtime_session_import_for_operation(&rows, &owners, "import", "op_1").unwrap().unwrap();
    assert!(!cancellation.delete_import);
    assert!(!cancellation.delete_session);
    let matching = cancel_matching_staged_runtime_session_import(
        &rows,
        &owned(&["trace"]),
        &vec![owner("op_1")],
        "snapshot:base",
        "runtime-session:test",
        "trace",
        "op_1",
    )
    .unwrap()
    .unwrap();
    assert!(matching.delete_import);
    assert!(cancel_matching_staged_runtime_session_import(
        &rows,
        &owned(&["trace"]),
        &vec![owner("op_1")],
        "snapshot:base",
        "runtime-session:test",
        "other",
        "op_1",
    )
    .is_err());
}

#[test]
fn an_import_is_completed_replayed_or_refused() {
    let base = seeded();
    let delta = valid_delta("snapshot:base", &base);
    assert_eq!(check_import_request(RuntimeImportMode::Immediate, None), Ok(()));
    assert_eq!(check_import_request(RuntimeImportMode::Deferred, Some("op_1")), Ok(()));
    assert!(check_import_request(RuntimeImportMode::Deferred, None).is_err());
    assert!(valid_runtime_import_operation_id("op_1"));
    assert!(!valid_runtime_import_operation_id(""));
    assert_eq!(sessions_with(&owned(&["b"]), "a"), ["a", "b"]);
    assert_eq!(sessions_with(&owned(&["b"]), "b"), ["b"]);

    let record = completed_snapshot("snapshot:base");
    let mut fresh = record.clone();
    fresh.runtime_session_ids.clear();
    assert_eq!(
        check_import_base(&delta.session, "snapshot:base", Some(&fresh), true, None),
        Ok(None),
    );
    assert_eq!(
        check_import_base(&delta.session, "snapshot:other", Some(&fresh), true, None),
        Err(ImportError::BaseMismatch),
    );
    assert_eq!(
        check_import_base(&delta.session, "snapshot:base", None, true, None),
        Err(ImportError::BaseMissing),
    );
    assert_eq!(
        check_import_base(&delta.session, "snapshot:base", Some(&fresh), false, None),
        Err(ImportError::BaseIntegrity),
    );
    let deduplicated =
        check_import_base(&delta.session, "snapshot:base", Some(&record), true, Some(&delta.session))
            .unwrap()
            .unwrap();
    assert!(deduplicated.result().deduplicated);
    assert_eq!(deduplicated.result().snapshot_id, "snapshot:base");

    let prepared = new_import(RuntimeImportMode::Deferred, "import", &delta.session, "snapshot:new");
    assert!(prepared.is_pending());
    assert_eq!(prepared.into_result().snapshot_id, "snapshot:new");

    let replay = |row: &RuntimeImportRow, stored: &RuntimeSessionDelta| {
        replay_import(
            RuntimeImportMode::Immediate,
            "import",
            "snapshot:base",
            &delta,
            row,
            stored,
            Some((&completed_snapshot("snapshot:new"), true)),
            "snapshot:new",
        )
    };
    match replay(&import_row("completed", Some("snapshot:new")), &delta) {
        Ok(ReplayStep::Completed { prepared }) => assert!(!prepared.is_pending()),
        other => panic!("{other:?}"),
    }
    assert!(matches!(replay(&import_row("staging", None), &delta), Ok(ReplayStep::Promote)));
    assert_eq!(
        replay(&import_row("completed", None), &delta).err(),
        Some(ImportError::CompletedWithoutResult),
    );
    assert_eq!(replay(&import_row("failed", None), &delta).err(), Some(ImportError::InvalidState));
    let other = second("snapshot:base", &base);
    assert_eq!(replay(&import_row("staging", None), &other).err(), Some(ImportError::ReplayMismatch));
    assert_eq!(session_storage(None, "t"), Ok(true));
    assert_eq!(session_storage(Some("t"), "t"), Ok(false));
    assert_eq!(session_storage(Some("u"), "t"), Err(ImportError::SessionCollision));
}

#[test]
fn deferred_recovery_completes_import_without_replacing_newer_current_snapshot() {
    let base = seeded();
    let delta = valid_delta("snapshot:base", &base);
    let row = import_row("staging", None);
    let step = promotion_step(
        &row,
        "runtime-session:test",
        "snapshot:staged",
        Some((&delta.session, "runtime-session:test")),
        None,
        Some("import"),
        None,
        true,
    );
    assert!(matches!(step, Ok(PromotionStep::Create)));
    assert_eq!(check_promoted("snapshot:staged", "snapshot:staged", 1), Ok(()));
    assert_eq!(check_promoted("snapshot:other", "snapshot:staged", 1), Err(ImportError::ProspectiveChanged));
    assert_eq!(check_promoted("snapshot:staged", "snapshot:staged", 0), Err(ImportError::TransitionNotApplied));
    assert!(!parent_is_current(Some("snapshot:newer"), "snapshot:base"));
    assert!(parent_is_current(Some("snapshot:base"), "snapshot:base"));
}

fn imported_snapshot(import_id: &str, delta: &RuntimeSessionDelta) -> CompletedSnapshotRecord {
    let mut base = completed_snapshot("snapshot:base");
    base.runtime_session_ids.clear();
    let session_ids = sessions_with(&base.runtime_session_ids, &delta.session.id);
    let source = import_snapshot_source(import_id, &base, session_ids, "now".to_owned());
    snapshot_record(&source, "snapshot:new", &vec![])
}

#[test]
fn a_session_in_another_order_is_the_import_that_was_completed() {
    let extra = |id: &str| node(id, "runtime_target", id, id, object(vec![]));
    let base = seeded();
    let mut first = valid_delta("snapshot:base", &base);
    first.nodes = vec![extra("runtime:b"), extra("runtime:a"), extra("runtime:c")];
    let mut second = first.clone();
    second.nodes.reverse();
    second.session.created_at = "later".to_owned();
    assert_ne!(second, first);
    let normal = normalize_runtime_delta(first);
    let again = normalize_runtime_delta(second);
    assert!(is_same_trace(&normal, &again));

    let outcome = new_import(RuntimeImportMode::Immediate, "import", &normal.session, "snapshot:new").into_result();
    assert!(!outcome.deduplicated);
    let row = new_import_row("import", "snapshot:base", &normal.session.id);
    let completed = completed_import_row(&row, "snapshot:new");
    let record = imported_snapshot("import", &normal);
    let step = replay_import(
        RuntimeImportMode::Immediate,
        "import",
        "snapshot:base",
        &again,
        &completed,
        &normal,
        Some((&record, true)),
        "",
    );
    match step {
        Ok(ReplayStep::Completed { prepared }) => {
            assert!(!prepared.is_pending());
            assert_eq!(prepared.into_result(), RuntimeImportResult { deduplicated: true, ..outcome });
        }
        other => panic!("{other:?}"),
    }
}

#[test]
fn promoting_again_gives_the_same_and_leaves_the_current_snapshot() {
    let base = seeded();
    let delta = normalize_runtime_delta(valid_delta("snapshot:base", &base));
    let session = delta.session.clone();
    let row = new_import_row("import", "snapshot:base", &session.id);
    let promote = |row: &RuntimeImportRow, found: Option<(&CompletedSnapshotRecord, bool)>| {
        promotion_step(
            row,
            &session.id,
            "snapshot:new",
            Some((&session, "runtime-session:test")),
            None,
            Some("import"),
            found,
            true,
        )
        .unwrap()
    };
    let step = promote(&row, None);
    assert_eq!(step, PromotionStep::Create);
    assert_eq!(moved_current(&step, Some("snapshot:base"), "snapshot:base", "snapshot:new"), Some("snapshot:new"));
    assert_eq!(moved_current(&step, Some("snapshot:newer"), "snapshot:base", "snapshot:new"), None);
    assert_eq!(moved_current(&step, None, "snapshot:base", "snapshot:new"), None);

    let outcome = new_import(RuntimeImportMode::Immediate, "import", &session, "snapshot:new").into_result();
    let completed = completed_import_row(&row, "snapshot:new");
    let record = imported_snapshot("import", &delta);
    let again = promote(&completed, Some((&record, true)));
    assert_eq!(moved_current(&again, Some("snapshot:base"), "snapshot:base", "snapshot:new"), None);
    assert_eq!(again, PromotionStep::Completed { result: outcome });
}

#[test]
fn a_recovery_is_owned_and_of_the_recorded_trace() {
    let base = seeded();
    let delta = valid_delta("snapshot:base", &base);
    let recovery = RuntimeImportRecoveryIdentity::new(
        "import",
        "runtime-session:test",
        "snapshot:staged",
        "snapshot:base",
        "runtime-trace:sha256:test",
        "completed",
        "op_1",
    );
    let row = import_row("staging", None);
    let check = |owners: Vec<RuntimeImportOwnerRow>| {
        check_recovery_transaction(
            &row,
            "runtime-session:test",
            &delta.session,
            "runtime-session:test",
            &recovery,
            &owners,
        )
    };
    assert_eq!(check(vec![owner("op_1")]), Ok(()));
    assert_eq!(check(vec![owner("op_2")]), Err(ImportError::RecoveryNotOwned));
    assert!(runtime_recovery_trace_matches("s", "x", "trace", Some("trace")));
    assert!(!runtime_recovery_trace_matches("s", "s", "trace", Some("other")));
    assert!(runtime_recovery_trace_matches("s", "s", "trace", None));
    assert!(!runtime_recovery_trace_matches("s", "x", "trace", None));
    assert_eq!(check_owner_attachment(Some(&row), "snapshot:base", "runtime-session:test", "op_1"), Ok(()));
    assert!(check_owner_attachment(None, "snapshot:base", "runtime-session:test", "op_1").is_err());
}

#[test]
fn v15_staging_migrates_with_a_reserved_owner_until_recovery_promotion() {
    let base = seeded();
    let delta = valid_delta("snapshot:base", &base);
    let staged = vec![LegacyImportRow { id: "import".to_owned(), created_at: "now".to_owned(), has_result: false }];
    let candidates = authenticate_legacy_runtime_import_candidates(staged).unwrap();
    let migrated = legacy_import_owner(candidates[0].clone());
    let sentinel = legacy_runtime_import_owner_id("import");
    assert_eq!(migrated.import_id, "import");
    assert_eq!(migrated.operation_id, sentinel);

    let rows = vec![import_row("staging", None)];
    let legacy = vec![owner(&sentinel)];
    assert!(
        cancel_runtime_session_import_for_operation(&rows, &legacy, "import", "op_pre_v16_owner_not_persisted")
            .unwrap()
            .is_none()
    );

    assert_eq!(
        check_owner_attachment(Some(&rows[0]), "snapshot:base", "runtime-session:test", "op_post_v16_owner"),
        Ok(()),
    );
    let attached = vec![owner(&sentinel), owner("op_post_v16_owner")];
    let cancellation =
        cancel_runtime_session_import_for_operation(&rows, &attached, "import", "op_post_v16_owner").unwrap().unwrap();
    assert!(!cancellation.delete_import);
    assert!(!cancellation.delete_session);

    assert_eq!(
        cancel_runtime_session_import_for_operation(&rows, &legacy, "import", &sentinel).err(),
        Some(ImportError::ReservedOperation),
    );
    assert_eq!(
        cancel_matching_staged_runtime_session_import(
            &rows,
            &vec![delta.session.trace_digest.clone()],
            &legacy,
            "snapshot:base",
            "runtime-session:test",
            &delta.session.trace_digest,
            &sentinel,
        )
        .err(),
        Some(ImportError::ReservedOperation),
    );
    assert_eq!(
        cancel_staged_runtime_session_import_for_operation(&rows, &legacy, &sentinel).err(),
        Some(ImportError::ReservedOperation),
    );
    assert_eq!(reject_reserved_runtime_import_operation_id(&sentinel), Err(ImportError::ReservedOperation));
    assert_eq!(reject_reserved_runtime_import_operation_id("op_pre_v16_recovery_intent"), Ok(()));

    let recovery = RuntimeImportRecoveryIdentity::new(
        "import",
        "runtime-session:test",
        "snapshot:staged",
        "snapshot:base",
        &delta.session.trace_digest,
        &delta.session.status,
        "op_pre_v16_recovery_intent",
    );
    assert_eq!(
        check_recovery_transaction(
            &rows[0],
            "runtime-session:test",
            &delta.session,
            "runtime-session:test",
            &recovery,
            &legacy,
        ),
        Ok(()),
    );
}

#[test]
fn a_snapshot_holds_the_profiles_that_it_names() {
    let snapshot = base();
    let mut record = completed_snapshot("snapshot:base");
    record.profile_ids = owned(&["web:production:server"]);
    assert_eq!(check_profile_set(&snapshot.profiles, &record), Ok(()));
    record.profile_ids.push("other".to_owned());
    assert_eq!(check_profile_set(&snapshot.profiles, &record), Err(LayerError::ProfileSetDiffers));
}

#[test]
fn imports_keep_what_their_base_holds() {
    let base = completed_snapshot("snapshot:base");
    let source = import_snapshot_source("import:1", &base, owned(&["s1", "s2"]), "now".to_owned());
    assert_eq!(source.source_kind, "runtime");
    assert_eq!(source.source_attempt_id, "import:1");
    assert_eq!(source.runtime_import_id.as_deref(), Some("import:1"));
    assert_eq!(source.scan_id, base.scan_id);
    assert_eq!(source.build_attempt_id, base.build_attempt_id);
    assert_eq!(source.parent_snapshot_id.as_deref(), Some("snapshot:base"));
    assert_eq!(source.source_revision, base.source_revision);
    assert_eq!(source.runtime_session_ids, ["s1", "s2"]);
    assert_eq!(source.created_at, "now");
}

#[test]
fn a_promoted_import_is_not_pending() {
    let result = RuntimeImportResult {
        import_id: "import:1".to_owned(),
        session_id: "session:1".to_owned(),
        snapshot_id: "snapshot:1".to_owned(),
        status: "completed".to_owned(),
        deduplicated: false,
    };
    let prepared = promoted_import(result.clone());
    assert!(!prepared.is_pending());
    assert_eq!(prepared.result(), &result);
    assert_eq!(check_owner_attached(1), Ok(()));
    assert_eq!(check_owner_attached(0), Err(ImportError::OwnerNotAttached));
    let identity = RuntimeImportRecoveryIdentity::from_validated_outcome("i", "s", "n", "p", "completed", "o");
    assert_eq!(identity.trace_digest, None);
    assert_eq!(identity.operation_id, "o");
}

fn placed(nodes: &[NodeRecord]) -> Vec<PlacedNode> {
    nodes
        .iter()
        .zip(0..)
        .map(|(node, order)| PlacedNode {
            order,
            node: NodeSummaryRecord {
                id: node.id.clone(),
                kind: node.kind.clone(),
                locator: node.locator.clone(),
                display_name: node.display_name.clone(),
            },
        })
        .collect()
}

fn layer(scan: &[NodeRecord], build: &[NodeRecord], sessions: &[&[NodeRecord]]) -> LayerNodes {
    LayerNodes {
        scan_nodes: placed(scan),
        build_nodes: placed(build),
        session_nodes: sessions
            .iter()
            .zip(0..)
            .map(|(nodes, order)| SessionNodes { order, nodes: placed(nodes) })
            .collect(),
    }
}

fn assert_node_page_matches_snapshot(layers: Vec<LayerNodes>, snapshot: &GraphSnapshot) {
    let expected: Vec<NodeSummaryRecord> = placed(&snapshot.nodes).into_iter().map(|placed| placed.node).collect();
    let page = find_completed_snapshot_nodes_page(
        node_candidates(layers),
        "",
        NodeTextMatch::Contains,
        &vec![],
        0,
        expected.len().max(1),
    )
    .unwrap();
    assert_eq!(page.total_items, expected.len() as u64);
    assert_eq!(page.items, expected);
}

#[test]
fn semantic_noop_over_runtime_includes_inherited_runtime_only_nodes_in_paged_projection() {
    let base = seeded();
    let mut delta = valid_delta("snapshot:base", &base);
    delta.nodes.push(node(
        "runtime:only",
        "runtime_target",
        "runtime://only",
        "runtime only",
        object(vec![("runtime_only", Json::Bool(true))]),
    ));
    let observed = delta.nodes.clone();
    let runtime = import(&base, vec![delta]).unwrap();
    let mut overlay = empty_snapshot();
    overlay.scan.id = "semantic-over-runtime".to_owned();
    overlay.nodes = runtime.nodes.iter().filter(|node| node.id == "file:source").cloned().collect();
    let mut semantic = runtime.clone();
    apply_semantic_noop_overlay(&mut semantic, overlay).unwrap();
    assert!(semantic.nodes.iter().any(|node| node.id == "runtime:only"));
    let layers = vec![layer(&[], &[], &[]), layer(&[], &[], &[&observed]), layer(&base.nodes, &[], &[])];
    assert_node_page_matches_snapshot(layers, &semantic);
}

#[test]
fn a_page_shows_the_first_of_each_node() {
    let scan = vec![file_node("a", "src/a.rs"), file_node("c", "src/c.rs")];
    let build = vec![file_node("b", "build/b.rs"), file_node("a", "build/a.rs"), file_node("b", "build/other.rs")];
    let mut snapshot = empty_snapshot();
    snapshot.nodes = scan.clone();
    let delta = BuildGraphDelta {
        profiles: vec![],
        nodes: build.clone(),
        sites: vec![],
        edges: vec![],
        evidence: vec![],
        diagnostics: vec![],
        coverage: CoverageRecord::default(),
    };
    merge_build_delta(&mut snapshot, delta);
    let shown: Vec<(&str, &str)> =
        snapshot.nodes.iter().map(|node| (node.id.as_str(), node.locator.as_str())).collect();
    assert_eq!(shown, [("a", "src/a.rs"), ("b", "build/b.rs"), ("c", "src/c.rs")]);
    assert_node_page_matches_snapshot(vec![layer(&[], &build, &[]), layer(&scan, &[], &[])], &snapshot);
}

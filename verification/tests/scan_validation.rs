use depgraph_store::ingest::{ingest_event, profile_record, EvidenceOwners, IngestError, IngestStep};
use depgraph_store::json::Json;
use depgraph_store::records::{CoverageRecord, FileCoverageRecord, ProfileRecord};
use depgraph_store::scan_validation::{
    validate_scan, CoverageField, EdgeValidationRecord, NodeRow, ProfileCoverageRow, ScanError, ScanRows,
    SiteValidationRecord,
};
use depgraph_store::snapshots::{check_finish_request, finish_scan_plan, ScanState, SnapshotError};

fn text(value: &str) -> Json {
    Json::Text(value.to_owned())
}

fn object(fields: Vec<(&str, Json)>) -> Json {
    Json::Object(fields.into_iter().map(|(name, value)| (name.to_owned(), value)).collect())
}

fn texts(values: &[&str]) -> Json {
    Json::Array(values.iter().map(|value| text(value)).collect())
}

fn common(event: &str, fields: Vec<(&str, Json)>) -> Json {
    let mut all = vec![
        ("event", text(event)),
        ("protocol_version", text("1.0")),
        ("scan_id", text("scan-1")),
        ("adapter", text("fixture")),
        ("adapter_version", text("0.1.0")),
        ("seq", Json::Unsigned(1)),
    ];
    all.extend(fields);
    object(all)
}

fn coverage_json(counts: [u64; 10], completeness: &[&str], reasons: &[&str]) -> Json {
    let names = [
        "profiles",
        "files_discovered",
        "files_analyzed",
        "files_skipped",
        "dependency_sites",
        "resolved",
        "candidates",
        "external",
        "unresolved",
        "unsupported_syntax",
    ];
    let mut fields: Vec<(&str, Json)> =
        names.iter().zip(counts).map(|(name, count)| (*name, Json::Unsigned(count))).collect();
    fields.push(("project_code_executed", Json::Bool(false)));
    fields.push(("completeness", texts(completeness)));
    fields.push(("reasons", texts(reasons)));
    object(fields)
}

fn list(value: &Json, name: &str) -> Vec<String> {
    match value.get(name) {
        Some(Json::Array(items)) => items.iter().map(|item| item.as_str().unwrap().to_owned()).collect(),
        _ => vec![],
    }
}

fn coverage_record(value: &Json) -> CoverageRecord {
    let count = |name: &str| value.get_unsigned(name).unwrap();
    CoverageRecord {
        profiles: count("profiles"),
        files_discovered: count("files_discovered"),
        files_analyzed: count("files_analyzed"),
        files_skipped: count("files_skipped"),
        dependency_sites: count("dependency_sites"),
        resolved: count("resolved"),
        candidates: count("candidates"),
        external: count("external"),
        unresolved: count("unresolved"),
        unsupported_syntax: count("unsupported_syntax"),
        project_code_executed: value.get_bool("project_code_executed").unwrap(),
        completeness: list(value, "completeness"),
        reasons: list(value, "reasons"),
    }
}

/// The rows of a scan, as events leave them.
struct Scan {
    rows: ScanRows,
    owners: EvidenceOwners,
    evidence: Vec<(String, String, i64, Option<String>)>,
    profiles: Vec<Json>,
    executed: bool,
    raw_sites: Vec<Vec<(String, Json)>>,
}

impl Scan {
    fn new() -> Scan {
        Scan {
            rows: ScanRows {
                nodes: vec![],
                sites: vec![],
                edges: vec![],
                coverage: None,
                profile_count: 0,
                profile_coverage: vec![],
                files: vec![],
            },
            owners: EvidenceOwners::new(),
            evidence: vec![],
            profiles: vec![],
            executed: false,
            raw_sites: vec![],
        }
    }

    fn ingest(&mut self, event: &Json, replace_existing: bool) -> Result<(), IngestError> {
        let step = ingest_event(event, "scan-1", 0, replace_existing, &mut self.owners)?;
        let write = match step {
            IngestStep::Nothing => None,
            IngestStep::MarkExecution { executed } => {
                self.executed = executed;
                None
            }
            IngestStep::Profile { row } => {
                self.profiles.push(row.profile);
                self.rows.profile_count = self.profiles.len() as u64;
                None
            }
            IngestStep::Node { row } => {
                self.rows.nodes.push(NodeRow { id: row.id, kind: row.kind });
                None
            }
            IngestStep::Site { row, evidence } => {
                let target_ids = match &row.target_ids {
                    Json::Array(items) => items.iter().map(|item| item.as_str().unwrap().to_owned()).collect(),
                    _ => vec![],
                };
                self.rows.sites.retain(|site| site.id != row.id);
                self.rows.sites.push(SiteValidationRecord {
                    id: row.id.clone(),
                    source: row.source,
                    profile_id: row.profile_id,
                    resolution_status: row.resolution_status,
                    precision: row.precision,
                    target_ids,
                });
                self.raw_sites.push(row.raw);
                Some(("site", row.id, evidence))
            }
            IngestStep::Edge { row, evidence } => {
                self.rows.edges.push(EdgeValidationRecord {
                    id: row.id.clone(),
                    site_id: row.site_id,
                    source: row.source,
                    target: row.target,
                    profile_id: row.profile_id,
                    resolution_status: row.resolution_status,
                    precision: row.precision,
                });
                Some(("edge", row.id, evidence))
            }
            IngestStep::Diagnostic { row, evidence } => Some(("diagnostic", row.id, evidence)),
            IngestStep::File { row } => {
                self.rows.files.push(row);
                None
            }
            IngestStep::ProfileCoverage { row } => {
                self.rows.profile_coverage.push(ProfileCoverageRow {
                    profile_id: row.profile_id,
                    coverage: coverage_record(&row.coverage),
                });
                None
            }
            IngestStep::Coverage { coverage } => {
                self.rows.coverage = Some(coverage_record(&coverage));
                None
            }
        };
        if let Some((owner_type, owner_id, evidence)) = write {
            if evidence.clear {
                self.evidence.retain(|row| !(row.0 == owner_type && row.1 == owner_id));
            }
            for row in evidence.rows {
                let detail = row.raw.get_str("detail").map(|detail| detail.to_owned());
                self.evidence.push((row.owner_type, row.owner_id, row.ordinal, detail));
            }
        }
        Ok(())
    }
}

fn node(id: &str) -> Json {
    let name = id.rsplit(':').next().unwrap();
    common(
        "node_upsert",
        vec![(
            "node",
            object(vec![
                ("id", text(id)),
                ("kind", text("file")),
                ("locator", text(&format!("file://{name}"))),
                ("display_name", text(name)),
                ("properties", object(vec![])),
            ]),
        )],
    )
}

fn always() -> Json {
    object(vec![("op", text("all")), ("conditions", Json::Array(vec![]))])
}

fn resolved_site() -> Json {
    common(
        "dependency_site",
        vec![(
            "site",
            object(vec![
                ("id", text("site:1")),
                ("source", text("file:a")),
                ("kind", text("imports")),
                ("specifier", text("./b")),
                ("profile_id", text("fixture:default")),
                ("resolution_status", text("resolved")),
                ("precision", text("exact")),
                ("condition", always()),
                ("target_ids", texts(&["file:b"])),
                ("evidence", Json::Array(vec![])),
            ]),
        )],
    )
}

fn resolved_edge() -> Json {
    common(
        "edge_upsert",
        vec![(
            "edge",
            object(vec![
                ("id", text("edge:1")),
                ("site_id", text("site:1")),
                ("source", text("file:a")),
                ("target", text("file:b")),
                ("kind", text("imports")),
                ("phase", text("source")),
                ("environment", text("any")),
                ("profile_id", text("fixture:default")),
                ("resolution_status", text("resolved")),
                ("precision", text("exact")),
                ("condition", always()),
                ("generated", Json::Bool(false)),
                ("evidence", Json::Array(vec![])),
            ]),
        )],
    )
}

fn resolved_scan() -> Scan {
    let mut scan = Scan::new();
    for event in [node("file:a"), node("file:b"), resolved_site(), resolved_edge()] {
        scan.ingest(&event, true).unwrap();
    }
    scan
}

fn scan_completed(coverage: Json) -> Json {
    common("scan_completed", vec![("coverage", coverage)])
}

#[test]
fn persists_and_validates_a_resolved_site() {
    let mut scan = resolved_scan();
    let coverage = coverage_json([0, 0, 0, 0, 1, 1, 0, 0, 0, 0], &["syntax-complete"], &[]);
    scan.ingest(&scan_completed(coverage), true).unwrap();
    assert_eq!(validate_scan(&scan.rows), Ok(()));
    assert_eq!(scan.rows.nodes.len(), 2);
    assert_eq!(scan.rows.sites.len(), 1);
    assert_eq!(scan.rows.edges.len(), 1);
}

#[test]
fn skipped_occurrence_does_not_require_an_artificial_graph_site() {
    let mut scan = resolved_scan();
    let file_completed = common(
        "file_completed",
        vec![
            ("path", text("a.ts")),
            ("discovered_sites", Json::Unsigned(2)),
            ("emitted_sites", Json::Unsigned(1)),
            ("skipped_sites", Json::Unsigned(1)),
            ("skipped", Json::Bool(true)),
            ("reason", text("one occurrence could not be emitted")),
        ],
    );
    scan.ingest(&file_completed, true).unwrap();
    let coverage =
        coverage_json([0, 1, 0, 1, 1, 1, 0, 0, 0, 1], &[], &["unsupported_syntax", "skipped_sites"]);
    scan.ingest(&scan_completed(coverage), true).unwrap();
    assert_eq!(validate_scan(&scan.rows), Ok(()));
    assert_eq!(scan.rows.sites.len(), 1);
    assert_eq!(
        scan.rows.files,
        vec![FileCoverageRecord {
            adapter: "fixture".to_owned(),
            path: "a.ts".to_owned(),
            discovered_sites: 2,
            emitted_sites: 1,
            skipped_sites: 1,
            skipped: true,
            reason: Some("one occurrence could not be emitted".to_owned()),
        }],
    );
}

fn declared(id: &str) -> Json {
    common(
        "profile_declared",
        vec![(
            "profile",
            object(vec![
                ("id", text(id)),
                ("language", text("fixture")),
                ("features", Json::Array(vec![])),
                ("environment", object(vec![])),
                ("properties", object(vec![])),
            ]),
        )],
    )
}

fn profile_completed(id: &str, coverage: Json) -> Json {
    common("profile_completed", vec![("profile_id", text(id)), ("coverage", coverage)])
}

#[test]
fn profile_completed_coverage_is_valid_in_any_declaration_order() {
    let mut scan = Scan::new();
    let empty = coverage_json([1, 0, 0, 0, 0, 0, 0, 0, 0, 0], &["syntax-complete"], &[]);
    for id in ["z-profile", "a-profile"] {
        scan.ingest(&declared(id), true).unwrap();
    }
    for id in ["z-profile", "a-profile"] {
        scan.ingest(&profile_completed(id, empty.clone()), true).unwrap();
    }
    let total = coverage_json([2, 0, 0, 0, 0, 0, 0, 0, 0, 0], &["syntax-complete"], &[]);
    scan.ingest(&scan_completed(total), true).unwrap();
    assert_eq!(validate_scan(&scan.rows), Ok(()));
}

#[test]
fn aggregate_and_profile_coverage_must_agree_with_stored_profiles() {
    let mut scan = Scan::new();
    scan.ingest(&declared("profile-1"), true).unwrap();
    let profile = coverage_json([1, 0, 0, 0, 1, 1, 0, 0, 0, 0], &["syntax-complete"], &[]);
    scan.ingest(&profile_completed("profile-1", profile), true).unwrap();
    let total = coverage_json([1, 0, 0, 0, 0, 0, 0, 0, 0, 0], &["syntax-complete"], &[]);
    scan.ingest(&scan_completed(total), true).unwrap();
    assert_eq!(validate_scan(&scan.rows), Err(ScanError::ProfileSiteCounts { profile: 0 }));
    assert_eq!(scan.rows.profile_coverage[0].profile_id, "profile-1");
}

#[test]
fn aggregate_coverage_cannot_overstate_profile_completeness_or_hide_unsupported_syntax() {
    let cases = [
        (vec!["syntax-complete"], 0, ScanError::CompletenessMismatch),
        (
            vec![],
            1,
            ScanError::BelowProfileMaximum { field: CoverageField::UnsupportedSyntax, reported: 0, minimum: 1 },
        ),
    ];
    for (aggregate, unsupported, expected) in cases {
        let mut scan = Scan::new();
        scan.ingest(&declared("profile-1"), true).unwrap();
        let profile = coverage_json([1, 0, 0, 0, 0, 0, 0, 0, 0, unsupported], &[], &[]);
        scan.ingest(&profile_completed("profile-1", profile), true).unwrap();
        let total = coverage_json([1, 0, 0, 0, 0, 0, 0, 0, 0, 0], &aggregate, &[]);
        scan.ingest(&scan_completed(total), true).unwrap();
        assert_eq!(validate_scan(&scan.rows), Err(expected));
    }
}

#[test]
fn invalid_staging_scan_cannot_be_promoted_by_calling_finish_directly() {
    assert_eq!(check_finish_request("completed", true), Ok(()));
    assert_eq!(validate_scan(&Scan::new().rows), Err(ScanError::NoCoverage));
}

#[test]
fn repeated_upserts_replace_evidence_within_and_across_batches() {
    let mut scan = Scan::new();
    scan.ingest(&node("file:a"), true).unwrap();
    let site = |details: &[&str]| {
        let evidence = details
            .iter()
            .map(|detail| {
                object(vec![
                    ("kind", text("source")),
                    ("extractor", text("fixture")),
                    ("extractor_version", text("1.0.0")),
                    ("path", text("a.ts")),
                    ("start_line", Json::Unsigned(1)),
                    ("start_column", Json::Unsigned(1)),
                    ("end_line", Json::Unsigned(1)),
                    ("end_column", Json::Unsigned(2)),
                    ("detail", text(detail)),
                ])
            })
            .collect();
        common(
            "dependency_site",
            vec![(
                "site",
                object(vec![
                    ("id", text("site:1")),
                    ("source", text("file:a")),
                    ("kind", text("imports")),
                    ("specifier", text("./b")),
                    ("profile_id", text("fixture:default")),
                    ("resolution_status", text("unresolved")),
                    ("precision", text("exact")),
                    ("condition", always()),
                    ("target_ids", Json::Array(vec![])),
                    ("evidence", Json::Array(evidence)),
                ]),
            )],
        )
    };
    scan.owners = EvidenceOwners::new();
    scan.ingest(&site(&["stale-zero", "stale-one"]), false).unwrap();
    assert_eq!(scan.evidence.len(), 2);
    scan.ingest(&site(&["same-batch"]), false).unwrap();
    let row = |ordinal: i64, detail: &str| {
        ("site".to_owned(), "site:1".to_owned(), ordinal, Some(detail.to_owned()))
    };
    assert_eq!(scan.evidence, vec![row(0, "same-batch")]);

    scan.owners = EvidenceOwners::new();
    scan.ingest(&site(&["later-zero", "later-one"]), true).unwrap();
    assert_eq!(scan.evidence, vec![row(0, "later-zero"), row(1, "later-one")]);
    let raw = scan.raw_sites.last().unwrap();
    let evidence: Vec<&Json> =
        raw.iter().filter(|(name, _)| name.as_str() == "evidence").map(|(_, value)| value).collect();
    assert_eq!(evidence, vec![&Json::Array(vec![])]);
}

#[test]
fn completed_scans_are_immutable() {
    let state = ScanState {
        status: "failed".to_owned(),
        mutation_count: 0,
        project_code_executed: false,
        unapplied_deltas: 0,
    };
    assert_eq!(
        depgraph_store::snapshots::ensure_scan_staging(Some(&state.status)),
        Err(SnapshotError::ScanImmutable),
    );
    assert_eq!(finish_scan_plan(Some(&state), "completed", true, None), Err(SnapshotError::ScanImmutable));
}

#[test]
fn events_are_refused_where_they_lack_what_they_need() {
    let mut scan = Scan::new();
    let unknown = common("surprise", vec![]);
    assert_eq!(scan.ingest(&unknown, true), Err(IngestError::UnknownEvent));
    assert!(scan.ingest(&common("node_upsert", vec![]), true).is_err());
    let other = object(vec![("event", text("scan_started")), ("scan_id", text("scan-2"))]);
    assert_eq!(scan.ingest(&other, true), Err(IngestError::SeveralScans));
    let started = common("scan_started", vec![("project_code_executed", Json::Bool(true))]);
    scan.ingest(&started, true).unwrap();
    assert!(scan.executed);
}

#[test]
fn each_rule_of_a_valid_scan_is_checked() {
    let coverage = coverage_json([0, 0, 0, 0, 1, 1, 0, 0, 0, 0], &["syntax-complete"], &[]);
    let valid = || {
        let mut scan = resolved_scan();
        scan.ingest(&scan_completed(coverage.clone()), true).unwrap();
        scan.rows
    };
    let refused = |change: &dyn Fn(&mut ScanRows), expected: ScanError| {
        let mut rows = valid();
        change(&mut rows);
        assert_eq!(validate_scan(&rows), Err(expected));
    };
    refused(&|rows| rows.nodes.truncate(1), ScanError::MissingEndpoints { edges: 1 });
    refused(
        &|rows| rows.sites[0].target_ids = vec!["file:b".to_owned(), "file:b".to_owned()],
        ScanError::DuplicateTargets { site: 0 },
    );
    refused(&|rows| rows.edges.clear(), ScanError::Cardinality { site: 0, targets: 1, edges: 0 });
    refused(&|rows| rows.sites[0].resolution_status = "maybe".to_owned(), ScanError::UnclassifiedSites);
    refused(
        &|rows| rows.sites[0].target_ids = vec!["file:a".to_owned()],
        ScanError::TargetMismatch { site: 0 },
    );
    refused(
        &|rows| rows.edges[0].precision = "heuristic".to_owned(),
        ScanError::ContractMismatch { site: 0, edge: 0 },
    );
    refused(&|rows| rows.coverage = None, ScanError::NoCoverage);
    refused(
        &|rows| rows.coverage.as_mut().unwrap().completeness.push("syntax-complete".to_owned()),
        ScanError::DuplicateCompleteness,
    );
    refused(
        &|rows| rows.coverage.as_mut().unwrap().resolved = 2,
        ScanError::CountMismatch { field: CoverageField::Resolved, reported: 2, observed: 1 },
    );
    refused(&|rows| rows.profile_count = 1, ScanError::CountMismatch {
        field: CoverageField::Profiles,
        reported: 0,
        observed: 1,
    });
}

#[test]
fn profile_completed_coverage_round_trips_in_deterministic_profile_order() {
    let mut scan = Scan::new();
    let counts = |profiles: u64| [profiles, 0, 0, 0, 0, 0, 0, 0, 0, 0];
    for id in ["z-profile", "a-profile"] {
        let profile = object(vec![
            ("id", text(id)),
            ("language", text("fixture")),
            ("features", Json::Array(vec![])),
            ("environment", object(vec![])),
            ("properties", object(vec![])),
        ]);
        scan.ingest(&common("profile_declared", vec![("profile", profile)]), true).unwrap();
    }
    for id in ["z-profile", "a-profile"] {
        let coverage = coverage_json(counts(1), &["syntax-complete"], &[]);
        let completed = common("profile_completed", vec![("profile_id", text(id)), ("coverage", coverage)]);
        scan.ingest(&completed, true).unwrap();
    }
    scan.ingest(&scan_completed(coverage_json(counts(2), &["syntax-complete"], &[])), true).unwrap();
    scan.rows.profile_coverage.sort_by(|a, b| a.profile_id.cmp(&b.profile_id));

    assert_eq!(validate_scan(&scan.rows), Ok(()));
    let state = ScanState {
        status: "staging".to_owned(),
        mutation_count: 5,
        project_code_executed: scan.executed,
        unapplied_deltas: 0,
    };
    assert!(finish_scan_plan(Some(&state), "completed", true, Some(5)).unwrap().create_snapshot);

    let mut profiles: Vec<ProfileRecord> = scan
        .profiles
        .iter()
        .map(|declared| {
            let id = declared.get_str("id").unwrap();
            let row = scan.rows.profile_coverage.iter().find(|row| row.profile_id == id);
            profile_record(declared, row.map(|row| row.coverage.clone())).unwrap()
        })
        .collect();
    profiles.sort_by(|a, b| a.id.cmp(&b.id));
    assert_eq!(depgraph_store::snapshots::profile_set(&profiles), ["a-profile", "z-profile"]);
    assert_eq!(profiles[0].id, "a-profile");
    assert!(profiles.iter().all(|profile| profile.coverage.as_ref().is_some_and(|coverage| coverage.profiles == 1)));
    assert_eq!(scan.rows.coverage.unwrap().profiles, 2);
}

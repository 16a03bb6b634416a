use depgraph_store::ingest::{
    coverage_executed, diagnostic_record, evidence_record, ingest_event, profile_record, push_decimal, EventField,
    EvidenceOwners, IngestError, IngestStep,
};
use depgraph_store::json::Json;
use depgraph_store::records::{CoverageRecord, EvidenceRecord};
use depgraph_store::scan_validation::{validate_scan, EdgeValidationRecord, NodeRow, ProfileCoverageRow, ScanRows};

fn text(value: &str) -> Json {
    Json::Text(value.to_owned())
}

fn object(fields: Vec<(&str, Json)>) -> Json {
    Json::Object(fields.into_iter().map(|(name, value)| (name.to_owned(), value)).collect())
}

fn event(name: &str, fields: Vec<(&str, Json)>) -> Json {
    let mut all = vec![("event", text(name)), ("scan_id", text("scan")), ("adapter", text("rust"))];
    all.extend(fields);
    object(all)
}

fn ingest(event: &Json) -> Result<IngestStep, IngestError> {
    ingest_event(event, "scan", 3, false, &mut EvidenceOwners::new())
}

fn site(fields: Vec<(&str, Json)>) -> Json {
    let mut all = vec![
        ("id", text("site:1")),
        ("source", text("node:a")),
        ("kind", text("import")),
        ("profile_id", text("p")),
        ("resolution_status", text("resolved")),
        ("precision", text("exact")),
    ];
    all.extend(fields);
    object(all)
}

fn edge(fields: Vec<(&str, Json)>) -> Json {
    let mut all = vec![
        ("id", text("edge:1")),
        ("source", text("node:a")),
        ("target", text("node:b")),
        ("kind", text("imports")),
        ("profile_id", text("p")),
        ("resolution_status", text("resolved")),
        ("precision", text("exact")),
    ];
    all.extend(fields);
    object(all)
}

#[test]
fn events_that_lack_what_they_need_are_refused() {
    let missing = |field: EventField| Some(IngestError::MissingText { field });
    assert_eq!(ingest(&object(vec![])).err(), missing(EventField::ScanId));
    assert_eq!(ingest(&object(vec![("scan_id", text("other"))])).err(), Some(IngestError::SeveralScans));
    assert_eq!(ingest(&object(vec![("scan_id", text("scan"))])).err(), missing(EventField::Event));
    assert_eq!(ingest(&event("odd", vec![])).err(), Some(IngestError::UnknownEvent));
    assert_eq!(
        ingest(&event("node_upsert", vec![])).err(),
        Some(IngestError::MissingObject { field: EventField::Node }),
    );
    assert_eq!(
        ingest(&event("dependency_site", vec![("site", text("site:1"))])).err(),
        Some(IngestError::NotAnObject { field: EventField::Site }),
    );
    assert_eq!(
        ingest(&event("node_upsert", vec![("node", object(vec![("id", text("n"))]))])).err(),
        missing(EventField::Kind),
    );
    assert_eq!(
        ingest(&event("edge_upsert", vec![("edge", object(vec![("id", text("e"))]))])).err(),
        missing(EventField::Source),
    );
    assert_eq!(
        ingest(&event("profile_declared", vec![("profile", object(vec![]))])).err(),
        missing(EventField::Id),
    );
    assert_eq!(ingest(&event("file_completed", vec![])).err(), missing(EventField::Path));
    assert_eq!(ingest(&event("profile_completed", vec![])).err(), missing(EventField::ProfileId));
    assert_eq!(
        ingest(&event("scan_completed", vec![])).err(),
        Some(IngestError::MissingObject { field: EventField::Coverage }),
    );
}

#[test]
fn scans_start_with_what_they_say_of_execution() {
    assert!(matches!(ingest(&event("scan_started", vec![])), Ok(IngestStep::Nothing)));
    assert!(matches!(
        ingest(&event("scan_started", vec![("project_code_executed", Json::Bool(true))])),
        Ok(IngestStep::MarkExecution { executed: true })
    ));
    assert!(coverage_executed(&object(vec![("project_code_executed", Json::Bool(true))])));
    assert!(!coverage_executed(&object(vec![])));
}

#[test]
fn edges_have_their_defaults_and_are_written_without_their_evidence() {
    let evidence = Json::Array(vec![
        object(vec![("path", text("src/a.rs")), ("start_line", Json::Unsigned(4)), ("detail", text("use b"))]),
        object(vec![("kind", text("build")), ("properties", object(vec![("k", Json::Null)]))]),
    ]);
    let step = ingest(&event("edge_upsert", vec![("edge", edge(vec![("evidence", evidence)]))])).unwrap();
    let (row, write) = match step {
        IngestStep::Edge { row, evidence } => (row, evidence),
        _ => panic!("no edge"),
    };
    assert_eq!(row.phase, "source");
    assert_eq!(row.environment, "any");
    assert_eq!(row.site_id, None);
    assert!(!row.generated);
    assert_eq!(row.raw.len(), 8);
    assert_eq!(row.raw[7], ("evidence".to_owned(), Json::Array(vec![])));
    assert!(!write.clear);
    let records: Vec<_> = write.rows.into_iter().map(evidence_record).collect();
    assert_eq!(records.len(), 2);
    assert_eq!(records[0].owner_type, "edge");
    assert_eq!(records[0].owner_id, "edge:1");
    assert_eq!(records[0].ordinal, 0);
    assert_eq!(records[0].kind, "source");
    assert_eq!(records[0].extractor, "unknown");
    assert_eq!(records[0].extractor_version, "0.0.0");
    assert_eq!(records[0].path, "src/a.rs");
    assert_eq!((records[0].start_line, records[0].end_line), (4, 1));
    assert_eq!(records[0].detail.as_deref(), Some("use b"));
    assert_eq!(records[1].ordinal, 1);
    assert_eq!(records[1].kind, "build");
    assert_eq!(records[1].path, "");
    assert!(records[1].properties.get("k").is_some());
}

#[test]
fn evidence_is_cleared_where_its_owner_was_written_before() {
    let written = event("dependency_site", vec![("site", site(vec![]))]);
    let cleared = |replace_existing: bool, owners: &mut EvidenceOwners| {
        match ingest_event(&written, "scan", 0, replace_existing, owners) {
            Ok(IngestStep::Site { evidence, .. }) => evidence.clear,
            _ => panic!("no site"),
        }
    };
    let mut owners = EvidenceOwners::new();
    assert!(!cleared(false, &mut owners));
    assert!(cleared(false, &mut owners));
    assert!(cleared(true, &mut EvidenceOwners::new()));
}

#[test]
fn diagnostics_are_numbered_and_named_by_their_scan() {
    let told = object(vec![("start_line", Json::Unsigned(9)), ("message", text("odd"))]);
    let row = match ingest(&event("diagnostic", vec![("diagnostic", told)])) {
        Ok(IngestStep::Diagnostic { row, .. }) => row,
        _ => panic!("no diagnostic"),
    };
    assert_eq!(row.id, "diagnostic:scan:3");
    let record = diagnostic_record(row);
    assert_eq!(record.ordinal, 3);
    assert_eq!(record.severity, "warning");
    assert_eq!(record.code, "unknown");
    assert_eq!(record.message, "odd");
    assert_eq!(record.adapter.as_deref(), Some("rust"));
    assert_eq!(record.start_line, Some(9));
    assert_eq!(record.end_line, None);
    for number in [0, 7, 10, 1905, -1, i64::MAX, i64::MIN] {
        let mut digits = String::new();
        push_decimal(&mut digits, number);
        assert_eq!(digits, number.to_string());
    }
}

#[test]
fn profiles_are_read_with_their_coverage() {
    let declared = object(vec![
        ("id", text("p")),
        ("language", text("rust")),
        ("features", Json::Array(vec![text("a"), Json::Null, text("b")])),
        ("target", text("linux")),
    ]);
    let record = profile_record(&declared, Some(CoverageRecord::default())).unwrap();
    assert_eq!(record.id, "p");
    assert_eq!(record.features, ["a", "b"]);
    assert_eq!(record.target.as_deref(), Some("linux"));
    assert_eq!(record.command, None);
    assert!(record.coverage.is_some());
    assert_eq!(
        profile_record(&object(vec![("id", text("p"))]), None).err(),
        Some(IngestError::MissingText { field: EventField::Language }),
    );
}

fn semantic_node(id: &str, kind: &str, name: &str) -> Json {
    let mut properties = vec![];
    if kind != "file" {
        properties = vec![
            ("canonical_identity", object(vec![("path", text(name))])),
            ("crate_identity", text("Cargo.toml#lib:rust_semantic_fixture:src/lib.rs")),
            ("language", text("rust")),
        ];
    }
    object(vec![
        ("display_name", text(name)),
        ("id", text(id)),
        ("kind", text(kind)),
        ("locator", text(&format!("rust://{name}"))),
        ("properties", object(properties)),
    ])
}

fn semantic_edge(id: &str, kind: &str, source: &str, target: &str, line: u64) -> Json {
    let evidence = object(vec![
        ("detail", text(kind)),
        ("end_column", Json::Unsigned(20)),
        ("end_line", Json::Unsigned(line + 1)),
        ("extractor", text("rust-analyzer-hir")),
        ("extractor_version", text("0.0.330")),
        ("kind", text("semantic")),
        ("path", text("src/lib.rs")),
        (
            "properties",
            object(vec![
                ("backend", text("rust-analyzer-library")),
                ("rust_analyzer_revision", text("8954b66d43225e62c92e8bbcc8500191b5cceb1e")),
            ]),
        ),
        ("start_column", Json::Unsigned(5)),
        ("start_line", Json::Unsigned(line)),
    ]);
    object(vec![
        ("condition", object(vec![("conditions", Json::Array(vec![])), ("op", text("all"))])),
        ("environment", text("any")),
        ("evidence", Json::Array(vec![evidence])),
        ("generated", Json::Bool(false)),
        ("id", text(id)),
        ("kind", text(kind)),
        ("phase", text("semantic")),
        ("precision", text("exact")),
        ("profile_id", text("rust:default")),
        ("resolution_status", text("resolved")),
        ("source", text(source)),
        ("target", text(target)),
    ])
}

#[test]
fn rust_semantic_graph_round_trips_canonical_identities_and_site_less_evidence() {
    let nodes = [
        semantic_node("file:src/lib.rs", "file", "src/lib.rs"),
        semantic_node("symbol:run", "symbol", "run"),
        semantic_node("type:Base", "type", "Base"),
        semantic_node("type:Derived", "type", "Derived"),
    ];
    let edges = [
        semantic_edge("edge:declares", "declares", "file:src/lib.rs", "symbol:run", 1),
        semantic_edge("edge:extends", "extends", "type:Derived", "type:Base", 4),
        semantic_edge("edge:implements", "implements", "type:Derived", "type:Base", 7),
        semantic_edge("edge:instantiates", "instantiates", "symbol:run", "type:Derived", 9),
    ];
    let coverage = CoverageRecord {
        profiles: 1,
        completeness: vec!["syntax-complete".to_owned()],
        ..CoverageRecord::default()
    };
    let mut rows = ScanRows {
        nodes: vec![],
        sites: vec![],
        edges: vec![],
        coverage: Some(coverage.clone()),
        profile_count: 1,
        profile_coverage: vec![ProfileCoverageRow { profile_id: "rust:default".to_owned(), coverage: coverage.clone() }],
        files: vec![],
    };

    let declared = object(vec![("id", text("rust:default")), ("language", text("rust"))]);
    let declared = match ingest(&event("profile_declared", vec![("profile", declared)])) {
        Ok(IngestStep::Profile { row }) => row,
        _ => panic!("no profile"),
    };
    let profile = profile_record(&declared.profile, Some(coverage)).unwrap();
    assert_eq!(profile.coverage.unwrap().completeness, ["syntax-complete"]);

    for expected in &nodes {
        let loaded = match ingest(&event("node_upsert", vec![("node", expected.clone())])) {
            Ok(IngestStep::Node { row }) => row,
            _ => panic!("no node"),
        };
        assert_eq!(Some(loaded.id.as_str()), expected.get_str("id"));
        assert_eq!(Some(loaded.kind.as_str()), expected.get_str("kind"));
        assert_eq!(Some(loaded.locator.as_str()), expected.get_str("locator"));
        assert_eq!(Some(loaded.display_name.as_str()), expected.get_str("display_name"));
        assert_eq!(Some(&loaded.properties), expected.get("properties"));
        if loaded.kind == "symbol" || loaded.kind == "type" {
            assert!(matches!(loaded.properties.get("canonical_identity"), Some(Json::Object(_))));
            assert_eq!(loaded.properties.get_str("language"), Some("rust"));
            assert_eq!(
                loaded.properties.get_str("crate_identity"),
                Some("Cargo.toml#lib:rust_semantic_fixture:src/lib.rs"),
            );
        }
        rows.nodes.push(NodeRow { id: loaded.id, kind: loaded.kind });
    }

    let mut kinds: Vec<String> = vec![];
    for expected in &edges {
        let (loaded, write) = match ingest(&event("edge_upsert", vec![("edge", expected.clone())])) {
            Ok(IngestStep::Edge { row, evidence }) => (row, evidence),
            _ => panic!("no edge"),
        };
        assert_eq!(loaded.site_id, None);
        assert_eq!(Some(loaded.source.as_str()), expected.get_str("source"));
        assert_eq!(Some(loaded.target.as_str()), expected.get_str("target"));
        assert_eq!(loaded.phase, "semantic");
        assert_eq!(loaded.environment, "any");
        assert_eq!(loaded.profile_id, "rust:default");
        assert_eq!(loaded.resolution_status, "resolved");
        assert_eq!(loaded.precision, "exact");
        assert_eq!(Some(&loaded.condition), expected.get("condition"));
        assert!(!loaded.generated);

        let expected_evidence = match expected.get("evidence") {
            Some(Json::Array(items)) => &items[0],
            _ => panic!("no evidence"),
        };
        let stored: Vec<EvidenceRecord> = write.rows.into_iter().map(evidence_record).collect();
        assert_eq!(stored.len(), 1);
        let evidence = &stored[0];
        assert_eq!((evidence.owner_type.as_str(), &evidence.owner_id), ("edge", &loaded.id));
        assert_eq!(evidence.ordinal, 0);
        assert_eq!(evidence.kind, "semantic");
        assert_eq!(evidence.extractor, "rust-analyzer-hir");
        assert_eq!(evidence.extractor_version, "0.0.330");
        assert_eq!(Some(evidence.path.as_str()), expected_evidence.get_str("path"));
        assert_eq!(Some(evidence.start_line), expected_evidence.get_unsigned("start_line"));
        assert_eq!(Some(evidence.start_column), expected_evidence.get_unsigned("start_column"));
        assert_eq!(Some(evidence.end_line), expected_evidence.get_unsigned("end_line"));
        assert_eq!(Some(evidence.end_column), expected_evidence.get_unsigned("end_column"));
        assert_eq!(evidence.detail.as_deref(), expected_evidence.get_str("detail"));
        assert_eq!(Some(&evidence.properties), expected_evidence.get("properties"));
        assert_eq!(evidence.properties.get_str("backend"), Some("rust-analyzer-library"));
        assert_eq!(
            evidence.properties.get_str("rust_analyzer_revision"),
            Some("8954b66d43225e62c92e8bbcc8500191b5cceb1e"),
        );
        kinds.push(loaded.kind);
        rows.edges.push(EdgeValidationRecord {
            id: loaded.id,
            site_id: loaded.site_id,
            source: loaded.source,
            target: loaded.target,
            profile_id: loaded.profile_id,
            resolution_status: loaded.resolution_status,
            precision: loaded.precision,
        });
    }
    assert_eq!(kinds, ["declares", "extends", "implements", "instantiates"]);
    assert!(rows.sites.is_empty());
    assert_eq!(validate_scan(&rows), Ok(()));
}

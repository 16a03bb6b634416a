use depgraph_store::diagnostic_summary::{diagnostic_summary, DiagnosticCandidate};
use depgraph_store::node_page::{
    check_node_layers, find_completed_snapshot_nodes_page, node_candidates, node_sources, LayerNodes, NodeCandidate,
    NodeLayer, NodePlace, NodeSession, PlacedNode, SessionNodes,
};
use depgraph_store::layers::{snapshot_chain, LayerError, SnapshotFacts, WalkEnd, WalkPurpose};
use depgraph_store::json::Json;
use depgraph_store::records::{
    AdapterLogRecord, BuildGraphDelta, CompletedSnapshotRecord, CoverageRecord, DiagnosticRecord, FileCoverageRecord,
    FileCoverageSummaryRecord, NodeRecord, NodeSummaryRecord, NodeTextMatch, ProfileRecord, ScanRecord,
};
use depgraph_store::snapshots::{load_choice, LoadChoice, SnapshotError};
use depgraph_store::summary::{
    adapter_log_summaries, bounded_summary_text, build_layers, effective_package_instance_count,
    effective_profile_summary, effective_site_summary, file_coverage_summary, summary_coverage, IdText, SiteSummary,
    SummaryError,
};
use depgraph_store::summary_rows::{add_build, scan_attempt_summary, summary_sessions, SummaryRows};

fn owned(values: &[&str]) -> Vec<String> {
    values.iter().map(|value| (*value).to_owned()).collect()
}

fn candidate(ordinal: i64) -> DiagnosticCandidate {
    DiagnosticCandidate {
        id: format!("diagnostic:{ordinal}"),
        severity: "warning".to_owned(),
        code: format!("CODE_{ordinal:02}"),
        message: format!("representative {ordinal}"),
        path: Some(format!("src/{ordinal}.rs")),
        adapter: Some("fixture".to_owned()),
        source_rank: 0,
        layer_depth: 0,
        ordinal,
    }
}

fn scan_one() -> ScanRecord {
    ScanRecord {
        id: "scan-1".to_owned(),
        root: "/tmp/project".to_owned(),
        status: "staging".to_owned(),
        strict: false,
        started_at: "now".to_owned(),
        completed_at: None,
        project_code_executed: false,
        error: None,
        parent_snapshot_id: None,
        source_revision: None,
        health_policy_config_digest: None,
        health_analyzer_version: None,
        health_finding_contract_version: None,
    }
}

fn diagnostic_rows(diagnostics: Vec<DiagnosticCandidate>) -> SummaryRows {
    SummaryRows {
        profiles: vec![],
        sites: vec![],
        packages: vec![],
        diagnostics,
        build_coverages: vec![],
        session_coverages: vec![],
    }
}

#[test]
fn doctor_summary_is_bounded_and_never_reads_diagnostic_payloads() {
    let payload = "not-json-and-must-never-be-read secret-value";
    let rows = || diagnostic_rows((0..70).map(candidate).collect());
    let summarized = |rows: SummaryRows| scan_attempt_summary(scan_one(), None, rows, &vec![], vec![]).unwrap();
    let summary = summarized(rows());
    assert_eq!(summary.diagnostics.total, 70);
    assert_eq!(summary.diagnostics.groups.len(), 64);
    assert_eq!(summary.diagnostics.omitted_groups, 6);
    assert_eq!(summary.diagnostics.omitted_diagnostics, 6);
    assert_eq!(summary.diagnostics.samples.len(), 5);
    let shown: Vec<&str> = summary.diagnostics.samples.iter().map(|sample| sample.id.as_str()).collect();
    assert_eq!(shown, ["diagnostic:0", "diagnostic:1", "diagnostic:2", "diagnostic:3", "diagnostic:4"]);
    assert_eq!(summary.diagnostics.groups[0].code, "CODE_00");
    assert!(summary.diagnostics.groups.iter().all(|group| group.count == 1));

    let mut delta = BuildGraphDelta {
        profiles: vec![],
        nodes: vec![],
        sites: vec![],
        edges: vec![],
        evidence: vec![],
        diagnostics: vec![],
        coverage: CoverageRecord::default(),
    };
    for ordinal in 0..70 {
        let row = candidate(ordinal);
        delta.diagnostics.push(DiagnosticRecord {
            ordinal,
            id: row.id,
            severity: row.severity,
            code: row.code,
            message: row.message,
            path: row.path,
            adapter: row.adapter,
            start_line: None,
            start_column: None,
            end_line: None,
            end_column: None,
            properties: Json::Text(payload.to_owned()),
        });
    }
    assert!(format!("{delta:?}").contains("not-json-and-must-never-be-read"));
    let mut layered = diagnostic_rows(vec![]);
    add_build(&mut layered, 1, delta);
    let layered = summarized(layered);
    assert_eq!(layered.diagnostics, summary.diagnostics);
    assert!(!format!("{layered:?}").contains("not-json-and-must-never-be-read"));

    assert_eq!(load_choice(false, Some("staging"), None), LoadChoice::Scan);
    assert!(serde_json::from_str::<serde_json::Value>(payload).is_err());
}

#[test]
fn no_diagnostics_have_no_groups() {
    let summary = diagnostic_summary(vec![]);
    assert_eq!((summary.total, summary.omitted_groups, summary.omitted_diagnostics), (0, 0, 0));
    assert!(summary.groups.is_empty());
    assert!(summary.samples.is_empty());
    let full = diagnostic_summary((0..64).map(candidate).collect());
    assert_eq!((full.groups.len(), full.omitted_groups), (64, 0));
}

#[test]
fn a_diagnostic_that_is_there_twice_counts_once_with_its_least_columns() {
    let mut build = candidate(1);
    build.severity = "error".to_owned();
    build.adapter = None;
    build.source_rank = 1;
    let mut other = candidate(2);
    other.code = "CODE_01".to_owned();
    other.severity = "error".to_owned();
    let long = "é".repeat(200);
    other.message = long.clone();
    let summary = diagnostic_summary(vec![other, build, candidate(1), candidate(3)]);
    assert_eq!(summary.total, 3);
    assert_eq!(summary.omitted_diagnostics, 0);
    let groups: Vec<(&str, &str, u64)> =
        summary.groups.iter().map(|group| (group.severity.as_str(), group.code.as_str(), group.count)).collect();
    assert_eq!(groups, [("error", "CODE_01", 2), ("warning", "CODE_03", 1)]);
    assert_eq!(summary.samples[0].adapter.as_deref(), Some("fixture"));
    assert_eq!(summary.samples[1].message, "é".repeat(120));
}

#[test]
fn texts_are_ordered_by_their_characters() {
    let words = ["b", "", "ab", "a", "\u{10000}", "\u{ffff}", "é", "z", "a", "Z"];
    let mut sorted = owned(&words);
    sorted.sort();
    sorted.dedup();
    assert_eq!(depgraph_store::order::sorted_set(owned(&words)), sorted);
    assert_eq!(sorted[sorted.len() - 2..], owned(&["\u{ffff}", "\u{10000}"]));
}

#[test]
fn texts_are_cut_at_a_character() {
    assert_eq!(bounded_summary_text("abc", 3), "abc");
    assert_eq!(bounded_summary_text("abcd", 3), "abc");
    assert_eq!(bounded_summary_text("aé", 2), "a");
    assert_eq!(bounded_summary_text("aé", 3), "aé");
    assert_eq!(bounded_summary_text("日本", 5), "日");
    assert_eq!(bounded_summary_text("\u{10ffff}x", 3), "");
    assert_eq!(bounded_summary_text("\u{10ffff}x", 4), "\u{10ffff}");
}

fn row(id: &str, text: &str) -> IdText {
    IdText { id: id.to_owned(), text: text.to_owned() }
}

#[test]
fn profiles_sites_and_packages_count_once() {
    let (count, languages) = effective_profile_summary(vec![
        row("b", "typescript"),
        row("a", "rust"),
        row("b", "javascript"),
        row("c", "rust"),
    ]);
    assert_eq!(count, 3);
    assert_eq!(languages, [("javascript".to_owned(), 1), ("rust".to_owned(), 2)]);
    let sites = effective_site_summary(vec![
        row("1", "unresolved"),
        row("1", "resolved"),
        row("2", "external"),
        row("3", "candidates"),
    ]);
    assert_eq!(
        sites,
        SiteSummary { dependency_sites: 3, resolved: 1, candidates: 1, external: 1, unresolved: 0 },
    );
    assert_eq!(effective_package_instance_count(owned(&["p", "q", "p"])), 2);
}

fn file(adapter: &str, discovered: u64, skipped: bool) -> FileCoverageRecord {
    FileCoverageRecord {
        adapter: adapter.to_owned(),
        path: "x".to_owned(),
        discovered_sites: discovered,
        emitted_sites: 1,
        skipped_sites: 2,
        skipped,
        reason: None,
    }
}

#[test]
fn files_and_logs_are_totalled_by_adapter() {
    let rows = vec![file("web", 3, true), file("rust", 4, false), file("web", 5, false)];
    assert_eq!(
        file_coverage_summary(&rows).unwrap(),
        vec![
            FileCoverageSummaryRecord {
                adapter: "rust".to_owned(),
                files: 1,
                skipped_files: 0,
                discovered_sites: 4,
                emitted_sites: 1,
                skipped_sites: 2,
            },
            FileCoverageSummaryRecord {
                adapter: "web".to_owned(),
                files: 2,
                skipped_files: 1,
                discovered_sites: 8,
                emitted_sites: 2,
                skipped_sites: 4,
            },
        ],
    );
    let huge = vec![file("web", i64::MAX as u64, false), file("web", 1, false)];
    assert_eq!(file_coverage_summary(&huge), Err(SummaryError::TotalTooLarge));
    let log = |adapter: &str, stderr: &str| AdapterLogRecord {
        adapter: adapter.to_owned(),
        stderr: stderr.to_owned(),
        truncated: false,
    };
    let logs = adapter_log_summaries(vec![log("web", "é"), log("rust", "")]);
    let listed: Vec<(&str, u64)> = logs.iter().map(|log| (log.adapter.as_str(), log.stderr_bytes)).collect();
    assert_eq!(listed, [("rust", 0), ("web", 2)]);
}

#[test]
fn the_coverage_of_a_summary_unites_layers_and_counts_anew() {
    let build = CoverageRecord {
        dependency_sites: 9,
        project_code_executed: true,
        completeness: owned(&["build-observed"]),
        ..CoverageRecord::default()
    };
    let session = CoverageRecord { completeness: owned(&["runtime-observed"]), ..CoverageRecord::default() };
    let sites = SiteSummary { dependency_sites: 2, resolved: 1, candidates: 0, external: 0, unresolved: 1 };
    let coverage = summary_coverage(None, false, &vec![build], &vec![session], 4, sites);
    assert_eq!(coverage.profiles, 4);
    assert_eq!(coverage.dependency_sites, 2);
    assert_eq!(coverage.unresolved, 1);
    assert_eq!(coverage.completeness, ["build-observed", "runtime-observed"]);
    assert_eq!(coverage.reasons, ["final worker coverage unavailable"]);
    assert!(coverage.project_code_executed);

    let scan = scan_one();
    let coverage = CoverageRecord { completeness: owned(&["build-observed"]), ..CoverageRecord::default() };
    let diagnostic = |id: &str, ordinal: i64| DiagnosticRecord {
        ordinal,
        id: id.to_owned(),
        severity: "warning".to_owned(),
        code: "C".to_owned(),
        message: "m".to_owned(),
        path: None,
        adapter: None,
        start_line: None,
        start_column: None,
        end_line: None,
        end_column: None,
        properties: Json::Null,
    };
    let node = |id: &str, kind: &str| NodeRecord {
        id: id.to_owned(),
        kind: kind.to_owned(),
        locator: id.to_owned(),
        display_name: id.to_owned(),
        properties: Json::Null,
    };
    let profile = |id: &str| ProfileRecord {
        id: id.to_owned(),
        language: "rust".to_owned(),
        toolchain: None,
        command: None,
        target: None,
        features: vec![],
        environment: Json::Null,
        source_revision: None,
        properties: Json::Null,
        coverage: None,
    };
    let mut rows = SummaryRows {
        profiles: vec![IdText { id: "p".to_owned(), text: "rust".to_owned() }],
        sites: vec![IdText { id: "s".to_owned(), text: "resolved".to_owned() }],
        packages: owned(&["package"]),
        diagnostics: vec![],
        build_coverages: vec![],
        session_coverages: vec![],
    };
    let delta = BuildGraphDelta {
        profiles: vec![profile("p"), profile("q")],
        nodes: vec![node("package", "package_instance"), node("other", "package_instance"), node("file", "file")],
        sites: vec![],
        edges: vec![],
        evidence: vec![],
        diagnostics: vec![diagnostic("d1", 40), diagnostic("d2", 50)],
        coverage: CoverageRecord { project_code_executed: true, ..CoverageRecord::default() },
    };
    add_build(&mut rows, 2, delta);
    assert_eq!(rows.packages, ["package", "package", "other"]);
    let placed: Vec<(i64, i64, i64)> =
        rows.diagnostics.iter().map(|item| (item.source_rank, item.layer_depth, item.ordinal)).collect();
    assert_eq!(placed, [(1, 2, 0), (1, 2, 1)]);
    let summary = scan_attempt_summary(scan, Some(coverage), rows, &vec![], vec![]).unwrap();
    assert!(summary.scan.project_code_executed);
    assert_eq!(summary.profile_count, 2);
    assert_eq!(summary.profiles_by_language, [("rust".to_owned(), 2)]);
    assert_eq!(summary.package_instance_count, 2);
    assert_eq!(summary.coverage.dependency_sites, 1);
    assert_eq!(summary.coverage.resolved, 1);
    assert_eq!(summary.coverage.completeness, ["build-observed"]);
    assert_eq!(summary.diagnostics.total, 2);
}

#[test]
fn the_sessions_of_a_summary_are_those_of_the_latest_snapshot() {
    let mut latest = snapshot("b", Some("a"), None, "runtime");
    latest.runtime_session_ids = owned(&["s2", "s1", "s2"]);
    let chain = vec![latest, snapshot("a", None, None, "scan")];
    assert_eq!(summary_sessions(&chain), ["s1", "s2"]);
    assert!(summary_sessions(&vec![]).is_empty());
}

fn snapshot(id: &str, parent: Option<&str>, build: Option<&str>, kind: &str) -> CompletedSnapshotRecord {
    CompletedSnapshotRecord {
        id: id.to_owned(),
        source_kind: kind.to_owned(),
        source_attempt_id: id.to_owned(),
        scan_id: "scan".to_owned(),
        build_attempt_id: build.map(|build| build.to_owned()),
        runtime_import_id: None,
        runtime_session_ids: vec![],
        parent_snapshot_id: parent.map(|parent| parent.to_owned()),
        source_revision: None,
        profile_ids: vec![],
        status: "completed".to_owned(),
        created_at: "now".to_owned(),
    }
}

#[test]
fn builds_are_layered_from_the_deepest() {
    let chain = vec![
        snapshot("d", Some("c"), Some("second"), "build"),
        snapshot("c", Some("b"), Some("first"), "runtime"),
        snapshot("b", Some("a"), Some("first"), "build"),
        snapshot("a", None, None, "scan"),
    ];
    let layers = build_layers(&chain);
    let listed: Vec<(&str, u64)> =
        layers.iter().map(|layer| (layer.build_attempt_id.as_str(), layer.depth)).collect();
    assert_eq!(listed, [("first", 2), ("second", 0)]);
}

fn summary_node(id: &str, kind: &str) -> NodeSummaryRecord {
    NodeSummaryRecord {
        id: id.to_owned(),
        kind: kind.to_owned(),
        locator: format!("file://{id}"),
        display_name: format!("name of {id}"),
    }
}

fn at(depth: u64, source_order: u8, item_order: i64, node: NodeSummaryRecord) -> NodeCandidate {
    NodeCandidate { node, place: NodePlace { layer_depth: depth, source_order, collection_order: 0, item_order } }
}

fn listed(page: &depgraph_store::records::StorePage<NodeSummaryRecord>) -> Vec<String> {
    page.items.iter().map(|node| node.id.clone()).collect()
}

#[test]
fn pages_show_the_nodes_in_effect_in_the_order_of_their_identities() {
    let candidates = || {
        vec![
            at(0, 1, 0, summary_node("b", "overridden")),
            at(1, 0, 0, summary_node("c", "file")),
            at(1, 0, 1, summary_node("b", "file")),
            at(0, 2, 0, summary_node("a", "route")),
        ]
    };
    let find = |query: &str, mode: NodeTextMatch, kinds: &[&str], offset: usize, limit: usize| {
        find_completed_snapshot_nodes_page(candidates(), query, mode, &owned(kinds), offset, limit)
    };
    let all = find("", NodeTextMatch::Contains, &[], 0, 10).unwrap();
    assert_eq!(listed(&all), ["a", "b", "c"]);
    assert_eq!(all.total_items, 3);
    assert_eq!(all.items[1].kind, "file");
    let second = find("", NodeTextMatch::Prefix, &[], 1, 1).unwrap();
    assert_eq!(listed(&second), ["b"]);
    assert_eq!(second.total_items, 3);
    assert!(find("", NodeTextMatch::Prefix, &[], 9, 1).unwrap().items.is_empty());
    assert_eq!(listed(&find("file", NodeTextMatch::Exact, &[], 0, 10).unwrap()), ["b", "c"]);
    assert_eq!(listed(&find("file", NodeTextMatch::Prefix, &[], 0, 10).unwrap()), ["a", "b", "c"]);
    assert_eq!(listed(&find("of a", NodeTextMatch::Contains, &[], 0, 10).unwrap()), ["a"]);
    assert_eq!(listed(&find("", NodeTextMatch::Contains, &["route"], 0, 10).unwrap()), ["a"]);
    assert!(find("overridden", NodeTextMatch::Exact, &[], 0, 10).unwrap().items.is_empty());
    assert_eq!(find("", NodeTextMatch::Exact, &[], 0, 0).err(), Some(SnapshotError::PageEmpty));
    assert_eq!(find("", NodeTextMatch::Exact, &[], usize::MAX, 1).err(), Some(SnapshotError::PageTooLarge));
}

#[test]
fn nodes_are_taken_from_intact_layers_only() {
    let fact = |id: &str, parent: Option<&str>, overlay: bool, kind: &str| SnapshotFacts {
        record: snapshot(id, parent, None, kind),
        scan_is_overlay: overlay,
        scan_parent_snapshot_id: parent.map(|parent| parent.to_owned()),
    };
    let facts = vec![fact("base", None, false, "scan"), fact("top", Some("base"), true, "scan")];
    let (path, end) = snapshot_chain(&facts, "top", WalkPurpose::Nodes);
    assert_eq!((path.clone(), end), (vec![1, 0], WalkEnd::End));
    let layer = |overlay_nodes: Vec<NodeSummaryRecord>| NodeLayer {
        scan_exists: true,
        overlay_nodes,
        overlay_properties_readable: true,
        build_readable: true,
        sessions_readable: true,
    };
    let candidates = vec![at(1, 0, 0, summary_node("a", "file"))];
    let layers = |node: NodeSummaryRecord| vec![layer(vec![node]), layer(vec![])];
    let check = |layers: &Vec<NodeLayer>| check_node_layers(&facts, &path, end, layers, &candidates);
    assert_eq!(check(&layers(summary_node("a", "file"))), Ok(()));
    assert_eq!(check(&layers(summary_node("a", "route"))), Err(SnapshotError::NotValid));
    assert_eq!(check(&layers(summary_node("b", "file"))), Err(SnapshotError::NotValid));
    let mut unreadable = layers(summary_node("a", "file"));
    unreadable[1].build_readable = false;
    assert_eq!(check(&unreadable), Err(SnapshotError::NotValid));
    let mut disordered = facts.clone();
    disordered[0].record.runtime_session_ids = owned(&["b", "a"]);
    assert_eq!(
        check_node_layers(&disordered, &path, end, &layers(summary_node("a", "file")), &candidates),
        Err(SnapshotError::NotValid),
    );
    disordered[0].record.runtime_session_ids = owned(&["a", "b"]);
    assert_eq!(
        check_node_layers(&disordered, &path, end, &layers(summary_node("a", "file")), &candidates),
        Ok(()),
    );
    assert_eq!(
        check_node_layers(&facts, &vec![], WalkEnd::Missing, &vec![], &candidates),
        Err(SnapshotError::NotFound),
    );
    assert_eq!(
        check_node_layers(&facts, &path, WalkEnd::Cycle, &layers(summary_node("a", "file")), &candidates),
        Err(SnapshotError::NotValid),
    );
}

fn layered_check(kind: &str, change: fn(&mut NodeLayer)) -> Result<(), SnapshotError> {
    let mut base = snapshot("base", None, None, "scan");
    base.scan_id = "scan-golden".to_owned();
    let mut top = snapshot("top", Some("base"), None, kind);
    if kind == "build" {
        top.build_attempt_id = Some("build-invalid-delta".to_owned());
    } else {
        top.runtime_session_ids = owned(&["runtime-session:test"]);
    }
    let facts: Vec<SnapshotFacts> = [base, top]
        .into_iter()
        .map(|record| SnapshotFacts { record, scan_is_overlay: false, scan_parent_snapshot_id: None })
        .collect();
    let (path, end) = snapshot_chain(&facts, "top", WalkPurpose::Nodes);
    assert_eq!((path.clone(), end), (vec![1, 0], WalkEnd::End));
    let layer = || NodeLayer {
        scan_exists: true,
        overlay_nodes: vec![],
        overlay_properties_readable: true,
        build_readable: true,
        sessions_readable: true,
    };
    let mut layers = vec![layer(), layer()];
    change(&mut layers[0]);
    check_node_layers(&facts, &path, end, &layers, &vec![at(1, 0, 0, summary_node("a", "file"))])
}

#[test]
fn paged_node_projection_rejects_serde_invalid_completed_build_delta() {
    assert_eq!(layered_check("build", |_layer| {}), Ok(()));
    assert_eq!(layered_check("build", |layer| layer.build_readable = false), Err(SnapshotError::NotValid));
}

#[test]
fn paged_node_projection_rejects_invalid_runtime_metadata_and_non_node_rows() {
    assert_eq!(layered_check("runtime", |_layer| {}), Ok(()));
    assert_eq!(layered_check("runtime", |layer| layer.sessions_readable = false), Err(SnapshotError::NotValid));
}

#[test]
fn each_layer_contributes_what_the_one_below_lacks() {
    let mut base = snapshot("base", None, Some("build:1"), "build");
    base.runtime_session_ids = owned(&["s1"]);
    let mut top = snapshot("top", Some("base"), Some("build:1"), "runtime");
    top.runtime_session_ids = owned(&["s0", "s1", "s2"]);
    let facts: Vec<SnapshotFacts> = [base, top]
        .into_iter()
        .map(|record| SnapshotFacts { record, scan_is_overlay: false, scan_parent_snapshot_id: None })
        .collect();
    let sources = node_sources(&facts, &vec![1, 0], WalkEnd::End);
    let session = |ordinal: usize, id: &str| NodeSession { ordinal, session_id: id.to_owned() };
    assert_eq!(sources.len(), 2);
    assert!(!sources[0].takes_scan);
    assert_eq!(sources[0].build_attempt_id, None);
    assert_eq!(sources[0].sessions, [session(0, "s0"), session(2, "s2")]);
    assert!(sources[1].takes_scan);
    assert_eq!(sources[1].build_attempt_id.as_deref(), Some("build:1"));
    assert_eq!(sources[1].sessions, [session(0, "s1")]);
    assert!(!node_sources(&facts, &vec![1, 0], WalkEnd::Fail(LayerError::ParentMissing))[1].takes_scan);
}

#[test]
fn candidates_keep_the_place_where_they_were_read() {
    let placed = |order: i64, id: &str| PlacedNode { order, node: summary_node(id, "file") };
    let top = LayerNodes {
        scan_nodes: vec![],
        build_nodes: vec![placed(0, "a"), placed(1, "b")],
        session_nodes: vec![SessionNodes { order: 4, nodes: vec![placed(9, "c")] }],
    };
    let base = LayerNodes { scan_nodes: vec![placed(7, "a")], build_nodes: vec![], session_nodes: vec![] };
    let candidates = node_candidates(vec![top, base]);
    let found: Vec<(String, NodePlace)> =
        candidates.iter().map(|candidate| (candidate.node.id.clone(), candidate.place)).collect();
    let place = |layer_depth: u64, source_order: u8, collection_order: i64, item_order: i64| NodePlace {
        layer_depth,
        source_order,
        collection_order,
        item_order,
    };
    assert_eq!(
        found,
        [
            ("a".to_owned(), place(0, 1, 0, 0)),
            ("b".to_owned(), place(0, 1, 0, 1)),
            ("c".to_owned(), place(0, 2, 4, 9)),
            ("a".to_owned(), place(1, 0, 0, 7)),
        ],
    );
}

use depgraph_store::coverage::{
    mark_coverage_incomplete, merge_coverage, observed_coverage, subtract_site_coverage, union_coverage,
    union_runtime_coverage_metadata, WorkerCoverage,
};
use depgraph_store::coverage_report::{merge_reports, stored_report, worker_report};
use depgraph_store::json::Json;
use depgraph_store::records::{CoverageRecord, SiteRecord};
use depgraph_store::written::WrittenJson;

fn listed(values: &[&str]) -> Vec<WrittenJson> {
    values.iter().map(|value| WrittenJson { text: format!("{value:?}"), value: Json::Text((*value).to_owned()) }).collect()
}

fn number(text: &str) -> WrittenJson {
    WrittenJson { text: text.to_owned(), value: Json::Float(text.parse::<f64>().unwrap().to_bits()) }
}

fn complete() -> WorkerCoverage {
    WorkerCoverage {
        profiles: 1,
        files_discovered: 1,
        files_analyzed: 1,
        files_skipped: 0,
        dependency_sites: 1,
        resolved: 1,
        candidates: 0,
        external: 0,
        unresolved: 0,
        unsupported_syntax: 0,
        project_code_executed: false,
        completeness: listed(&["syntax-complete"]),
        reasons: vec![],
    }
}

fn incomplete() -> WorkerCoverage {
    WorkerCoverage {
        profiles: 1,
        files_discovered: 1,
        files_analyzed: 0,
        files_skipped: 1,
        dependency_sites: 0,
        resolved: 0,
        candidates: 0,
        external: 0,
        unresolved: 0,
        unsupported_syntax: 1,
        project_code_executed: false,
        completeness: vec![],
        reasons: listed(&["unsupported_syntax"]),
    }
}

#[test]
fn merged_coverage_intersects_completeness_independent_of_worker_order() {
    for merged in [merge_coverage(&complete(), &incomplete()), merge_coverage(&incomplete(), &complete())] {
        assert_eq!(merged.profiles, 2);
        assert_eq!(merged.files_skipped, 1);
        assert_eq!(merged.unsupported_syntax, 1);
        assert!(merged.completeness.is_empty());
        assert_eq!(merged.reasons, listed(&["unsupported_syntax"]));
    }
}

#[test]
fn a_level_that_both_workers_reached_is_kept() {
    let mut executed = complete();
    executed.project_code_executed = true;
    executed.reasons = listed(&["b", "a", "b"]);
    let merged = merge_coverage(&complete(), &executed);
    assert_eq!(merged.completeness, listed(&["syntax-complete"]));
    assert!(merged.project_code_executed);
    assert_eq!(merged.dependency_sites, 2);
    assert_eq!(merged.reasons, listed(&["a", "b"]));
}

#[test]
fn levels_and_reasons_are_compared_by_value_and_ordered_by_text() {
    let mut left = complete();
    left.completeness = vec![number("-0.0"), number("1.5")];
    left.reasons = vec![number("0.0")];
    let mut right = complete();
    right.completeness = vec![number("0.0")];
    right.reasons = vec![number("-0.0"), number("0.0")];
    let texts = |items: &[WrittenJson]| items.iter().map(|item| item.text.clone()).collect::<Vec<_>>();
    let merged = merge_coverage(&left, &right);
    assert_eq!(texts(&merged.completeness), ["-0.0"]);
    assert_eq!(texts(&merged.reasons), ["-0.0"]);
    let turned = merge_coverage(&right, &left);
    assert_eq!(texts(&turned.completeness), ["0.0"]);
    right.reasons.push(number("-1.5"));
    assert_eq!(texts(&merge_coverage(&left, &right).reasons), ["-0.0", "-1.5", "0.0"]);
}

fn record() -> CoverageRecord {
    CoverageRecord {
        profiles: 2,
        files_discovered: 3,
        files_analyzed: 2,
        files_skipped: 1,
        dependency_sites: 4,
        resolved: 1,
        candidates: 1,
        external: 1,
        unresolved: 1,
        unsupported_syntax: u64::MAX,
        project_code_executed: false,
        completeness: vec!["b".to_owned()],
        reasons: vec!["z".to_owned()],
    }
}

#[test]
fn a_union_adds_counters_and_unites_levels() {
    let mut target = record();
    let mut delta = record();
    delta.completeness = vec!["a".to_owned(), "b".to_owned()];
    delta.project_code_executed = true;
    union_coverage(&mut target, &delta);
    assert_eq!(target.dependency_sites, 8);
    assert_eq!(target.unsupported_syntax, u64::MAX);
    assert_eq!(target.profiles, 2);
    assert_eq!(target.files_discovered, 3);
    assert_eq!(target.completeness, ["a", "b"]);
    assert_eq!(target.reasons, ["z"]);
    assert!(target.project_code_executed);
}

#[test]
fn a_session_says_nothing_of_site_counters() {
    let mut target = record();
    let mut session = record();
    session.unsupported_syntax = 0;
    session.reasons = vec!["y".to_owned()];
    union_runtime_coverage_metadata(&mut target, &session);
    assert_eq!(target.dependency_sites, 4);
    assert_eq!(target.reasons, ["y", "z"]);
}

#[test]
fn incomplete_coverage_loses_its_levels_and_says_why() {
    let mut coverage = record();
    mark_coverage_incomplete(&mut coverage, "a reason");
    assert!(coverage.completeness.is_empty());
    assert_eq!(coverage.reasons, ["a reason", "z"]);
    mark_coverage_incomplete(&mut coverage, "z");
    assert_eq!(coverage.reasons, ["a reason", "z"]);
}

#[test]
fn subtracted_sites_never_fall_below_zero() {
    let mut coverage = record();
    subtract_site_coverage(&mut coverage, &vec!["resolved".to_owned(), "resolved".to_owned()]);
    assert_eq!(coverage.dependency_sites, 2);
    assert_eq!(coverage.resolved, 0);
    assert_eq!(coverage.external, 1);
}

fn site(status: &str) -> SiteRecord {
    SiteRecord {
        id: status.to_owned(),
        source: "a".to_owned(),
        kind: "imports".to_owned(),
        specifier: None,
        profile_id: "p".to_owned(),
        resolution_status: status.to_owned(),
        precision: "exact".to_owned(),
        condition: Json::Null,
        target_ids: vec![],
        reason: None,
    }
}

#[test]
fn without_stored_coverage_the_rows_are_counted() {
    let sites = vec![site("resolved"), site("external"), site("resolved")];
    let coverage = observed_coverage(None, &sites, 2, 5, 1, true);
    assert_eq!(coverage.profiles, 2);
    assert_eq!(coverage.files_discovered, 5);
    assert_eq!(coverage.files_skipped, 1);
    assert_eq!(coverage.files_analyzed, 4);
    assert_eq!(coverage.dependency_sites, 3);
    assert_eq!(coverage.resolved, 2);
    assert_eq!(coverage.external, 1);
    assert!(coverage.project_code_executed);
    assert!(coverage.completeness.is_empty());
    assert_eq!(coverage.reasons, ["final worker coverage unavailable"]);
}

#[test]
fn reports_are_merged_into_what_a_scan_stored() {
    let field = |name: &str, value: Json| (name.to_owned(), value);
    let stored = Json::Object(vec![
        field("dependency_sites", Json::Unsigned(2)),
        field("note", Json::Text("kept".to_owned())),
        field("resolved", Json::Unsigned(1)),
    ]);
    let reported = Json::Object(vec![
        field("dependency_sites", Json::Unsigned(3)),
        field("project_code_executed", Json::Bool(true)),
    ]);
    let levels = || listed(&["syntax"]);
    let left = worker_report(&stored, levels(), vec![]);
    assert_eq!((left.dependency_sites, left.resolved, left.profiles), (2, 1, 0));
    assert!(!left.project_code_executed);
    let right = worker_report(&reported, levels(), listed(&["late"]));
    let merged = merge_reports(&left, &right).unwrap();
    assert_eq!(merged.dependency_sites, 5);
    assert_eq!(merged.completeness, levels());
    let written = stored_report(stored, &merged);
    assert_eq!(written.get("completeness"), Some(&Json::Array(vec![Json::Text("syntax".to_owned())])));
    assert_eq!(written.get("reasons"), Some(&Json::Array(vec![Json::Text("late".to_owned())])));
    assert_eq!(written.get_unsigned("dependency_sites"), Some(5));
    assert_eq!(written.get_unsigned("resolved"), Some(1));
    assert_eq!(written.get_unsigned("unsupported_syntax"), Some(0));
    assert_eq!(written.get_bool("project_code_executed"), Some(true));
    assert_eq!(written.get_str("note"), Some("kept"));
    let names: Vec<String> = match &written {
        Json::Object(fields) => fields.iter().map(|(name, _value)| name.clone()).collect(),
        _ => vec![],
    };
    let mut sorted = names.clone();
    sorted.sort();
    sorted.dedup();
    assert_eq!(names, sorted);
    assert_eq!(names.len(), 14);
    let again = worker_report(&written, merged.completeness.clone(), merged.reasons.clone());
    assert_eq!(again.dependency_sites, merged.dependency_sites);
    let mut full = complete();
    full.external = u64::MAX;
    let mut more = complete();
    more.external = 1;
    assert!(merge_reports(&full, &more).is_none());
    let replaced = stored_report(Json::Null, &merged);
    assert_eq!(replaced.get_unsigned("dependency_sites"), Some(5));
}

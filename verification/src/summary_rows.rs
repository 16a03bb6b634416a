//! What the summary of a scan attempt is made from: the rows of the scan, and those of the
//! builds and the runtime sessions that lie over it.

use vstd::prelude::*;

use crate::diagnostic_summary::{diagnostic_summary, is_diagnostic_summary, DiagnosticCandidate};
use crate::order::{collect, is_sorted_set, sorted_set};
use crate::records::{
    AdapterLogRecord, BuildGraphDelta, CompletedSnapshotRecord, CoverageRecord, DiagnosticRecord, FileCoverageRecord,
    NodeRecord, ProfileRecord, ScanAttemptSummaryRecord, ScanRecord, SiteRecord,
};
use crate::runtime_session::RuntimeSessionDelta;
use crate::summary::{
    adapter_log_summaries, all_totals_fit, are_file_summaries, are_log_summaries, effective_package_instance_count,
    effective_profile_summary, effective_site_summary, file_coverage_summary, is_distinct_count,
    is_effective_site_summary, is_profile_summary, summary_coverage, summary_coverage_of, IdText, SiteSummary,
    SummaryError,
};
use crate::text::{copy_texts, same, texts};

verus! {

/// The rows from which a summary is made.
#[derive(Debug)]
pub struct SummaryRows {
    /// The profiles with their languages.
    pub profiles: Vec<IdText>,
    /// The sites with their resolution statuses.
    pub sites: Vec<IdText>,
    /// The identities of package instances.
    pub packages: Vec<String>,
    pub diagnostics: Vec<DiagnosticCandidate>,
    pub build_coverages: Vec<CoverageRecord>,
    pub session_coverages: Vec<CoverageRecord>,
}

/// The sessions over a scan, each once, ascending: those of the latest snapshot of its chain.
pub fn summary_sessions(chain: &Vec<CompletedSnapshotRecord>) -> (result: Vec<String>)
    ensures
        is_sorted_set(
            texts(result@),
            if chain@.len() > 0 {
                texts(chain@[0].runtime_session_ids@)
            } else {
                Seq::empty()
            },
        ),
{
    if chain.len() > 0 {
        sorted_set(copy_texts(&chain[0].runtime_session_ids))
    } else {
        let none: Vec<String> = Vec::new();
        assert(texts(none@) =~= Seq::empty());
        sorted_set(none)
    }
}

/// Profiles with their languages.
pub open spec fn profile_rows(profiles: Seq<ProfileRecord>) -> Seq<IdText> {
    Seq::new(profiles.len(), |i: int| IdText { id: profiles[i].id, text: profiles[i].language })
}

/// Sites with their resolution statuses.
pub open spec fn site_rows(sites: Seq<SiteRecord>) -> Seq<IdText> {
    Seq::new(sites.len(), |i: int| IdText { id: sites[i].id, text: sites[i].resolution_status })
}

/// Which nodes are package instances.
pub open spec fn is_package(nodes: Seq<NodeRecord>) -> spec_fn(int) -> bool {
    |i: int| nodes[i].kind@ == "package_instance"@
}

/// The identities of the package instances among nodes.
pub open spec fn package_rows(nodes: Seq<NodeRecord>) -> Seq<String> {
    collect(nodes.len() as int, is_package(nodes), |i: int| nodes[i].id)
}

/// A diagnostic of a layer.
pub open spec fn diagnostic_row(
    diagnostic: DiagnosticRecord,
    source_rank: i64,
    layer_depth: i64,
    ordinal: i64,
) -> DiagnosticCandidate {
    DiagnosticCandidate {
        id: diagnostic.id,
        severity: diagnostic.severity,
        code: diagnostic.code,
        message: diagnostic.message,
        path: diagnostic.path,
        adapter: diagnostic.adapter,
        source_rank,
        layer_depth,
        ordinal,
    }
}

/// The diagnostics of a build, numbered as they stand.
pub open spec fn build_diagnostic_rows(diagnostics: Seq<DiagnosticRecord>, depth: u64) -> Seq<DiagnosticCandidate> {
    Seq::new(diagnostics.len(), |i: int| diagnostic_row(diagnostics[i], 1, depth as i64, i as i64))
}

/// The diagnostics of a session, with their own numbers.
pub open spec fn session_diagnostic_rows(diagnostics: Seq<DiagnosticRecord>) -> Seq<DiagnosticCandidate> {
    Seq::new(diagnostics.len(), |i: int| diagnostic_row(diagnostics[i], 2, 0, diagnostics[i].ordinal))
}

fn push_profiles(rows: &mut Vec<IdText>, profiles: Vec<ProfileRecord>)
    ensures
        final(rows)@ == old(rows)@ + profile_rows(profiles@),
{
    let ghost before = rows@;
    let ghost all = profiles@;
    for profile in it: profiles
        invariant
            it.seq() == all,
            rows@ == before + profile_rows(all).take(it.index() as int),
    {
        assert(profile == all[it.index() as int]);
        rows.push(IdText { id: profile.id, text: profile.language });
        assert(rows@ =~= before + profile_rows(all).take(it.index() + 1));
    }
    assert(profile_rows(all).take(all.len() as int) =~= profile_rows(all));
}

fn push_sites(rows: &mut Vec<IdText>, sites: Vec<SiteRecord>)
    ensures
        final(rows)@ == old(rows)@ + site_rows(sites@),
{
    let ghost before = rows@;
    let ghost all = sites@;
    for site in it: sites
        invariant
            it.seq() == all,
            rows@ == before + site_rows(all).take(it.index() as int),
    {
        assert(site == all[it.index() as int]);
        rows.push(IdText { id: site.id, text: site.resolution_status });
        assert(rows@ =~= before + site_rows(all).take(it.index() + 1));
    }
    assert(site_rows(all).take(all.len() as int) =~= site_rows(all));
}

fn push_packages(rows: &mut Vec<String>, nodes: Vec<NodeRecord>)
    ensures
        final(rows)@ == old(rows)@ + package_rows(nodes@),
{
    let ghost before = rows@;
    let ghost all = nodes@;
    let ghost item = |i: int| all[i].id;
    assert(rows@ =~= before + collect(0, is_package(all), item));
    for node in it: nodes
        invariant
            it.seq() == all,
            item == (|i: int| all[i].id),
            rows@ == before + collect(it.index() as int, is_package(all), item),
    {
        assert(node == all[it.index() as int]);
        let ghost kept = collect(it.index() as int, is_package(all), item);
        if same(node.kind.as_str(), "package_instance") {
            rows.push(node.id);
            assert(rows@ =~= before + kept.push(all[it.index() as int].id));
        }
    }
}

fn push_diagnostics(rows: &mut Vec<DiagnosticCandidate>, diagnostics: Vec<DiagnosticRecord>, depth: Option<u64>)
    ensures
        final(rows)@ == old(rows)@ + match depth {
            Some(depth) => build_diagnostic_rows(diagnostics@, depth),
            None => session_diagnostic_rows(diagnostics@),
        },
{
    let ghost before = rows@;
    let ghost all = diagnostics@;
    let ghost added = match depth {
        Some(depth) => build_diagnostic_rows(all, depth),
        None => session_diagnostic_rows(all),
    };
    let count: usize = diagnostics.len();
    let mut place: usize = 0;
    for diagnostic in it: diagnostics
        invariant
            it.seq() == all,
            all.len() == count,
            place == it.index(),
            added == match depth {
                Some(depth) => build_diagnostic_rows(all, depth),
                None => session_diagnostic_rows(all),
            },
            rows@ == before + added.take(it.index() as int),
    {
        assert(diagnostic == all[it.index() as int]);
        let (source_rank, layer_depth, ordinal): (i64, i64, i64) = match depth {
            Some(depth) => (1, depth as i64, place as i64),
            None => (2, 0, diagnostic.ordinal),
        };
        rows.push(
            DiagnosticCandidate {
                id: diagnostic.id,
                severity: diagnostic.severity,
                code: diagnostic.code,
                message: diagnostic.message,
                path: diagnostic.path,
                adapter: diagnostic.adapter,
                source_rank,
                layer_depth,
                ordinal,
            },
        );
        assert(rows@ =~= before + added.take(it.index() + 1));
        place = place + 1;
    }
    assert(added.take(added.len() as int) =~= added);
}

/// Whether rows go on with those of a build at a depth.
pub open spec fn adds_build(before: SummaryRows, depth: u64, delta: BuildGraphDelta, after: SummaryRows) -> bool {
    &&& after.profiles@ == before.profiles@ + profile_rows(delta.profiles@)
    &&& after.sites@ == before.sites@ + site_rows(delta.sites@)
    &&& after.packages@ == before.packages@ + package_rows(delta.nodes@)
    &&& after.diagnostics@ == before.diagnostics@ + build_diagnostic_rows(delta.diagnostics@, depth)
    &&& after.build_coverages@ == before.build_coverages@.push(delta.coverage)
    &&& after.session_coverages@ == before.session_coverages@
}

/// Whether rows go on with those of a runtime session.
pub open spec fn adds_session(before: SummaryRows, delta: RuntimeSessionDelta, after: SummaryRows) -> bool {
    &&& after.profiles@ == before.profiles@ + profile_rows(seq![delta.session.profile])
    &&& after.sites@ == before.sites@ + site_rows(delta.sites@)
    &&& after.packages@ == before.packages@ + package_rows(delta.nodes@)
    &&& after.diagnostics@ == before.diagnostics@ + session_diagnostic_rows(delta.diagnostics@)
    &&& after.build_coverages@ == before.build_coverages@
    &&& after.session_coverages@ == before.session_coverages@.push(delta.session.coverage)
}

/// Adds what a build holds that lies over a scan at a depth.
pub fn add_build(rows: &mut SummaryRows, depth: u64, delta: BuildGraphDelta)
    ensures
        adds_build(*old(rows), depth, delta, *final(rows)),
{
    push_profiles(&mut rows.profiles, delta.profiles);
    push_sites(&mut rows.sites, delta.sites);
    push_packages(&mut rows.packages, delta.nodes);
    push_diagnostics(&mut rows.diagnostics, delta.diagnostics, Some(depth));
    rows.build_coverages.push(delta.coverage);
}

/// Adds what a runtime session holds that lies over a scan.
pub fn add_session(rows: &mut SummaryRows, delta: RuntimeSessionDelta)
    ensures
        adds_session(*old(rows), delta, *final(rows)),
{
    let ghost profile = delta.session.profile;
    let mut profiles: Vec<ProfileRecord> = Vec::new();
    profiles.push(delta.session.profile);
    assert(profiles@ =~= seq![profile]);
    push_profiles(&mut rows.profiles, profiles);
    push_sites(&mut rows.sites, delta.sites);
    push_packages(&mut rows.packages, delta.nodes);
    push_diagnostics(&mut rows.diagnostics, delta.diagnostics, None);
    rows.session_coverages.push(delta.session.coverage);
}

// ---------------------------------------------------------------------------------------
// The summary
// ---------------------------------------------------------------------------------------

/// Whether a summary is that of a scan attempt. The flag of the scan that says whether project
/// code was executed is that of the coverage.
pub open spec fn is_attempt_summary(
    scan: ScanRecord,
    stored: Option<CoverageRecord>,
    rows: SummaryRows,
    files: Seq<FileCoverageRecord>,
    logs: Seq<AdapterLogRecord>,
    summary: ScanAttemptSummaryRecord,
) -> bool {
    &&& summary.scan == (ScanRecord { project_code_executed: summary.coverage.project_code_executed, ..scan })
    &&& exists|sites: SiteSummary| #[trigger]
        is_effective_site_summary(rows.sites@, sites) && summary.coverage@ == summary_coverage_of(
            stored,
            scan.project_code_executed,
            rows.build_coverages@,
            rows.session_coverages@,
            summary.profile_count,
            sites,
        )
    &&& is_profile_summary(rows.profiles@, summary.profile_count, summary.profiles_by_language@)
    &&& is_distinct_count(texts(rows.packages@), summary.package_instance_count)
    &&& are_file_summaries(files, summary.file_coverage@)
    &&& are_log_summaries(logs, summary.adapter_logs@)
    &&& is_diagnostic_summary(rows.diagnostics@, summary.diagnostics)
}

/// The summary of a scan attempt, with what lies over the scan.
pub fn scan_attempt_summary(
    scan: ScanRecord,
    stored: Option<CoverageRecord>,
    rows: SummaryRows,
    files: &Vec<FileCoverageRecord>,
    logs: Vec<AdapterLogRecord>,
) -> (result: Result<ScanAttemptSummaryRecord, SummaryError>)
    ensures
        match result {
            Ok(summary) => all_totals_fit(files@) && is_attempt_summary(scan, stored, rows, files@, logs@, summary),
            Err(_) => !all_totals_fit(files@),
        },
{
    let file_coverage = match file_coverage_summary(files) {
        Ok(file_coverage) => file_coverage,
        Err(error) => {
            return Err(error);
        },
    };
    let (profile_count, profiles_by_language) = effective_profile_summary(rows.profiles);
    let sites = effective_site_summary(rows.sites);
    let coverage = summary_coverage(
        stored,
        scan.project_code_executed,
        &rows.build_coverages,
        &rows.session_coverages,
        profile_count,
        sites,
    );
    let package_instance_count = effective_package_instance_count(rows.packages);
    let mut scan = scan;
    scan.project_code_executed = coverage.project_code_executed;
    Ok(
        ScanAttemptSummaryRecord {
            scan,
            coverage,
            profile_count,
            profiles_by_language,
            package_instance_count,
            file_coverage,
            adapter_logs: adapter_log_summaries(logs),
            diagnostics: diagnostic_summary(rows.diagnostics),
        },
    )
}

} // verus!

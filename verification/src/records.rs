//! The records that the store keeps, and what the graph records hold.

use vstd::prelude::*;

use crate::json::{copy_opt_json, opt_json, opt_value, same_opt_json, Json, JsonModel};
use crate::profile_matrix::ProfileMatrixRecord;
use crate::text::{copy_texts, opt_text, same_option, same_texts, texts};

verus! {

/// One scan attempt.
#[derive(Debug, Clone, PartialEq, Eq)]
pub struct ScanRecord {
    pub id: String,
    pub root: String,
    pub status: String,
    pub strict: bool,
    pub started_at: String,
    pub completed_at: Option<String>,
    pub project_code_executed: bool,
    pub error: Option<String>,
    pub parent_snapshot_id: Option<String>,
    pub source_revision: Option<String>,
    /// Canonical policy identity used by the health analyzers for this scan. It is bound
    /// while a scan is staging and stays optional for stores that predate it.
    pub health_policy_config_digest: Option<String>,
    pub health_analyzer_version: Option<String>,
    pub health_finding_contract_version: Option<String>,
}

/// Provenance tuple attached immutably to one staging scan: opaque, bounded identities.
#[derive(Debug, Clone, PartialEq, Eq)]
pub struct ScanHealthProvenance {
    pub policy_config_digest: String,
    pub analyzer_version: String,
    pub finding_contract_version: String,
}

pub type ScanAttemptRecord = ScanRecord;

/// Proof that a staging scan was validated at a given mutation count.
#[derive(Debug)]
pub struct ValidatedScan {
    pub scan_id: String,
    pub mutation_count: i64,
}

/// What finishing a scan did.
#[derive(Debug)]
pub struct FinishedScan {
    pub completed_snapshot_id: Option<String>,
    pub promoted: bool,
}

/// Immutable service authority and request identity recorded with an operation-owned
/// staging scan before graph ingestion begins.
pub struct ScanOperationStagingIdentity<'a> {
    pub operation_id: &'a str,
    pub repository_binding_digest: &'a [u8; 32],
    pub configuration_digest: &'a [u8; 32],
    pub cache_enabled: bool,
}

/// Complete proof supplied when recovering one operation-owned scan result. The
/// repository root is the path in its lossy textual form.
pub struct ScanCompletionRecoveryIdentity<'a> {
    pub operation_id: &'a str,
    pub scan_id: &'a str,
    pub repository_root: &'a str,
    pub repository_binding_digest: &'a [u8; 32],
    pub strict: bool,
    pub cache_enabled: bool,
    pub snapshot_id: &'a str,
    pub result_digest: &'a [u8; 32],
}

/// The staging row of one scan operation together with the scan that it owns.
#[derive(Debug, Clone, PartialEq, Eq)]
pub struct ScanOperationRecoveryBinding {
    pub operation_id: String,
    pub scan_id: String,
    pub repository_binding_digest: Vec<u8>,
    pub configuration_digest: Vec<u8>,
    pub strict: bool,
    pub cache_enabled: bool,
    pub base_snapshot_id: Option<String>,
    pub validated_mutation_count: Option<i64>,
    pub prospective_snapshot_id: Option<String>,
    pub result_digest: Option<Vec<u8>>,
    pub decision_authorization_digest: Option<Vec<u8>>,
    pub root: String,
    pub status: String,
    pub scan_strict: bool,
    pub parent_snapshot_id: Option<String>,
    pub mutation_count: i64,
}

/// A staged runtime import that predates operation ownership.
#[derive(Debug, Clone, PartialEq, Eq)]
pub struct LegacyRuntimeImportCandidate {
    pub import_id: String,
    pub created_at: String,
}

/// A staging scan that predates operation ownership.
#[derive(Debug, Clone, PartialEq, Eq)]
pub struct LegacyScanOperationCandidate {
    pub scan_id: String,
    pub strict: bool,
    pub parent_snapshot_id: Option<String>,
    pub validated_mutation_count: Option<i64>,
    pub prospective_snapshot_id: Option<String>,
    pub started_at: String,
}

/// A completed scan and the snapshot that it became.
#[derive(Debug)]
pub struct CompletedScanSnapshot {
    pub scan_id: String,
    pub snapshot_id: String,
}

/// One immutable completed snapshot.
#[derive(Debug, Clone, PartialEq, Eq)]
pub struct CompletedSnapshotRecord {
    pub id: String,
    pub source_kind: String,
    pub source_attempt_id: String,
    pub scan_id: String,
    pub build_attempt_id: Option<String>,
    pub runtime_import_id: Option<String>,
    pub runtime_session_ids: Vec<String>,
    pub parent_snapshot_id: Option<String>,
    pub source_revision: Option<String>,
    pub profile_ids: Vec<String>,
    pub status: String,
    pub created_at: String,
}

/// The outcome of re-checking a completed snapshot.
#[derive(Debug, Clone, PartialEq, Eq)]
pub struct SnapshotIntegrityRecord {
    pub snapshot_id: String,
    pub valid: bool,
    pub expected_id: String,
    pub observed_id: String,
    pub reasons: Vec<String>,
}

/// A name given to a completed snapshot.
#[derive(Debug, Clone, PartialEq, Eq)]
pub struct SnapshotNameRecord {
    pub name: String,
    pub snapshot_id: String,
    pub named_at: String,
}

/// The identifying fields of a node.
#[derive(Debug, Clone, PartialEq, Eq)]
pub struct NodeSummaryRecord {
    pub id: String,
    pub kind: String,
    pub locator: String,
    pub display_name: String,
}

/// One page of a longer result.
#[derive(Debug, Clone, PartialEq, Eq)]
pub struct StorePage<T> {
    pub items: Vec<T>,
    pub total_items: u64,
}

/// How a query text is compared with a node.
#[derive(Debug, Clone, Copy, PartialEq, Eq, Structural)]
pub enum NodeTextMatch {
    Exact,
    Prefix,
    Contains,
}

impl NodeTextMatch {
    /// The name of the comparison.
    pub fn as_str(self) -> (result: &'static str)
        ensures
            result@ == match self {
                NodeTextMatch::Exact => "exact"@,
                NodeTextMatch::Prefix => "prefix"@,
                NodeTextMatch::Contains => "contains"@,
            },
    {
        match self {
            NodeTextMatch::Exact => "exact",
            NodeTextMatch::Prefix => "prefix",
            NodeTextMatch::Contains => "contains",
        }
    }
}

/// A completed snapshot with its names and its coverage.
#[derive(Debug, Clone, PartialEq, Eq)]
pub struct CompletedSnapshotDetails {
    pub snapshot: CompletedSnapshotRecord,
    pub names: Vec<String>,
    pub coverage: CoverageRecord,
}

/// How many rows a collection run deleted.
#[derive(Debug, Clone, Default, PartialEq, Eq)]
pub struct GarbageCollectionReport {
    pub scan_attempts_deleted: u64,
    pub build_attempts_deleted: u64,
    pub build_audits_deleted: u64,
}

/// The attempts that a recovery run closed.
#[derive(Debug, Clone, Default, PartialEq, Eq)]
pub struct InterruptedAttemptRecovery {
    pub scan_attempt_ids: Vec<String>,
    pub build_attempt_ids: Vec<String>,
}

/// One node of the graph.
#[derive(Debug, Clone, PartialEq)]
pub struct NodeRecord {
    pub id: String,
    pub kind: String,
    pub locator: String,
    pub display_name: String,
    pub properties: Json,
}

/// One analysis profile.
#[derive(Debug, Clone, PartialEq)]
pub struct ProfileRecord {
    pub id: String,
    pub language: String,
    pub toolchain: Option<Json>,
    pub command: Option<String>,
    pub target: Option<String>,
    pub features: Vec<String>,
    pub environment: Json,
    pub source_revision: Option<String>,
    pub properties: Json,
    pub coverage: Option<CoverageRecord>,
}

/// One dependency site.
#[derive(Debug, Clone, PartialEq)]
pub struct SiteRecord {
    pub id: String,
    pub source: String,
    pub kind: String,
    pub specifier: Option<String>,
    pub profile_id: String,
    pub resolution_status: String,
    pub precision: String,
    pub condition: Json,
    pub target_ids: Vec<String>,
    pub reason: Option<String>,
}

/// One dependency edge.
#[derive(Debug, Clone, PartialEq)]
pub struct EdgeRecord {
    pub id: String,
    pub site_id: Option<String>,
    pub source: String,
    pub target: String,
    pub kind: String,
    pub phase: String,
    pub environment: String,
    pub profile_id: String,
    pub resolution_status: String,
    pub precision: String,
    pub condition: Json,
    pub generated: bool,
}

/// Coverage counters with the completeness levels reached and the reasons for gaps.
#[derive(Debug, Clone, PartialEq, Eq)]
pub struct CoverageRecord {
    pub profiles: u64,
    pub files_discovered: u64,
    pub files_analyzed: u64,
    pub files_skipped: u64,
    pub dependency_sites: u64,
    pub resolved: u64,
    pub candidates: u64,
    pub external: u64,
    pub unresolved: u64,
    pub unsupported_syntax: u64,
    pub project_code_executed: bool,
    pub completeness: Vec<String>,
    pub reasons: Vec<String>,
}

/// One diagnostic.
#[derive(Debug, Clone, PartialEq)]
pub struct DiagnosticRecord {
    pub ordinal: i64,
    pub id: String,
    pub severity: String,
    pub code: String,
    pub message: String,
    pub path: Option<String>,
    pub adapter: Option<String>,
    pub start_line: Option<u64>,
    pub start_column: Option<u64>,
    pub end_line: Option<u64>,
    pub end_column: Option<u64>,
    pub properties: Json,
}

/// One piece of evidence for a site, an edge or a diagnostic.
#[derive(Debug, Clone, PartialEq)]
pub struct EvidenceRecord {
    pub owner_type: String,
    pub owner_id: String,
    pub ordinal: i64,
    pub kind: String,
    pub extractor: String,
    pub extractor_version: String,
    pub path: String,
    pub start_line: u64,
    pub start_column: u64,
    pub end_line: u64,
    pub end_column: u64,
    pub detail: Option<String>,
    pub properties: Json,
}

/// The site ledger of one file.
#[derive(Debug, Clone, PartialEq, Eq)]
pub struct FileCoverageRecord {
    pub adapter: String,
    pub path: String,
    pub discovered_sites: u64,
    pub emitted_sites: u64,
    pub skipped_sites: u64,
    pub skipped: bool,
    pub reason: Option<String>,
}

/// What one adapter wrote to its error stream.
#[derive(Debug, Clone, PartialEq, Eq)]
pub struct AdapterLogRecord {
    pub adapter: String,
    pub stderr: String,
    pub truncated: bool,
}

/// How many diagnostics share a severity, a code and an adapter.
#[derive(Debug, Clone, PartialEq, Eq)]
pub struct DiagnosticGroupSummaryRecord {
    pub severity: String,
    pub code: String,
    pub adapter: Option<String>,
    pub count: u64,
}

/// A diagnostic with its texts cut to a bounded length.
#[derive(Debug, Clone, PartialEq, Eq)]
pub struct DiagnosticSampleSummaryRecord {
    pub id: String,
    pub severity: String,
    pub code: String,
    pub message: String,
    pub path: Option<String>,
    pub adapter: Option<String>,
}

/// The diagnostics of a scan in bounded form.
#[derive(Debug, Clone, PartialEq, Eq)]
pub struct DiagnosticSummaryRecord {
    pub total: u64,
    pub groups: Vec<DiagnosticGroupSummaryRecord>,
    pub omitted_groups: u64,
    pub omitted_diagnostics: u64,
    pub samples: Vec<DiagnosticSampleSummaryRecord>,
}

/// The file ledger of one adapter in total.
#[derive(Debug, Clone, PartialEq, Eq)]
pub struct FileCoverageSummaryRecord {
    pub adapter: String,
    pub files: u64,
    pub skipped_files: u64,
    pub discovered_sites: u64,
    pub emitted_sites: u64,
    pub skipped_sites: u64,
}

/// The size of one adapter log.
#[derive(Debug, Clone, PartialEq, Eq)]
pub struct AdapterLogSummaryRecord {
    pub adapter: String,
    pub stderr_bytes: u64,
    pub truncated: bool,
}

/// One scan attempt in bounded form. `profiles_by_language` stands in ascending order of
/// the languages.
#[derive(Debug, Clone, PartialEq, Eq)]
pub struct ScanAttemptSummaryRecord {
    pub scan: ScanRecord,
    pub coverage: CoverageRecord,
    pub profile_count: u64,
    pub profiles_by_language: Vec<(String, u64)>,
    pub package_instance_count: u64,
    pub file_coverage: Vec<FileCoverageSummaryRecord>,
    pub adapter_logs: Vec<AdapterLogSummaryRecord>,
    pub diagnostics: DiagnosticSummaryRecord,
}

/// The audit of one build run.
#[derive(Debug, Clone, PartialEq)]
pub struct BuildAuditRecord {
    pub run_id: String,
    pub outcome: String,
    pub started_at: String,
    pub finished_at: String,
    pub audit: Json,
}

/// One build observation attempt.
#[derive(Debug, Clone, PartialEq, Eq)]
pub struct BuildAttemptRecord {
    pub id: String,
    pub base_scan_id: String,
    pub base_snapshot_id: Option<String>,
    pub audit_run_id: String,
    pub status: String,
    pub observer: String,
    pub observer_version: String,
    pub profile_id: String,
    pub command_plan_digest: String,
    pub toolchain_executable_digest: String,
    pub environment_key_set_digest: String,
    pub validated_output_digest: Option<String>,
    pub started_at: String,
    pub completed_at: Option<String>,
    pub error: Option<String>,
}

/// What a build observation adds to a scan.
#[derive(Debug, Clone, PartialEq)]
pub struct BuildGraphDelta {
    pub profiles: Vec<ProfileRecord>,
    pub nodes: Vec<NodeRecord>,
    pub sites: Vec<SiteRecord>,
    pub edges: Vec<EdgeRecord>,
    pub evidence: Vec<EvidenceRecord>,
    pub diagnostics: Vec<DiagnosticRecord>,
    pub coverage: CoverageRecord,
}

/// The whole graph of one scan or snapshot.
#[derive(Debug, Clone, PartialEq)]
pub struct GraphSnapshot {
    pub scan: ScanRecord,
    pub profiles: Vec<ProfileRecord>,
    pub nodes: Vec<NodeRecord>,
    pub sites: Vec<SiteRecord>,
    pub edges: Vec<EdgeRecord>,
    pub evidence: Vec<EvidenceRecord>,
    pub diagnostics: Vec<DiagnosticRecord>,
    pub file_coverage: Vec<FileCoverageRecord>,
    pub adapter_logs: Vec<AdapterLogRecord>,
    pub coverage: CoverageRecord,
    pub profile_matrix: ProfileMatrixRecord,
}

/// Coverage and diagnostics of a validated scan.
#[derive(Debug)]
pub struct ValidatedScanSummary {
    pub coverage: CoverageRecord,
    pub diagnostics: Vec<DiagnosticRecord>,
}

/// The graph without anything but its shape.
#[derive(Debug, Clone, PartialEq, Eq)]
pub struct GraphTopology {
    pub nodes: Vec<GraphTopologyNode>,
    pub edges: Vec<GraphTopologyEdge>,
}

#[derive(Debug, Clone, PartialEq, Eq)]
pub struct GraphTopologyNode {
    pub id: String,
    pub kind: String,
}

#[derive(Debug, Clone, PartialEq, Eq)]
pub struct GraphTopologyEdge {
    pub source: String,
    pub target: String,
}

impl Default for CoverageRecord {
    fn default() -> (result: CoverageRecord)
        ensures
            result@ == coverage_zero(),
    {
        let result = CoverageRecord {
            profiles: 0,
            files_discovered: 0,
            files_analyzed: 0,
            files_skipped: 0,
            dependency_sites: 0,
            resolved: 0,
            candidates: 0,
            external: 0,
            unresolved: 0,
            unsupported_syntax: 0,
            project_code_executed: false,
            completeness: Vec::new(),
            reasons: Vec::new(),
        };
        assert(result@ =~= coverage_zero());
        result
    }
}

/// Coverage with nothing counted.
pub open spec fn coverage_zero() -> CoverageModel {
    CoverageModel {
        profiles: 0,
        files_discovered: 0,
        files_analyzed: 0,
        files_skipped: 0,
        dependency_sites: 0,
        resolved: 0,
        candidates: 0,
        external: 0,
        unresolved: 0,
        unsupported_syntax: 0,
        project_code_executed: false,
        completeness: Seq::empty(),
        reasons: Seq::empty(),
    }
}

/// What a coverage record holds.
#[verifier::ext_equal]
pub struct CoverageModel {
    pub profiles: u64,
    pub files_discovered: u64,
    pub files_analyzed: u64,
    pub files_skipped: u64,
    pub dependency_sites: u64,
    pub resolved: u64,
    pub candidates: u64,
    pub external: u64,
    pub unresolved: u64,
    pub unsupported_syntax: u64,
    pub project_code_executed: bool,
    pub completeness: Seq<Seq<char>>,
    pub reasons: Seq<Seq<char>>,
}

impl View for CoverageRecord {
    type V = CoverageModel;

    open spec fn view(&self) -> CoverageModel {
        CoverageModel {
            profiles: self.profiles,
            files_discovered: self.files_discovered,
            files_analyzed: self.files_analyzed,
            files_skipped: self.files_skipped,
            dependency_sites: self.dependency_sites,
            resolved: self.resolved,
            candidates: self.candidates,
            external: self.external,
            unresolved: self.unresolved,
            unsupported_syntax: self.unsupported_syntax,
            project_code_executed: self.project_code_executed,
            completeness: texts(self.completeness@),
            reasons: texts(self.reasons@),
        }
    }
}

impl CoverageRecord {
    /// A copy of the coverage record.
    pub fn copy(&self) -> (result: CoverageRecord)
        ensures
            result@ == self@,
    {
        CoverageRecord {
            profiles: self.profiles,
            files_discovered: self.files_discovered,
            files_analyzed: self.files_analyzed,
            files_skipped: self.files_skipped,
            dependency_sites: self.dependency_sites,
            resolved: self.resolved,
            candidates: self.candidates,
            external: self.external,
            unresolved: self.unresolved,
            unsupported_syntax: self.unsupported_syntax,
            project_code_executed: self.project_code_executed,
            completeness: copy_texts(&self.completeness),
            reasons: copy_texts(&self.reasons),
        }
    }

    /// Whether two of them are the same.
    pub fn same_as(&self, other: &CoverageRecord) -> (result: bool)
        ensures
            result == (self@ == other@),
    {
        self.profiles == other.profiles
            && self.files_discovered == other.files_discovered
            && self.files_analyzed == other.files_analyzed
            && self.files_skipped == other.files_skipped
            && self.dependency_sites == other.dependency_sites
            && self.resolved == other.resolved
            && self.candidates == other.candidates
            && self.external == other.external
            && self.unresolved == other.unresolved
            && self.unsupported_syntax == other.unsupported_syntax
            && self.project_code_executed == other.project_code_executed
            && same_texts(&self.completeness, &other.completeness)
            && same_texts(&self.reasons, &other.reasons)
    }
}

/// What a node holds.
#[verifier::ext_equal]
pub struct NodeModel {
    pub id: Seq<char>,
    pub kind: Seq<char>,
    pub locator: Seq<char>,
    pub display_name: Seq<char>,
    pub properties: JsonModel,
}

impl NodeModel {
    /// A node by value: floating-point zeros of either sign are one.
    pub open spec fn value(self) -> NodeModel {
        NodeModel { properties: self.properties.value(), ..self }
    }
}

impl View for NodeRecord {
    type V = NodeModel;

    open spec fn view(&self) -> NodeModel {
        NodeModel {
            id: self.id@,
            kind: self.kind@,
            locator: self.locator@,
            display_name: self.display_name@,
            properties: self.properties@,
        }
    }
}

impl NodeRecord {
    /// A copy of the node.
    pub fn copy(&self) -> (result: NodeRecord)
        ensures
            result@ == self@,
    {
        NodeRecord {
            id: self.id.clone(),
            kind: self.kind.clone(),
            locator: self.locator.clone(),
            display_name: self.display_name.clone(),
            properties: self.properties.copy(),
        }
    }

    /// Whether two of them are the same.
    pub fn same_as(&self, other: &NodeRecord) -> (result: bool)
        ensures
            result == (self@.value() == other@.value()),
    {
        self.id == other.id
            && self.kind == other.kind
            && self.locator == other.locator
            && self.display_name == other.display_name
            && self.properties.same_value(&other.properties)
    }
}

/// What a profile holds.
#[verifier::ext_equal]
pub struct ProfileModel {
    pub id: Seq<char>,
    pub language: Seq<char>,
    pub toolchain: Option<JsonModel>,
    pub command: Option<Seq<char>>,
    pub target: Option<Seq<char>>,
    pub features: Seq<Seq<char>>,
    pub environment: JsonModel,
    pub source_revision: Option<Seq<char>>,
    pub properties: JsonModel,
    pub coverage: Option<CoverageModel>,
}

impl ProfileModel {
    /// A profile by value: floating-point zeros of either sign are one.
    pub open spec fn value(self) -> ProfileModel {
        ProfileModel {
            toolchain: opt_value(self.toolchain),
            environment: self.environment.value(),
            properties: self.properties.value(),
            ..self
        }
    }
}

impl View for ProfileRecord {
    type V = ProfileModel;

    open spec fn view(&self) -> ProfileModel {
        ProfileModel {
            id: self.id@,
            language: self.language@,
            toolchain: opt_json(self.toolchain),
            command: opt_text(self.command),
            target: opt_text(self.target),
            features: texts(self.features@),
            environment: self.environment@,
            source_revision: opt_text(self.source_revision),
            properties: self.properties@,
            coverage: opt_coverage(self.coverage),
        }
    }
}

impl ProfileRecord {
    /// A copy of the profile.
    pub fn copy(&self) -> (result: ProfileRecord)
        ensures
            result@ == self@,
    {
        ProfileRecord {
            id: self.id.clone(),
            language: self.language.clone(),
            toolchain: copy_opt_json(&self.toolchain),
            command: self.command.clone(),
            target: self.target.clone(),
            features: copy_texts(&self.features),
            environment: self.environment.copy(),
            source_revision: self.source_revision.clone(),
            properties: self.properties.copy(),
            coverage: copy_opt_coverage(&self.coverage),
        }
    }

    /// Whether two of them are the same.
    pub fn same_as(&self, other: &ProfileRecord) -> (result: bool)
        ensures
            result == (self@.value() == other@.value()),
    {
        self.id == other.id
            && self.language == other.language
            && same_opt_json(&self.toolchain, &other.toolchain)
            && same_option(&self.command, &other.command)
            && same_option(&self.target, &other.target)
            && same_texts(&self.features, &other.features)
            && self.environment.same_value(&other.environment)
            && same_option(&self.source_revision, &other.source_revision)
            && self.properties.same_value(&other.properties)
            && same_opt_coverage(&self.coverage, &other.coverage)
    }
}

/// What a site holds.
#[verifier::ext_equal]
pub struct SiteModel {
    pub id: Seq<char>,
    pub source: Seq<char>,
    pub kind: Seq<char>,
    pub specifier: Option<Seq<char>>,
    pub profile_id: Seq<char>,
    pub resolution_status: Seq<char>,
    pub precision: Seq<char>,
    pub condition: JsonModel,
    pub target_ids: Seq<Seq<char>>,
    pub reason: Option<Seq<char>>,
}

impl SiteModel {
    /// A site by value: floating-point zeros of either sign are one.
    pub open spec fn value(self) -> SiteModel {
        SiteModel { condition: self.condition.value(), ..self }
    }
}

impl View for SiteRecord {
    type V = SiteModel;

    open spec fn view(&self) -> SiteModel {
        SiteModel {
            id: self.id@,
            source: self.source@,
            kind: self.kind@,
            specifier: opt_text(self.specifier),
            profile_id: self.profile_id@,
            resolution_status: self.resolution_status@,
            precision: self.precision@,
            condition: self.condition@,
            target_ids: texts(self.target_ids@),
            reason: opt_text(self.reason),
        }
    }
}

impl SiteRecord {
    /// A copy of the site.
    pub fn copy(&self) -> (result: SiteRecord)
        ensures
            result@ == self@,
    {
        SiteRecord {
            id: self.id.clone(),
            source: self.source.clone(),
            kind: self.kind.clone(),
            specifier: self.specifier.clone(),
            profile_id: self.profile_id.clone(),
            resolution_status: self.resolution_status.clone(),
            precision: self.precision.clone(),
            condition: self.condition.copy(),
            target_ids: copy_texts(&self.target_ids),
            reason: self.reason.clone(),
        }
    }

    /// Whether two of them are the same.
    pub fn same_as(&self, other: &SiteRecord) -> (result: bool)
        ensures
            result == (self@.value() == other@.value()),
    {
        self.id == other.id
            && self.source == other.source
            && self.kind == other.kind
            && same_option(&self.specifier, &other.specifier)
            && self.profile_id == other.profile_id
            && self.resolution_status == other.resolution_status
            && self.precision == other.precision
            && self.condition.same_value(&other.condition)
            && same_texts(&self.target_ids, &other.target_ids)
            && same_option(&self.reason, &other.reason)
    }
}

/// What a edge holds.
#[verifier::ext_equal]
pub struct EdgeModel {
    pub id: Seq<char>,
    pub site_id: Option<Seq<char>>,
    pub source: Seq<char>,
    pub target: Seq<char>,
    pub kind: Seq<char>,
    pub phase: Seq<char>,
    pub environment: Seq<char>,
    pub profile_id: Seq<char>,
    pub resolution_status: Seq<char>,
    pub precision: Seq<char>,
    pub condition: JsonModel,
    pub generated: bool,
}

impl EdgeModel {
    /// An edge by value: floating-point zeros of either sign are one.
    pub open spec fn value(self) -> EdgeModel {
        EdgeModel { condition: self.condition.value(), ..self }
    }
}

impl View for EdgeRecord {
    type V = EdgeModel;

    open spec fn view(&self) -> EdgeModel {
        EdgeModel {
            id: self.id@,
            site_id: opt_text(self.site_id),
            source: self.source@,
            target: self.target@,
            kind: self.kind@,
            phase: self.phase@,
            environment: self.environment@,
            profile_id: self.profile_id@,
            resolution_status: self.resolution_status@,
            precision: self.precision@,
            condition: self.condition@,
            generated: self.generated,
        }
    }
}

impl EdgeRecord {
    /// A copy of the edge.
    pub fn copy(&self) -> (result: EdgeRecord)
        ensures
            result@ == self@,
    {
        EdgeRecord {
            id: self.id.clone(),
            site_id: self.site_id.clone(),
            source: self.source.clone(),
            target: self.target.clone(),
            kind: self.kind.clone(),
            phase: self.phase.clone(),
            environment: self.environment.clone(),
            profile_id: self.profile_id.clone(),
            resolution_status: self.resolution_status.clone(),
            precision: self.precision.clone(),
            condition: self.condition.copy(),
            generated: self.generated,
        }
    }

    /// Whether two of them are the same.
    pub fn same_as(&self, other: &EdgeRecord) -> (result: bool)
        ensures
            result == (self@.value() == other@.value()),
    {
        self.id == other.id
            && same_option(&self.site_id, &other.site_id)
            && self.source == other.source
            && self.target == other.target
            && self.kind == other.kind
            && self.phase == other.phase
            && self.environment == other.environment
            && self.profile_id == other.profile_id
            && self.resolution_status == other.resolution_status
            && self.precision == other.precision
            && self.condition.same_value(&other.condition)
            && self.generated == other.generated
    }
}

/// What a diagnostic holds.
#[verifier::ext_equal]
pub struct DiagnosticModel {
    pub ordinal: i64,
    pub id: Seq<char>,
    pub severity: Seq<char>,
    pub code: Seq<char>,
    pub message: Seq<char>,
    pub path: Option<Seq<char>>,
    pub adapter: Option<Seq<char>>,
    pub start_line: Option<u64>,
    pub start_column: Option<u64>,
    pub end_line: Option<u64>,
    pub end_column: Option<u64>,
    pub properties: JsonModel,
}

impl DiagnosticModel {
    /// A diagnostic by value: floating-point zeros of either sign are one.
    pub open spec fn value(self) -> DiagnosticModel {
        DiagnosticModel { properties: self.properties.value(), ..self }
    }
}

impl View for DiagnosticRecord {
    type V = DiagnosticModel;

    open spec fn view(&self) -> DiagnosticModel {
        DiagnosticModel {
            ordinal: self.ordinal,
            id: self.id@,
            severity: self.severity@,
            code: self.code@,
            message: self.message@,
            path: opt_text(self.path),
            adapter: opt_text(self.adapter),
            start_line: self.start_line,
            start_column: self.start_column,
            end_line: self.end_line,
            end_column: self.end_column,
            properties: self.properties@,
        }
    }
}

impl DiagnosticRecord {
    /// A copy of the diagnostic.
    pub fn copy(&self) -> (result: DiagnosticRecord)
        ensures
            result@ == self@,
    {
        DiagnosticRecord {
            ordinal: self.ordinal,
            id: self.id.clone(),
            severity: self.severity.clone(),
            code: self.code.clone(),
            message: self.message.clone(),
            path: self.path.clone(),
            adapter: self.adapter.clone(),
            start_line: self.start_line,
            start_column: self.start_column,
            end_line: self.end_line,
            end_column: self.end_column,
            properties: self.properties.copy(),
        }
    }

    /// Whether two of them are the same.
    pub fn same_as(&self, other: &DiagnosticRecord) -> (result: bool)
        ensures
            result == (self@.value() == other@.value()),
    {
        self.ordinal == other.ordinal
            && self.id == other.id
            && self.severity == other.severity
            && self.code == other.code
            && self.message == other.message
            && same_option(&self.path, &other.path)
            && same_option(&self.adapter, &other.adapter)
            && same_opt_number(self.start_line, other.start_line)
            && same_opt_number(self.start_column, other.start_column)
            && same_opt_number(self.end_line, other.end_line)
            && same_opt_number(self.end_column, other.end_column)
            && self.properties.same_value(&other.properties)
    }
}

/// What a piece of evidence holds.
#[verifier::ext_equal]
pub struct EvidenceModel {
    pub owner_type: Seq<char>,
    pub owner_id: Seq<char>,
    pub ordinal: i64,
    pub kind: Seq<char>,
    pub extractor: Seq<char>,
    pub extractor_version: Seq<char>,
    pub path: Seq<char>,
    pub start_line: u64,
    pub start_column: u64,
    pub end_line: u64,
    pub end_column: u64,
    pub detail: Option<Seq<char>>,
    pub properties: JsonModel,
}

impl EvidenceModel {
    /// A piece of evidence by value: floating-point zeros of either sign are one.
    pub open spec fn value(self) -> EvidenceModel {
        EvidenceModel { properties: self.properties.value(), ..self }
    }
}

impl View for EvidenceRecord {
    type V = EvidenceModel;

    open spec fn view(&self) -> EvidenceModel {
        EvidenceModel {
            owner_type: self.owner_type@,
            owner_id: self.owner_id@,
            ordinal: self.ordinal,
            kind: self.kind@,
            extractor: self.extractor@,
            extractor_version: self.extractor_version@,
            path: self.path@,
            start_line: self.start_line,
            start_column: self.start_column,
            end_line: self.end_line,
            end_column: self.end_column,
            detail: opt_text(self.detail),
            properties: self.properties@,
        }
    }
}

impl EvidenceRecord {
    /// A copy of the piece of evidence.
    pub fn copy(&self) -> (result: EvidenceRecord)
        ensures
            result@ == self@,
    {
        EvidenceRecord {
            owner_type: self.owner_type.clone(),
            owner_id: self.owner_id.clone(),
            ordinal: self.ordinal,
            kind: self.kind.clone(),
            extractor: self.extractor.clone(),
            extractor_version: self.extractor_version.clone(),
            path: self.path.clone(),
            start_line: self.start_line,
            start_column: self.start_column,
            end_line: self.end_line,
            end_column: self.end_column,
            detail: self.detail.clone(),
            properties: self.properties.copy(),
        }
    }

    /// Whether two of them are the same.
    pub fn same_as(&self, other: &EvidenceRecord) -> (result: bool)
        ensures
            result == (self@.value() == other@.value()),
    {
        self.owner_type == other.owner_type
            && self.owner_id == other.owner_id
            && self.ordinal == other.ordinal
            && self.kind == other.kind
            && self.extractor == other.extractor
            && self.extractor_version == other.extractor_version
            && self.path == other.path
            && self.start_line == other.start_line
            && self.start_column == other.start_column
            && self.end_line == other.end_line
            && self.end_column == other.end_column
            && same_option(&self.detail, &other.detail)
            && self.properties.same_value(&other.properties)
    }
}

/// What optional coverage holds.
pub open spec fn opt_coverage(value: Option<CoverageRecord>) -> Option<CoverageModel> {
    match value {
        Some(coverage) => Some(coverage@),
        None => None,
    }
}

fn copy_opt_coverage(value: &Option<CoverageRecord>) -> (result: Option<CoverageRecord>)
    ensures
        opt_coverage(result) == opt_coverage(*value),
{
    match value {
        Some(coverage) => Some(coverage.copy()),
        None => None,
    }
}

fn same_opt_coverage(a: &Option<CoverageRecord>, b: &Option<CoverageRecord>) -> (result: bool)
    ensures
        result == (opt_coverage(*a) == opt_coverage(*b)),
{
    match (a, b) {
        (Some(a), Some(b)) => a.same_as(b),
        (None, None) => true,
        _ => false,
    }
}

fn same_opt_number(a: Option<u64>, b: Option<u64>) -> (result: bool)
    ensures
        result == (a == b),
{
    match (a, b) {
        (Some(a), Some(b)) => a == b,
        (None, None) => true,
        _ => false,
    }
}

} // verus!

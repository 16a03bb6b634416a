//! When two records are the same.

use vstd::prelude::*;

use crate::records::{
    CoverageRecord, DiagnosticRecord, EdgeRecord, EvidenceRecord, NodeRecord, ProfileRecord, SiteRecord,
};
use crate::text::{opt_text, texts};

verus! {

/// Coverage is the same where every field is.
pub proof fn coverage_is_the_same_by_every_field(a: &CoverageRecord, b: &CoverageRecord, result: bool)
    requires
        call_ensures(CoverageRecord::same_as, (a, b), result),
    ensures
        result <==> {
            &&& a.profiles == b.profiles
            &&& a.files_discovered == b.files_discovered
            &&& a.files_analyzed == b.files_analyzed
            &&& a.files_skipped == b.files_skipped
            &&& a.dependency_sites == b.dependency_sites
            &&& a.resolved == b.resolved
            &&& a.candidates == b.candidates
            &&& a.external == b.external
            &&& a.unresolved == b.unresolved
            &&& a.unsupported_syntax == b.unsupported_syntax
            &&& a.project_code_executed == b.project_code_executed
            &&& texts(a.completeness@) == texts(b.completeness@)
            &&& texts(a.reasons@) == texts(b.reasons@)
        },
{
}

/// A copy of coverage keeps every field.
pub proof fn copied_coverage_keeps_every_field(a: &CoverageRecord, b: CoverageRecord)
    requires
        call_ensures(CoverageRecord::copy, (a,), b),
    ensures
        a.profiles == b.profiles,
        a.files_discovered == b.files_discovered,
        a.files_analyzed == b.files_analyzed,
        a.files_skipped == b.files_skipped,
        a.dependency_sites == b.dependency_sites,
        a.resolved == b.resolved,
        a.candidates == b.candidates,
        a.external == b.external,
        a.unresolved == b.unresolved,
        a.unsupported_syntax == b.unsupported_syntax,
        a.project_code_executed == b.project_code_executed,
        texts(a.completeness@) == texts(b.completeness@),
        texts(a.reasons@) == texts(b.reasons@),
{
    assert(a@ == b@);
}

/// Nodes are the same where every field is, and JSON has the same value.
pub proof fn nodes_are_the_same_by_every_field(a: &NodeRecord, b: &NodeRecord, result: bool)
    requires
        call_ensures(NodeRecord::same_as, (a, b), result),
    ensures
        result <==> {
            &&& a.id@ == b.id@
            &&& a.kind@ == b.kind@
            &&& a.locator@ == b.locator@
            &&& a.display_name@ == b.display_name@
            &&& a.properties@.value() == b.properties@.value()
        },
{
}

/// A copy of one of the nodes keeps every field.
pub proof fn copied_nodes_keep_every_field(a: &NodeRecord, b: NodeRecord)
    requires
        call_ensures(NodeRecord::copy, (a,), b),
    ensures
        a.id@ == b.id@,
        a.kind@ == b.kind@,
        a.locator@ == b.locator@,
        a.display_name@ == b.display_name@,
        a.properties@ == b.properties@,
{
    assert(a@ == b@);
}

/// Profiles are the same where every field is, and JSON has the same value.
pub proof fn profiles_are_the_same_by_every_field(a: &ProfileRecord, b: &ProfileRecord, result: bool)
    requires
        call_ensures(ProfileRecord::same_as, (a, b), result),
    ensures
        result <==> {
            &&& a.id@ == b.id@
            &&& a.language@ == b.language@
            &&& (a.toolchain is Some <==> b.toolchain is Some) && (a.toolchain is Some ==> a.toolchain->0@.value() == b.toolchain->0@.value())
            &&& opt_text(a.command) == opt_text(b.command)
            &&& opt_text(a.target) == opt_text(b.target)
            &&& texts(a.features@) == texts(b.features@)
            &&& a.environment@.value() == b.environment@.value()
            &&& opt_text(a.source_revision) == opt_text(b.source_revision)
            &&& a.properties@.value() == b.properties@.value()
            &&& (a.coverage is Some <==> b.coverage is Some) && (a.coverage is Some ==> a.coverage->0@ == b.coverage->0@)
        },
{
}

/// A copy of one of the profiles keeps every field.
pub proof fn copied_profiles_keep_every_field(a: &ProfileRecord, b: ProfileRecord)
    requires
        call_ensures(ProfileRecord::copy, (a,), b),
    ensures
        a.id@ == b.id@,
        a.language@ == b.language@,
        (a.toolchain is Some <==> b.toolchain is Some) && (a.toolchain is Some ==> a.toolchain->0@ == b.toolchain->0@),
        opt_text(a.command) == opt_text(b.command),
        opt_text(a.target) == opt_text(b.target),
        texts(a.features@) == texts(b.features@),
        a.environment@ == b.environment@,
        opt_text(a.source_revision) == opt_text(b.source_revision),
        a.properties@ == b.properties@,
        (a.coverage is Some <==> b.coverage is Some) && (a.coverage is Some ==> a.coverage->0@ == b.coverage->0@),
{
    assert(a@ == b@);
}

/// Sites are the same where every field is, and JSON has the same value.
pub proof fn sites_are_the_same_by_every_field(a: &SiteRecord, b: &SiteRecord, result: bool)
    requires
        call_ensures(SiteRecord::same_as, (a, b), result),
    ensures
        result <==> {
            &&& a.id@ == b.id@
            &&& a.source@ == b.source@
            &&& a.kind@ == b.kind@
            &&& opt_text(a.specifier) == opt_text(b.specifier)
            &&& a.profile_id@ == b.profile_id@
            &&& a.resolution_status@ == b.resolution_status@
            &&& a.precision@ == b.precision@
            &&& a.condition@.value() == b.condition@.value()
            &&& texts(a.target_ids@) == texts(b.target_ids@)
            &&& opt_text(a.reason) == opt_text(b.reason)
        },
{
}

/// A copy of one of the sites keeps every field.
pub proof fn copied_sites_keep_every_field(a: &SiteRecord, b: SiteRecord)
    requires
        call_ensures(SiteRecord::copy, (a,), b),
    ensures
        a.id@ == b.id@,
        a.source@ == b.source@,
        a.kind@ == b.kind@,
        opt_text(a.specifier) == opt_text(b.specifier),
        a.profile_id@ == b.profile_id@,
        a.resolution_status@ == b.resolution_status@,
        a.precision@ == b.precision@,
        a.condition@ == b.condition@,
        texts(a.target_ids@) == texts(b.target_ids@),
        opt_text(a.reason) == opt_text(b.reason),
{
    assert(a@ == b@);
}

/// Edges are the same where every field is, and JSON has the same value.
pub proof fn edges_are_the_same_by_every_field(a: &EdgeRecord, b: &EdgeRecord, result: bool)
    requires
        call_ensures(EdgeRecord::same_as, (a, b), result),
    ensures
        result <==> {
            &&& a.id@ == b.id@
            &&& opt_text(a.site_id) == opt_text(b.site_id)
            &&& a.source@ == b.source@
            &&& a.target@ == b.target@
            &&& a.kind@ == b.kind@
            &&& a.phase@ == b.phase@
            &&& a.environment@ == b.environment@
            &&& a.profile_id@ == b.profile_id@
            &&& a.resolution_status@ == b.resolution_status@
            &&& a.precision@ == b.precision@
            &&& a.condition@.value() == b.condition@.value()
            &&& a.generated == b.generated
        },
{
}

/// A copy of one of the edges keeps every field.
pub proof fn copied_edges_keep_every_field(a: &EdgeRecord, b: EdgeRecord)
    requires
        call_ensures(EdgeRecord::copy, (a,), b),
    ensures
        a.id@ == b.id@,
        opt_text(a.site_id) == opt_text(b.site_id),
        a.source@ == b.source@,
        a.target@ == b.target@,
        a.kind@ == b.kind@,
        a.phase@ == b.phase@,
        a.environment@ == b.environment@,
        a.profile_id@ == b.profile_id@,
        a.resolution_status@ == b.resolution_status@,
        a.precision@ == b.precision@,
        a.condition@ == b.condition@,
        a.generated == b.generated,
{
    assert(a@ == b@);
}

/// Diagnostics are the same where every field is, and JSON has the same value.
pub proof fn diagnostics_are_the_same_by_every_field(a: &DiagnosticRecord, b: &DiagnosticRecord, result: bool)
    requires
        call_ensures(DiagnosticRecord::same_as, (a, b), result),
    ensures
        result <==> {
            &&& a.ordinal == b.ordinal
            &&& a.id@ == b.id@
            &&& a.severity@ == b.severity@
            &&& a.code@ == b.code@
            &&& a.message@ == b.message@
            &&& opt_text(a.path) == opt_text(b.path)
            &&& opt_text(a.adapter) == opt_text(b.adapter)
            &&& a.start_line == b.start_line
            &&& a.start_column == b.start_column
            &&& a.end_line == b.end_line
            &&& a.end_column == b.end_column
            &&& a.properties@.value() == b.properties@.value()
        },
{
}

/// A copy of one of the diagnostics keeps every field.
pub proof fn copied_diagnostics_keep_every_field(a: &DiagnosticRecord, b: DiagnosticRecord)
    requires
        call_ensures(DiagnosticRecord::copy, (a,), b),
    ensures
        a.ordinal == b.ordinal,
        a.id@ == b.id@,
        a.severity@ == b.severity@,
        a.code@ == b.code@,
        a.message@ == b.message@,
        opt_text(a.path) == opt_text(b.path),
        opt_text(a.adapter) == opt_text(b.adapter),
        a.start_line == b.start_line,
        a.start_column == b.start_column,
        a.end_line == b.end_line,
        a.end_column == b.end_column,
        a.properties@ == b.properties@,
{
    assert(a@ == b@);
}

/// Evidence is the same where every field is, and JSON has the same value.
pub proof fn evidence_is_the_same_by_every_field(a: &EvidenceRecord, b: &EvidenceRecord, result: bool)
    requires
        call_ensures(EvidenceRecord::same_as, (a, b), result),
    ensures
        result <==> {
            &&& a.owner_type@ == b.owner_type@
            &&& a.owner_id@ == b.owner_id@
            &&& a.ordinal == b.ordinal
            &&& a.kind@ == b.kind@
            &&& a.extractor@ == b.extractor@
            &&& a.extractor_version@ == b.extractor_version@
            &&& a.path@ == b.path@
            &&& a.start_line == b.start_line
            &&& a.start_column == b.start_column
            &&& a.end_line == b.end_line
            &&& a.end_column == b.end_column
            &&& opt_text(a.detail) == opt_text(b.detail)
            &&& a.properties@.value() == b.properties@.value()
        },
{
}

/// A copy of evidence keeps every field.
pub proof fn copied_evidence_keeps_every_field(a: &EvidenceRecord, b: EvidenceRecord)
    requires
        call_ensures(EvidenceRecord::copy, (a,), b),
    ensures
        a.owner_type@ == b.owner_type@,
        a.owner_id@ == b.owner_id@,
        a.ordinal == b.ordinal,
        a.kind@ == b.kind@,
        a.extractor@ == b.extractor@,
        a.extractor_version@ == b.extractor_version@,
        a.path@ == b.path@,
        a.start_line == b.start_line,
        a.start_column == b.start_column,
        a.end_line == b.end_line,
        a.end_column == b.end_column,
        opt_text(a.detail) == opt_text(b.detail),
        a.properties@ == b.properties@,
{
    assert(a@ == b@);
}

} // verus!

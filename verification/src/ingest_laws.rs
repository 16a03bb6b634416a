//! What an event writes, said of the fields of the event and of the row.

use vstd::prelude::*;

use crate::counting::selected_is_wanted;
use crate::ingest::{
    decimal_text, event_error, event_kind_of, features_of, is_text, owners_grow, read_diagnostic, read_evidence,
    read_profile, text_at, writes_edge, writes_event, writes_site, EventField, EventKind, EvidenceOwners, EvidenceRow,
    DiagnosticRow, GraphEdgeRow, GraphSiteRow, IngestError, IngestStep, OwnerKind,
};
use crate::json::JsonModel;
use crate::text::opt_text;

verus! {

proof fn event_names_are_told_apart()
    ensures
        event_kind_of("scan_started"@) == Some(EventKind::ScanStarted),
        event_kind_of("profile_declared"@) == Some(EventKind::ProfileDeclared),
        event_kind_of("node_upsert"@) == Some(EventKind::NodeUpsert),
        event_kind_of("dependency_site"@) == Some(EventKind::DependencySite),
        event_kind_of("edge_upsert"@) == Some(EventKind::EdgeUpsert),
        event_kind_of("diagnostic"@) == Some(EventKind::Diagnostic),
        event_kind_of("file_completed"@) == Some(EventKind::FileCompleted),
        event_kind_of("profile_completed"@) == Some(EventKind::ProfileCompleted),
        event_kind_of("scan_completed"@) == Some(EventKind::ScanCompleted),
{
    reveal_strlit("scan_started");
    reveal_strlit("profile_declared");
    reveal_strlit("node_upsert");
    reveal_strlit("dependency_site");
    reveal_strlit("edge_upsert");
    reveal_strlit("diagnostic");
    reveal_strlit("file_completed");
    reveal_strlit("profile_completed");
    reveal_strlit("scan_completed");
    assert("scan_started"@.len() == 12 && "profile_declared"@.len() == 16 && "node_upsert"@.len() == 11
        && "dependency_site"@.len() == 15 && "edge_upsert"@.len() == 11 && "diagnostic"@.len() == 10
        && "file_completed"@.len() == 14 && "profile_completed"@.len() == 17 && "scan_completed"@.len() == 14);
    assert("node_upsert"@[0] == 'n' && "edge_upsert"@[0] == 'e');
    assert("file_completed"@[0] == 'f' && "scan_completed"@[0] == 's');
}

/// Whether an event has a name and belongs to a scan.
pub open spec fn is_event_of(event: JsonModel, name: Seq<char>, scan_id: Seq<char>) -> bool {
    event.field("event"@) == Some(JsonModel::Text(name)) && event.field("scan_id"@) == Some(JsonModel::Text(scan_id))
}

/// Whether a value has a text in a field.
pub open spec fn has_text(value: JsonModel, name: Seq<char>) -> bool {
    value.field(name) matches Some(JsonModel::Text(_))
}

/// Whether a value has an object in a field.
pub open spec fn has_object(value: JsonModel, name: Seq<char>) -> bool {
    value.field(name) matches Some(JsonModel::Object(_))
}

/// The text of a field, or another.
pub open spec fn text_else(value: JsonModel, name: Seq<char>, other: Seq<char>) -> Seq<char> {
    if let Some(JsonModel::Text(text)) = value.field(name) {
        text
    } else {
        other
    }
}

/// The number of a field, or another.
pub open spec fn number_else(value: JsonModel, name: Seq<char>, other: u64) -> u64 {
    if let Some(JsonModel::Unsigned(number)) = value.field(name) {
        number
    } else {
        other
    }
}

/// Whether an optional text is the text of a field, and absent where there is none.
pub open spec fn is_text_of(text: Option<String>, value: JsonModel, name: Seq<char>) -> bool {
    if let Some(JsonModel::Text(own)) = value.field(name) {
        text is Some && text->0@ == own
    } else {
        text is None
    }
}

/// The condition of what always holds.
pub open spec fn always() -> JsonModel {
    JsonModel::Object(seq![("conditions"@, JsonModel::Array(Seq::empty())), ("op"@, JsonModel::Text("all"@))])
}

/// An event without the identity of a scan, or of another scan, is refused whatever else it
/// holds; so is an event without a name.
pub proof fn events_of_another_scan_are_refused(event: JsonModel, scan_id: Seq<char>)
    ensures
        !has_text(event, "scan_id"@) ==> event_error(event, scan_id) == Some(
            IngestError::MissingText { field: EventField::ScanId },
        ),
        has_text(event, "scan_id"@) && event.field("scan_id"@) != Some(JsonModel::Text(scan_id)) ==> event_error(
            event,
            scan_id,
        ) == Some(IngestError::SeveralScans),
        event.field("scan_id"@) == Some(JsonModel::Text(scan_id)) && !has_text(event, "event"@) ==> event_error(
            event,
            scan_id,
        ) == Some(IngestError::MissingText { field: EventField::Event }),
        event_error(event, scan_id) is None ==> event.field("scan_id"@) == Some(JsonModel::Text(scan_id)),
{
}

/// A node is accepted exactly where it is an object with an identity, a kind and a locator.
pub proof fn node_events_are_accepted(event: JsonModel, scan_id: Seq<char>)
    requires
        is_event_of(event, "node_upsert"@, scan_id),
    ensures
        event_error(event, scan_id) is None <==> has_object(event, "node"@) && has_text(
            event.field("node"@)->0,
            "id"@,
        ) && has_text(
            event.field("node"@)->0,
            "kind"@,
        ) && has_text(
            event.field("node"@)->0,
            "locator"@,
        ),
{
    event_names_are_told_apart();
}

/// A site is accepted exactly where it is an object with an identity, a source, a kind, a profile
/// and a resolution.
pub proof fn site_events_are_accepted(event: JsonModel, scan_id: Seq<char>)
    requires
        is_event_of(event, "dependency_site"@, scan_id),
    ensures
        event_error(event, scan_id) is None <==> has_object(event, "site"@) && has_text(
            event.field("site"@)->0,
            "id"@,
        ) && has_text(
            event.field("site"@)->0,
            "source"@,
        ) && has_text(
            event.field("site"@)->0,
            "kind"@,
        ) && has_text(
            event.field("site"@)->0,
            "profile_id"@,
        ) && has_text(
            event.field("site"@)->0,
            "resolution_status"@,
        ),
{
    event_names_are_told_apart();
}

/// An edge is accepted exactly where it is an object with an identity, a source, a target, a kind, a
/// profile, a resolution and a precision.
pub proof fn edge_events_are_accepted(event: JsonModel, scan_id: Seq<char>)
    requires
        is_event_of(event, "edge_upsert"@, scan_id),
    ensures
        event_error(event, scan_id) is None <==> has_object(event, "edge"@) && has_text(
            event.field("edge"@)->0,
            "id"@,
        ) && has_text(
            event.field("edge"@)->0,
            "source"@,
        ) && has_text(
            event.field("edge"@)->0,
            "target"@,
        ) && has_text(
            event.field("edge"@)->0,
            "kind"@,
        ) && has_text(
            event.field("edge"@)->0,
            "profile_id"@,
        ) && has_text(
            event.field("edge"@)->0,
            "resolution_status"@,
        ) && has_text(
            event.field("edge"@)->0,
            "precision"@,
        ),
{
    event_names_are_told_apart();
}

/// A diagnostic is accepted exactly where it is an object.
pub proof fn diagnostic_events_are_accepted(event: JsonModel, scan_id: Seq<char>)
    requires
        is_event_of(event, "diagnostic"@, scan_id),
    ensures
        event_error(event, scan_id) is None <==> has_object(event, "diagnostic"@),
{
    event_names_are_told_apart();
}

/// A profile is accepted exactly where it is an object with an identity.
pub proof fn profile_events_are_accepted(event: JsonModel, scan_id: Seq<char>)
    requires
        is_event_of(event, "profile_declared"@, scan_id),
    ensures
        event_error(event, scan_id) is None <==> has_object(event, "profile"@) && has_text(
            event.field("profile"@)->0,
            "id"@,
        ),
{
    event_names_are_told_apart();
}

/// A file is accepted exactly where it has a path.
pub proof fn file_events_are_accepted(event: JsonModel, scan_id: Seq<char>)
    requires
        is_event_of(event, "file_completed"@, scan_id),
    ensures
        event_error(event, scan_id) is None <==> has_text(event, "path"@),
{
    event_names_are_told_apart();
}

/// The coverage of a profile is accepted exactly where it is an object and the profile is named.
pub proof fn profile_coverage_events_are_accepted(event: JsonModel, scan_id: Seq<char>)
    requires
        is_event_of(event, "profile_completed"@, scan_id),
    ensures
        event_error(event, scan_id) is None <==> has_text(event, "profile_id"@) && has_object(event, "coverage"@),
{
    event_names_are_told_apart();
}

/// The coverage of a scan is accepted exactly where it is an object.
pub proof fn coverage_events_are_accepted(event: JsonModel, scan_id: Seq<char>)
    requires
        is_event_of(event, "scan_completed"@, scan_id),
    ensures
        event_error(event, scan_id) is None <==> has_object(event, "coverage"@),
{
    event_names_are_told_apart();
}

/// The start of a scan is always accepted.
pub proof fn start_events_are_accepted(event: JsonModel, scan_id: Seq<char>)
    requires
        is_event_of(event, "scan_started"@, scan_id),
    ensures
        event_error(event, scan_id) is None <==> true,
{
    event_names_are_told_apart();
}

/// A node is written with its identity, its kind and its locator, under its name or else its locator,
/// with its properties or else none.
pub proof fn node_events_write_their_nodes(
    event: JsonModel,
    scan_id: Seq<char>,
    next_ordinal: i64,
    replace_existing: bool,
    owners: EvidenceOwners,
    step: IngestStep,
)
    requires
        is_event_of(event, "node_upsert"@, scan_id),
        event_error(event, scan_id) is None,
        writes_event(event, scan_id, next_ordinal, replace_existing, owners, step),
    ensures
        ({
            let node = event.field("node"@)->0;
            step matches IngestStep::Node { row } && {
                &&& node.field("id"@) == Some(JsonModel::Text(row.id@))
                &&& node.field("kind"@) == Some(JsonModel::Text(row.kind@))
                &&& node.field("locator"@) == Some(JsonModel::Text(row.locator@))
                &&& row.display_name@ == text_else(node, "display_name"@, row.locator@)
                &&& node.field("properties"@) is Some ==> node.field("properties"@) == Some(row.properties@)
                &&& node.field("properties"@) is None ==> row.properties@ == JsonModel::Object(Seq::empty())
                &&& row.raw@ == node
            }
        }),
{
    event_names_are_told_apart();
}

/// A site is written with each of its fields: the condition and the targets are those of the site
/// where it has them, and otherwise the site is unconditional and has none; a site without a
/// precision is heuristic.
pub proof fn site_events_write_their_sites(
    event: JsonModel,
    scan_id: Seq<char>,
    next_ordinal: i64,
    replace_existing: bool,
    owners: EvidenceOwners,
    step: IngestStep,
)
    requires
        is_event_of(event, "dependency_site"@, scan_id),
        event_error(event, scan_id) is None,
        writes_event(event, scan_id, next_ordinal, replace_existing, owners, step),
    ensures
        ({
            let site = event.field("site"@)->0;
            step matches IngestStep::Site { row, evidence } && {
                &&& site.field("id"@) == Some(JsonModel::Text(row.id@))
                &&& site.field("source"@) == Some(JsonModel::Text(row.source@))
                &&& site.field("kind"@) == Some(JsonModel::Text(row.kind@))
                &&& site.field("profile_id"@) == Some(JsonModel::Text(row.profile_id@))
                &&& site.field("resolution_status"@) == Some(JsonModel::Text(row.resolution_status@))
                &&& is_text_of(row.specifier, site, "specifier"@)
                &&& is_text_of(row.reason, site, "reason"@)
                &&& row.precision@ == text_else(site, "precision"@, "heuristic"@)
                &&& site.field("condition"@) is Some ==> site.field("condition"@) == Some(row.condition@)
                &&& site.field("condition"@) is None ==> row.condition@ == always()
                &&& site.field("target_ids"@) is Some ==> site.field("target_ids"@) == Some(row.target_ids@)
                &&& site.field("target_ids"@) is None ==> row.target_ids@ == JsonModel::Array(Seq::empty())
            }
        }),
{
    event_names_are_told_apart();
}

/// An edge is written with each of its fields: the condition is that of the edge where it has one,
/// and otherwise the edge is unconditional; an edge without a phase is of the source, one without
/// an environment of any, and one that does not say so is not generated.
pub proof fn edge_events_write_their_edges(
    event: JsonModel,
    scan_id: Seq<char>,
    next_ordinal: i64,
    replace_existing: bool,
    owners: EvidenceOwners,
    step: IngestStep,
)
    requires
        is_event_of(event, "edge_upsert"@, scan_id),
        event_error(event, scan_id) is None,
        writes_event(event, scan_id, next_ordinal, replace_existing, owners, step),
    ensures
        ({
            let edge = event.field("edge"@)->0;
            step matches IngestStep::Edge { row, evidence } && {
                &&& edge.field("id"@) == Some(JsonModel::Text(row.id@))
                &&& edge.field("source"@) == Some(JsonModel::Text(row.source@))
                &&& edge.field("target"@) == Some(JsonModel::Text(row.target@))
                &&& edge.field("kind"@) == Some(JsonModel::Text(row.kind@))
                &&& edge.field("profile_id"@) == Some(JsonModel::Text(row.profile_id@))
                &&& edge.field("resolution_status"@) == Some(JsonModel::Text(row.resolution_status@))
                &&& edge.field("precision"@) == Some(JsonModel::Text(row.precision@))
                &&& is_text_of(row.site_id, edge, "site_id"@)
                &&& row.phase@ == text_else(edge, "phase"@, "source"@)
                &&& row.environment@ == text_else(edge, "environment"@, "any"@)
                &&& edge.field("condition"@) is Some ==> edge.field("condition"@) == Some(row.condition@)
                &&& edge.field("condition"@) is None ==> row.condition@ == always()
                &&& row.generated <==> edge.field("generated"@) == Some(JsonModel::Bool(true))
            }
        }),
{
    event_names_are_told_apart();
}

/// A diagnostic is written under the next ordinal with each of its fields and the adapter of the
/// event; one without an identity is named by the scan and the ordinal.
pub proof fn diagnostic_events_write_their_diagnostics(
    event: JsonModel,
    scan_id: Seq<char>,
    next_ordinal: i64,
    replace_existing: bool,
    owners: EvidenceOwners,
    step: IngestStep,
)
    requires
        is_event_of(event, "diagnostic"@, scan_id),
        event_error(event, scan_id) is None,
        writes_event(event, scan_id, next_ordinal, replace_existing, owners, step),
    ensures
        ({
            let diagnostic = event.field("diagnostic"@)->0;
            step matches IngestStep::Diagnostic { row, evidence } && {
                &&& row.ordinal == next_ordinal
                &&& row.id@ == text_else(
                    diagnostic,
                    "id"@,
                    "diagnostic:"@ + scan_id + ":"@ + decimal_text(next_ordinal as int),
                )
                &&& row.severity@ == text_else(diagnostic, "severity"@, "warning"@)
                &&& row.code@ == text_else(diagnostic, "code"@, "unknown"@)
                &&& row.message@ == text_else(diagnostic, "message"@, "unknown diagnostic"@)
                &&& is_text_of(row.path, diagnostic, "path"@)
                &&& row.adapter is Some && row.adapter->0@ == text_else(event, "adapter"@, "unknown"@)
                &&& row.raw@ == diagnostic
            }
        }),
{
    event_names_are_told_apart();
}

/// A profile is written whole under its identity.
pub proof fn profile_events_write_their_profiles(
    event: JsonModel,
    scan_id: Seq<char>,
    next_ordinal: i64,
    replace_existing: bool,
    owners: EvidenceOwners,
    step: IngestStep,
)
    requires
        is_event_of(event, "profile_declared"@, scan_id),
        event_error(event, scan_id) is None,
        writes_event(event, scan_id, next_ordinal, replace_existing, owners, step),
    ensures
        step matches IngestStep::Profile { row } && event.field("profile"@) == Some(row.profile@)
            && row.profile@.field("id"@) == Some(JsonModel::Text(row.id@)),
{
    event_names_are_told_apart();
}

/// A completed file is written with its path, the adapter of the event and the counters that the
/// event gives; a counter that it does not give is zero.
pub proof fn file_events_write_their_files(
    event: JsonModel,
    scan_id: Seq<char>,
    next_ordinal: i64,
    replace_existing: bool,
    owners: EvidenceOwners,
    step: IngestStep,
)
    requires
        is_event_of(event, "file_completed"@, scan_id),
        event_error(event, scan_id) is None,
        writes_event(event, scan_id, next_ordinal, replace_existing, owners, step),
    ensures
        step matches IngestStep::File { row } && {
            &&& event.field("path"@) == Some(JsonModel::Text(row.path@))
            &&& row.adapter@ == text_else(event, "adapter"@, "unknown"@)
            &&& row.discovered_sites == number_else(event, "discovered_sites"@, 0)
            &&& row.emitted_sites == number_else(event, "emitted_sites"@, 0)
            &&& row.skipped_sites == number_else(event, "skipped_sites"@, 0)
            &&& row.skipped <==> event.field("skipped"@) == Some(JsonModel::Bool(true))
            &&& is_text_of(row.reason, event, "reason"@)
        },
{
    event_names_are_told_apart();
}

/// The coverage of a profile is written whole under the identity of the profile.
pub proof fn profile_coverage_events_write_their_coverage(
    event: JsonModel,
    scan_id: Seq<char>,
    next_ordinal: i64,
    replace_existing: bool,
    owners: EvidenceOwners,
    step: IngestStep,
)
    requires
        is_event_of(event, "profile_completed"@, scan_id),
        event_error(event, scan_id) is None,
        writes_event(event, scan_id, next_ordinal, replace_existing, owners, step),
    ensures
        step matches IngestStep::ProfileCoverage { row } && event.field("profile_id"@) == Some(
            JsonModel::Text(row.profile_id@),
        ) && event.field("coverage"@) == Some(row.coverage@),
{
    event_names_are_told_apart();
}

/// The coverage of a scan is written whole.
pub proof fn coverage_events_write_their_coverage(
    event: JsonModel,
    scan_id: Seq<char>,
    next_ordinal: i64,
    replace_existing: bool,
    owners: EvidenceOwners,
    step: IngestStep,
)
    requires
        is_event_of(event, "scan_completed"@, scan_id),
        event_error(event, scan_id) is None,
        writes_event(event, scan_id, next_ordinal, replace_existing, owners, step),
    ensures
        step matches IngestStep::Coverage { coverage } && event.field("coverage"@) == Some(coverage@),
{
    event_names_are_told_apart();
}

/// The start of a scan says whether project code was executed, or writes nothing.
pub proof fn start_events_mark_execution(
    event: JsonModel,
    scan_id: Seq<char>,
    next_ordinal: i64,
    replace_existing: bool,
    owners: EvidenceOwners,
    step: IngestStep,
)
    requires
        is_event_of(event, "scan_started"@, scan_id),
        event_error(event, scan_id) is None,
        writes_event(event, scan_id, next_ordinal, replace_existing, owners, step),
    ensures
        event.field("project_code_executed"@) matches Some(JsonModel::Bool(executed)) ==> step == (
        IngestStep::MarkExecution { executed }),
        !(event.field("project_code_executed"@) matches Some(JsonModel::Bool(_))) ==> step is Nothing,
{
    event_names_are_told_apart();
}

/// Two sites with different conditions are written with different conditions.
pub proof fn sites_that_differ_in_their_condition_differ_in_the_rows(
    a: JsonModel,
    b: JsonModel,
    first: GraphSiteRow,
    second: GraphSiteRow,
)
    requires
        writes_site(a, first),
        writes_site(b, second),
        a.field("condition"@) is Some,
        b.field("condition"@) is Some,
        a.field("condition"@) != b.field("condition"@),
    ensures
        first.condition@ != second.condition@,
{
}

/// Two edges with different conditions are written with different conditions.
pub proof fn edges_that_differ_in_their_condition_differ_in_the_rows(
    a: JsonModel,
    b: JsonModel,
    first: GraphEdgeRow,
    second: GraphEdgeRow,
)
    requires
        writes_edge(a, first),
        writes_edge(b, second),
        a.field("condition"@) is Some,
        b.field("condition"@) is Some,
        a.field("condition"@) != b.field("condition"@),
    ensures
        first.condition@ != second.condition@,
{
}

/// Each piece of evidence of a site is written in its order, under the site's identity, with the
/// fields it has; what was written before for this site goes first where the scan replaces what
/// is there or has written the site already.
pub proof fn site_events_write_their_evidence(
    event: JsonModel,
    scan_id: Seq<char>,
    next_ordinal: i64,
    replace_existing: bool,
    owners: EvidenceOwners,
    step: IngestStep,
)
    requires
        is_event_of(event, "dependency_site"@, scan_id),
        event_error(event, scan_id) is None,
        writes_event(event, scan_id, next_ordinal, replace_existing, owners, step),
    ensures
        step matches IngestStep::Site { row, evidence } && {
            &&& evidence.clear <==> replace_existing || owners.holds(OwnerKind::Site, row.id@)
            &&& event.field("site"@)->0.field("evidence"@) matches Some(JsonModel::Array(items)) ==> {
                &&& evidence.rows@.len() == items.len()
                &&& forall|i: int|
                    0 <= i < items.len() ==> {
                        let written = #[trigger] evidence.rows@[i];
                        &&& written.owner_type@ == "site"@
                        &&& written.owner_id@ == row.id@
                        &&& written.ordinal == i as i64
                        &&& written.kind@ == text_else(items[i], "kind"@, "source"@)
                        &&& written.extractor@ == text_else(items[i], "extractor"@, "unknown"@)
                        &&& written.extractor_version@ == text_else(items[i], "extractor_version"@, "0.0.0"@)
                        &&& written.path@ == text_else(items[i], "path"@, ""@)
                        &&& written.start_line == number_else(items[i], "start_line"@, 1)
                        &&& written.start_column == number_else(items[i], "start_column"@, 1)
                        &&& written.end_line == number_else(items[i], "end_line"@, 1)
                        &&& written.end_column == number_else(items[i], "end_column"@, 1)
                        &&& written.raw@ == items[i]
                    }
            }
            &&& !(event.field("site"@)->0.field("evidence"@) matches Some(JsonModel::Array(_)))
                ==> evidence.rows@.len() == 0
        },
{
    event_names_are_told_apart();
}

/// Each piece of evidence of a edge is written in its order, under the edge's identity, with the
/// fields it has; what was written before for this edge goes first where the scan replaces what
/// is there or has written the edge already.
pub proof fn edge_events_write_their_evidence(
    event: JsonModel,
    scan_id: Seq<char>,
    next_ordinal: i64,
    replace_existing: bool,
    owners: EvidenceOwners,
    step: IngestStep,
)
    requires
        is_event_of(event, "edge_upsert"@, scan_id),
        event_error(event, scan_id) is None,
        writes_event(event, scan_id, next_ordinal, replace_existing, owners, step),
    ensures
        step matches IngestStep::Edge { row, evidence } && {
            &&& evidence.clear <==> replace_existing || owners.holds(OwnerKind::Edge, row.id@)
            &&& event.field("edge"@)->0.field("evidence"@) matches Some(JsonModel::Array(items)) ==> {
                &&& evidence.rows@.len() == items.len()
                &&& forall|i: int|
                    0 <= i < items.len() ==> {
                        let written = #[trigger] evidence.rows@[i];
                        &&& written.owner_type@ == "edge"@
                        &&& written.owner_id@ == row.id@
                        &&& written.ordinal == i as i64
                        &&& written.kind@ == text_else(items[i], "kind"@, "source"@)
                        &&& written.extractor@ == text_else(items[i], "extractor"@, "unknown"@)
                        &&& written.extractor_version@ == text_else(items[i], "extractor_version"@, "0.0.0"@)
                        &&& written.path@ == text_else(items[i], "path"@, ""@)
                        &&& written.start_line == number_else(items[i], "start_line"@, 1)
                        &&& written.start_column == number_else(items[i], "start_column"@, 1)
                        &&& written.end_line == number_else(items[i], "end_line"@, 1)
                        &&& written.end_column == number_else(items[i], "end_column"@, 1)
                        &&& written.raw@ == items[i]
                    }
            }
            &&& !(event.field("edge"@)->0.field("evidence"@) matches Some(JsonModel::Array(_)))
                ==> evidence.rows@.len() == 0
        },
{
    event_names_are_told_apart();
}

/// Each piece of evidence of a diagnostic is written in its order, under the diagnostic's identity, with the
/// fields it has; what was written before for this diagnostic goes first where the scan replaces what
/// is there or has written the diagnostic already.
pub proof fn diagnostic_events_write_their_evidence(
    event: JsonModel,
    scan_id: Seq<char>,
    next_ordinal: i64,
    replace_existing: bool,
    owners: EvidenceOwners,
    step: IngestStep,
)
    requires
        is_event_of(event, "diagnostic"@, scan_id),
        event_error(event, scan_id) is None,
        writes_event(event, scan_id, next_ordinal, replace_existing, owners, step),
    ensures
        step matches IngestStep::Diagnostic { row, evidence } && {
            &&& evidence.clear <==> replace_existing || owners.holds(OwnerKind::Diagnostic, row.id@)
            &&& event.field("diagnostic"@)->0.field("evidence"@) matches Some(JsonModel::Array(items)) ==> {
                &&& evidence.rows@.len() == items.len()
                &&& forall|i: int|
                    0 <= i < items.len() ==> {
                        let written = #[trigger] evidence.rows@[i];
                        &&& written.owner_type@ == "diagnostic"@
                        &&& written.owner_id@ == row.id@
                        &&& written.ordinal == i as i64
                        &&& written.kind@ == text_else(items[i], "kind"@, "source"@)
                        &&& written.extractor@ == text_else(items[i], "extractor"@, "unknown"@)
                        &&& written.extractor_version@ == text_else(items[i], "extractor_version"@, "0.0.0"@)
                        &&& written.path@ == text_else(items[i], "path"@, ""@)
                        &&& written.start_line == number_else(items[i], "start_line"@, 1)
                        &&& written.start_column == number_else(items[i], "start_column"@, 1)
                        &&& written.end_line == number_else(items[i], "end_line"@, 1)
                        &&& written.end_column == number_else(items[i], "end_column"@, 1)
                        &&& written.raw@ == items[i]
                    }
            }
            &&& !(event.field("diagnostic"@)->0.field("evidence"@) matches Some(JsonModel::Array(_)))
                ==> evidence.rows@.len() == 0
        },
{
    event_names_are_told_apart();
}

/// What has written evidence is remembered: after a site, an edge or a diagnostic its identity is
/// held among those of its kind, nothing else is added and nothing is forgotten.
pub proof fn owners_of_evidence_are_remembered(
    before: EvidenceOwners,
    step: IngestStep,
    after: EvidenceOwners,
    kind: OwnerKind,
    id: Seq<char>,
)
    requires
        owners_grow(before, step, after),
    ensures
        before.holds(kind, id) ==> after.holds(kind, id),
        step matches IngestStep::Site { row, evidence } ==> after.holds(OwnerKind::Site, row.id@),
        step matches IngestStep::Edge { row, evidence } ==> after.holds(OwnerKind::Edge, row.id@),
        step matches IngestStep::Diagnostic { row, evidence } ==> after.holds(OwnerKind::Diagnostic, row.id@),
        after.holds(kind, id) && !before.holds(kind, id) ==> match kind {
            OwnerKind::Site => step matches IngestStep::Site { row, evidence } && row.id@ == id,
            OwnerKind::Edge => step matches IngestStep::Edge { row, evidence } && row.id@ == id,
            OwnerKind::Diagnostic => step matches IngestStep::Diagnostic { row, evidence } && row.id@ == id,
        },
{
}

/// A piece of evidence is read as it was written: with the columns of the row, and with the
/// detail and the properties of what was given.
pub proof fn evidence_is_read_from_its_row(row: EvidenceRow)
    ensures
        ({
            let read = read_evidence(row);
            &&& read.owner_type == row.owner_type@
            &&& read.owner_id == row.owner_id@
            &&& read.ordinal == row.ordinal
            &&& read.kind == row.kind@
            &&& read.extractor == row.extractor@
            &&& read.extractor_version == row.extractor_version@
            &&& read.path == row.path@
            &&& read.start_line == row.start_line
            &&& read.start_column == row.start_column
            &&& read.end_line == row.end_line
            &&& read.end_column == row.end_column
            &&& match row.raw@.field("detail"@) {
                Some(JsonModel::Text(detail)) => read.detail == Some(detail),
                _ => read.detail is None,
            }
            &&& match row.raw@.field("properties"@) {
                Some(properties) => read.properties == properties,
                None => read.properties == JsonModel::Object(Seq::empty()),
            }
        }),
{
}

/// A diagnostic is read as it was written: with the columns of the row, and with the place and
/// the properties of what was given.
pub proof fn diagnostics_are_read_from_their_rows(row: DiagnosticRow)
    ensures
        ({
            let read = read_diagnostic(row);
            &&& read.ordinal == row.ordinal
            &&& read.id == row.id@
            &&& read.severity == row.severity@
            &&& read.code == row.code@
            &&& read.message == row.message@
            &&& read.path == opt_text(row.path)
            &&& read.adapter == opt_text(row.adapter)
            &&& match row.raw@.field("start_line"@) {
                Some(JsonModel::Unsigned(number)) => read.start_line == Some(number),
                _ => read.start_line is None,
            }
            &&& match row.raw@.field("start_column"@) {
                Some(JsonModel::Unsigned(number)) => read.start_column == Some(number),
                _ => read.start_column is None,
            }
            &&& match row.raw@.field("end_line"@) {
                Some(JsonModel::Unsigned(number)) => read.end_line == Some(number),
                _ => read.end_line is None,
            }
            &&& match row.raw@.field("end_column"@) {
                Some(JsonModel::Unsigned(number)) => read.end_column == Some(number),
                _ => read.end_column is None,
            }
            &&& match row.raw@.field("properties"@) {
                Some(properties) => read.properties == properties,
                None => read.properties == JsonModel::Object(Seq::empty()),
            }
        }),
{
}

/// A profile is read from its fields; its features are the texts of the list, in their order.
pub proof fn profiles_are_read_from_their_fields(
    profile: JsonModel,
    coverage: Option<crate::records::CoverageRecord>,
)
    requires
        has_text(profile, "id"@),
        has_text(profile, "language"@),
    ensures
        ({
            let read = read_profile(profile, coverage);
            &&& profile.field("id"@) == Some(JsonModel::Text(read.id))
            &&& profile.field("language"@) == Some(JsonModel::Text(read.language))
            &&& read.toolchain == profile.field("toolchain"@)
            &&& match profile.field("command"@) {
                Some(JsonModel::Text(text)) => read.command == Some(text),
                _ => read.command is None,
            }
            &&& match profile.field("target"@) {
                Some(JsonModel::Text(text)) => read.target == Some(text),
                _ => read.target is None,
            }
            &&& match profile.field("source_revision"@) {
                Some(JsonModel::Text(text)) => read.source_revision == Some(text),
                _ => read.source_revision is None,
            }
            &&& match profile.field("features"@) {
                Some(JsonModel::Array(items)) => read.features == items.filter(
                    |item: JsonModel| item is Text,
                ).map_values(|item: JsonModel| item->Text_0),
                _ => read.features.len() == 0,
            }
            &&& match profile.field("environment"@) {
                Some(environment) => read.environment == environment,
                None => read.environment == JsonModel::Object(Seq::empty()),
            }
            &&& match profile.field("properties"@) {
                Some(properties) => read.properties == properties,
                None => read.properties == JsonModel::Object(Seq::empty()),
            }
            &&& match coverage {
                Some(record) => read.coverage == Some(record@),
                None => read.coverage is None,
            }
        }),
{
    if let Some(JsonModel::Array(items)) = profile.field("features"@) {
        selected_is_wanted(
            items,
            |item: JsonModel| item is Text,
            |item: JsonModel| item->Text_0,
            items.len() as int,
            is_text(items),
            text_at(items),
        );
        assert(items.take(items.len() as int) =~= items);
        assert(features_of(profile) == items.filter(|item: JsonModel| item is Text).map_values(
            |item: JsonModel| item->Text_0,
        ));
    }
}

} // verus!

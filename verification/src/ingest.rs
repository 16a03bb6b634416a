//! Events of an adapter as the rows that they write, and rows as the records that they
//! hold.

use vstd::hash_map::StringHashMap;
use vstd::prelude::*;

use crate::json::{Json, JsonModel};
use crate::order::{collect, first_kept};
use crate::records::{
    CoverageRecord, DiagnosticModel, DiagnosticRecord, EvidenceModel, EvidenceRecord, FileCoverageRecord, ProfileModel,
    ProfileRecord,
};
use crate::text::{opt_text, same, texts};

verus! {

/// A field that an event has to have.
#[derive(Debug, Clone, Copy, PartialEq, Eq, Structural)]
pub enum EventField {
    ScanId,
    Event,
    Id,
    Kind,
    Locator,
    Source,
    Target,
    ProfileId,
    ResolutionStatus,
    Precision,
    Path,
    Language,
    Profile,
    Node,
    Site,
    Edge,
    Diagnostic,
    Coverage,
}

/// The name of a field of an event.
pub open spec fn event_field_name(field: EventField) -> Seq<char> {
    match field {
        EventField::ScanId => "scan_id"@,
        EventField::Event => "event"@,
        EventField::Id => "id"@,
        EventField::Kind => "kind"@,
        EventField::Locator => "locator"@,
        EventField::Source => "source"@,
        EventField::Target => "target"@,
        EventField::ProfileId => "profile_id"@,
        EventField::ResolutionStatus => "resolution_status"@,
        EventField::Precision => "precision"@,
        EventField::Path => "path"@,
        EventField::Language => "language"@,
        EventField::Profile => "profile"@,
        EventField::Node => "node"@,
        EventField::Site => "site"@,
        EventField::Edge => "edge"@,
        EventField::Diagnostic => "diagnostic"@,
        EventField::Coverage => "coverage"@,
    }
}

impl EventField {
    /// The name of the field.
    pub fn name(self) -> (result: &'static str)
        ensures
            result@ == event_field_name(self),
    {
        match self {
            EventField::ScanId => "scan_id",
            EventField::Event => "event",
            EventField::Id => "id",
            EventField::Kind => "kind",
            EventField::Locator => "locator",
            EventField::Source => "source",
            EventField::Target => "target",
            EventField::ProfileId => "profile_id",
            EventField::ResolutionStatus => "resolution_status",
            EventField::Precision => "precision",
            EventField::Path => "path",
            EventField::Language => "language",
            EventField::Profile => "profile",
            EventField::Node => "node",
            EventField::Site => "site",
            EventField::Edge => "edge",
            EventField::Diagnostic => "diagnostic",
            EventField::Coverage => "coverage",
        }
    }
}

/// Why an event was refused.
#[derive(Debug, Clone, Copy, PartialEq, Eq, Structural)]
pub enum IngestError {
    MissingText { field: EventField },
    MissingObject { field: EventField },
    NotAnObject { field: EventField },
    SeveralScans,
    UnknownEvent,
}

// ---------------------------------------------------------------------------------------
// Fields
// ---------------------------------------------------------------------------------------

/// The error of a missing text, where it is missing.
pub open spec fn missing_text(value: JsonModel, field: EventField) -> Option<IngestError> {
    if value.text_field(event_field_name(field)) is None {
        Some(IngestError::MissingText { field })
    } else {
        None
    }
}

/// The first of two errors.
pub open spec fn or_ingest_error(first: Option<IngestError>, second: Option<IngestError>) -> Option<IngestError> {
    match first {
        Some(error) => Some(error),
        None => second,
    }
}

/// A text field that may be missing.
pub open spec fn text_or(value: JsonModel, name: Seq<char>, default: Seq<char>) -> Seq<char> {
    match value.text_field(name) {
        Some(text) => text,
        None => default,
    }
}

/// A number field that may be missing.
pub open spec fn unsigned_or(value: JsonModel, name: Seq<char>, default: u64) -> u64 {
    match value.unsigned_field(name) {
        Some(number) => number,
        None => default,
    }
}

/// A flag that may be missing.
pub open spec fn flag_or(value: JsonModel, name: Seq<char>, default: bool) -> bool {
    match value.bool_field(name) {
        Some(flag) => flag,
        None => default,
    }
}

/// A field that may be missing.
pub open spec fn field_or(value: JsonModel, name: Seq<char>, default: JsonModel) -> JsonModel {
    match value.field(name) {
        Some(field) => field,
        None => default,
    }
}

/// A text that an event has to have.
pub fn required_str(value: &Json, field: EventField) -> (result: Result<&str, IngestError>)
    ensures
        match value@.text_field(event_field_name(field)) {
            Some(text) => result matches Ok(found) && found@ == text,
            None => result == Err::<&str, _>(IngestError::MissingText { field }),
        },
{
    match value.get_str(field.name()) {
        Some(text) => Ok(text),
        None => Err(IngestError::MissingText { field }),
    }
}

/// An object that an event has to have.
pub fn required_object(value: &Json, field: EventField) -> (result: Result<&Json, IngestError>)
    ensures
        match value@.field(event_field_name(field)) {
            None => result == Err::<&Json, _>(IngestError::MissingObject { field }),
            Some(child) => if child is Object {
                result matches Ok(found) && found@ == child
            } else {
                result == Err::<&Json, _>(IngestError::NotAnObject { field })
            },
        },
{
    match value.get(field.name()) {
        None => Err(IngestError::MissingObject { field }),
        Some(child) => if child.is_object() {
            Ok(child)
        } else {
            Err(IngestError::NotAnObject { field })
        },
    }
}

fn required(value: &Json, field: EventField) -> (result: Result<String, IngestError>)
    ensures
        match value@.text_field(event_field_name(field)) {
            Some(text) => result matches Ok(found) && found@ == text,
            None => result == Err::<String, _>(IngestError::MissingText { field }),
        },
{
    match value.get_str(field.name()) {
        Some(text) => Ok(String::from_str(text)),
        None => Err(IngestError::MissingText { field }),
    }
}

fn text_default(value: &Json, name: &str, default: &str) -> (result: String)
    ensures
        result@ == text_or(value@, name@, default@),
{
    match value.get_str(name) {
        Some(text) => String::from_str(text),
        None => String::from_str(default),
    }
}

fn optional_text(value: &Json, name: &str) -> (result: Option<String>)
    ensures
        opt_text(result) == value@.text_field(name@),
{
    match value.get_str(name) {
        Some(text) => Some(String::from_str(text)),
        None => None,
    }
}

pub(crate) fn unsigned_default(value: &Json, name: &str, default: u64) -> (result: u64)
    ensures
        result == unsigned_or(value@, name@, default),
{
    match value.get_unsigned(name) {
        Some(number) => number,
        None => default,
    }
}

pub(crate) fn flag_default(value: &Json, name: &str, default: bool) -> (result: bool)
    ensures
        result == flag_or(value@, name@, default),
{
    match value.get_bool(name) {
        Some(flag) => flag,
        None => default,
    }
}

/// The condition of what is reached in any case.
pub open spec fn unconditional() -> JsonModel {
    JsonModel::Object(
        seq![("conditions"@, JsonModel::Array(Seq::empty())), ("op"@, JsonModel::Text("all"@))],
    )
}

fn unconditional_json() -> (result: Json)
    ensures
        result@ == unconditional(),
{
    let mut fields: Vec<(String, Json)> = Vec::new();
    let none = Json::Array(Vec::new());
    assert(none@->Array_0 =~= Seq::empty());
    fields.push((String::from_str("conditions"), none));
    let all = Json::Text(String::from_str("all"));
    assert(all@ == JsonModel::Text("all"@));
    fields.push((String::from_str("op"), all));
    let result = Json::Object(fields);
    proof {
        let held = result@->Object_0;
        assert(held[0] == (fields@[0].0@, fields@[0].1@));
        assert(held[1] == (fields@[1].0@, fields@[1].1@));
        assert(held =~= unconditional()->Object_0);
    }
    result
}

/// An object without fields.
pub open spec fn empty_object() -> JsonModel {
    JsonModel::Object(Seq::empty())
}

fn empty_object_json() -> (result: Json)
    ensures
        result@ == empty_object(),
{
    let result = Json::Object(Vec::new());
    assert(result@->Object_0 =~= Seq::empty());
    result
}

fn copy_of(value: &Json, name: &str, default: Json) -> (result: Json)
    ensures
        result@ == field_or(value@, name@, default@),
{
    match value.get(name) {
        Some(field) => field.copy(),
        None => default,
    }
}

// ---------------------------------------------------------------------------------------
// Rows of a graph
// ---------------------------------------------------------------------------------------

/// What fields hold.
pub open spec fn fields_model(fields: Seq<(String, Json)>) -> Seq<(Seq<char>, JsonModel)> {
    Seq::new(fields.len(), |i: int| (fields[i].0@, fields[i].1@))
}

/// Whether an object has a field of evidence.
pub open spec fn is_evidence_field(fields: Seq<(Seq<char>, JsonModel)>) -> spec_fn(int) -> bool {
    |i: int| fields[i].0 == "evidence"@
}

/// The fields of an object as they are written: evidence is kept in rows of its own, so
/// its field is empty. An object without that field gets it at the end.
pub open spec fn without_evidence(fields: Seq<(Seq<char>, JsonModel)>) -> Seq<(Seq<char>, JsonModel)> {
    let emptied = Seq::new(
        fields.len(),
        |i: int|
            if fields[i].0 == "evidence"@ {
                (fields[i].0, JsonModel::Array(Seq::empty()))
            } else {
                fields[i]
            },
    );
    if first_kept(fields.len() as int, is_evidence_field(fields)) is Some {
        emptied
    } else {
        emptied.push(("evidence"@, JsonModel::Array(Seq::empty())))
    }
}

fn empty_array() -> (result: Json)
    ensures
        result@ == JsonModel::Array(Seq::empty()),
{
    let result = Json::Array(Vec::new());
    assert(result@->Array_0 =~= Seq::empty());
    result
}

/// The fields of a site or an edge as they are written.
pub fn fields_without_evidence(object: &Json) -> (result: Vec<(String, Json)>)
    requires
        object@ is Object,
    ensures
        fields_model(result@) == without_evidence(object@->Object_0),
{
    let mut result: Vec<(String, Json)> = Vec::new();
    let ghost model = object@->Object_0;
    match object {
        Json::Object(fields) => {
            let ghost keep = is_evidence_field(model);
            let mut found: bool = false;
            let mut i: usize = 0;
            assert(model.len() == fields@.len());
            while i < fields.len()
                invariant
                    i <= fields.len(),
                    *object == Json::Object(*fields),
                    model == object@->Object_0,
                    model.len() == fields@.len(),
                    keep == is_evidence_field(model),
                    result.len() == i,
                    found == (first_kept(i as int, keep) is Some),
                    forall|k: int|
                        0 <= k < i ==> (#[trigger] result@[k]).0@ == model[k].0 && result@[k].1@ == (if model[k].0
                            == "evidence"@ {
                            JsonModel::Array(Seq::empty())
                        } else {
                            model[k].1
                        }),
                decreases fields.len() - i,
            {
                assert(model[i as int] == (fields@[i as int].0@, fields@[i as int].1@));
                if same(fields[i].0.as_str(), "evidence") {
                    found = true;
                    result.push((fields[i].0.clone(), empty_array()));
                } else {
                    result.push((fields[i].0.clone(), fields[i].1.copy()));
                }
                i = i + 1;
            }
            if !found {
                result.push((String::from_str("evidence"), empty_array()));
            }
            assert(fields_model(result@) =~= without_evidence(model));
        },
        _ => {},
    }
    result
}

/// A profile as it is written.
#[derive(Debug, Clone)]
pub struct ProfileRow {
    pub id: String,
    pub profile: Json,
}

/// A node as it is written.
#[derive(Debug, Clone)]
pub struct GraphNodeRow {
    pub id: String,
    pub kind: String,
    pub locator: String,
    pub display_name: String,
    pub properties: Json,
    pub raw: Json,
}

/// A site as it is written.
#[derive(Debug, Clone)]
pub struct GraphSiteRow {
    pub id: String,
    pub source: String,
    pub kind: String,
    pub specifier: Option<String>,
    pub profile_id: String,
    pub resolution_status: String,
    pub precision: String,
    pub condition: Json,
    pub target_ids: Json,
    pub reason: Option<String>,
    pub raw: Vec<(String, Json)>,
}

/// An edge as it is written.
#[derive(Debug, Clone)]
pub struct GraphEdgeRow {
    pub id: String,
    pub site_id: Option<String>,
    pub source: String,
    pub target: String,
    pub kind: String,
    pub phase: String,
    pub environment: String,
    pub profile_id: String,
    pub resolution_status: String,
    pub precision: String,
    pub condition: Json,
    pub generated: bool,
    pub raw: Vec<(String, Json)>,
}

/// A piece of evidence as it is written.
#[derive(Debug, Clone)]
pub struct EvidenceRow {
    pub owner_type: String,
    pub owner_id: String,
    pub ordinal: i64,
    pub kind: String,
    pub extractor: String,
    pub extractor_version: String,
    pub path: String,
    pub start_line: u64,
    pub start_column: u64,
    pub end_line: u64,
    pub end_column: u64,
    pub raw: Json,
}

/// A diagnostic as it is written.
#[derive(Debug, Clone)]
pub struct DiagnosticRow {
    pub ordinal: i64,
    pub id: String,
    pub severity: String,
    pub code: String,
    pub message: String,
    pub path: Option<String>,
    pub adapter: Option<String>,
    pub raw: Json,
}

/// Coverage of a profile as it is written.
#[derive(Debug, Clone)]
pub struct ProfileCoverageJsonRow {
    pub profile_id: String,
    pub coverage: Json,
}

/// Whether a row writes a node. A node without a name is named by its locator.
pub open spec fn writes_node(node: JsonModel, row: GraphNodeRow) -> bool {
    &&& node.text_field("id"@) == Some(row.id@)
    &&& node.text_field("kind"@) == Some(row.kind@)
    &&& node.text_field("locator"@) == Some(row.locator@)
    &&& row.display_name@ == text_or(node, "display_name"@, row.locator@)
    &&& row.properties@ == field_or(node, "properties"@, empty_object())
    &&& row.raw@ == node
}

/// What is missing in a node.
pub open spec fn node_event_error(node: JsonModel) -> Option<IngestError> {
    or_ingest_error(
        missing_text(node, EventField::Id),
        or_ingest_error(missing_text(node, EventField::Kind), missing_text(node, EventField::Locator)),
    )
}

/// The row of a node.
pub fn node_row(node: &Json) -> (result: Result<GraphNodeRow, IngestError>)
    ensures
        match node_event_error(node@) {
            Some(error) => result == Err::<GraphNodeRow, _>(error),
            None => result matches Ok(row) && writes_node(node@, row),
        },
{
    let id = match required(node, EventField::Id) {
        Ok(text) => text,
        Err(error) => {
            return Err(error);
        },
    };
    let kind = match required(node, EventField::Kind) {
        Ok(text) => text,
        Err(error) => {
            return Err(error);
        },
    };
    let locator = match required(node, EventField::Locator) {
        Ok(text) => text,
        Err(error) => {
            return Err(error);
        },
    };
    let display_name = text_default(node, "display_name", locator.as_str());
    Ok(
        GraphNodeRow {
            id,
            kind,
            locator,
            display_name,
            properties: copy_of(node, "properties", empty_object_json()),
            raw: node.copy(),
        },
    )
}

/// Whether a row writes a site.
pub open spec fn writes_site(site: JsonModel, row: GraphSiteRow) -> bool {
    &&& site.text_field("id"@) == Some(row.id@)
    &&& site.text_field("source"@) == Some(row.source@)
    &&& site.text_field("kind"@) == Some(row.kind@)
    &&& opt_text(row.specifier) == site.text_field("specifier"@)
    &&& site.text_field("profile_id"@) == Some(row.profile_id@)
    &&& site.text_field("resolution_status"@) == Some(row.resolution_status@)
    &&& row.precision@ == text_or(site, "precision"@, "heuristic"@)
    &&& row.condition@ == field_or(site, "condition"@, unconditional())
    &&& row.target_ids@ == field_or(site, "target_ids"@, JsonModel::Array(Seq::empty()))
    &&& opt_text(row.reason) == site.text_field("reason"@)
    &&& fields_model(row.raw@) == without_evidence(site->Object_0)
}

/// What is missing in a site.
pub open spec fn site_event_error(site: JsonModel) -> Option<IngestError> {
    or_ingest_error(
        missing_text(site, EventField::Id),
        or_ingest_error(
            missing_text(site, EventField::Source),
            or_ingest_error(
                missing_text(site, EventField::Kind),
                or_ingest_error(
                    missing_text(site, EventField::ProfileId),
                    missing_text(site, EventField::ResolutionStatus),
                ),
            ),
        ),
    )
}

/// The row of a site.
pub fn site_row(site: &Json) -> (result: Result<GraphSiteRow, IngestError>)
    requires
        site@ is Object,
    ensures
        match site_event_error(site@) {
            Some(error) => result == Err::<GraphSiteRow, _>(error),
            None => result matches Ok(row) && writes_site(site@, row),
        },
{
    let id = match required(site, EventField::Id) {
        Ok(text) => text,
        Err(error) => {
            return Err(error);
        },
    };
    let source = match required(site, EventField::Source) {
        Ok(text) => text,
        Err(error) => {
            return Err(error);
        },
    };
    let kind = match required(site, EventField::Kind) {
        Ok(text) => text,
        Err(error) => {
            return Err(error);
        },
    };
    let profile_id = match required(site, EventField::ProfileId) {
        Ok(text) => text,
        Err(error) => {
            return Err(error);
        },
    };
    let resolution_status = match required(site, EventField::ResolutionStatus) {
        Ok(text) => text,
        Err(error) => {
            return Err(error);
        },
    };
    Ok(
        GraphSiteRow {
            id,
            source,
            kind,
            specifier: optional_text(site, "specifier"),
            profile_id,
            resolution_status,
            precision: text_default(site, "precision", "heuristic"),
            condition: copy_of(site, "condition", unconditional_json()),
            target_ids: copy_of(site, "target_ids", empty_array()),
            reason: optional_text(site, "reason"),
            raw: fields_without_evidence(site),
        },
    )
}

/// Whether a row writes an edge.
pub open spec fn writes_edge(edge: JsonModel, row: GraphEdgeRow) -> bool {
    &&& edge.text_field("id"@) == Some(row.id@)
    &&& opt_text(row.site_id) == edge.text_field("site_id"@)
    &&& edge.text_field("source"@) == Some(row.source@)
    &&& edge.text_field("target"@) == Some(row.target@)
    &&& edge.text_field("kind"@) == Some(row.kind@)
    &&& row.phase@ == text_or(edge, "phase"@, "source"@)
    &&& row.environment@ == text_or(edge, "environment"@, "any"@)
    &&& edge.text_field("profile_id"@) == Some(row.profile_id@)
    &&& edge.text_field("resolution_status"@) == Some(row.resolution_status@)
    &&& edge.text_field("precision"@) == Some(row.precision@)
    &&& row.condition@ == field_or(edge, "condition"@, unconditional())
    &&& row.generated == flag_or(edge, "generated"@, false)
    &&& fields_model(row.raw@) == without_evidence(edge->Object_0)
}

/// What is missing in an edge.
pub open spec fn edge_event_error(edge: JsonModel) -> Option<IngestError> {
    or_ingest_error(
        missing_text(edge, EventField::Id),
        or_ingest_error(
            missing_text(edge, EventField::Source),
            or_ingest_error(
                missing_text(edge, EventField::Target),
                or_ingest_error(
                    missing_text(edge, EventField::Kind),
                    or_ingest_error(
                        missing_text(edge, EventField::ProfileId),
                        or_ingest_error(
                            missing_text(edge, EventField::ResolutionStatus),
                            missing_text(edge, EventField::Precision),
                        ),
                    ),
                ),
            ),
        ),
    )
}

/// The row of an edge.
pub fn edge_row(edge: &Json) -> (result: Result<GraphEdgeRow, IngestError>)
    requires
        edge@ is Object,
    ensures
        match edge_event_error(edge@) {
            Some(error) => result == Err::<GraphEdgeRow, _>(error),
            None => result matches Ok(row) && writes_edge(edge@, row),
        },
{
    let id = match required(edge, EventField::Id) {
        Ok(text) => text,
        Err(error) => {
            return Err(error);
        },
    };
    let source = match required(edge, EventField::Source) {
        Ok(text) => text,
        Err(error) => {
            return Err(error);
        },
    };
    let target = match required(edge, EventField::Target) {
        Ok(text) => text,
        Err(error) => {
            return Err(error);
        },
    };
    let kind = match required(edge, EventField::Kind) {
        Ok(text) => text,
        Err(error) => {
            return Err(error);
        },
    };
    let profile_id = match required(edge, EventField::ProfileId) {
        Ok(text) => text,
        Err(error) => {
            return Err(error);
        },
    };
    let resolution_status = match required(edge, EventField::ResolutionStatus) {
        Ok(text) => text,
        Err(error) => {
            return Err(error);
        },
    };
    let precision = match required(edge, EventField::Precision) {
        Ok(text) => text,
        Err(error) => {
            return Err(error);
        },
    };
    Ok(
        GraphEdgeRow {
            id,
            site_id: optional_text(edge, "site_id"),
            source,
            target,
            kind,
            phase: text_default(edge, "phase", "source"),
            environment: text_default(edge, "environment", "any"),
            profile_id,
            resolution_status,
            precision,
            condition: copy_of(edge, "condition", unconditional_json()),
            generated: flag_default(edge, "generated", false),
            raw: fields_without_evidence(edge),
        },
    )
}

// ---------------------------------------------------------------------------------------
// Evidence
// ---------------------------------------------------------------------------------------

/// The evidence that an object carries.
pub open spec fn evidence_of(object: JsonModel) -> Seq<JsonModel> {
    match object.field("evidence"@) {
        Some(JsonModel::Array(items)) => items,
        _ => Seq::empty(),
    }
}

/// Whether a row writes a piece of evidence.
pub open spec fn writes_evidence(
    item: JsonModel,
    owner_type: Seq<char>,
    owner_id: Seq<char>,
    ordinal: int,
    row: EvidenceRow,
) -> bool {
    &&& row.owner_type@ == owner_type
    &&& row.owner_id@ == owner_id
    &&& row.ordinal == ordinal as i64
    &&& row.kind@ == text_or(item, "kind"@, "source"@)
    &&& row.extractor@ == text_or(item, "extractor"@, "unknown"@)
    &&& row.extractor_version@ == text_or(item, "extractor_version"@, "0.0.0"@)
    &&& row.path@ == text_or(item, "path"@, ""@)
    &&& row.start_line == unsigned_or(item, "start_line"@, 1)
    &&& row.start_column == unsigned_or(item, "start_column"@, 1)
    &&& row.end_line == unsigned_or(item, "end_line"@, 1)
    &&& row.end_column == unsigned_or(item, "end_column"@, 1)
    &&& row.raw@ == item
}

/// Whether rows write the evidence of an object, numbered from zero.
pub open spec fn write_evidence(
    object: JsonModel,
    owner_type: Seq<char>,
    owner_id: Seq<char>,
    rows: Seq<EvidenceRow>,
) -> bool {
    &&& rows.len() == evidence_of(object).len()
    &&& forall|i: int|
        0 <= i < rows.len() ==> writes_evidence(
            evidence_of(object)[i],
            owner_type,
            owner_id,
            i,
            #[trigger] rows[i],
        )
}

fn evidence_row(item: &Json, owner_type: &str, owner_id: &str, ordinal: i64) -> (result: EvidenceRow)
    ensures
        writes_evidence(item@, owner_type@, owner_id@, ordinal as int, result),
{
    EvidenceRow {
        owner_type: String::from_str(owner_type),
        owner_id: String::from_str(owner_id),
        ordinal,
        kind: text_default(item, "kind", "source"),
        extractor: text_default(item, "extractor", "unknown"),
        extractor_version: text_default(item, "extractor_version", "0.0.0"),
        path: text_default(item, "path", ""),
        start_line: unsigned_default(item, "start_line", 1),
        start_column: unsigned_default(item, "start_column", 1),
        end_line: unsigned_default(item, "end_line", 1),
        end_column: unsigned_default(item, "end_column", 1),
        raw: item.copy(),
    }
}

/// The rows of the evidence of an object.
pub fn evidence_rows(object: &Json, owner_type: &str, owner_id: &str) -> (result: Vec<EvidenceRow>)
    ensures
        write_evidence(object@, owner_type@, owner_id@, result@),
{
    let mut rows: Vec<EvidenceRow> = Vec::new();
    match object.get("evidence") {
        Some(Json::Array(items)) => {
            let ghost model = evidence_of(object@);
            let ghost value = object@.field("evidence"@)->0;
            assert(value == JsonModel::Array(model));
            assert(model.len() == items@.len());
            let mut i: usize = 0;
            while i < items.len()
                invariant
                    i <= items.len(),
                    model == evidence_of(object@),
                    model.len() == items@.len(),
                    forall|k: int| 0 <= k < items@.len() ==> (#[trigger] items@[k])@ == model[k],
                    rows.len() == i,
                    forall|k: int|
                        0 <= k < i ==> writes_evidence(model[k], owner_type@, owner_id@, k, #[trigger] rows@[k]),
                decreases items.len() - i,
            {
                rows.push(evidence_row(&items[i], owner_type, owner_id, i as i64));
                i = i + 1;
            }
        },
        _ => {},
    }
    rows
}

/// What a row of evidence is read as.
pub open spec fn read_evidence(row: EvidenceRow) -> EvidenceModel {
    EvidenceModel {
        owner_type: row.owner_type@,
        owner_id: row.owner_id@,
        ordinal: row.ordinal,
        kind: row.kind@,
        extractor: row.extractor@,
        extractor_version: row.extractor_version@,
        path: row.path@,
        start_line: row.start_line,
        start_column: row.start_column,
        end_line: row.end_line,
        end_column: row.end_column,
        detail: row.raw@.text_field("detail"@),
        properties: field_or(row.raw@, "properties"@, empty_object()),
    }
}

/// The record of a row of evidence.
pub fn evidence_record(row: EvidenceRow) -> (result: EvidenceRecord)
    ensures
        result@ == read_evidence(row),
{
    let detail = optional_text(&row.raw, "detail");
    let properties = copy_of(&row.raw, "properties", empty_object_json());
    EvidenceRecord {
        owner_type: row.owner_type,
        owner_id: row.owner_id,
        ordinal: row.ordinal,
        kind: row.kind,
        extractor: row.extractor,
        extractor_version: row.extractor_version,
        path: row.path,
        start_line: row.start_line,
        start_column: row.start_column,
        end_line: row.end_line,
        end_column: row.end_column,
        detail,
        properties,
    }
}

// ---------------------------------------------------------------------------------------
// Diagnostics
// ---------------------------------------------------------------------------------------

/// The decimal digits of a number.
pub open spec fn decimal_digits(number: nat) -> Seq<char>
    decreases number,
{
    if number < 10 {
        seq![digit_char(number)]
    } else {
        decimal_digits(number / 10).push(digit_char(number % 10))
    }
}

/// A decimal digit.
pub open spec fn digit_char(digit: nat) -> char {
    (48 + digit) as char
}

/// A number in decimal.
pub open spec fn decimal_text(number: int) -> Seq<char> {
    if number < 0 {
        seq!['-'] + decimal_digits((-number) as nat)
    } else {
        decimal_digits(number as nat)
    }
}

fn digit(value: u64) -> (result: char)
    requires
        value < 10,
    ensures
        result == digit_char(value as nat),
{
    (48 + value) as u8 as char
}

fn push_digits(text: &mut String, number: u64)
    ensures
        final(text)@ == old(text)@ + decimal_digits(number as nat),
    decreases number,
{
    let ghost before = text@;
    if number < 10 {
        text.push(digit(number));
        assert(text@ =~= before + decimal_digits(number as nat));
    } else {
        push_digits(text, number / 10);
        text.push(digit(number % 10));
        assert(text@ =~= before + decimal_digits(number as nat));
    }
}

/// Appends a number in decimal to a text.
pub fn push_decimal(text: &mut String, number: i64)
    ensures
        final(text)@ == old(text)@ + decimal_text(number as int),
{
    let ghost before = text@;
    if number < 0 {
        text.push('-');
        let magnitude: u64 = (-(number as i128)) as u64;
        push_digits(text, magnitude);
        assert(text@ =~= before + decimal_text(number as int));
    } else {
        push_digits(text, number as u64);
    }
}

/// The identity of a diagnostic without one: by its scan and its ordinal.
pub open spec fn default_diagnostic_id(scan_id: Seq<char>, ordinal: i64) -> Seq<char> {
    "diagnostic:"@ + scan_id + ":"@ + decimal_text(ordinal as int)
}

fn default_id(scan_id: &str, ordinal: i64) -> (result: String)
    ensures
        result@ == default_diagnostic_id(scan_id@, ordinal),
{
    let mut id = String::from_str("diagnostic:");
    id.append(scan_id);
    id.append(":");
    push_decimal(&mut id, ordinal);
    id
}

/// Whether a row writes a diagnostic.
pub open spec fn writes_diagnostic(
    diagnostic: JsonModel,
    scan_id: Seq<char>,
    adapter: Seq<char>,
    ordinal: i64,
    row: DiagnosticRow,
) -> bool {
    &&& row.ordinal == ordinal
    &&& row.id@ == text_or(diagnostic, "id"@, default_diagnostic_id(scan_id, ordinal))
    &&& row.severity@ == text_or(diagnostic, "severity"@, "warning"@)
    &&& row.code@ == text_or(diagnostic, "code"@, "unknown"@)
    &&& row.message@ == text_or(diagnostic, "message"@, "unknown diagnostic"@)
    &&& opt_text(row.path) == diagnostic.text_field("path"@)
    &&& opt_text(row.adapter) == Some(adapter)
    &&& row.raw@ == diagnostic
}

/// The row of a diagnostic.
pub fn diagnostic_row(diagnostic: &Json, scan_id: &str, adapter: &str, ordinal: i64) -> (result: DiagnosticRow)
    ensures
        writes_diagnostic(diagnostic@, scan_id@, adapter@, ordinal, result),
{
    let id: String = match diagnostic.get_str("id") {
        Some(id) => String::from_str(id),
        None => default_id(scan_id, ordinal),
    };
    DiagnosticRow {
        ordinal,
        id,
        severity: text_default(diagnostic, "severity", "warning"),
        code: text_default(diagnostic, "code", "unknown"),
        message: text_default(diagnostic, "message", "unknown diagnostic"),
        path: optional_text(diagnostic, "path"),
        adapter: Some(String::from_str(adapter)),
        raw: diagnostic.copy(),
    }
}

/// What a row of a diagnostic is read as.
pub open spec fn read_diagnostic(row: DiagnosticRow) -> DiagnosticModel {
    DiagnosticModel {
        ordinal: row.ordinal,
        id: row.id@,
        severity: row.severity@,
        code: row.code@,
        message: row.message@,
        path: opt_text(row.path),
        adapter: opt_text(row.adapter),
        start_line: row.raw@.unsigned_field("start_line"@),
        start_column: row.raw@.unsigned_field("start_column"@),
        end_line: row.raw@.unsigned_field("end_line"@),
        end_column: row.raw@.unsigned_field("end_column"@),
        properties: field_or(row.raw@, "properties"@, empty_object()),
    }
}

/// The record of a row of a diagnostic.
pub fn diagnostic_record(row: DiagnosticRow) -> (result: DiagnosticRecord)
    ensures
        result@ == read_diagnostic(row),
{
    let start_line = row.raw.get_unsigned("start_line");
    let start_column = row.raw.get_unsigned("start_column");
    let end_line = row.raw.get_unsigned("end_line");
    let end_column = row.raw.get_unsigned("end_column");
    let properties = copy_of(&row.raw, "properties", empty_object_json());
    DiagnosticRecord {
        ordinal: row.ordinal,
        id: row.id,
        severity: row.severity,
        code: row.code,
        message: row.message,
        path: row.path,
        adapter: row.adapter,
        start_line,
        start_column,
        end_line,
        end_column,
        properties,
    }
}

// ---------------------------------------------------------------------------------------
// Profiles
// ---------------------------------------------------------------------------------------

/// The features that a profile names: the texts of its list.
pub open spec fn features_of(profile: JsonModel) -> Seq<Seq<char>> {
    match profile.field("features"@) {
        Some(JsonModel::Array(items)) => collect(items.len() as int, is_text(items), text_at(items)),
        _ => Seq::empty(),
    }
}

/// Which items are texts.
pub open spec fn is_text(items: Seq<JsonModel>) -> spec_fn(int) -> bool {
    |i: int| items[i] is Text
}

/// The text of an item.
pub open spec fn text_at(items: Seq<JsonModel>) -> spec_fn(int) -> Seq<char> {
    |i: int| items[i]->Text_0
}

/// What a declared profile is read as.
pub open spec fn read_profile(profile: JsonModel, coverage: Option<CoverageRecord>) -> ProfileModel {
    ProfileModel {
        id: profile.text_field("id"@)->0,
        language: profile.text_field("language"@)->0,
        toolchain: profile.field("toolchain"@),
        command: profile.text_field("command"@),
        target: profile.text_field("target"@),
        features: features_of(profile),
        environment: field_or(profile, "environment"@, empty_object()),
        source_revision: profile.text_field("source_revision"@),
        properties: field_or(profile, "properties"@, empty_object()),
        coverage: crate::records::opt_coverage(coverage),
    }
}

fn features(profile: &Json) -> (result: Vec<String>)
    ensures
        texts(result@) == features_of(profile@),
{
    let mut result: Vec<String> = Vec::new();
    assert(texts(result@) =~= Seq::empty());
    match profile.get("features") {
        Some(Json::Array(items)) => {
            let ghost model = (profile@.field("features"@)->0)->Array_0;
            assert(model.len() == items@.len());
            let mut i: usize = 0;
            while i < items.len()
                invariant
                    i <= items.len(),
                    model.len() == items@.len(),
                    forall|k: int| 0 <= k < items@.len() ==> (#[trigger] items@[k])@ == model[k],
                    texts(result@) == collect(i as int, is_text(model), text_at(model)),
                decreases items.len() - i,
            {
                assert(items@[i as int]@ == model[i as int]);
                match items[i].as_str() {
                    Some(text) => {
                        let ghost earlier = texts(result@);
                        result.push(String::from_str(text));
                        assert(texts(result@) =~= earlier.push(text@));
                    },
                    None => {},
                }
                i = i + 1;
            }
        },
        _ => {},
    }
    result
}

/// The record of a declared profile with its coverage.
pub fn profile_record(profile: &Json, coverage: Option<CoverageRecord>) -> (result: Result<ProfileRecord, IngestError>)
    ensures
        match or_ingest_error(missing_text(profile@, EventField::Id), missing_text(profile@, EventField::Language)) {
            Some(error) => result == Err::<ProfileRecord, _>(error),
            None => result matches Ok(record) && record@ == read_profile(profile@, coverage),
        },
{
    let id = match required(profile, EventField::Id) {
        Ok(text) => text,
        Err(error) => {
            return Err(error);
        },
    };
    let language = match required(profile, EventField::Language) {
        Ok(text) => text,
        Err(error) => {
            return Err(error);
        },
    };
    let toolchain: Option<Json> = match profile.get("toolchain") {
        Some(toolchain) => Some(toolchain.copy()),
        None => None,
    };
    let record = ProfileRecord {
        id,
        language,
        toolchain,
        command: optional_text(profile, "command"),
        target: optional_text(profile, "target"),
        features: features(profile),
        environment: copy_of(profile, "environment", empty_object_json()),
        source_revision: optional_text(profile, "source_revision"),
        properties: copy_of(profile, "properties", empty_object_json()),
        coverage,
    };
    assert(record@ =~= read_profile(profile@, coverage));
    Ok(record)
}

// ---------------------------------------------------------------------------------------
// Events
// ---------------------------------------------------------------------------------------

/// The owners whose evidence a batch of events has written.
pub struct EvidenceOwners {
    sites: StringHashMap<bool>,
    edges: StringHashMap<bool>,
    diagnostics: StringHashMap<bool>,
}

/// What owns evidence.
#[derive(Debug, Clone, Copy, PartialEq, Eq, Structural)]
pub enum OwnerKind {
    Site,
    Edge,
    Diagnostic,
}

/// The name of a kind of owner.
pub open spec fn owner_kind_name(kind: OwnerKind) -> Seq<char> {
    match kind {
        OwnerKind::Site => "site"@,
        OwnerKind::Edge => "edge"@,
        OwnerKind::Diagnostic => "diagnostic"@,
    }
}

impl OwnerKind {
    /// The name of the kind.
    pub fn name(self) -> (result: &'static str)
        ensures
            result@ == owner_kind_name(self),
    {
        match self {
            OwnerKind::Site => "site",
            OwnerKind::Edge => "edge",
            OwnerKind::Diagnostic => "diagnostic",
        }
    }
}

impl EvidenceOwners {
    /// Whether the evidence of an owner was written.
    pub closed spec fn holds(&self, kind: OwnerKind, id: Seq<char>) -> bool {
        match kind {
            OwnerKind::Site => self.sites@.contains_key(id),
            OwnerKind::Edge => self.edges@.contains_key(id),
            OwnerKind::Diagnostic => self.diagnostics@.contains_key(id),
        }
    }

    /// No owners.
    pub fn new() -> (result: EvidenceOwners)
        ensures
            forall|kind: OwnerKind, id: Seq<char>| !#[trigger] result.holds(kind, id),
    {
        EvidenceOwners {
            sites: StringHashMap::new(),
            edges: StringHashMap::new(),
            diagnostics: StringHashMap::new(),
        }
    }

    /// Adds an owner and tells whether it was new.
    pub fn insert(&mut self, kind: OwnerKind, id: &str) -> (fresh: bool)
        ensures
            fresh == !old(self).holds(kind, id@),
            forall|k: OwnerKind, i: Seq<char>| #[trigger]
                final(self).holds(k, i) == (old(self).holds(k, i) || (k == kind && i == id@)),
    {
        match kind {
            OwnerKind::Site => {
                let fresh = !self.sites.contains_key(id);
                self.sites.insert(String::from_str(id), true);
                fresh
            },
            OwnerKind::Edge => {
                let fresh = !self.edges.contains_key(id);
                self.edges.insert(String::from_str(id), true);
                fresh
            },
            OwnerKind::Diagnostic => {
                let fresh = !self.diagnostics.contains_key(id);
                self.diagnostics.insert(String::from_str(id), true);
                fresh
            },
        }
    }
}

/// Evidence as an event writes it: what the owner had before is cleared where any may be
/// there.
#[derive(Debug, Clone)]
pub struct EvidenceWrite {
    pub clear: bool,
    pub rows: Vec<EvidenceRow>,
}

/// What an event writes.
#[derive(Debug, Clone)]
pub enum IngestStep {
    Nothing,
    MarkExecution { executed: bool },
    Profile { row: ProfileRow },
    Node { row: GraphNodeRow },
    Site { row: GraphSiteRow, evidence: EvidenceWrite },
    Edge { row: GraphEdgeRow, evidence: EvidenceWrite },
    Diagnostic { row: DiagnosticRow, evidence: EvidenceWrite },
    File { row: FileCoverageRecord },
    ProfileCoverage { row: ProfileCoverageJsonRow },
    Coverage { coverage: Json },
}

/// The object of an event, or why there is none.
pub open spec fn object_of(event: JsonModel, field: EventField) -> Result<JsonModel, IngestError> {
    match event.field(event_field_name(field)) {
        None => Err(IngestError::MissingObject { field }),
        Some(child) => if child is Object {
            Ok(child)
        } else {
            Err(IngestError::NotAnObject { field })
        },
    }
}

/// What an event names.
#[derive(Debug, Clone, Copy, PartialEq, Eq, Structural)]
pub enum EventKind {
    ScanStarted,
    ProfileDeclared,
    NodeUpsert,
    DependencySite,
    EdgeUpsert,
    Diagnostic,
    FileCompleted,
    ProfileCompleted,
    ScanCompleted,
}

/// The kind of event with a name.
pub open spec fn event_kind_of(name: Seq<char>) -> Option<EventKind> {
    if name == "scan_started"@ {
        Some(EventKind::ScanStarted)
    } else if name == "profile_declared"@ {
        Some(EventKind::ProfileDeclared)
    } else if name == "node_upsert"@ {
        Some(EventKind::NodeUpsert)
    } else if name == "dependency_site"@ {
        Some(EventKind::DependencySite)
    } else if name == "edge_upsert"@ {
        Some(EventKind::EdgeUpsert)
    } else if name == "diagnostic"@ {
        Some(EventKind::Diagnostic)
    } else if name == "file_completed"@ {
        Some(EventKind::FileCompleted)
    } else if name == "profile_completed"@ {
        Some(EventKind::ProfileCompleted)
    } else if name == "scan_completed"@ {
        Some(EventKind::ScanCompleted)
    } else {
        None
    }
}

/// The kind of event with a name.
pub fn event_kind(name: &str) -> (result: Option<EventKind>)
    ensures
        result == event_kind_of(name@),
{
    if same(name, "scan_started") {
        Some(EventKind::ScanStarted)
    } else if same(name, "profile_declared") {
        Some(EventKind::ProfileDeclared)
    } else if same(name, "node_upsert") {
        Some(EventKind::NodeUpsert)
    } else if same(name, "dependency_site") {
        Some(EventKind::DependencySite)
    } else if same(name, "edge_upsert") {
        Some(EventKind::EdgeUpsert)
    } else if same(name, "diagnostic") {
        Some(EventKind::Diagnostic)
    } else if same(name, "file_completed") {
        Some(EventKind::FileCompleted)
    } else if same(name, "profile_completed") {
        Some(EventKind::ProfileCompleted)
    } else if same(name, "scan_completed") {
        Some(EventKind::ScanCompleted)
    } else {
        None
    }
}

/// The adapter of an event.
pub open spec fn adapter_of(event: JsonModel) -> Seq<char> {
    text_or(event, "adapter"@, "unknown"@)
}

/// Whether a row writes the ledger of a file.
pub open spec fn writes_file(event: JsonModel, row: FileCoverageRecord) -> bool {
    &&& row.adapter@ == adapter_of(event)
    &&& event.text_field("path"@) == Some(row.path@)
    &&& row.discovered_sites == unsigned_or(event, "discovered_sites"@, 0)
    &&& row.emitted_sites == unsigned_or(event, "emitted_sites"@, 0)
    &&& row.skipped_sites == unsigned_or(event, "skipped_sites"@, 0)
    &&& row.skipped == flag_or(event, "skipped"@, false)
    &&& opt_text(row.reason) == event.text_field("reason"@)
}

/// Whether evidence is written as the object carries it.
pub open spec fn is_evidence_write(
    object: JsonModel,
    kind: OwnerKind,
    owner_id: Seq<char>,
    clear: bool,
    write: EvidenceWrite,
) -> bool {
    write.clear == clear && write_evidence(object, owner_kind_name(kind), owner_id, write.rows@)
}

/// Why an event is refused; nothing where it is written.
pub open spec fn event_error(event: JsonModel, scan_id: Seq<char>) -> Option<IngestError> {
    match event.text_field("scan_id"@) {
        None => Some(IngestError::MissingText { field: EventField::ScanId }),
        Some(own) => if own != scan_id {
            Some(IngestError::SeveralScans)
        } else {
            match event.text_field("event"@) {
                None => Some(IngestError::MissingText { field: EventField::Event }),
                Some(name) => match event_kind_of(name) {
                    None => Some(IngestError::UnknownEvent),
                    Some(EventKind::ScanStarted) => None,
                    Some(EventKind::ProfileDeclared) => match object_of(event, EventField::Profile) {
                        Err(error) => Some(error),
                        Ok(profile) => missing_text(profile, EventField::Id),
                    },
                    Some(EventKind::NodeUpsert) => match object_of(event, EventField::Node) {
                        Err(error) => Some(error),
                        Ok(node) => node_event_error(node),
                    },
                    Some(EventKind::DependencySite) => match object_of(event, EventField::Site) {
                        Err(error) => Some(error),
                        Ok(site) => site_event_error(site),
                    },
                    Some(EventKind::EdgeUpsert) => match object_of(event, EventField::Edge) {
                        Err(error) => Some(error),
                        Ok(edge) => edge_event_error(edge),
                    },
                    Some(EventKind::Diagnostic) => match object_of(event, EventField::Diagnostic) {
                        Err(error) => Some(error),
                        Ok(_) => None,
                    },
                    Some(EventKind::FileCompleted) => missing_text(event, EventField::Path),
                    Some(EventKind::ProfileCompleted) => or_ingest_error(
                        missing_text(event, EventField::ProfileId),
                        match object_of(event, EventField::Coverage) {
                            Err(error) => Some(error),
                            Ok(_) => None,
                        },
                    ),
                    Some(EventKind::ScanCompleted) => match object_of(event, EventField::Coverage) {
                        Err(error) => Some(error),
                        Ok(_) => None,
                    },
                },
            }
        },
    }
}

/// Whether a step writes an event that is not refused. Evidence is cleared first where
/// the store holds any, or where the batch wrote the same owner before.
pub open spec fn writes_event(
    event: JsonModel,
    scan_id: Seq<char>,
    next_ordinal: i64,
    replace_existing: bool,
    owners: EvidenceOwners,
    step: IngestStep,
) -> bool {
    match event_kind_of(event.text_field("event"@)->0) {
        Some(EventKind::ScanStarted) => match event.bool_field("project_code_executed"@) {
            Some(executed) => step == (IngestStep::MarkExecution { executed }),
            None => step == IngestStep::Nothing,
        },
        Some(EventKind::ProfileDeclared) => {
            let profile = event.field("profile"@)->0;
            step matches IngestStep::Profile { row } && profile.text_field("id"@) == Some(row.id@) && row.profile@
                == profile
        },
        Some(EventKind::NodeUpsert) => step matches IngestStep::Node { row } && writes_node(
            event.field("node"@)->0,
            row,
        ),
        Some(EventKind::DependencySite) => {
            let site = event.field("site"@)->0;
            step matches IngestStep::Site { row, evidence } && writes_site(site, row) && is_evidence_write(
                site,
                OwnerKind::Site,
                row.id@,
                replace_existing || owners.holds(OwnerKind::Site, row.id@),
                evidence,
            )
        },
        Some(EventKind::EdgeUpsert) => {
            let edge = event.field("edge"@)->0;
            step matches IngestStep::Edge { row, evidence } && writes_edge(edge, row) && is_evidence_write(
                edge,
                OwnerKind::Edge,
                row.id@,
                replace_existing || owners.holds(OwnerKind::Edge, row.id@),
                evidence,
            )
        },
        Some(EventKind::Diagnostic) => {
            let diagnostic = event.field("diagnostic"@)->0;
            step matches IngestStep::Diagnostic { row, evidence } && writes_diagnostic(
                diagnostic,
                scan_id,
                adapter_of(event),
                next_ordinal,
                row,
            ) && is_evidence_write(
                diagnostic,
                OwnerKind::Diagnostic,
                row.id@,
                replace_existing || owners.holds(OwnerKind::Diagnostic, row.id@),
                evidence,
            )
        },
        Some(EventKind::FileCompleted) => step matches IngestStep::File { row } && writes_file(event, row),
        Some(EventKind::ProfileCompleted) => step matches IngestStep::ProfileCoverage { row } && event.text_field(
            "profile_id"@,
        ) == Some(row.profile_id@) && row.coverage@ == event.field("coverage"@)->0,
        Some(EventKind::ScanCompleted) => step matches IngestStep::Coverage { coverage } && coverage@ == event.field(
            "coverage"@,
        )->0,
        None => false,
    }
}

/// The owner of the evidence that a step writes.
pub open spec fn owner_of(step: IngestStep) -> Option<(OwnerKind, Seq<char>)> {
    match step {
        IngestStep::Site { row, evidence } => Some((OwnerKind::Site, row.id@)),
        IngestStep::Edge { row, evidence } => Some((OwnerKind::Edge, row.id@)),
        IngestStep::Diagnostic { row, evidence } => Some((OwnerKind::Diagnostic, row.id@)),
        _ => None,
    }
}

/// Whether owners grew by the owner of a step.
pub open spec fn owners_grow(before: EvidenceOwners, step: IngestStep, after: EvidenceOwners) -> bool {
    forall|k: OwnerKind, i: Seq<char>| #[trigger]
        after.holds(k, i) == (before.holds(k, i) || owner_of(step) == Some((k, i)))
}

fn evidence_write(
    object: &Json,
    kind: OwnerKind,
    owner_id: &str,
    replace_existing: bool,
    owners: &mut EvidenceOwners,
) -> (result: EvidenceWrite)
    ensures
        is_evidence_write(
            object@,
            kind,
            owner_id@,
            replace_existing || old(owners).holds(kind, owner_id@),
            result,
        ),
        forall|k: OwnerKind, i: Seq<char>| #[trigger]
            final(owners).holds(k, i) == (old(owners).holds(k, i) || (k == kind && i == owner_id@)),
{
    let fresh = owners.insert(kind, owner_id);
    EvidenceWrite { clear: replace_existing || !fresh, rows: evidence_rows(object, kind.name(), owner_id) }
}

/// What an event of a batch writes. The batch belongs to one scan; `next_ordinal` is the
/// ordinal of the scan's next diagnostic, `replace_existing` tells whether the scan has
/// evidence already, and `owners` whose evidence the batch wrote before.
pub fn ingest_event(
    event: &Json,
    scan_id: &str,
    next_ordinal: i64,
    replace_existing: bool,
    owners: &mut EvidenceOwners,
) -> (result: Result<IngestStep, IngestError>)
    ensures
        match event_error(event@, scan_id@) {
            Some(error) => result == Err::<IngestStep, _>(error) && *final(owners) == *old(owners),
            None => result matches Ok(step) && writes_event(
                event@,
                scan_id@,
                next_ordinal,
                replace_existing,
                *old(owners),
                step,
            ) && owners_grow(*old(owners), step, *final(owners)),
        },
{
    let own = match required_str(event, EventField::ScanId) {
        Ok(own) => own,
        Err(error) => {
            return Err(error);
        },
    };
    if !same(own, scan_id) {
        return Err(IngestError::SeveralScans);
    }
    let name = match required_str(event, EventField::Event) {
        Ok(name) => name,
        Err(error) => {
            return Err(error);
        },
    };
    let kind = match event_kind(name) {
        Some(kind) => kind,
        None => {
            return Err(IngestError::UnknownEvent);
        },
    };
    match kind {
        EventKind::ScanStarted => match event.get_bool("project_code_executed") {
            Some(executed) => Ok(IngestStep::MarkExecution { executed }),
            None => Ok(IngestStep::Nothing),
        },
        EventKind::ProfileDeclared => match required_object(event, EventField::Profile) {
            Err(error) => Err(error),
            Ok(profile) => match required(profile, EventField::Id) {
                Err(error) => Err(error),
                Ok(id) => Ok(IngestStep::Profile { row: ProfileRow { id, profile: profile.copy() } }),
            },
        },
        EventKind::NodeUpsert => match required_object(event, EventField::Node) {
            Err(error) => Err(error),
            Ok(node) => match node_row(node) {
                Err(error) => Err(error),
                Ok(row) => Ok(IngestStep::Node { row }),
            },
        },
        EventKind::DependencySite => match required_object(event, EventField::Site) {
            Err(error) => Err(error),
            Ok(site) => match site_row(site) {
                Err(error) => Err(error),
                Ok(row) => {
                    let evidence = evidence_write(site, OwnerKind::Site, row.id.as_str(), replace_existing, owners);
                    Ok(IngestStep::Site { row, evidence })
                },
            },
        },
        EventKind::EdgeUpsert => match required_object(event, EventField::Edge) {
            Err(error) => Err(error),
            Ok(edge) => match edge_row(edge) {
                Err(error) => Err(error),
                Ok(row) => {
                    let evidence = evidence_write(edge, OwnerKind::Edge, row.id.as_str(), replace_existing, owners);
                    Ok(IngestStep::Edge { row, evidence })
                },
            },
        },
        EventKind::Diagnostic => match required_object(event, EventField::Diagnostic) {
            Err(error) => Err(error),
            Ok(diagnostic) => {
                let adapter = text_default(event, "adapter", "unknown");
                let row = diagnostic_row(diagnostic, scan_id, adapter.as_str(), next_ordinal);
                let evidence = evidence_write(
                    diagnostic,
                    OwnerKind::Diagnostic,
                    row.id.as_str(),
                    replace_existing,
                    owners,
                );
                Ok(IngestStep::Diagnostic { row, evidence })
            },
        },
        EventKind::FileCompleted => match required(event, EventField::Path) {
            Err(error) => Err(error),
            Ok(path) => Ok(
                IngestStep::File {
                    row: FileCoverageRecord {
                        adapter: text_default(event, "adapter", "unknown"),
                        path,
                        discovered_sites: unsigned_default(event, "discovered_sites", 0),
                        emitted_sites: unsigned_default(event, "emitted_sites", 0),
                        skipped_sites: unsigned_default(event, "skipped_sites", 0),
                        skipped: flag_default(event, "skipped", false),
                        reason: optional_text(event, "reason"),
                    },
                },
            ),
        },
        EventKind::ProfileCompleted => match required(event, EventField::ProfileId) {
            Err(error) => Err(error),
            Ok(profile_id) => match required_object(event, EventField::Coverage) {
                Err(error) => Err(error),
                Ok(coverage) => Ok(
                    IngestStep::ProfileCoverage {
                        row: ProfileCoverageJsonRow { profile_id, coverage: coverage.copy() },
                    },
                ),
            },
        },
        EventKind::ScanCompleted => match required_object(event, EventField::Coverage) {
            Err(error) => Err(error),
            Ok(coverage) => Ok(IngestStep::Coverage { coverage: coverage.copy() }),
        },
    }
}

/// Whether coverage says that project code was executed.
pub fn coverage_executed(coverage: &Json) -> (result: bool)
    ensures
        result == flag_or(coverage@, "project_code_executed"@, false),
{
    flag_default(coverage, "project_code_executed", false)
}

// ---------------------------------------------------------------------------------------
// Laws
// ---------------------------------------------------------------------------------------

/// Evidence that an object carries is read back as it was written: its detail and its
/// properties come from the item, its owner and ordinal from its place.
pub proof fn written_evidence_is_read_back(
    item: JsonModel,
    owner_type: Seq<char>,
    owner_id: Seq<char>,
    ordinal: int,
    row: EvidenceRow,
)
    requires
        writes_evidence(item, owner_type, owner_id, ordinal, row),
    ensures
        ({
            let record = read_evidence(row);
            &&& record.owner_type == owner_type
            &&& record.owner_id == owner_id
            &&& record.ordinal == ordinal as i64
            &&& record.detail == item.text_field("detail"@)
            &&& record.properties == field_or(item, "properties"@, empty_object())
            &&& item.text_field("kind"@) matches Some(kind) ==> record.kind == kind
            &&& item.text_field("path"@) matches Some(path) ==> record.path == path
        }),
{
}

/// Writing an object without its evidence changes no other field of it.
pub proof fn other_fields_are_kept(fields: Seq<(Seq<char>, JsonModel)>, name: Seq<char>)
    requires
        name != "evidence"@,
    ensures
        JsonModel::Object(without_evidence(fields)).field(name) == JsonModel::Object(fields).field(name),
{
    kept_from(fields, name, 0);
}

proof fn kept_from(fields: Seq<(Seq<char>, JsonModel)>, name: Seq<char>, from: int)
    requires
        name != "evidence"@,
        0 <= from <= fields.len(),
    ensures
        crate::json::field_from(without_evidence(fields), name, from) == crate::json::field_from(fields, name, from),
    decreases fields.len() - from,
{
    let written = without_evidence(fields);
    if from < fields.len() {
        assert(written[from].0 == fields[from].0);
        kept_from(fields, name, from + 1);
    } else if written.len() > fields.len() {
        assert(written[from].0 == "evidence"@);
        assert(crate::json::field_from(written, name, from + 1) is None);
    }
}

} // verus!

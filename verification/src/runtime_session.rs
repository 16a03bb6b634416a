//! Runtime sessions: their records, what makes one valid on a base graph, and what an
//! edge was observed to do.

use vstd::prelude::*;

use crate::coverage::sum_or_max;
use crate::json::{Json, JsonModel};
use crate::keyed::{same_lists, values};
use crate::order::{collect, is_sorted_set, sorted_set, views};
use crate::records::{
    CoverageModel, CoverageRecord, DiagnosticModel, DiagnosticRecord, EdgeModel, EdgeRecord, EvidenceModel,
    EvidenceRecord, GraphSnapshot, NodeModel, NodeRecord, ProfileModel, ProfileRecord, SiteModel, SiteRecord,
};
use crate::text::{less, opt_text, same, same_option, text_lt, texts};

verus! {

/// One observed runtime session.
#[derive(Debug, Clone, PartialEq)]
pub struct RuntimeSessionRecord {
    pub id: String,
    pub base_snapshot_id: String,
    pub source_session_id: String,
    pub schema_version: String,
    pub status: String,
    pub trace_digest: String,
    pub profile_id: String,
    pub parent_profile_id: Option<String>,
    pub profile_status: String,
    pub profile_reason: Option<String>,
    pub profile: ProfileRecord,
    pub environment: Json,
    pub redaction: Json,
    pub started_at: String,
    pub ended_at: Option<String>,
    pub first_observed_at: String,
    pub last_observed_at: String,
    pub event_count: u64,
    pub observation_count: u64,
    pub resolved_targets: u64,
    pub external_targets: u64,
    pub unresolved_targets: u64,
    pub redacted_values: u64,
    pub coverage: CoverageRecord,
    pub created_at: String,
}

/// What a runtime session adds to a graph.
#[derive(Debug, Clone, PartialEq)]
pub struct RuntimeSessionDelta {
    pub session: RuntimeSessionRecord,
    pub nodes: Vec<NodeRecord>,
    pub sites: Vec<SiteRecord>,
    pub edges: Vec<EdgeRecord>,
    pub evidence: Vec<EvidenceRecord>,
    pub diagnostics: Vec<DiagnosticRecord>,
}

/// What an edge was observed to do over all sessions.
#[derive(Debug, Clone, PartialEq, Eq)]
pub struct RuntimeEdgeContext {
    pub session_ids: Vec<String>,
    pub source_session_ids: Vec<String>,
    pub environment_names: Vec<String>,
    pub runtimes: Vec<String>,
    pub regions: Vec<String>,
    pub observation_count: u64,
    pub first_observed_at: Option<String>,
    pub last_observed_at: Option<String>,
}

/// Which kind of record of a graph.
#[derive(Debug, Clone, Copy, PartialEq, Eq, Structural)]
pub enum GraphPart {
    Profile,
    Node,
    Site,
    Edge,
    Diagnostic,
}

/// Why a runtime session was refused. Positions count within the session's records.
#[derive(Debug, Clone, Copy, PartialEq, Eq, Structural)]
pub enum RuntimeError {
    SessionMetadata,
    ProfileContract,
    ProfileStatus,
    ResolvedWithoutParent,
    ParentMissing,
    ParentContract,
    UnresolvedProfile,
    NodeDuplicated { node: usize },
    NodeOverwrites { node: usize },
    NodeNotSentinel { node: usize },
    SiteConflicts { site: usize },
    SiteUnauthorized { site: usize },
    EnvironmentWithoutName,
    EdgeConflicts { edge: usize },
    EdgeUnauthorized { edge: usize },
    EvidenceNotObject { evidence: usize },
    EvidenceWithoutFirstTime { evidence: usize },
    EvidenceWithoutLastTime { evidence: usize },
    EvidenceUnowned { evidence: usize },
    DiagnosticNotCanonical { diagnostic: usize },
    OwnerWithoutPrimaryEvidence,
    SessionsNotCanonical,
    Collision { session: usize, part: GraphPart, item: usize },
}

// ---------------------------------------------------------------------------------------
// Models
// ---------------------------------------------------------------------------------------

/// What a runtime session holds.
#[verifier::ext_equal]
pub struct RuntimeSessionModel {
    pub id: Seq<char>,
    pub base_snapshot_id: Seq<char>,
    pub source_session_id: Seq<char>,
    pub schema_version: Seq<char>,
    pub status: Seq<char>,
    pub trace_digest: Seq<char>,
    pub profile_id: Seq<char>,
    pub parent_profile_id: Option<Seq<char>>,
    pub profile_status: Seq<char>,
    pub profile_reason: Option<Seq<char>>,
    pub profile: ProfileModel,
    pub environment: JsonModel,
    pub redaction: JsonModel,
    pub started_at: Seq<char>,
    pub ended_at: Option<Seq<char>>,
    pub first_observed_at: Seq<char>,
    pub last_observed_at: Seq<char>,
    pub event_count: u64,
    pub observation_count: u64,
    pub resolved_targets: u64,
    pub external_targets: u64,
    pub unresolved_targets: u64,
    pub redacted_values: u64,
    pub coverage: CoverageModel,
    pub created_at: Seq<char>,
}

impl RuntimeSessionModel {
    /// The session by value.
    pub open spec fn value(self) -> RuntimeSessionModel {
        RuntimeSessionModel {
            profile: self.profile.value(),
            environment: self.environment.value(),
            redaction: self.redaction.value(),
            ..self
        }
    }
}

impl View for RuntimeSessionRecord {
    type V = RuntimeSessionModel;

    open spec fn view(&self) -> RuntimeSessionModel {
        RuntimeSessionModel {
            id: self.id@,
            base_snapshot_id: self.base_snapshot_id@,
            source_session_id: self.source_session_id@,
            schema_version: self.schema_version@,
            status: self.status@,
            trace_digest: self.trace_digest@,
            profile_id: self.profile_id@,
            parent_profile_id: opt_text(self.parent_profile_id),
            profile_status: self.profile_status@,
            profile_reason: opt_text(self.profile_reason),
            profile: self.profile@,
            environment: self.environment@,
            redaction: self.redaction@,
            started_at: self.started_at@,
            ended_at: opt_text(self.ended_at),
            first_observed_at: self.first_observed_at@,
            last_observed_at: self.last_observed_at@,
            event_count: self.event_count,
            observation_count: self.observation_count,
            resolved_targets: self.resolved_targets,
            external_targets: self.external_targets,
            unresolved_targets: self.unresolved_targets,
            redacted_values: self.redacted_values,
            coverage: self.coverage@,
            created_at: self.created_at@,
        }
    }
}

/// What the delta of a runtime session holds.
#[verifier::ext_equal]
pub struct RuntimeDeltaModel {
    pub session: RuntimeSessionModel,
    pub nodes: Seq<NodeModel>,
    pub sites: Seq<SiteModel>,
    pub edges: Seq<EdgeModel>,
    pub evidence: Seq<EvidenceModel>,
    pub diagnostics: Seq<DiagnosticModel>,
}

impl RuntimeDeltaModel {
    /// The delta by value.
    pub open spec fn value(self) -> RuntimeDeltaModel {
        RuntimeDeltaModel {
            session: self.session.value(),
            nodes: values::<NodeRecord>(self.nodes),
            sites: values::<SiteRecord>(self.sites),
            edges: values::<EdgeRecord>(self.edges),
            evidence: values::<EvidenceRecord>(self.evidence),
            diagnostics: values::<DiagnosticRecord>(self.diagnostics),
        }
    }
}

impl View for RuntimeSessionDelta {
    type V = RuntimeDeltaModel;

    open spec fn view(&self) -> RuntimeDeltaModel {
        RuntimeDeltaModel {
            session: self.session@,
            nodes: views(self.nodes@),
            sites: views(self.sites@),
            edges: views(self.edges@),
            evidence: views(self.evidence@),
            diagnostics: views(self.diagnostics@),
        }
    }
}

/// Whether two sessions hold the same but for the time at which they were prepared: that
/// time is audit metadata, not part of a trace.
pub open spec fn same_trace(a: RuntimeDeltaModel, b: RuntimeDeltaModel) -> bool {
    a.value() == (RuntimeDeltaModel {
        session: RuntimeSessionModel { created_at: a.session.created_at, ..b.session.value() },
        ..b.value()
    })
}

impl RuntimeSessionRecord {
    /// Whether two sessions hold the same but for the time at which they were prepared.
    fn same_but_created(&self, other: &RuntimeSessionRecord) -> (result: bool)
        ensures
            result == (self@.value() == (RuntimeSessionModel { created_at: self@.created_at, ..other@.value() })),
    {
        let first = self.id == other.id && self.base_snapshot_id == other.base_snapshot_id && self.source_session_id
            == other.source_session_id && self.schema_version == other.schema_version && self.status == other.status
            && self.trace_digest == other.trace_digest && self.profile_id == other.profile_id && same_option(
            &self.parent_profile_id,
            &other.parent_profile_id,
        ) && self.profile_status == other.profile_status && same_option(&self.profile_reason, &other.profile_reason)
            && self.profile.same_as(&other.profile) && self.environment.same_value(&other.environment)
            && self.redaction.same_value(&other.redaction);
        let second = self.started_at == other.started_at && same_option(&self.ended_at, &other.ended_at)
            && self.first_observed_at == other.first_observed_at && self.last_observed_at == other.last_observed_at
            && self.event_count == other.event_count && self.observation_count == other.observation_count
            && self.resolved_targets == other.resolved_targets && self.external_targets == other.external_targets
            && self.unresolved_targets == other.unresolved_targets && self.redacted_values == other.redacted_values
            && self.coverage.same_as(&other.coverage);
        first && second
    }
}

/// Whether two deltas hold the same trace.
pub fn is_same_trace(a: &RuntimeSessionDelta, b: &RuntimeSessionDelta) -> (result: bool)
    ensures
        result == same_trace(a@, b@),
{
    a.session.same_but_created(&b.session) && same_lists(&a.nodes, &b.nodes) && same_lists(&a.sites, &b.sites)
        && same_lists(&a.edges, &b.edges) && same_lists(&a.evidence, &b.evidence) && same_lists(
        &a.diagnostics,
        &b.diagnostics,
    )
}

// ---------------------------------------------------------------------------------------
// The context of an edge
// ---------------------------------------------------------------------------------------

/// A list of texts in the context of an edge.
#[derive(Debug, Clone, Copy, PartialEq, Eq, Structural)]
pub enum ContextField {
    Session,
    SourceSession,
    EnvironmentName,
    Runtime,
    Region,
}

/// What evidence says of its environment.
pub open spec fn environment_text(evidence: EvidenceRecord, name: Seq<char>) -> Option<Seq<char>> {
    match evidence@.properties.field("environment"@) {
        Some(environment) => environment.text_field(name),
        None => None,
    }
}

/// What evidence says for a field of the context.
pub open spec fn context_text(evidence: EvidenceRecord, field: ContextField) -> Option<Seq<char>> {
    match field {
        ContextField::Session => evidence@.properties.text_field("session_id"@),
        ContextField::SourceSession => evidence@.properties.text_field("source_session_id"@),
        ContextField::EnvironmentName => environment_text(evidence, "name"@),
        ContextField::Runtime => environment_text(evidence, "runtime"@),
        ContextField::Region => environment_text(evidence, "region"@),
    }
}

/// Whether evidence observed an edge at run time.
pub open spec fn observes(evidence: EvidenceRecord, edge_id: Seq<char>) -> bool {
    evidence.owner_type@ == "edge"@ && evidence.owner_id@ == edge_id && evidence.kind@ == "runtime"@
}

/// Which evidence says something of an edge for a field of the context.
pub open spec fn says_of_edge(
    evidence: Seq<EvidenceRecord>,
    edge_id: Seq<char>,
    field: ContextField,
) -> spec_fn(int) -> bool {
    |i: int| observes(evidence[i], edge_id) && context_text(evidence[i], field) is Some
}

/// What evidence says for a field of the context.
pub open spec fn said_at(evidence: Seq<EvidenceRecord>, field: ContextField) -> spec_fn(int) -> Seq<char> {
    |i: int| context_text(evidence[i], field)->0
}

/// All that evidence says of an edge for a field of the context.
pub open spec fn said_of_edge(
    evidence: Seq<EvidenceRecord>,
    edge_id: Seq<char>,
    field: ContextField,
) -> Seq<Seq<char>> {
    collect(evidence.len() as int, says_of_edge(evidence, edge_id, field), said_at(evidence, field))
}

/// How often the first `count` pieces of evidence observed an edge.
pub open spec fn observations_of(evidence: Seq<EvidenceRecord>, edge_id: Seq<char>, count: int) -> u64
    decreases count,
{
    if count <= 0 {
        0
    } else if observes(evidence[count - 1], edge_id) {
        sum_or_max(
            observations_of(evidence, edge_id, count - 1),
            match evidence[count - 1]@.properties.unsigned_field("count"@) {
                Some(observed) => observed,
                None => 0,
            },
        )
    } else {
        observations_of(evidence, edge_id, count - 1)
    }
}

/// The lesser of two optional texts.
pub open spec fn earlier_of(current: Option<Seq<char>>, value: Option<Seq<char>>) -> Option<Seq<char>> {
    match (current, value) {
        (Some(a), Some(b)) => if text_lt(b, a) {
            Some(b)
        } else {
            Some(a)
        },
        (None, value) => value,
        (current, None) => current,
    }
}

/// The greater of two optional texts.
pub open spec fn later_of(current: Option<Seq<char>>, value: Option<Seq<char>>) -> Option<Seq<char>> {
    match (current, value) {
        (Some(a), Some(b)) => if text_lt(a, b) {
            Some(b)
        } else {
            Some(a)
        },
        (None, value) => value,
        (current, None) => current,
    }
}

/// When the first `count` pieces of evidence first observed an edge.
pub open spec fn first_observed(evidence: Seq<EvidenceRecord>, edge_id: Seq<char>, count: int) -> Option<Seq<char>>
    decreases count,
{
    if count <= 0 {
        None
    } else if observes(evidence[count - 1], edge_id) {
        earlier_of(
            first_observed(evidence, edge_id, count - 1),
            evidence[count - 1]@.properties.text_field("first_observed_at"@),
        )
    } else {
        first_observed(evidence, edge_id, count - 1)
    }
}

/// When the first `count` pieces of evidence last observed an edge.
pub open spec fn last_observed(evidence: Seq<EvidenceRecord>, edge_id: Seq<char>, count: int) -> Option<Seq<char>>
    decreases count,
{
    if count <= 0 {
        None
    } else if observes(evidence[count - 1], edge_id) {
        later_of(
            last_observed(evidence, edge_id, count - 1),
            evidence[count - 1]@.properties.text_field("last_observed_at"@),
        )
    } else {
        last_observed(evidence, edge_id, count - 1)
    }
}

/// Whether a context tells all that the evidence observed of an edge.
pub open spec fn is_context_of(evidence: Seq<EvidenceRecord>, edge_id: Seq<char>, context: RuntimeEdgeContext) -> bool {
    let count = evidence.len() as int;
    &&& is_sorted_set(texts(context.session_ids@), said_of_edge(evidence, edge_id, ContextField::Session))
    &&& is_sorted_set(
        texts(context.source_session_ids@),
        said_of_edge(evidence, edge_id, ContextField::SourceSession),
    )
    &&& is_sorted_set(
        texts(context.environment_names@),
        said_of_edge(evidence, edge_id, ContextField::EnvironmentName),
    )
    &&& is_sorted_set(texts(context.runtimes@), said_of_edge(evidence, edge_id, ContextField::Runtime))
    &&& is_sorted_set(texts(context.regions@), said_of_edge(evidence, edge_id, ContextField::Region))
    &&& context.observation_count == observations_of(evidence, edge_id, count)
    &&& opt_text(context.first_observed_at) == first_observed(evidence, edge_id, count)
    &&& opt_text(context.last_observed_at) == last_observed(evidence, edge_id, count)
}

fn environment_field<'a>(evidence: &'a EvidenceRecord, name: &str) -> (result: Option<&'a str>)
    ensures
        match result {
            Some(text) => environment_text(*evidence, name@) == Some(text@),
            None => environment_text(*evidence, name@) is None,
        },
{
    match evidence.properties.get("environment") {
        Some(environment) => environment.get_str(name),
        None => None,
    }
}

fn context_field(evidence: &EvidenceRecord, field: ContextField) -> (result: Option<&str>)
    ensures
        match result {
            Some(text) => context_text(*evidence, field) == Some(text@),
            None => context_text(*evidence, field) is None,
        },
{
    match field {
        ContextField::Session => evidence.properties.get_str("session_id"),
        ContextField::SourceSession => evidence.properties.get_str("source_session_id"),
        ContextField::EnvironmentName => environment_field(evidence, "name"),
        ContextField::Runtime => environment_field(evidence, "runtime"),
        ContextField::Region => environment_field(evidence, "region"),
    }
}

fn is_observation(evidence: &EvidenceRecord, edge_id: &str) -> (result: bool)
    ensures
        result == observes(*evidence, edge_id@),
{
    same(evidence.owner_type.as_str(), "edge") && same(evidence.owner_id.as_str(), edge_id) && same(
        evidence.kind.as_str(),
        "runtime",
    )
}

fn context_texts(evidence: &Vec<EvidenceRecord>, edge_id: &str, field: ContextField) -> (result: Vec<String>)
    ensures
        is_sorted_set(texts(result@), said_of_edge(evidence@, edge_id@, field)),
{
    let ghost keep = says_of_edge(evidence@, edge_id@, field);
    let ghost item = said_at(evidence@, field);
    let mut said: Vec<String> = Vec::new();
    let mut i: usize = 0;
    assert(texts(said@) =~= Seq::empty());
    while i < evidence.len()
        invariant
            i <= evidence.len(),
            keep == says_of_edge(evidence@, edge_id@, field),
            item == said_at(evidence@, field),
            texts(said@) == collect(i as int, keep, item),
        decreases evidence.len() - i,
    {
        if is_observation(&evidence[i], edge_id) {
            match context_field(&evidence[i], field) {
                Some(text) => {
                    let ghost earlier = texts(said@);
                    said.push(String::from_str(text));
                    assert(texts(said@) =~= earlier.push(text@));
                },
                None => {},
            }
        }
        i = i + 1;
    }
    sorted_set(said)
}

fn update_min(current: &mut Option<String>, value: Option<&str>)
    ensures
        opt_text(*final(current)) == earlier_of(opt_text(*old(current)), crate::operations::opt_str(value)),
{
    if let Some(value) = value {
        let replace: bool = match &*current {
            Some(current) => less(value, current.as_str()),
            None => true,
        };
        if replace {
            *current = Some(String::from_str(value));
        }
    }
}

fn update_max(current: &mut Option<String>, value: Option<&str>)
    ensures
        opt_text(*final(current)) == later_of(opt_text(*old(current)), crate::operations::opt_str(value)),
{
    if let Some(value) = value {
        let replace: bool = match &*current {
            Some(current) => less(current.as_str(), value),
            None => true,
        };
        if replace {
            *current = Some(String::from_str(value));
        }
    }
}

/// What the runtime evidence of a snapshot observed of an edge.
pub fn runtime_context_for_edge(snapshot: &GraphSnapshot, edge: &EdgeRecord) -> (result: RuntimeEdgeContext)
    ensures
        is_context_of(snapshot.evidence@, edge.id@, result),
{
    let evidence = &snapshot.evidence;
    let edge_id = edge.id.as_str();
    let mut observation_count: u64 = 0;
    let mut first_observed_at: Option<String> = None;
    let mut last_observed_at: Option<String> = None;
    let mut i: usize = 0;
    while i < evidence.len()
        invariant
            i <= evidence.len(),
            edge_id@ == edge.id@,
            observation_count == observations_of(evidence@, edge.id@, i as int),
            opt_text(first_observed_at) == first_observed(evidence@, edge.id@, i as int),
            opt_text(last_observed_at) == last_observed(evidence@, edge.id@, i as int),
        decreases evidence.len() - i,
    {
        if is_observation(&evidence[i], edge_id) {
            let observed: u64 = match evidence[i].properties.get_unsigned("count") {
                Some(observed) => observed,
                None => 0,
            };
            observation_count = observation_count.saturating_add(observed);
            update_min(&mut first_observed_at, evidence[i].properties.get_str("first_observed_at"));
            update_max(&mut last_observed_at, evidence[i].properties.get_str("last_observed_at"));
        }
        i = i + 1;
    }
    RuntimeEdgeContext {
        session_ids: context_texts(evidence, edge_id, ContextField::Session),
        source_session_ids: context_texts(evidence, edge_id, ContextField::SourceSession),
        environment_names: context_texts(evidence, edge_id, ContextField::EnvironmentName),
        runtimes: context_texts(evidence, edge_id, ContextField::Runtime),
        regions: context_texts(evidence, edge_id, ContextField::Region),
        observation_count,
        first_observed_at,
        last_observed_at,
    }
}

impl Default for RuntimeEdgeContext {
    fn default() -> (result: RuntimeEdgeContext)
        ensures
            result.session_ids@.len() == 0,
            result.source_session_ids@.len() == 0,
            result.environment_names@.len() == 0,
            result.runtimes@.len() == 0,
            result.regions@.len() == 0,
            result.observation_count == 0,
            result.first_observed_at is None,
            result.last_observed_at is None,
    {
        RuntimeEdgeContext {
            session_ids: Vec::new(),
            source_session_ids: Vec::new(),
            environment_names: Vec::new(),
            runtimes: Vec::new(),
            regions: Vec::new(),
            observation_count: 0,
            first_observed_at: None,
            last_observed_at: None,
        }
    }
}

} // verus!

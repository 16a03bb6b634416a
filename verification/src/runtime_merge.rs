//! A graph together with the runtime sessions that were observed on it.

use vstd::prelude::*;

use crate::coverage::{
    count_status, metadata_union, metadata_union_is_unique, resolved_as, site_statuses, statuses,
    union_runtime_coverage_metadata,
};
use crate::keyed::{
    adding_held_items_changes_nothing, adding_keeps_and_holds, compatible_items_are_added, each_once, holds_latest,
    identities, latest_holds_the_latest, latest_of, with_all_exact, with_exact, Identified, Keyed,
};
use crate::matrix_refresh::{greatest_ordinal, model_ids, renumbered, saturated};
use crate::build_union::node_ids_of;
use crate::matrix_facts::{edge_ids_of, site_ids_of};
use crate::order::{ascending, is_stable_sort, last_position, last_position_is_last, no_failure_anywhere, views};
use crate::records::{
    CoverageModel, CoverageRecord, DiagnosticModel, DiagnosticRecord, EdgeModel, EdgeRecord, EvidenceModel,
    EvidenceRecord, GraphSnapshot, NodeModel, NodeRecord, ProfileModel, ProfileRecord, SiteModel, SiteRecord,
};
use crate::runtime_session::{GraphPart, RuntimeDeltaModel, RuntimeError, RuntimeSessionDelta};
use crate::runtime_union::{runtime_edge_error, runtime_node_error, runtime_site_error, runtime_union_error};
use crate::sort::{is_rank_order, is_ranked_sort, ranked_sort, Ranked};
use crate::text::{less, text_lt, text_lt_irreflexive, text_lt_total, text_lt_transitive, texts};
use vstd::hash_map::StringHashMap;

verus! {

// ---------------------------------------------------------------------------------------
// Ordinals of evidence
// ---------------------------------------------------------------------------------------

/// The session that evidence names; the empty text where it names none.
pub open spec fn session_of(evidence: EvidenceModel) -> Seq<char> {
    match evidence.properties.text_field("session_id"@) {
        Some(session) => session,
        None => Seq::empty(),
    }
}

/// The session that evidence names; the empty text where it names none.
pub fn evidence_session_id(evidence: &EvidenceRecord) -> (result: &str)
    ensures
        result@ == session_of(evidence@),
{
    match evidence.properties.get_str("session_id") {
        Some(session) => session,
        None => {
            proof {
                reveal_strlit("");
                assert(""@ =~= Seq::empty());
            }
            ""
        },
    }
}

/// The place of evidence among that of several sessions: by owner, then by session, then
/// by ordinal.
#[derive(Debug, Clone, PartialEq, Eq)]
pub struct SessionPlace {
    pub owner_type: String,
    pub owner_id: String,
    pub session: String,
    pub ordinal: i64,
}

impl Ranked for SessionPlace {
    open spec fn before(a: SessionPlace, b: SessionPlace) -> bool {
        ||| text_lt(a.owner_type@, b.owner_type@)
        ||| a.owner_type@ == b.owner_type@ && text_lt(a.owner_id@, b.owner_id@)
        ||| a.owner_type@ == b.owner_type@ && a.owner_id@ == b.owner_id@ && text_lt(a.session@, b.session@)
        ||| a.owner_type@ == b.owner_type@ && a.owner_id@ == b.owner_id@ && a.session@ == b.session@ && a.ordinal
            < b.ordinal
    }

    proof fn before_is_irreflexive(a: SessionPlace) {
        text_lt_irreflexive(a.owner_type@);
        text_lt_irreflexive(a.owner_id@);
        text_lt_irreflexive(a.session@);
    }

    proof fn before_is_transitive(a: SessionPlace, b: SessionPlace, c: SessionPlace) {
        if text_lt(a.owner_type@, b.owner_type@) && text_lt(b.owner_type@, c.owner_type@) {
            text_lt_transitive(a.owner_type@, b.owner_type@, c.owner_type@);
        }
        if text_lt(a.owner_id@, b.owner_id@) && text_lt(b.owner_id@, c.owner_id@) {
            text_lt_transitive(a.owner_id@, b.owner_id@, c.owner_id@);
        }
        if text_lt(a.session@, b.session@) && text_lt(b.session@, c.session@) {
            text_lt_transitive(a.session@, b.session@, c.session@);
        }
    }

    proof fn before_is_weak(a: SessionPlace, b: SessionPlace, c: SessionPlace) {
        text_lt_total(a.owner_type@, b.owner_type@);
        text_lt_total(a.owner_id@, b.owner_id@);
        text_lt_total(a.session@, b.session@);
        if text_lt(b.owner_type@, a.owner_type@) && text_lt(a.owner_type@, c.owner_type@) {
            text_lt_transitive(b.owner_type@, a.owner_type@, c.owner_type@);
        }
        if text_lt(b.owner_id@, a.owner_id@) && text_lt(a.owner_id@, c.owner_id@) {
            text_lt_transitive(b.owner_id@, a.owner_id@, c.owner_id@);
        }
        if text_lt(b.session@, a.session@) && text_lt(a.session@, c.session@) {
            text_lt_transitive(b.session@, a.session@, c.session@);
        }
    }

    fn is_before(a: &SessionPlace, b: &SessionPlace) -> (result: bool) {
        if a.owner_type != b.owner_type {
            proof {
                text_lt_irreflexive(a.owner_type@);
            }
            less(a.owner_type.as_str(), b.owner_type.as_str())
        } else if a.owner_id != b.owner_id {
            proof {
                text_lt_irreflexive(a.owner_type@);
            }
            less(a.owner_id.as_str(), b.owner_id.as_str())
        } else {
            proof {
                text_lt_irreflexive(a.owner_type@);
                text_lt_irreflexive(a.owner_id@);
            }
            less(a.session.as_str(), b.session.as_str()) || (a.session == b.session && a.ordinal < b.ordinal)
        }
    }
}

/// Whether keys are the places of evidence among that of several sessions.
pub open spec fn are_session_places(places: Seq<SessionPlace>, evidence: Seq<EvidenceModel>) -> bool {
    &&& places.len() == evidence.len()
    &&& forall|i: int|
        0 <= i < places.len() ==> (#[trigger] places[i]).owner_type@ == evidence[i].owner_type
            && places[i].owner_id@ == evidence[i].owner_id && places[i].session@ == session_of(evidence[i])
            && places[i].ordinal == evidence[i].ordinal
}

/// Whether two pieces of evidence have one owner.
pub open spec fn same_owner(a: EvidenceModel, b: EvidenceModel) -> bool {
    a.owner_type == b.owner_type && a.owner_id == b.owner_id
}

/// Where the run of evidence with the owner of position `i` starts.
pub open spec fn owner_start(evidence: Seq<EvidenceModel>, i: int) -> int
    decreases i,
{
    if i <= 0 || !same_owner(evidence[i - 1], evidence[i]) {
        i
    } else {
        owner_start(evidence, i - 1)
    }
}

/// Evidence numbered from zero within each run of one owner.
pub open spec fn numbered_by_owner(evidence: Seq<EvidenceModel>) -> Seq<EvidenceModel> {
    Seq::new(
        evidence.len(),
        |i: int| EvidenceModel { ordinal: (i - owner_start(evidence, i)) as i64, ..evidence[i] },
    )
}

/// Whether `result` is the evidence by owner, session and ordinal, numbered anew from zero
/// for each owner.
pub open spec fn is_reassigned(evidence: Seq<EvidenceModel>, result: Seq<EvidenceModel>) -> bool {
    exists|places: Seq<SessionPlace>, sorted: Seq<EvidenceModel>|
        are_session_places(places, evidence) && #[trigger] is_ranked_sort(evidence, places, sorted) && result
            == numbered_by_owner(sorted)
}

/// Puts evidence of several sessions in order and numbers it anew for each owner.
pub fn reassign_runtime_evidence_ordinals(evidence: Vec<EvidenceRecord>) -> (result: Vec<EvidenceRecord>)
    ensures
        is_reassigned(views(evidence@), views(result@)),
        result.len() == evidence.len(),
{
    let ghost source = evidence@;
    let mut places: Vec<SessionPlace> = Vec::new();
    let mut i: usize = 0;
    while i < evidence.len()
        invariant
            i <= evidence.len(),
            places.len() == i,
            forall|k: int|
                0 <= k < i ==> (#[trigger] places@[k]).owner_type@ == evidence@[k].owner_type@
                    && places@[k].owner_id@ == evidence@[k].owner_id@ && places@[k].session@ == session_of(
                    evidence@[k]@,
                ) && places@[k].ordinal == evidence@[k].ordinal,
        decreases evidence.len() - i,
    {
        places.push(
            SessionPlace {
                owner_type: evidence[i].owner_type.clone(),
                owner_id: evidence[i].owner_id.clone(),
                session: String::from_str(evidence_session_id(&evidence[i])),
                ordinal: evidence[i].ordinal,
            },
        );
        i = i + 1;
    }
    let mut sorted = ranked_sort(evidence, &places);
    let ghost sorted_source = sorted@;
    let ghost models = views(sorted@);
    proof {
        let order = choose|order: Seq<usize>| #[trigger]
            is_rank_order(places@, order) && sorted@ == Seq::new(order.len(), |i: int| source[order[i] as int]);
        assert(models =~= Seq::new(order.len(), |i: int| views(source)[order[i] as int]));
        assert(are_session_places(places@, views(source)));
        assert(is_ranked_sort(views(source), places@, models));
    }
    let mut start: usize = 0;
    let mut i: usize = 0;
    while i < sorted.len()
        invariant
            i <= sorted.len(),
            sorted.len() == sorted_source.len(),
            models == views(sorted_source),
            start <= i,
            i > 0 ==> start == owner_start(models, i - 1),
            i == 0 ==> start == 0,
            forall|k: int|
                0 <= k < i ==> (#[trigger] sorted@[k])@ == (EvidenceModel {
                    ordinal: (k - owner_start(models, k)) as i64,
                    ..models[k]
                }),
            forall|k: int| i <= k < sorted.len() ==> (#[trigger] sorted@[k]) == sorted_source[k],
        decreases sorted.len() - i,
    {
        assert(sorted@[i as int]@ == models[i as int]);
        if i > 0 {
            assert(sorted@[i - 1]@.owner_type == models[i - 1].owner_type);
            assert(sorted@[i - 1]@.owner_id == models[i - 1].owner_id);
            if sorted[i - 1].owner_type != sorted[i].owner_type || sorted[i - 1].owner_id != sorted[i].owner_id {
                start = i;
            }
        }
        assert(start == owner_start(models, i as int));
        sorted[i].ordinal = (i - start) as i64;
        assert(sorted@[i as int]@ =~= (EvidenceModel {
            ordinal: (i - owner_start(models, i as int)) as i64,
            ..models[i as int]
        }));
        i = i + 1;
    }
    assert(views(sorted@) =~= numbered_by_owner(models));
    sorted
}

// ---------------------------------------------------------------------------------------
// Diagnostics
// ---------------------------------------------------------------------------------------

/// Diagnostics and the ordinal that the next one gets.
pub struct NumberedDiagnostics {
    pub list: Seq<DiagnosticModel>,
    pub next: i64,
}

/// Where diagnostics hold an identity.
pub open spec fn diagnostic_place(list: Seq<DiagnosticModel>, id: Seq<char>) -> Option<int> {
    last_position(model_ids(list), id, list.len() as int)
}

/// Diagnostics with the first `count` of further ones: each new one at the end with the
/// next ordinal; or the first of them whose identity another diagnostic holds.
pub open spec fn with_diagnostics(
    held: NumberedDiagnostics,
    added: Seq<DiagnosticModel>,
    count: int,
) -> Result<NumberedDiagnostics, int>
    decreases count,
{
    if count <= 0 {
        Ok(held)
    } else {
        match with_diagnostics(held, added, count - 1) {
            Err(at) => Err(at),
            Ok(earlier) => match diagnostic_place(earlier.list, added[count - 1].id) {
                Some(p) => if earlier.list[p].value() == added[count - 1].value() {
                    Ok(earlier)
                } else {
                    Err(count - 1)
                },
                None => Ok(
                    NumberedDiagnostics {
                        list: earlier.list.push(renumbered(added[count - 1], earlier.next)),
                        next: saturated(earlier.next + 1),
                    },
                ),
            },
        }
    }
}

/// Diagnostics that can be found by identity.
struct DiagnosticList {
    items: Vec<DiagnosticRecord>,
    places: StringHashMap<usize>,
    next: i64,
}

impl DiagnosticList {
    spec fn held(&self) -> NumberedDiagnostics {
        NumberedDiagnostics { list: views(self.items@), next: self.next }
    }

    spec fn wf(&self) -> bool {
        let ids = model_ids(views(self.items@));
        &&& forall|id: Seq<char>| #[trigger]
            self.places@.contains_key(id) ==> last_position(ids, id, ids.len() as int) == Some(
                self.places@[id] as int,
            )
        &&& forall|i: int| 0 <= i < self.items@.len() ==> self.places@.contains_key((#[trigger] self.items@[i]).id@)
    }

    fn new(items: Vec<DiagnosticRecord>) -> (result: DiagnosticList)
        ensures
            result.wf(),
            result.held() == (NumberedDiagnostics {
                list: views(items@),
                next: saturated(greatest_ordinal(items@, items@.len() as int) + 1),
            }),
    {
        let mut places: StringHashMap<usize> = StringHashMap::new();
        let mut greatest: i64 = -1;
        let ghost ids = model_ids(views(items@));
        let mut i: usize = 0;
        while i < items.len()
            invariant
                i <= items.len(),
                ids == model_ids(views(items@)),
                greatest == greatest_ordinal(items@, i as int),
                forall|id: Seq<char>| #[trigger]
                    places@.contains_key(id) ==> last_position(ids, id, i as int) == Some(places@[id] as int),
                forall|k: int| 0 <= k < i ==> places@.contains_key((#[trigger] items@[k]).id@),
            decreases items.len() - i,
        {
            if i == 0 || items[i].ordinal > greatest {
                greatest = items[i].ordinal;
            }
            assert(ids[i as int] == items@[i as int].id@);
            places.insert(items[i].id.clone(), i);
            i = i + 1;
        }
        let next: i64 = if greatest == i64::MAX {
            i64::MAX
        } else {
            greatest + 1
        };
        assert(ids.len() == items@.len());
        DiagnosticList { items, places, next }
    }

    /// Adds a diagnostic unless it is held already; refuses it where another one with its
    /// identity is held.
    fn insert(&mut self, diagnostic: DiagnosticRecord) -> (inserted: bool)
        requires
            old(self).wf(),
        ensures
            final(self).wf(),
            match diagnostic_place(old(self).held().list, diagnostic.id@) {
                Some(p) => final(self).held() == old(self).held() && inserted == (old(self).held().list[p].value()
                    == diagnostic@.value()),
                None => inserted && final(self).held() == (NumberedDiagnostics {
                    list: old(self).held().list.push(renumbered(diagnostic@, old(self).next)),
                    next: saturated(old(self).next + 1),
                }),
            },
    {
        let ghost before = self.items@;
        let ghost ids = model_ids(views(before));
        let found: Option<usize> = match self.places.get(diagnostic.id.as_str()) {
            Some(place) => Some(*place),
            None => None,
        };
        proof {
            last_position_is_last(ids, diagnostic.id@, ids.len() as int);
            if found is None && last_position(ids, diagnostic.id@, ids.len() as int) is Some {
                let p = last_position(ids, diagnostic.id@, ids.len() as int)->0;
                assert(ids[p] == before[p].id@);
            }
        }
        match found {
            Some(place) => self.items[place].same_as(&diagnostic),
            None => {
                let ghost model = renumbered(diagnostic@, self.next);
                let mut diagnostic = diagnostic;
                diagnostic.ordinal = self.next;
                assert(diagnostic@ =~= model);
                self.next = if self.next == i64::MAX {
                    i64::MAX
                } else {
                    self.next + 1
                };
                let id = diagnostic.id.clone();
                self.places.insert(id, self.items.len());
                self.items.push(diagnostic);
                proof {
                    assert(views(self.items@) =~= views(before).push(model));
                    let grown = model_ids(views(self.items@));
                    assert(grown =~= ids.push(diagnostic.id@));
                    assert forall|id: Seq<char>| #[trigger]
                        self.places@.contains_key(id) implies last_position(grown, id, grown.len() as int) == Some(
                        self.places@[id] as int,
                    ) by {
                        last_position_of_prefix(ids, grown, id, ids.len() as int);
                    }
                    assert forall|i: int| 0 <= i < self.items@.len() implies self.places@.contains_key(
                        (#[trigger] self.items@[i]).id@,
                    ) by {
                        if i < before.len() {
                            assert(self.items@[i] == before[i]);
                        }
                    }
                }
                true
            },
        }
    }

    fn insert_all(&mut self, diagnostics: Vec<DiagnosticRecord>) -> (refused: Option<usize>)
        requires
            old(self).wf(),
        ensures
            final(self).wf(),
            match with_diagnostics(old(self).held(), views(diagnostics@), diagnostics@.len() as int) {
                Ok(held) => refused is None && final(self).held() == held,
                Err(at) => refused == Some(at as usize) && 0 <= at < diagnostics@.len(),
            },
    {
        let ghost source = diagnostics@;
        let ghost start = self.held();
        let total: usize = diagnostics.len();
        let mut refused: Option<usize> = None;
        let mut count: usize = 0;
        for diagnostic in it: diagnostics
            invariant
                it.seq() == source,
                source.len() == total,
                count == it.index() || refused is Some,
                self.wf(),
                match refused {
                    None => with_diagnostics(start, views(source), it.index() as int) == Ok::<_, int>(self.held()),
                    Some(at) => with_diagnostics(start, views(source), it.index() as int) == Err::<
                        NumberedDiagnostics,
                        _,
                    >(at as int) && at < source.len(),
                },
        {
            assert(diagnostic@ == views(source)[it.index() as int]);
            if refused.is_none() {
                if !self.insert(diagnostic) {
                    refused = Some(count);
                } else {
                    count = count + 1;
                }
            }
        }
        refused
    }
}

proof fn last_position_of_prefix(a: Seq<Seq<char>>, b: Seq<Seq<char>>, key: Seq<char>, upto: int)
    requires
        0 <= upto <= a.len() <= b.len(),
        forall|i: int| 0 <= i < a.len() ==> a[i] == b[i],
    ensures
        last_position(a, key, upto) == last_position(b, key, upto),
    decreases upto,
{
    if upto > 0 {
        last_position_of_prefix(a, b, key, upto - 1);
    }
}

// ---------------------------------------------------------------------------------------
// The graph with its sessions
// ---------------------------------------------------------------------------------------

/// A graph into which sessions are merged.
pub struct MergedGraph {
    pub profiles: Seq<ProfileModel>,
    pub nodes: Seq<NodeModel>,
    pub sites: Seq<SiteModel>,
    pub edges: Seq<EdgeModel>,
    pub evidence: Seq<EvidenceModel>,
    pub diagnostics: NumberedDiagnostics,
    pub coverage: CoverageModel,
}

/// The graph of a snapshot before its sessions are merged.
pub open spec fn graph_of(snapshot: GraphSnapshot) -> MergedGraph {
    MergedGraph {
        profiles: latest_of::<ProfileRecord>(views(snapshot.profiles@), snapshot.profiles@.len() as int),
        nodes: latest_of::<NodeRecord>(views(snapshot.nodes@), snapshot.nodes@.len() as int),
        sites: latest_of::<SiteRecord>(views(snapshot.sites@), snapshot.sites@.len() as int),
        edges: latest_of::<EdgeRecord>(views(snapshot.edges@), snapshot.edges@.len() as int),
        evidence: views(snapshot.evidence@),
        diagnostics: NumberedDiagnostics {
            list: views(snapshot.diagnostics@),
            next: saturated(greatest_ordinal(snapshot.diagnostics@, snapshot.diagnostics@.len() as int) + 1),
        },
        coverage: snapshot.coverage@,
    }
}

/// A collision of an item of a session.
pub open spec fn collision(session: int, part: GraphPart, item: int) -> RuntimeError {
    RuntimeError::Collision { session: session as usize, part, item: item as usize }
}

/// A graph with one more session, or the first item of the session whose identity another
/// item holds: of its profile, nodes, sites, edges and diagnostics, in this order.
pub open spec fn with_session(graph: MergedGraph, delta: RuntimeDeltaModel, session: int) -> Result<
    MergedGraph,
    RuntimeError,
> {
    match with_exact::<ProfileRecord>(graph.profiles, delta.session.profile) {
        None => Err(collision(session, GraphPart::Profile, 0)),
        Some(profiles) => match with_all_exact::<NodeRecord>(graph.nodes, delta.nodes, delta.nodes.len() as int) {
            Err(at) => Err(collision(session, GraphPart::Node, at)),
            Ok(nodes) => match with_all_exact::<SiteRecord>(graph.sites, delta.sites, delta.sites.len() as int) {
                Err(at) => Err(collision(session, GraphPart::Site, at)),
                Ok(sites) => match with_all_exact::<EdgeRecord>(
                    graph.edges,
                    delta.edges,
                    delta.edges.len() as int,
                ) {
                    Err(at) => Err(collision(session, GraphPart::Edge, at)),
                    Ok(edges) => match with_diagnostics(
                        graph.diagnostics,
                        delta.diagnostics,
                        delta.diagnostics.len() as int,
                    ) {
                        Err(at) => Err(collision(session, GraphPart::Diagnostic, at)),
                        Ok(diagnostics) => Ok(
                            MergedGraph {
                                profiles,
                                nodes,
                                sites,
                                edges,
                                evidence: graph.evidence + delta.evidence,
                                diagnostics,
                                coverage: metadata_union(graph.coverage, delta.session.coverage),
                            },
                        ),
                    },
                },
            },
        },
    }
}

/// A graph with its first `count` sessions.
pub open spec fn with_sessions(graph: MergedGraph, deltas: Seq<RuntimeSessionDelta>, count: int) -> Result<
    MergedGraph,
    RuntimeError,
>
    decreases count,
{
    if count <= 0 {
        Ok(graph)
    } else {
        match with_sessions(graph, deltas, count - 1) {
            Err(error) => Err(error),
            Ok(earlier) => with_session(earlier, deltas[count - 1]@, count - 1),
        }
    }
}

/// What coverage says of a graph with its sessions: the sites counted anew.
pub open spec fn recounted(coverage: CoverageModel, profiles: nat, statuses: Seq<Seq<char>>) -> CoverageModel {
    CoverageModel {
        profiles: profiles as u64,
        dependency_sites: statuses.len() as u64,
        resolved: resolved_as(statuses, "resolved"@) as u64,
        candidates: resolved_as(statuses, "candidates"@) as u64,
        external: resolved_as(statuses, "external"@) as u64,
        unresolved: resolved_as(statuses, "unresolved"@) as u64,
        ..coverage
    }
}

/// Whether `after` is a snapshot with its sessions, before its profile matrix is made
/// anew.
pub open spec fn is_with_sessions(before: GraphSnapshot, graph: MergedGraph, after: GraphSnapshot) -> bool {
    &&& is_stable_sort(graph.profiles, identities::<ProfileRecord>(graph.profiles), views(after.profiles@))
    &&& is_stable_sort(graph.nodes, identities::<NodeRecord>(graph.nodes), views(after.nodes@))
    &&& is_stable_sort(graph.sites, identities::<SiteRecord>(graph.sites), views(after.sites@))
    &&& is_stable_sort(graph.edges, identities::<EdgeRecord>(graph.edges), views(after.edges@))
    &&& is_reassigned(graph.evidence, views(after.evidence@))
    &&& views(after.diagnostics@) == graph.diagnostics.list
    &&& after.coverage@ == recounted(graph.coverage, graph.profiles.len(), site_statuses(after.sites@))
    &&& after.scan == before.scan
    &&& after.file_coverage == before.file_coverage
    &&& after.adapter_logs == before.adapter_logs
    &&& after.profile_matrix == before.profile_matrix
}

/// Whether the sessions of a snapshot are listed each once, ascending.
pub fn sessions_are_canonical(runtime_session_ids: &Vec<String>) -> (result: bool)
    ensures
        result == ascending(texts(runtime_session_ids@)),
{
    let ghost ids = texts(runtime_session_ids@);
    let mut i: usize = 1;
    while i < runtime_session_ids.len()
        invariant
            1 <= i,
            i <= runtime_session_ids.len() || runtime_session_ids.len() == 0,
            ids == texts(runtime_session_ids@),
            forall|a: int, b: int|
                0 <= a < b < i && b < ids.len() ==> text_lt(#[trigger] ids[a], #[trigger] ids[b]),
        decreases runtime_session_ids.len() - i,
    {
        assert(ids[i as int] == runtime_session_ids@[i as int]@);
        assert(ids[i - 1] == runtime_session_ids@[i - 1]@);
        if !less(runtime_session_ids[i - 1].as_str(), runtime_session_ids[i].as_str()) {
            return false;
        }
        proof {
            assert forall|a: int| 0 <= a < i implies text_lt(#[trigger] ids[a], ids[i as int]) by {
                if a < i - 1 {
                    text_lt_transitive(ids[a], ids[i - 1], ids[i as int]);
                }
            }
        }
        i = i + 1;
    }
    true
}

/// The parts of a graph into which sessions are merged.
struct MergeState {
    profiles: Keyed<ProfileRecord>,
    nodes: Keyed<NodeRecord>,
    sites: Keyed<SiteRecord>,
    edges: Keyed<EdgeRecord>,
    evidence: Vec<EvidenceRecord>,
    diagnostics: DiagnosticList,
    coverage: CoverageRecord,
}

impl MergeState {
    spec fn graph(&self) -> MergedGraph {
        MergedGraph {
            profiles: self.profiles.held(),
            nodes: self.nodes.held(),
            sites: self.sites.held(),
            edges: self.edges.held(),
            evidence: views(self.evidence@),
            diagnostics: self.diagnostics.held(),
            coverage: self.coverage@,
        }
    }

    spec fn wf(&self) -> bool {
        self.profiles.wf() && self.nodes.wf() && self.sites.wf() && self.edges.wf() && self.diagnostics.wf()
    }
}

fn merge_session(state: MergeState, delta: RuntimeSessionDelta, session: usize) -> (result: Result<
    MergeState,
    RuntimeError,
>)
    requires
        state.wf(),
    ensures
        match with_session(state.graph(), delta@, session as int) {
            Err(error) => result == Err::<MergeState, _>(error),
            Ok(graph) => result matches Ok(after) && after.wf() && after.graph() == graph,
        },
{
    let mut state = state;
    let ghost before = state.graph();
    if !state.profiles.insert_exact(delta.session.profile) {
        return Err(RuntimeError::Collision { session, part: GraphPart::Profile, item: 0 });
    }
    if let Some(item) = state.nodes.insert_all_exact(delta.nodes) {
        return Err(RuntimeError::Collision { session, part: GraphPart::Node, item });
    }
    if let Some(item) = state.sites.insert_all_exact(delta.sites) {
        return Err(RuntimeError::Collision { session, part: GraphPart::Site, item });
    }
    if let Some(item) = state.edges.insert_all_exact(delta.edges) {
        return Err(RuntimeError::Collision { session, part: GraphPart::Edge, item });
    }
    let ghost earlier = state.evidence@;
    let mut added = delta.evidence;
    state.evidence.append(&mut added);
    assert(views(state.evidence@) =~= views(earlier) + views(delta.evidence@));
    if let Some(item) = state.diagnostics.insert_all(delta.diagnostics) {
        return Err(RuntimeError::Collision { session, part: GraphPart::Diagnostic, item });
    }
    let ghost own = state.coverage@;
    union_runtime_coverage_metadata(&mut state.coverage, &delta.session.coverage);
    proof {
        metadata_union_is_unique(own, delta.session.coverage@, state.coverage@);
    }
    Ok(state)
}

/// Whether a graph, or what is said in its place, is that of a snapshot with the graphs of its
/// sessions.
pub open spec fn merges_sessions(
    snapshot: GraphSnapshot,
    runtime_session_ids: Seq<Seq<char>>,
    deltas: Seq<RuntimeSessionDelta>,
    result: Result<GraphSnapshot, RuntimeError>,
) -> bool {
    if !ascending(runtime_session_ids) {
        result == Err::<GraphSnapshot, _>(RuntimeError::SessionsNotCanonical)
    } else {
        match with_sessions(graph_of(snapshot), deltas, deltas.len() as int) {
            Err(error) => result == Err::<GraphSnapshot, _>(error),
            Ok(graph) => result matches Ok(after) && is_with_sessions(snapshot, graph, after),
        }
    }
}

/// Merges the sessions of a snapshot into its graph; the profile matrix is left to be made
/// anew. The sessions are given in the order of their identities.
pub fn merge_runtime_sessions(
    snapshot: GraphSnapshot,
    runtime_session_ids: &Vec<String>,
    deltas: Vec<RuntimeSessionDelta>,
) -> (result: Result<GraphSnapshot, RuntimeError>)
    ensures
        merges_sessions(snapshot, texts(runtime_session_ids@), deltas@, result),
{
    if !sessions_are_canonical(runtime_session_ids) {
        return Err(RuntimeError::SessionsNotCanonical);
    }
    let ghost before = snapshot;
    let ghost start = graph_of(snapshot);
    let mut state = MergeState {
        profiles: Keyed::latest(snapshot.profiles),
        nodes: Keyed::latest(snapshot.nodes),
        sites: Keyed::latest(snapshot.sites),
        edges: Keyed::latest(snapshot.edges),
        evidence: snapshot.evidence,
        diagnostics: DiagnosticList::new(snapshot.diagnostics),
        coverage: snapshot.coverage,
    };
    assert(state.graph() == start);
    let ghost source = deltas@;
    let total: usize = deltas.len();
    let mut failed: Option<RuntimeError> = None;
    let mut count: usize = 0;
    for delta in it: deltas
        invariant
            it.seq() == source,
            source.len() == total,
            failed is None ==> count == it.index(),
            state.wf(),
            match failed {
                None => with_sessions(start, source, it.index() as int) == Ok::<_, RuntimeError>(state.graph()),
                Some(error) => with_sessions(start, source, it.index() as int) == Err::<MergedGraph, _>(error),
            },
    {
        assert(delta == source[it.index() as int]);
        if failed.is_none() {
            match merge_session(state, delta, count) {
                Ok(after) => {
                    state = after;
                    count = count + 1;
                },
                Err(error) => {
                    failed = Some(error);
                    state = empty_state();
                },
            }
        }
    }
    if let Some(error) = failed {
        return Err(error);
    }
    let ghost graph = state.graph();
    let profile_count: usize = state.profiles.count();
    let sites = state.sites.into_sorted();
    let statuses = statuses(&sites);
    assert(texts(statuses@).len() == sites@.len());
    let mut coverage = state.coverage;
    coverage.profiles = profile_count as u64;
    coverage.dependency_sites = sites.len() as u64;
    coverage.resolved = count_status(&statuses, "resolved");
    coverage.candidates = count_status(&statuses, "candidates");
    coverage.external = count_status(&statuses, "external");
    coverage.unresolved = count_status(&statuses, "unresolved");
    assert(coverage@ =~= recounted(graph.coverage, graph.profiles.len(), site_statuses(sites@)));
    Ok(
        GraphSnapshot {
            scan: snapshot.scan,
            profiles: state.profiles.into_sorted(),
            nodes: state.nodes.into_sorted(),
            sites,
            edges: state.edges.into_sorted(),
            evidence: reassign_runtime_evidence_ordinals(state.evidence),
            diagnostics: state.diagnostics.items,
            file_coverage: snapshot.file_coverage,
            adapter_logs: snapshot.adapter_logs,
            coverage,
            profile_matrix: snapshot.profile_matrix,
        },
    )
}

fn empty_state() -> (result: MergeState)
    ensures
        result.wf(),
{
    MergeState {
        profiles: Keyed::latest(Vec::new()),
        nodes: Keyed::latest(Vec::new()),
        sites: Keyed::latest(Vec::new()),
        edges: Keyed::latest(Vec::new()),
        evidence: Vec::new(),
        diagnostics: DiagnosticList::new(Vec::new()),
        coverage: CoverageRecord::default(),
    }
}

// ---------------------------------------------------------------------------------------
// Laws
// ---------------------------------------------------------------------------------------

proof fn accepted_items_merge<T: Identified>(base: Seq<T::V>, added: Seq<T::V>)
    requires
        each_once::<T>(added),
        forall|i: int|
            0 <= i < added.len() ==> (last_position(
                identities::<T>(base),
                T::identity(#[trigger] added[i]),
                base.len() as int,
            ) matches Some(p) ==> T::value(base[p]) == T::value(added[i])),
    ensures
        with_all_exact::<T>(latest_of::<T>(base, base.len() as int), added, added.len() as int) is Ok,
{
    let held = latest_of::<T>(base, base.len() as int);
    latest_holds_the_latest::<T>(base, base.len() as int);
    assert forall|i: int| 0 <= i < added.len() implies (crate::keyed::place_of::<T>(
        held,
        T::identity(#[trigger] added[i]),
    ) matches Some(p) ==> T::value(held[p]) == T::value(added[i])) by {
        assert(holds_latest::<T>(held, base, base.len() as int, T::identity(added[i])));
    }
    compatible_items_are_added::<T>(held, added, added.len() as int);
}

/// The nodes, sites and edges of a session that was accepted on a base merge into that
/// base without a collision.
pub proof fn accepted_session_merges(base: GraphSnapshot, derived: Seq<String>, delta: RuntimeSessionDelta)
    requires
        runtime_union_error(base, derived, delta) is None,
    ensures
        ({
            let graph = graph_of(base);
            &&& with_all_exact::<NodeRecord>(graph.nodes, views(delta.nodes@), delta.nodes@.len() as int) is Ok
            &&& with_all_exact::<SiteRecord>(graph.sites, views(delta.sites@), delta.sites@.len() as int) is Ok
            &&& with_all_exact::<EdgeRecord>(graph.edges, views(delta.edges@), delta.edges@.len() as int) is Ok
        }),
{
    let session = delta.session;
    let nodes = node_ids_of(base.nodes@) + node_ids_of(delta.nodes@);
    let sites = site_ids_of(delta.sites@);
    let environment = session.environment@.text_field("name"@)->0;
    let node_failure = runtime_node_error(base.nodes@, delta.nodes@);
    let site_failure = runtime_site_error(base.sites@, nodes, session.profile_id@, delta.sites@);
    let edge_failure = runtime_edge_error(
        base.edges@,
        nodes,
        sites,
        session.profile_id@,
        environment,
        delta.edges@,
    );
    no_failure_anywhere(delta.nodes@.len() as int, node_failure);
    no_failure_anywhere(delta.sites@.len() as int, site_failure);
    no_failure_anywhere(delta.edges@.len() as int, edge_failure);

    assert(identities::<NodeRecord>(views(base.nodes@)) =~= node_ids_of(base.nodes@));
    assert forall|i: int, j: int| 0 <= i < j < delta.nodes@.len() implies #[trigger] delta.nodes@[i].id@
        != #[trigger] delta.nodes@[j].id@ by {
        assert(node_failure(j) is None);
        assert(node_ids_of(delta.nodes@)[i] == delta.nodes@[i].id@);
    }
    assert forall|i: int| 0 <= i < delta.nodes@.len() implies (last_position(
        node_ids_of(base.nodes@),
        (#[trigger] views(delta.nodes@)[i]).id,
        base.nodes@.len() as int,
    ) matches Some(p) ==> views(base.nodes@)[p].value() == views(delta.nodes@)[i].value()) by {
        assert(node_failure(i) is None);
        last_position_is_last(node_ids_of(base.nodes@), delta.nodes@[i].id@, base.nodes@.len() as int);
    }
    accepted_items_merge::<NodeRecord>(views(base.nodes@), views(delta.nodes@));

    assert(identities::<SiteRecord>(views(base.sites@)) =~= site_ids_of(base.sites@));
    assert forall|i: int, j: int| 0 <= i < j < delta.sites@.len() implies #[trigger] delta.sites@[i].id@
        != #[trigger] delta.sites@[j].id@ by {
        assert(site_failure(j) is None);
        assert(site_ids_of(delta.sites@)[i] == delta.sites@[i].id@);
    }
    assert forall|i: int| 0 <= i < delta.sites@.len() implies (last_position(
        site_ids_of(base.sites@),
        (#[trigger] views(delta.sites@)[i]).id,
        base.sites@.len() as int,
    ) matches Some(p) ==> views(base.sites@)[p].value() == views(delta.sites@)[i].value()) by {
        assert(site_failure(i) is None);
        last_position_is_last(site_ids_of(base.sites@), delta.sites@[i].id@, base.sites@.len() as int);
    }
    accepted_items_merge::<SiteRecord>(views(base.sites@), views(delta.sites@));

    assert(identities::<EdgeRecord>(views(base.edges@)) =~= edge_ids_of(base.edges@));
    assert forall|i: int, j: int| 0 <= i < j < delta.edges@.len() implies #[trigger] delta.edges@[i].id@
        != #[trigger] delta.edges@[j].id@ by {
        assert(edge_failure(j) is None);
        assert(edge_ids_of(delta.edges@)[i] == delta.edges@[i].id@);
    }
    assert forall|i: int| 0 <= i < delta.edges@.len() implies (last_position(
        edge_ids_of(base.edges@),
        (#[trigger] views(delta.edges@)[i]).id,
        base.edges@.len() as int,
    ) matches Some(p) ==> views(base.edges@)[p].value() == views(delta.edges@)[i].value()) by {
        assert(edge_failure(i) is None);
        last_position_is_last(edge_ids_of(base.edges@), delta.edges@[i].id@, base.edges@.len() as int);
    }
    accepted_items_merge::<EdgeRecord>(views(base.edges@), views(delta.edges@));
}

/// Merging a session a second time adds no node, site or edge.
pub proof fn merging_again_adds_nothing(graph: MergedGraph, delta: RuntimeDeltaModel, session: int)
    requires
        each_once::<NodeRecord>(graph.nodes),
        each_once::<SiteRecord>(graph.sites),
        each_once::<EdgeRecord>(graph.edges),
        with_session(graph, delta, session) is Ok,
    ensures
        ({
            let after = with_session(graph, delta, session)->Ok_0;
            &&& with_all_exact::<NodeRecord>(after.nodes, delta.nodes, delta.nodes.len() as int) == Ok::<_, int>(
                after.nodes,
            )
            &&& with_all_exact::<SiteRecord>(after.sites, delta.sites, delta.sites.len() as int) == Ok::<_, int>(
                after.sites,
            )
            &&& with_all_exact::<EdgeRecord>(after.edges, delta.edges, delta.edges.len() as int) == Ok::<_, int>(
                after.edges,
            )
        }),
{
    let after = with_session(graph, delta, session)->Ok_0;
    adding_keeps_and_holds::<NodeRecord>(graph.nodes, delta.nodes, delta.nodes.len() as int);
    adding_keeps_and_holds::<SiteRecord>(graph.sites, delta.sites, delta.sites.len() as int);
    adding_keeps_and_holds::<EdgeRecord>(graph.edges, delta.edges, delta.edges.len() as int);
    adding_held_items_changes_nothing::<NodeRecord>(after.nodes, delta.nodes, delta.nodes.len() as int);
    adding_held_items_changes_nothing::<SiteRecord>(after.sites, delta.sites, delta.sites.len() as int);
    adding_held_items_changes_nothing::<EdgeRecord>(after.edges, delta.edges, delta.edges.len() as int);
}

proof fn run_of_one_owner(evidence: Seq<EvidenceModel>, i: int, j: int)
    requires
        0 <= i <= j < evidence.len(),
        forall|k: int| i <= k <= j ==> same_owner(#[trigger] evidence[k], evidence[j]),
    ensures
        owner_start(evidence, i) == owner_start(evidence, j),
        0 <= owner_start(evidence, i) <= i,
    decreases j - i,
{
    owner_start_is_bounded(evidence, i);
    if i < j {
        assert(same_owner(evidence[j - 1], evidence[j]));
        assert forall|k: int| i <= k <= j - 1 implies same_owner(#[trigger] evidence[k], evidence[j - 1]) by {}
        run_of_one_owner(evidence, i, j - 1);
    }
}

proof fn owner_start_is_bounded(evidence: Seq<EvidenceModel>, i: int)
    requires
        0 <= i < evidence.len(),
    ensures
        0 <= owner_start(evidence, i) <= i,
    decreases i,
{
    if i > 0 && same_owner(evidence[i - 1], evidence[i]) {
        owner_start_is_bounded(evidence, i - 1);
    }
}

/// After ordinals were assigned anew, no two pieces of evidence share an owner and an
/// ordinal: ordinals ascend within each owner.
pub proof fn reassigned_ordinals_ascend(
    evidence: Seq<EvidenceModel>,
    result: Seq<EvidenceModel>,
    i: int,
    j: int,
)
    requires
        is_reassigned(evidence, result),
        result.len() <= i64::MAX,
        0 <= i < j < result.len(),
        same_owner(result[i], result[j]),
    ensures
        result[i].ordinal < result[j].ordinal,
{
    let (places, sorted) = choose|places: Seq<SessionPlace>, sorted: Seq<EvidenceModel>|
        are_session_places(places, evidence) && #[trigger] is_ranked_sort(evidence, places, sorted) && result
            == numbered_by_owner(sorted);
    let order = choose|order: Seq<usize>| #[trigger]
        is_rank_order(places, order) && sorted == Seq::new(order.len(), |i: int| evidence[order[i] as int]);
    assert forall|k: int| i <= k <= j implies same_owner(#[trigger] sorted[k], sorted[j]) by {
        let a = places[order[i] as int];
        let b = places[order[k] as int];
        let c = places[order[j] as int];
        if i < k && k < j {
            assert(crate::sort::goes_before(places, order[i] as int, order[k] as int));
            assert(crate::sort::goes_before(places, order[k] as int, order[j] as int));
            text_lt_irreflexive(a.owner_type@);
            text_lt_irreflexive(a.owner_id@);
            text_lt_total(a.owner_type@, b.owner_type@);
            text_lt_total(a.owner_id@, b.owner_id@);
            text_lt_asymmetric_pair(a.owner_type@, b.owner_type@);
            text_lt_asymmetric_pair(a.owner_id@, b.owner_id@);
        }
    }
    run_of_one_owner(sorted, i, j);
}

proof fn text_lt_asymmetric_pair(a: Seq<char>, b: Seq<char>)
    ensures
        !(text_lt(a, b) && text_lt(b, a)),
{
    if text_lt(a, b) {
        crate::text::text_lt_asymmetric(a, b);
    }
}

} // verus!

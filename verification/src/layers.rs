//! How a completed snapshot is put together from its layers: the chain of snapshots under
//! it, what each layer adds, and whether the chain is intact.

use vstd::prelude::*;

use crate::build_union::{node_ids, node_ids_of};
use crate::order::{
    collect, first_kept, first_kept_remains, is_stable_sort, last_position, stable_sort, TextIndex,
};
use crate::profile_matrix::profile_ids_of;
use crate::records::{
    AdapterLogRecord, CompletedSnapshotRecord, GraphSnapshot, GraphTopology, GraphTopologyEdge,
    GraphTopologyNode, NodeRecord, ProfileRecord, SnapshotIntegrityRecord,
};
use crate::text::{contains_text, opt_text, same, same_option, same_texts, texts};

verus! {

/// Why a snapshot cannot be put together.
#[derive(Debug, Clone, Copy, PartialEq, Eq, Structural)]
pub enum LayerError {
    SnapshotMissing,
    ParentMissing,
    ParentCycle,
    OverlayParentDiffers,
    OverlayWithoutParent,
    OverlayNotOneNode,
    OverlayUnknownNode,
    OverlayChangesIdentity,
    BuildDeltaMissing,
    ProfileSetDiffers,
}

/// What a snapshot rests on: its record, whether its scan only re-states its parent
/// (persisting one node), and the parent that its scan names.
#[derive(Debug, Clone)]
pub struct SnapshotFacts {
    pub record: CompletedSnapshotRecord,
    pub scan_is_overlay: bool,
    pub scan_parent_snapshot_id: Option<String>,
}

/// Whether a snapshot only re-states its parent: it adds neither a build nor a session,
/// and its scan is an overlay.
pub open spec fn is_overlay(facts: SnapshotFacts) -> bool {
    facts.record.build_attempt_id is None && facts.record.runtime_session_ids@.len() == 0 && facts.scan_is_overlay
}

/// Whether a snapshot only re-states its parent.
pub fn is_semantic_noop(facts: &SnapshotFacts) -> (result: bool)
    ensures
        result == is_overlay(*facts),
{
    facts.record.build_attempt_id.is_none() && facts.record.runtime_session_ids.len() == 0 && facts.scan_is_overlay
}

/// Where a walk goes on from a snapshot.
#[derive(Debug, Clone, PartialEq, Eq)]
pub enum Link {
    /// It ends here.
    End,
    /// It goes on to another snapshot.
    To(String),
    /// It cannot go on.
    Fail(LayerError),
}

/// What a link holds.
pub enum LinkModel {
    End,
    To(Seq<char>),
    Fail(LayerError),
}

impl View for Link {
    type V = LinkModel;

    open spec fn view(&self) -> LinkModel {
        match *self {
            Link::End => LinkModel::End,
            Link::To(id) => LinkModel::To(id@),
            Link::Fail(error) => LinkModel::Fail(error),
        }
    }
}

// ---------------------------------------------------------------------------------------
// Walks
// ---------------------------------------------------------------------------------------

/// How a walk ends.
#[derive(Debug, Clone, Copy, PartialEq, Eq, Structural)]
pub enum WalkEnd {
    End,
    Missing,
    Cycle,
    Fail(LayerError),
}

/// What links hold.
pub open spec fn link_models(links: Seq<Link>) -> Seq<LinkModel> {
    Seq::new(links.len(), |i: int| links[i]@)
}

/// Where a snapshot with the given identity stands.
pub open spec fn place_of_id(ids: Seq<Seq<char>>, id: Seq<char>) -> Option<int> {
    last_position(ids, id, ids.len() as int)
}

/// Whether a path follows links from a start, each snapshot once.
pub open spec fn is_path(ids: Seq<Seq<char>>, links: Seq<LinkModel>, start: Seq<char>, path: Seq<usize>) -> bool {
    &&& forall|i: int| 0 <= i < path.len() ==> (#[trigger] path[i]) < ids.len()
    &&& forall|i: int, j: int| 0 <= i < j < path.len() ==> #[trigger] path[i] != #[trigger] path[j]
    &&& path.len() > 0 ==> place_of_id(ids, start) == Some(path[0] as int)
    &&& forall|i: int|
        0 <= i < path.len() - 1 ==> (#[trigger] links[path[i] as int] matches LinkModel::To(id) && place_of_id(ids, id)
            == Some(path[i + 1] as int))
}

/// Where a path goes on.
pub open spec fn next_id(links: Seq<LinkModel>, start: Seq<char>, path: Seq<usize>) -> Option<Seq<char>> {
    if path.len() == 0 {
        Some(start)
    } else {
        match links[path[path.len() - 1] as int] {
            LinkModel::To(id) => Some(id),
            _ => None,
        }
    }
}

/// Whether a path ends so.
pub open spec fn ends_with(
    ids: Seq<Seq<char>>,
    links: Seq<LinkModel>,
    start: Seq<char>,
    path: Seq<usize>,
    end: WalkEnd,
) -> bool {
    match end {
        WalkEnd::End => path.len() > 0 && links[path[path.len() - 1] as int] == LinkModel::End,
        WalkEnd::Fail(error) => path.len() > 0 && links[path[path.len() - 1] as int] == LinkModel::Fail(error),
        WalkEnd::Missing => match next_id(links, start, path) {
            Some(id) => place_of_id(ids, id) is None,
            None => false,
        },
        WalkEnd::Cycle => match next_id(links, start, path) {
            Some(id) => match place_of_id(ids, id) {
                Some(p) => path.contains(p as usize),
                None => false,
            },
            None => false,
        },
    }
}

/// Whether a walk takes a path and ends so.
pub open spec fn is_walk(
    ids: Seq<Seq<char>>,
    links: Seq<LinkModel>,
    start: Seq<char>,
    path: Seq<usize>,
    end: WalkEnd,
) -> bool {
    is_path(ids, links, start, path) && ends_with(ids, links, start, path, end)
}

fn path_contains(path: &Vec<usize>, place: usize) -> (result: bool)
    ensures
        result == path@.contains(place),
{
    let mut i: usize = 0;
    while i < path.len()
        invariant
            i <= path.len(),
            forall|k: int| 0 <= k < i ==> path@[k] != place,
        decreases path.len() - i,
    {
        if path[i] == place {
            assert(path@[i as int] == place);
            return true;
        }
        i = i + 1;
    }
    false
}

proof fn distinct_places_are_bounded(path: Seq<usize>, count: nat)
    requires
        forall|i: int| 0 <= i < path.len() ==> (#[trigger] path[i]) < count,
        forall|i: int, j: int| 0 <= i < j < path.len() ==> #[trigger] path[i] != #[trigger] path[j],
    ensures
        path.len() <= count,
{
    let places = path.to_set();
    let all = vstd::set_lib::set_int_range(0, count as int);
    let ints = path.map_values(|p: usize| p as int);
    assert(ints.no_duplicates()) by {
        assert forall|i: int, j: int| 0 <= i < ints.len() && 0 <= j < ints.len() && i != j implies ints[i]
            != ints[j] by {
            if i < j {
                assert(path[i] != path[j]);
            } else {
                assert(path[j] != path[i]);
            }
        }
    }
    ints.unique_seq_to_set();
    vstd::set_lib::lemma_int_range(0, count as int);
    assert(ints.to_set().subset_of(all)) by {
        assert forall|x: int| ints.to_set().contains(x) implies all.contains(x) by {
            let i = choose|i: int| 0 <= i < ints.len() && ints[i] == x;
            assert(path[i] < count);
        }
    }
    vstd::set_lib::lemma_len_subset(ints.to_set(), all);
}

/// Follows links from a start until they end, fail, lead nowhere or lead back.
pub fn walk(ids: Vec<String>, links: &Vec<Link>, start: &str) -> (result: (Vec<usize>, WalkEnd))
    requires
        ids.len() == links.len(),
    ensures
        is_walk(texts(ids@), link_models(links@), start@, result.0@, result.1),
{
    let ghost keys = texts(ids@);
    let ghost models = link_models(links@);
    let count: usize = ids.len();
    let index = TextIndex::new(ids);
    let mut path: Vec<usize> = Vec::new();
    let mut next: String = String::from_str(start);
    let mut end: Option<WalkEnd> = None;
    while end.is_none()
        invariant
            index.keys() == keys,
            keys.len() == count,
            links.len() == count,
            models == link_models(links@),
            is_path(keys, models, start@, path@),
            path.len() <= count,
            match end {
                None => next_id(models, start@, path@) == Some(next@),
                Some(end) => ends_with(keys, models, start@, path@, end),
            },
        decreases count - path.len(), (if end is None {
            1int
        } else {
            0int
        }),
    {
        match index.last(next.as_str()) {
            None => {
                end = Some(WalkEnd::Missing);
            },
            Some(place) => {
                if path_contains(&path, place) {
                    end = Some(WalkEnd::Cycle);
                } else {
                    let ghost before = path@;
                    path.push(place);
                    proof {
                        path_grows(keys, models, start@, before, place);
                    }
                    assert(models[place as int] == links@[place as int]@);
                    match &links[place] {
                        Link::End => {
                            end = Some(WalkEnd::End);
                        },
                        Link::Fail(error) => {
                            end = Some(WalkEnd::Fail(*error));
                        },
                        Link::To(id) => {
                            next = id.clone();
                        },
                    }
                }
            },
        }
    }
    match end {
        Some(end) => (path, end),
        None => (path, WalkEnd::Missing),
    }
}

proof fn path_grows(ids: Seq<Seq<char>>, links: Seq<LinkModel>, start: Seq<char>, path: Seq<usize>, place: usize)
    requires
        is_path(ids, links, start, path),
        place < ids.len(),
        !path.contains(place),
        next_id(links, start, path) is Some,
        place_of_id(ids, next_id(links, start, path)->0) == Some(place as int),
    ensures
        is_path(ids, links, start, path.push(place)),
        path.push(place).len() <= ids.len(),
{
    let grown = path.push(place);
    assert forall|i: int| 0 <= i < grown.len() - 1 implies (#[trigger] links[grown[i] as int] matches LinkModel::To(id)
        && place_of_id(ids, id) == Some(grown[i + 1] as int)) by {
        assert(grown[i] == path[i]);
        if i < path.len() - 1 {
            assert(grown[i + 1] == path[i + 1]);
            assert(links[path[i] as int] matches LinkModel::To(id) && place_of_id(ids, id) == Some(path[i + 1] as int));
        }
    }
    assert forall|i: int, j: int| 0 <= i < j < grown.len() implies #[trigger] grown[i] != #[trigger] grown[j] by {
        if j == path.len() {
            assert(path.contains(path[i]));
        }
    }
    distinct_places_are_bounded(grown, ids.len());
}

// ---------------------------------------------------------------------------------------
// Links
// ---------------------------------------------------------------------------------------

/// The identities of snapshots.
pub open spec fn snapshot_ids(facts: Seq<SnapshotFacts>) -> Seq<Seq<char>> {
    Seq::new(facts.len(), |i: int| facts[i].record.id@)
}

/// Whether a snapshot is a layer over its parent.
pub open spec fn is_layer(record: CompletedSnapshotRecord) -> bool {
    record.source_kind@ == "build"@ || record.source_kind@ == "runtime"@
}

/// The link to a snapshot where one is named, otherwise a failure.
pub open spec fn link_to_model(target: Option<Seq<char>>, otherwise: LayerError) -> LinkModel {
    match target {
        Some(id) => LinkModel::To(id),
        None => LinkModel::Fail(otherwise),
    }
}

/// The link from a snapshot to the one that it is put together from. An overlay rests on
/// its parent, which is its scan's parent too. Any other snapshot that names a parent needs
/// it to be there. A layer rests on its parent; what has none rests on its scan, and where
/// the scan is an overlay, on the scan's parent.
pub open spec fn load_link(ids: Seq<Seq<char>>, facts: SnapshotFacts) -> LinkModel {
    let record = facts.record;
    let parent = opt_text(record.parent_snapshot_id);
    if is_overlay(facts) {
        if parent != opt_text(facts.scan_parent_snapshot_id) {
            LinkModel::Fail(LayerError::OverlayParentDiffers)
        } else {
            link_to_model(parent, LayerError::OverlayWithoutParent)
        }
    } else if parent is Some && place_of_id(ids, parent->0) is None {
        LinkModel::Fail(LayerError::ParentMissing)
    } else if is_layer(record) && parent is Some {
        link_to_model(parent, LayerError::OverlayWithoutParent)
    } else if facts.scan_is_overlay {
        link_to_model(opt_text(facts.scan_parent_snapshot_id), LayerError::OverlayWithoutParent)
    } else {
        LinkModel::End
    }
}

/// Whether the graph of a snapshot is the one below it with the overlay of its scan applied:
/// it only re-states its parent, or it rests on its own scan, and that scan is an overlay.
pub open spec fn is_on_overlay(facts: SnapshotFacts) -> bool {
    is_overlay(facts) || facts.scan_is_overlay && !(is_layer(facts.record) && facts.record.parent_snapshot_id is Some)
}

/// Whether the overlay of its scan is applied to what a snapshot rests on.
pub fn applies_overlay(facts: &SnapshotFacts) -> (result: bool)
    ensures
        result == is_on_overlay(*facts),
{
    let record = &facts.record;
    let is_layer = same(record.source_kind.as_str(), "build") || same(record.source_kind.as_str(), "runtime");
    is_semantic_noop(facts) || facts.scan_is_overlay && !(is_layer && record.parent_snapshot_id.is_some())
}

/// The link from an overlay to its parent, from which it inherits its profiles.
pub open spec fn profile_link(facts: SnapshotFacts) -> LinkModel {
    if !is_overlay(facts) {
        LinkModel::End
    } else if opt_text(facts.record.parent_snapshot_id) != opt_text(facts.scan_parent_snapshot_id) {
        LinkModel::Fail(LayerError::OverlayParentDiffers)
    } else {
        link_to_model(opt_text(facts.record.parent_snapshot_id), LayerError::OverlayWithoutParent)
    }
}

/// The link from an overlay to its parent, whose integrity it depends on.
pub open spec fn integrity_link(facts: SnapshotFacts) -> LinkModel {
    if !is_overlay(facts) {
        LinkModel::End
    } else {
        link_to_model(opt_text(facts.record.parent_snapshot_id), LayerError::OverlayWithoutParent)
    }
}

/// The link from a layer or an overlay to its parent, from which it inherits its nodes.
pub open spec fn node_link(facts: SnapshotFacts) -> LinkModel {
    if is_layer(facts.record) || is_overlay(facts) {
        link_to_model(opt_text(facts.record.parent_snapshot_id), LayerError::ParentMissing)
    } else {
        LinkModel::End
    }
}

/// The link from a snapshot to its parent.
pub open spec fn parent_link(facts: SnapshotFacts) -> LinkModel {
    match opt_text(facts.record.parent_snapshot_id) {
        Some(id) => LinkModel::To(id),
        None => LinkModel::End,
    }
}

/// What a walk over snapshots is for.
#[derive(Debug, Clone, Copy, PartialEq, Eq, Structural)]
pub enum WalkPurpose {
    Load,
    Profiles,
    Integrity,
    Nodes,
    Ancestors,
}

/// The link from a snapshot that serves a purpose.
pub open spec fn link_for(purpose: WalkPurpose, ids: Seq<Seq<char>>, facts: SnapshotFacts) -> LinkModel {
    match purpose {
        WalkPurpose::Load => load_link(ids, facts),
        WalkPurpose::Profiles => profile_link(facts),
        WalkPurpose::Integrity => integrity_link(facts),
        WalkPurpose::Nodes => node_link(facts),
        WalkPurpose::Ancestors => parent_link(facts),
    }
}

/// The links from snapshots that serve a purpose.
pub open spec fn links_for(purpose: WalkPurpose, facts: Seq<SnapshotFacts>) -> Seq<LinkModel> {
    Seq::new(facts.len(), |i: int| link_for(purpose, snapshot_ids(facts), facts[i]))
}

/// Whether a walk over snapshots for a purpose takes a path and ends so.
pub open spec fn is_chain(
    facts: Seq<SnapshotFacts>,
    start: Seq<char>,
    purpose: WalkPurpose,
    path: Seq<usize>,
    end: WalkEnd,
) -> bool {
    is_walk(snapshot_ids(facts), links_for(purpose, facts), start, path, end)
}

fn link_to(target: &Option<String>, otherwise: LayerError) -> (result: Link)
    ensures
        result@ == link_to_model(opt_text(*target), otherwise),
{
    match target {
        Some(id) => Link::To(id.clone()),
        None => Link::Fail(otherwise),
    }
}

fn link(purpose: WalkPurpose, index: &TextIndex, facts: &SnapshotFacts) -> (result: Link)
    ensures
        result@ == link_for(purpose, index.keys(), *facts),
{
    let record = &facts.record;
    let overlay = is_semantic_noop(facts);
    let same_parent = same_option(&record.parent_snapshot_id, &facts.scan_parent_snapshot_id);
    let layer = same(record.source_kind.as_str(), "build") || same(
        record.source_kind.as_str(),
        "runtime",
    );
    match purpose {
        WalkPurpose::Ancestors => match &record.parent_snapshot_id {
            Some(id) => Link::To(id.clone()),
            None => Link::End,
        },
        WalkPurpose::Nodes => if layer || overlay {
            link_to(&record.parent_snapshot_id, LayerError::ParentMissing)
        } else {
            Link::End
        },
        WalkPurpose::Integrity => if overlay {
            link_to(&record.parent_snapshot_id, LayerError::OverlayWithoutParent)
        } else {
            Link::End
        },
        WalkPurpose::Profiles => if !overlay {
            Link::End
        } else if !same_parent {
            Link::Fail(LayerError::OverlayParentDiffers)
        } else {
            link_to(&record.parent_snapshot_id, LayerError::OverlayWithoutParent)
        },
        WalkPurpose::Load => {
            if overlay {
                if !same_parent {
                    return Link::Fail(LayerError::OverlayParentDiffers);
                }
                return link_to(&record.parent_snapshot_id, LayerError::OverlayWithoutParent);
            }
            let parent_missing: bool = match &record.parent_snapshot_id {
                Some(parent_id) => index.last(parent_id.as_str()).is_none(),
                None => false,
            };
            if parent_missing {
                return Link::Fail(LayerError::ParentMissing);
            }
            if layer && record.parent_snapshot_id.is_some() {
                link_to(&record.parent_snapshot_id, LayerError::OverlayWithoutParent)
            } else if facts.scan_is_overlay {
                link_to(&facts.scan_parent_snapshot_id, LayerError::OverlayWithoutParent)
            } else {
                Link::End
            }
        },
    }
}

fn ids_of(facts: &Vec<SnapshotFacts>) -> (result: Vec<String>)
    ensures
        texts(result@) == snapshot_ids(facts@),
        result.len() == facts.len(),
{
    let mut ids: Vec<String> = Vec::new();
    let mut i: usize = 0;
    while i < facts.len()
        invariant
            i <= facts.len(),
            ids.len() == i,
            forall|k: int| 0 <= k < i ==> (#[trigger] ids@[k])@ == facts@[k].record.id@,
        decreases facts.len() - i,
    {
        ids.push(facts[i].record.id.clone());
        i = i + 1;
    }
    assert(texts(ids@) =~= snapshot_ids(facts@));
    ids
}

/// The chain of snapshots from one on, over the links that serve a purpose, and how it
/// ends.
pub fn snapshot_chain(facts: &Vec<SnapshotFacts>, snapshot_id: &str, purpose: WalkPurpose) -> (result: (
    Vec<usize>,
    WalkEnd,
))
    ensures
        is_chain(facts@, snapshot_id@, purpose, result.0@, result.1),
{
    let index = TextIndex::new(ids_of(facts));
    let mut links: Vec<Link> = Vec::new();
    let mut i: usize = 0;
    while i < facts.len()
        invariant
            i <= facts.len(),
            index.keys() == snapshot_ids(facts@),
            links.len() == i,
            forall|k: int|
                0 <= k < i ==> (#[trigger] links@[k])@ == link_for(purpose, snapshot_ids(facts@), facts@[k]),
        decreases facts.len() - i,
    {
        links.push(link(purpose, &index, &facts[i]));
        i = i + 1;
    }
    assert(link_models(links@) =~= links_for(purpose, facts@));
    walk(ids_of(facts), &links, snapshot_id)
}

// ---------------------------------------------------------------------------------------
// What a layer adds
// ---------------------------------------------------------------------------------------

/// Which sessions of a snapshot its parent does not have.
pub open spec fn is_new_session(ids: Seq<Seq<char>>, parent_ids: Seq<Seq<char>>) -> spec_fn(int) -> bool {
    |i: int| !parent_ids.contains(ids[i])
}

/// The sessions that a snapshot adds to its parent.
pub open spec fn new_sessions_of(ids: Seq<Seq<char>>, parent_ids: Seq<Seq<char>>) -> Seq<Seq<char>> {
    collect(ids.len() as int, is_new_session(ids, parent_ids), crate::matrix_refresh::item_at(ids))
}

/// What a layer adds to what it rests on: a build, and runtime sessions.
#[derive(Debug, Clone, PartialEq, Eq)]
pub struct LayerPlan {
    pub apply_build: bool,
    pub new_sessions: Vec<String>,
}

/// Whether a plan adds what a build and sessions are beyond what a parent holds.
pub open spec fn is_layer_plan(
    build_attempt_id: Option<Seq<char>>,
    runtime_session_ids: Seq<Seq<char>>,
    parent: Option<&CompletedSnapshotRecord>,
    plan: LayerPlan,
) -> bool {
    let parent_build = match parent {
        Some(parent) => opt_text(parent.build_attempt_id),
        None => None,
    };
    let parent_sessions = match parent {
        Some(parent) => texts(parent.runtime_session_ids@),
        None => Seq::empty(),
    };
    &&& plan.apply_build == (build_attempt_id is Some && parent_build != build_attempt_id)
    &&& texts(plan.new_sessions@) == new_sessions_of(runtime_session_ids, parent_sessions)
}

fn new_sessions(ids: &Vec<String>, parent_ids: &Vec<String>) -> (result: Vec<String>)
    ensures
        texts(result@) == new_sessions_of(texts(ids@), texts(parent_ids@)),
{
    let ghost keys = texts(ids@);
    let ghost keep = is_new_session(keys, texts(parent_ids@));
    let ghost item = crate::matrix_refresh::item_at(keys);
    let mut result: Vec<String> = Vec::new();
    let mut i: usize = 0;
    assert(texts(result@) =~= Seq::empty());
    while i < ids.len()
        invariant
            i <= ids.len(),
            keys == texts(ids@),
            keep == is_new_session(keys, texts(parent_ids@)),
            item == crate::matrix_refresh::item_at(keys),
            texts(result@) == collect(i as int, keep, item),
        decreases ids.len() - i,
    {
        assert(keys[i as int] == ids@[i as int]@);
        if !contains_text(parent_ids, ids[i].as_str()) {
            let ghost earlier = texts(result@);
            result.push(ids[i].clone());
            assert(texts(result@) =~= earlier.push(keys[i as int]));
        }
        i = i + 1;
    }
    result
}

/// What a snapshot adds to its parent: its build where the parent does not hold it, and
/// the sessions that the parent does not hold.
pub fn layer_plan(
    build_attempt_id: Option<&str>,
    runtime_session_ids: &Vec<String>,
    parent: Option<&CompletedSnapshotRecord>,
) -> (result: LayerPlan)
    ensures
        is_layer_plan(
            crate::operations::opt_str(build_attempt_id),
            texts(runtime_session_ids@),
            parent,
            result,
        ),
{
    let apply_build: bool = match build_attempt_id {
        Some(attempt_id) => match parent {
            Some(parent) => !crate::operations::opt_text_is(&parent.build_attempt_id, attempt_id),
            None => true,
        },
        None => false,
    };
    let none: Vec<String> = Vec::new();
    assert(texts(none@) =~= Seq::empty());
    let new_sessions = match parent {
        Some(parent) => new_sessions(runtime_session_ids, &parent.runtime_session_ids),
        None => new_sessions(runtime_session_ids, &none),
    };
    LayerPlan { apply_build, new_sessions }
}

// ---------------------------------------------------------------------------------------
// Overlays
// ---------------------------------------------------------------------------------------

/// The node with an identity.
pub open spec fn has_node_id(nodes: Seq<NodeRecord>, id: Seq<char>) -> spec_fn(int) -> bool {
    |i: int| nodes[i].id@ == id
}

/// The log of an adapter.
pub open spec fn is_log_of(logs: Seq<AdapterLogRecord>, adapter: Seq<char>) -> spec_fn(int) -> bool {
    |i: int| logs[i].adapter@ == adapter
}

/// Logs with one more: in the place of the adapter's log, or at the end.
pub open spec fn with_log(logs: Seq<AdapterLogRecord>, log: AdapterLogRecord) -> Seq<AdapterLogRecord> {
    match first_kept(logs.len() as int, is_log_of(logs, log.adapter@)) {
        Some(i) => logs.update(i, log),
        None => logs.push(log),
    }
}

/// Logs with the first `count` of further ones.
pub open spec fn with_logs(
    logs: Seq<AdapterLogRecord>,
    added: Seq<AdapterLogRecord>,
    count: int,
) -> Seq<AdapterLogRecord>
    decreases count,
{
    if count <= 0 {
        logs
    } else {
        with_log(with_logs(logs, added, count - 1), added[count - 1])
    }
}

/// The adapters of logs.
pub open spec fn adapters_of(logs: Seq<AdapterLogRecord>) -> Seq<Seq<char>> {
    Seq::new(logs.len(), |i: int| logs[i].adapter@)
}

/// Why an overlay does not fit: it holds one node, which is there, under the same kind,
/// locator and name.
pub open spec fn overlay_error(snapshot: GraphSnapshot, overlay: GraphSnapshot) -> Option<LayerError> {
    if overlay.nodes@.len() != 1 {
        Some(LayerError::OverlayNotOneNode)
    } else {
        let node = overlay.nodes@[0];
        match first_kept(snapshot.nodes@.len() as int, has_node_id(snapshot.nodes@, node.id@)) {
            None => Some(LayerError::OverlayUnknownNode),
            Some(i) => {
                let existing = snapshot.nodes@[i];
                if existing.kind@ != node.kind@ || existing.locator@ != node.locator@ || existing.display_name@
                    != node.display_name@ {
                    Some(LayerError::OverlayChangesIdentity)
                } else {
                    None
                }
            },
        }
    }
}

/// Whether `after` is a snapshot under an overlay that fits, before its profile matrix is
/// made anew: the node is the overlay's, so are the scan and the logs that the overlay has.
pub open spec fn is_overlaid(before: GraphSnapshot, overlay: GraphSnapshot, after: GraphSnapshot) -> bool {
    let node = overlay.nodes@[0];
    let i = first_kept(before.nodes@.len() as int, has_node_id(before.nodes@, node.id@))->0;
    let nodes = before.nodes@.update(i, node);
    let logs = with_logs(before.adapter_logs@, overlay.adapter_logs@, overlay.adapter_logs@.len() as int);
    &&& is_stable_sort(nodes, node_ids_of(nodes), after.nodes@)
    &&& is_stable_sort(logs, adapters_of(logs), after.adapter_logs@)
    &&& after == (GraphSnapshot {
        scan: overlay.scan,
        nodes: after.nodes,
        adapter_logs: after.adapter_logs,
        ..before
    })
}

fn put_log(logs: &mut Vec<AdapterLogRecord>, log: AdapterLogRecord)
    ensures
        final(logs)@ == with_log(old(logs)@, log),
{
    let ghost before = logs@;
    let ghost keep = is_log_of(before, log.adapter@);
    let mut i: usize = 0;
    while i < logs.len()
        invariant
            i <= logs.len(),
            logs@ == before,
            before == old(logs)@,
            keep == is_log_of(before, log.adapter@),
            first_kept(i as int, keep) is None,
        decreases logs.len() - i,
    {
        if logs[i].adapter == log.adapter {
            proof {
                first_kept_remains(i + 1, before.len() as int, keep);
            }
            logs.set(i, log);
            return;
        }
        i = i + 1;
    }
    logs.push(log);
}

fn log_adapters(logs: &Vec<AdapterLogRecord>) -> (result: Vec<String>)
    ensures
        texts(result@) == adapters_of(logs@),
        result.len() == logs.len(),
{
    let mut keys: Vec<String> = Vec::new();
    let mut i: usize = 0;
    while i < logs.len()
        invariant
            i <= logs.len(),
            keys.len() == i,
            forall|k: int| 0 <= k < i ==> (#[trigger] keys@[k])@ == logs@[k].adapter@,
        decreases logs.len() - i,
    {
        keys.push(logs[i].adapter.clone());
        i = i + 1;
    }
    assert(texts(keys@) =~= adapters_of(logs@));
    keys
}

fn find_node(nodes: &Vec<NodeRecord>, id: &String) -> (result: Option<usize>)
    ensures
        match result {
            Some(i) => i < nodes.len() && first_kept(nodes@.len() as int, has_node_id(nodes@, id@)) == Some(i as int),
            None => first_kept(nodes@.len() as int, has_node_id(nodes@, id@)) is None,
        },
{
    let ghost keep = has_node_id(nodes@, id@);
    let mut i: usize = 0;
    while i < nodes.len()
        invariant
            i <= nodes.len(),
            keep == has_node_id(nodes@, id@),
            first_kept(i as int, keep) is None,
        decreases nodes.len() - i,
    {
        if nodes[i].id == *id {
            proof {
                first_kept_remains(i + 1, nodes@.len() as int, keep);
            }
            return Some(i);
        }
        i = i + 1;
    }
    None
}

/// Lays an overlay over the snapshot that it re-states; the profile matrix is left to be
/// made anew. A snapshot under an overlay that does not fit stays as it is.
pub fn apply_semantic_noop_overlay(snapshot: &mut GraphSnapshot, overlay: GraphSnapshot) -> (result: Result<
    (),
    LayerError,
>)
    ensures
        match overlay_error(*old(snapshot), overlay) {
            Some(error) => result == Err::<(), _>(error) && *final(snapshot) == *old(snapshot),
            None => result is Ok && is_overlaid(*old(snapshot), overlay, *final(snapshot)),
        },
{
    if overlay.nodes.len() != 1 {
        return Err(LayerError::OverlayNotOneNode);
    }
    let place = match find_node(&snapshot.nodes, &overlay.nodes[0].id) {
        Some(place) => place,
        None => {
            return Err(LayerError::OverlayUnknownNode);
        },
    };
    {
        let existing = &snapshot.nodes[place];
        let node = &overlay.nodes[0];
        if existing.kind != node.kind || existing.locator != node.locator || existing.display_name
            != node.display_name {
            return Err(LayerError::OverlayChangesIdentity);
        }
    }
    let ghost before = *snapshot;
    let mut nodes: Vec<NodeRecord> = Vec::new();
    core::mem::swap(&mut nodes, &mut snapshot.nodes);
    let ghost own = overlay.nodes@[0];
    let mut own_nodes = overlay.nodes;
    let node: Option<NodeRecord> = own_nodes.pop();
    if let Some(node) = node {
        assert(node == own);
        nodes.set(place, node);
    }
    let mut logs: Vec<AdapterLogRecord> = Vec::new();
    core::mem::swap(&mut logs, &mut snapshot.adapter_logs);
    let ghost added = overlay.adapter_logs@;
    for log in it: overlay.adapter_logs
        invariant
            it.seq() == added,
            logs@ == with_logs(before.adapter_logs@, added, it.index() as int),
    {
        assert(log == added[it.index() as int]);
        put_log(&mut logs, log);
    }
    let node_keys = node_ids(&nodes);
    assert(texts(node_keys@).len() == nodes@.len());
    let log_keys = log_adapters(&logs);
    snapshot.scan = overlay.scan;
    snapshot.nodes = stable_sort(nodes, &node_keys);
    snapshot.adapter_logs = stable_sort(logs, &log_keys);
    Ok(())
}

// ---------------------------------------------------------------------------------------
// Profiles, topology and integrity
// ---------------------------------------------------------------------------------------

/// Whether profiles are exactly those that a snapshot lists.
pub fn check_profile_set(profiles: &Vec<ProfileRecord>, record: &CompletedSnapshotRecord) -> (result: Result<
    (),
    LayerError,
>)
    ensures
        result == if profile_ids_of(profiles@) == texts(record.profile_ids@) {
            Ok::<(), LayerError>(())
        } else {
            Err(LayerError::ProfileSetDiffers)
        },
{
    let mut ids: Vec<String> = Vec::new();
    let mut i: usize = 0;
    while i < profiles.len()
        invariant
            i <= profiles.len(),
            ids.len() == i,
            forall|k: int| 0 <= k < i ==> (#[trigger] ids@[k])@ == profiles@[k].id@,
        decreases profiles.len() - i,
    {
        ids.push(profiles[i].id.clone());
        i = i + 1;
    }
    assert(texts(ids@) =~= profile_ids_of(profiles@));
    if same_texts(&ids, &record.profile_ids) {
        Ok(())
    } else {
        Err(LayerError::ProfileSetDiffers)
    }
}

/// Whether a snapshot is more than its scan: it was made otherwise, it adds a build or
/// sessions, or it only re-states its parent.
pub open spec fn is_more_than_its_scan(facts: SnapshotFacts) -> bool {
    facts.record.source_kind@ != "scan"@ || facts.record.build_attempt_id is Some
        || facts.record.runtime_session_ids@.len() != 0 || is_overlay(facts)
}

/// Whether the topology of a snapshot is more than that of its scan.
pub fn is_layered(facts: &SnapshotFacts) -> (result: bool)
    ensures
        result == is_more_than_its_scan(*facts),
{
    !same(facts.record.source_kind.as_str(), "scan") || facts.record.build_attempt_id.is_some()
        || facts.record.runtime_session_ids.len() != 0 || is_semantic_noop(facts)
}

/// What a topology holds: the identity and the kind of each node, and the ends of each edge.
#[verifier::ext_equal]
pub struct TopologyModel {
    pub nodes: Seq<(Seq<char>, Seq<char>)>,
    pub edges: Seq<(Seq<char>, Seq<char>)>,
}

impl View for GraphTopology {
    type V = TopologyModel;

    open spec fn view(&self) -> TopologyModel {
        TopologyModel {
            nodes: Seq::new(self.nodes@.len(), |i: int| (self.nodes@[i].id@, self.nodes@[i].kind@)),
            edges: Seq::new(self.edges@.len(), |i: int| (self.edges@[i].source@, self.edges@[i].target@)),
        }
    }
}

/// The shape of a graph: its nodes and its edges, each in its place.
pub open spec fn topology_of(graph: GraphSnapshot) -> TopologyModel {
    TopologyModel {
        nodes: Seq::new(graph.nodes@.len(), |i: int| (graph.nodes@[i].id@, graph.nodes@[i].kind@)),
        edges: Seq::new(graph.edges@.len(), |i: int| (graph.edges@[i].source@, graph.edges@[i].target@)),
    }
}

/// The shape of a graph: each node with its kind, each edge with its ends.
pub fn topology_from_snapshot(snapshot: GraphSnapshot) -> (result: GraphTopology)
    ensures
        result@ == topology_of(snapshot),
{
    let ghost node_source = snapshot.nodes@;
    let mut nodes: Vec<GraphTopologyNode> = Vec::new();
    for node in it: snapshot.nodes
        invariant
            it.seq() == node_source,
            nodes.len() == it.index(),
            forall|k: int|
                0 <= k < nodes.len() ==> (#[trigger] nodes@[k]) == (GraphTopologyNode {
                    id: node_source[k].id,
                    kind: node_source[k].kind,
                }),
    {
        assert(node == node_source[it.index() as int]);
        nodes.push(GraphTopologyNode { id: node.id, kind: node.kind });
    }
    let ghost edge_source = snapshot.edges@;
    let mut edges: Vec<GraphTopologyEdge> = Vec::new();
    for edge in it: snapshot.edges
        invariant
            it.seq() == edge_source,
            edges.len() == it.index(),
            forall|k: int|
                0 <= k < edges.len() ==> (#[trigger] edges@[k]) == (GraphTopologyEdge {
                    source: edge_source[k].source,
                    target: edge_source[k].target,
                }),
    {
        assert(edge == edge_source[it.index() as int]);
        edges.push(GraphTopologyEdge { source: edge.source, target: edge.target });
    }
    let topology = GraphTopology { nodes, edges };
    assert(topology@ =~= topology_of(snapshot));
    topology
}

/// Whether a snapshot has the identity and the profiles that its content has.
pub open spec fn is_intact(
    record: CompletedSnapshotRecord,
    observed_id: Seq<char>,
    observed_profiles: Seq<Seq<char>>,
) -> bool {
    &&& observed_id == record.id@
    &&& observed_profiles == texts(record.profile_ids@)
    &&& record.status@ == "completed"@
}

/// Whether a snapshot has the identity and the profiles that its content has.
pub fn snapshot_is_intact(record: &CompletedSnapshotRecord, observed_id: &str, observed_profiles: &Vec<String>) -> (result:
    bool)
    ensures
        result == is_intact(*record, observed_id@, texts(observed_profiles@)),
{
    same(observed_id, record.id.as_str()) && same_texts(observed_profiles, &record.profile_ids)
        && same(record.status.as_str(), "completed")
}

/// The ancestors that the integrity of an overlay depends on: whether each is intact, in
/// order, and how the walk over them ends.
#[derive(Debug, Clone)]
pub struct AncestorCheck {
    pub intact: Vec<bool>,
    pub end: WalkEnd,
}

/// The first ancestor that is not intact.
pub open spec fn is_broken(intact: Seq<bool>) -> spec_fn(int) -> bool {
    |i: int| !intact[i]
}

/// Whether the ancestors are broken, or why that cannot be told. An ancestor that is not
/// intact settles it, however the walk ends; a walk that leads back is broken.
pub open spec fn ancestors_broken(check: Option<AncestorCheck>) -> Result<bool, LayerError> {
    match check {
        None => Ok(false),
        Some(check) => if first_kept(check.intact@.len() as int, is_broken(check.intact@)) is Some {
            Ok(true)
        } else {
            match check.end {
                WalkEnd::End => Ok(false),
                WalkEnd::Cycle => Ok(true),
                WalkEnd::Missing => Err(LayerError::SnapshotMissing),
                WalkEnd::Fail(error) => Err(error),
            }
        },
    }
}

/// The reasons for which a snapshot is not valid.
pub open spec fn integrity_reasons(
    record: CompletedSnapshotRecord,
    observed_id: Seq<char>,
    observed_profiles: Seq<Seq<char>>,
    broken: bool,
) -> Seq<Seq<char>> {
    let content = if observed_id != record.id@ {
        seq!["content_digest_mismatch"@]
    } else {
        Seq::empty()
    };
    let profiles = if observed_profiles != texts(record.profile_ids@) {
        seq!["profile_set_mismatch"@]
    } else {
        Seq::empty()
    };
    let status = if record.status@ != "completed"@ {
        seq!["snapshot_not_completed"@]
    } else {
        Seq::empty()
    };
    let parent = if broken {
        seq!["parent_integrity_mismatch"@]
    } else {
        Seq::empty()
    };
    content + profiles + status + parent
}

fn any_broken(intact: &Vec<bool>) -> (result: bool)
    ensures
        result == (first_kept(intact@.len() as int, is_broken(intact@)) is Some),
{
    let ghost keep = is_broken(intact@);
    let mut found: bool = false;
    let mut i: usize = 0;
    while i < intact.len()
        invariant
            i <= intact.len(),
            keep == is_broken(intact@),
            found == (first_kept(i as int, keep) is Some),
        decreases intact.len() - i,
    {
        if !intact[i] {
            found = true;
        }
        i = i + 1;
    }
    found
}

fn push_reason(reasons: &mut Vec<String>, reason: &str)
    ensures
        texts(final(reasons)@) == texts(old(reasons)@).push(reason@),
{
    let ghost before = texts(reasons@);
    reasons.push(String::from_str(reason));
    assert(texts(reasons@) =~= before.push(reason@));
}

/// The outcome of re-checking a snapshot against the identity and the profiles that its
/// content has, and an overlay against its ancestors too.
pub fn snapshot_integrity(
    record: &CompletedSnapshotRecord,
    observed_id: &str,
    observed_profiles: &Vec<String>,
    ancestors: Option<&AncestorCheck>,
) -> (result: Result<SnapshotIntegrityRecord, LayerError>)
    ensures
        match ancestors_broken(
            match ancestors {
                Some(check) => Some(*check),
                None => None,
            },
        ) {
            Err(error) => result == Err::<SnapshotIntegrityRecord, _>(error),
            Ok(broken) => {
                let reasons = integrity_reasons(*record, observed_id@, texts(observed_profiles@), broken);
                result matches Ok(integrity) && integrity.snapshot_id@ == record.id@ && integrity.expected_id@
                    == record.id@ && integrity.observed_id@ == observed_id@ && texts(integrity.reasons@) == reasons
                    && integrity.valid == (reasons.len() == 0)
            },
        },
{
    let broken: bool = match ancestors {
        None => false,
        Some(check) => if any_broken(&check.intact) {
            true
        } else {
            match check.end {
                WalkEnd::End => false,
                WalkEnd::Cycle => true,
                WalkEnd::Missing => {
                    return Err(LayerError::SnapshotMissing);
                },
                WalkEnd::Fail(error) => {
                    return Err(error);
                },
            }
        },
    };
    let mut reasons: Vec<String> = Vec::new();
    assert(texts(reasons@) =~= Seq::empty());
    if !same(observed_id, record.id.as_str()) {
        push_reason(&mut reasons, "content_digest_mismatch");
    }
    if !same_texts(observed_profiles, &record.profile_ids) {
        push_reason(&mut reasons, "profile_set_mismatch");
    }
    if !same(record.status.as_str(), "completed") {
        push_reason(&mut reasons, "snapshot_not_completed");
    }
    if broken {
        push_reason(&mut reasons, "parent_integrity_mismatch");
    }
    assert(texts(reasons@) =~= integrity_reasons(*record, observed_id@, texts(observed_profiles@), broken));
    let valid: bool = reasons.len() == 0;
    assert(texts(reasons@).len() == reasons@.len());
    Ok(
        SnapshotIntegrityRecord {
            snapshot_id: record.id.clone(),
            valid,
            expected_id: record.id.clone(),
            observed_id: String::from_str(observed_id),
            reasons,
        },
    )
}

// ---------------------------------------------------------------------------------------
// Laws
// ---------------------------------------------------------------------------------------

/// A valid snapshot is intact, and so are all ancestors that it depends on.
pub proof fn valid_snapshots_are_intact(
    record: CompletedSnapshotRecord,
    observed_id: Seq<char>,
    observed_profiles: Seq<Seq<char>>,
    check: AncestorCheck,
)
    requires
        ancestors_broken(Some(check)) == Ok::<bool, LayerError>(false),
        integrity_reasons(record, observed_id, observed_profiles, false).len() == 0,
    ensures
        is_intact(record, observed_id, observed_profiles),
        forall|i: int| 0 <= i < check.intact@.len() ==> #[trigger] check.intact@[i],
        check.end == WalkEnd::End,
{
    let keep = is_broken(check.intact@);
    crate::order::first_kept_is_first(check.intact@.len() as int, keep);
    assert forall|i: int| 0 <= i < check.intact@.len() implies #[trigger] check.intact@[i] by {
        assert(!keep(i));
    }
}

proof fn paths_agree(
    ids: Seq<Seq<char>>,
    links: Seq<LinkModel>,
    start: Seq<char>,
    a: Seq<usize>,
    b: Seq<usize>,
    upto: int,
)
    requires
        is_path(ids, links, start, a),
        is_path(ids, links, start, b),
        0 <= upto <= a.len(),
        upto <= b.len(),
    ensures
        forall|i: int| 0 <= i < upto ==> #[trigger] a[i] == b[i],
    decreases upto,
{
    if upto > 0 {
        paths_agree(ids, links, start, a, b, upto - 1);
        if upto > 1 {
            let i = upto - 2;
            assert(a[i] == b[i]);
            assert(links[a[i] as int] matches LinkModel::To(id) && place_of_id(ids, id) == Some(a[i + 1] as int));
            assert(links[b[i] as int] matches LinkModel::To(id) && place_of_id(ids, id) == Some(b[i + 1] as int));
        }
    }
}

proof fn walk_is_not_shorter(
    ids: Seq<Seq<char>>,
    links: Seq<LinkModel>,
    start: Seq<char>,
    a: Seq<usize>,
    end: WalkEnd,
    b: Seq<usize>,
)
    requires
        is_walk(ids, links, start, a, end),
        is_path(ids, links, start, b),
    ensures
        b.len() <= a.len(),
{
    if a.len() < b.len() {
        let n = a.len() as int;
        paths_agree(ids, links, start, a, b, n);
        if n > 0 {
            assert(links[b[n - 1] as int] matches LinkModel::To(id) && place_of_id(ids, id) == Some(b[n] as int));
            assert(a[n - 1] == b[n - 1]);
        }
        if a.contains(b[n]) {
            let j = choose|j: int| 0 <= j < a.len() && a[j] == b[n];
            assert(b[j] == a[j]);
        }
        assert(false);
    }
}

/// A walk is determined by its links: two walks over the same links from the same start
/// take the same path and end the same way.
pub proof fn walks_agree(
    ids: Seq<Seq<char>>,
    links: Seq<LinkModel>,
    start: Seq<char>,
    a: Seq<usize>,
    a_end: WalkEnd,
    b: Seq<usize>,
    b_end: WalkEnd,
)
    requires
        is_walk(ids, links, start, a, a_end),
        is_walk(ids, links, start, b, b_end),
    ensures
        a == b,
        a_end == b_end,
{
    walk_is_not_shorter(ids, links, start, a, a_end, b);
    walk_is_not_shorter(ids, links, start, b, b_end, a);
    paths_agree(ids, links, start, a, b, a.len() as int);
    assert(a =~= b);
}

} // verus!

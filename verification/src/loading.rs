//! The order in which the layers of a graph are applied: to load a completed snapshot, and
//! to find the content that names a new one.

use vstd::prelude::*;

use crate::layers::{
    applies_overlay, is_chain, is_layer, is_more_than_its_scan, is_on_overlay, is_overlay, is_path, is_semantic_noop,
    is_walk, layer_plan, links_for, load_link, new_sessions_of, place_of_id, snapshot_chain, snapshot_ids,
    topology_of, walks_agree, LayerError, LinkModel, SnapshotFacts, TopologyModel, WalkEnd, WalkPurpose,
};
use crate::operations::as_opt_str;
use crate::order::last_position;
use crate::records::{CompletedSnapshotRecord, GraphSnapshot};
use crate::snapshots::{is_record_of, SnapshotSource};
use crate::text::{copy_texts, opt_text, same, texts};

verus! {

/// One step of putting a graph together.
#[derive(Debug, Clone, PartialEq, Eq)]
pub enum LoadStep {
    /// Begin with the graph of a scan.
    Scan(String),
    /// Lay the overlay of a scan over the graph.
    Overlay(String),
    /// Add the delta of a build over a scan.
    Build { scan_id: String, attempt_id: String },
    /// Add runtime sessions.
    Sessions(Vec<String>),
}

/// What a step holds.
pub enum LoadStepModel {
    Scan(Seq<char>),
    Overlay(Seq<char>),
    Build { scan_id: Seq<char>, attempt_id: Seq<char> },
    Sessions(Seq<Seq<char>>),
}

impl View for LoadStep {
    type V = LoadStepModel;

    open spec fn view(&self) -> LoadStepModel {
        match *self {
            LoadStep::Scan(scan_id) => LoadStepModel::Scan(scan_id@),
            LoadStep::Overlay(scan_id) => LoadStepModel::Overlay(scan_id@),
            LoadStep::Build { scan_id, attempt_id } => LoadStepModel::Build {
                scan_id: scan_id@,
                attempt_id: attempt_id@,
            },
            LoadStep::Sessions(ids) => LoadStepModel::Sessions(texts(ids@)),
        }
    }
}

/// What steps hold.
pub open spec fn steps_held(steps: Seq<LoadStep>) -> Seq<LoadStepModel> {
    Seq::new(steps.len(), |i: int| steps[i]@)
}

// ---------------------------------------------------------------------------------------
// The steps of a snapshot
// ---------------------------------------------------------------------------------------

/// The record of the snapshot that an identity names.
pub open spec fn named_record(facts: Seq<SnapshotFacts>, id: Option<Seq<char>>) -> Option<CompletedSnapshotRecord> {
    match id {
        Some(id) => match place_of_id(snapshot_ids(facts), id) {
            Some(place) => Some(facts[place].record),
            None => None,
        },
        None => None,
    }
}

/// The steps of a layer: its build where its parent does not hold it, then the sessions that
/// its parent does not hold.
pub open spec fn layer_steps(
    scan_id: Seq<char>,
    build_attempt_id: Option<Seq<char>>,
    runtime_session_ids: Seq<Seq<char>>,
    parent: Option<CompletedSnapshotRecord>,
) -> Seq<LoadStepModel> {
    let parent_build = match parent {
        Some(parent) => opt_text(parent.build_attempt_id),
        None => None,
    };
    let parent_sessions = match parent {
        Some(parent) => texts(parent.runtime_session_ids@),
        None => Seq::empty(),
    };
    let fresh = new_sessions_of(runtime_session_ids, parent_sessions);
    let build = if build_attempt_id is Some && parent_build != build_attempt_id {
        seq![LoadStepModel::Build { scan_id, attempt_id: build_attempt_id->0 }]
    } else {
        Seq::empty()
    };
    let sessions = if fresh.len() > 0 {
        seq![LoadStepModel::Sessions(fresh)]
    } else {
        Seq::empty()
    };
    build + sessions
}

/// The steps that a snapshot adds to what it rests on: its scan where it rests on no other
/// snapshot, the overlay of its scan where it rests on one through it, then its layer.
pub open spec fn snapshot_steps(facts: Seq<SnapshotFacts>, place: int, is_last: bool) -> Seq<LoadStepModel> {
    let own = facts[place];
    let record = own.record;
    let ground = if is_last {
        seq![LoadStepModel::Scan(record.scan_id@)]
    } else if is_on_overlay(own) {
        seq![LoadStepModel::Overlay(record.scan_id@)]
    } else {
        Seq::empty()
    };
    let layer = if is_overlay(own) {
        Seq::empty()
    } else {
        layer_steps(
            record.scan_id@,
            opt_text(record.build_attempt_id),
            texts(record.runtime_session_ids@),
            named_record(facts, opt_text(record.parent_snapshot_id)),
        )
    };
    ground + layer
}

/// The steps of a path of snapshots from a point on, the last snapshot first.
pub open spec fn path_steps(facts: Seq<SnapshotFacts>, path: Seq<usize>, from: int) -> Seq<LoadStepModel>
    decreases path.len() - from,
{
    if from < 0 || from >= path.len() {
        Seq::empty()
    } else {
        path_steps(facts, path, from + 1) + snapshot_steps(facts, path[from] as int, from == path.len() - 1)
    }
}

/// What comes of a walk: the steps of its path, or why there are none.
pub open spec fn walk_outcome(facts: Seq<SnapshotFacts>, path: Seq<usize>, end: WalkEnd) -> Result<
    Seq<LoadStepModel>,
    LayerError,
> {
    match end {
        WalkEnd::End => Ok(path_steps(facts, path, 0)),
        WalkEnd::Missing => Err(LayerError::SnapshotMissing),
        WalkEnd::Cycle => Err(LayerError::ParentCycle),
        WalkEnd::Fail(error) => Err(error),
    }
}

/// Whether a snapshot is put together so: by the steps along its chain, or not at all.
pub open spec fn loads_as(
    facts: Seq<SnapshotFacts>,
    snapshot_id: Seq<char>,
    outcome: Result<Seq<LoadStepModel>, LayerError>,
) -> bool {
    exists|path: Seq<usize>, end: WalkEnd| #[trigger]
        is_chain(facts, snapshot_id, WalkPurpose::Load, path, end) && outcome == walk_outcome(facts, path, end)
}

/// The graph that steps put together, where `scan` gives the graph of a scan and `apply` what any
/// other step makes of the graph below it. There is none before a scan.
pub open spec fn put_together(
    scan: spec_fn(Seq<char>) -> GraphSnapshot,
    apply: spec_fn(GraphSnapshot, LoadStepModel) -> GraphSnapshot,
    steps: Seq<LoadStepModel>,
) -> Option<GraphSnapshot>
    decreases steps.len(),
{
    if steps.len() == 0 {
        None
    } else {
        match steps.last() {
            LoadStepModel::Scan(scan_id) => Some(scan(scan_id)),
            step => match put_together(scan, apply, steps.drop_last()) {
                Some(below) => Some(apply(below, step)),
                None => None,
            },
        }
    }
}

/// The topology of a snapshot: that of its graph where it is more than its scan, otherwise
/// that of its scan's own graph.
pub open spec fn topology_read(
    facts: SnapshotFacts,
    scan: spec_fn(Seq<char>) -> GraphSnapshot,
    graph: GraphSnapshot,
) -> TopologyModel {
    if is_more_than_its_scan(facts) {
        topology_of(graph)
    } else {
        topology_of(scan(facts.record.scan_id@))
    }
}

fn push_step(steps: &mut Vec<LoadStep>, step: LoadStep)
    ensures
        steps_held(final(steps)@) == steps_held(old(steps)@).push(step@),
{
    let ghost before = steps_held(steps@);
    steps.push(step);
    assert(steps_held(steps@) =~= before.push(step@));
}

fn named<'a>(facts: &'a Vec<SnapshotFacts>, id: &Option<String>) -> (result: Option<&'a CompletedSnapshotRecord>)
    ensures
        match result {
            Some(record) => named_record(facts@, opt_text(*id)) == Some(*record),
            None => named_record(facts@, opt_text(*id)) is None,
        },
{
    let key: &String = match id {
        Some(key) => key,
        None => {
            return None;
        },
    };
    let ghost ids = snapshot_ids(facts@);
    let mut i: usize = facts.len();
    while i > 0
        invariant
            i <= facts.len(),
            opt_text(*id) == Some(key@),
            ids == snapshot_ids(facts@),
            place_of_id(ids, key@) == last_position(ids, key@, i as int),
        decreases i,
    {
        i = i - 1;
        if same(facts[i].record.id.as_str(), key.as_str()) {
            return Some(&facts[i].record);
        }
    }
    None
}

fn push_layer(
    steps: &mut Vec<LoadStep>,
    scan_id: &String,
    build_attempt_id: &Option<String>,
    runtime_session_ids: &Vec<String>,
    parent: Option<&CompletedSnapshotRecord>,
)
    ensures
        steps_held(final(steps)@) == steps_held(old(steps)@) + layer_steps(
            scan_id@,
            opt_text(*build_attempt_id),
            texts(runtime_session_ids@),
            match parent {
                Some(parent) => Some(*parent),
                None => None,
            },
        ),
{
    let ghost before = steps_held(steps@);
    let plan = layer_plan(as_opt_str(build_attempt_id), runtime_session_ids, parent);
    assert(texts(plan.new_sessions@).len() == plan.new_sessions@.len());
    if plan.apply_build {
        if let Some(attempt_id) = build_attempt_id {
            push_step(steps, LoadStep::Build { scan_id: scan_id.clone(), attempt_id: attempt_id.clone() });
        }
    }
    if plan.new_sessions.len() > 0 {
        push_step(steps, LoadStep::Sessions(plan.new_sessions));
    }
    assert(steps_held(steps@) =~= before + layer_steps(
        scan_id@,
        opt_text(*build_attempt_id),
        texts(runtime_session_ids@),
        match parent {
            Some(parent) => Some(*parent),
            None => None,
        },
    ));
}

fn push_snapshot(steps: &mut Vec<LoadStep>, facts: &Vec<SnapshotFacts>, place: usize, is_last: bool)
    requires
        place < facts.len(),
    ensures
        steps_held(final(steps)@) == steps_held(old(steps)@) + snapshot_steps(facts@, place as int, is_last),
{
    let ghost before = steps_held(steps@);
    let own = &facts[place];
    let record = &own.record;
    if is_last {
        push_step(steps, LoadStep::Scan(record.scan_id.clone()));
    } else if applies_overlay(own) {
        push_step(steps, LoadStep::Overlay(record.scan_id.clone()));
    }
    if !is_semantic_noop(own) {
        push_layer(
            steps,
            &record.scan_id,
            &record.build_attempt_id,
            &record.runtime_session_ids,
            named(facts, &record.parent_snapshot_id),
        );
    }
    assert(steps_held(steps@) =~= before + snapshot_steps(facts@, place as int, is_last));
}

/// The steps that put a completed snapshot together, along the chain of snapshots that it
/// rests on, from the last of them up.
pub fn load_plan(facts: &Vec<SnapshotFacts>, snapshot_id: &str) -> (result: Result<Vec<LoadStep>, LayerError>)
    ensures
        loads_as(
            facts@,
            snapshot_id@,
            match result {
                Ok(steps) => Ok(steps_held(steps@)),
                Err(error) => Err(error),
            },
        ),
{
    let (path, end) = snapshot_chain(facts, snapshot_id, WalkPurpose::Load);
    assert(is_chain(facts@, snapshot_id@, WalkPurpose::Load, path@, end));
    match end {
        WalkEnd::Missing => {
            return Err(LayerError::SnapshotMissing);
        },
        WalkEnd::Cycle => {
            return Err(LayerError::ParentCycle);
        },
        WalkEnd::Fail(error) => {
            return Err(error);
        },
        WalkEnd::End => {},
    }
    let mut steps: Vec<LoadStep> = Vec::new();
    let mut i: usize = path.len();
    assert(steps_held(steps@) =~= path_steps(facts@, path@, path@.len() as int));
    while i > 0
        invariant
            i <= path.len(),
            is_chain(facts@, snapshot_id@, WalkPurpose::Load, path@, end),
            steps_held(steps@) == path_steps(facts@, path@, i as int),
        decreases i,
    {
        i = i - 1;
        assert(path@[i as int] < snapshot_ids(facts@).len());
        push_snapshot(&mut steps, facts, path[i], i + 1 == path.len());
    }
    Ok(steps)
}

// ---------------------------------------------------------------------------------------
// Where profiles are read
// ---------------------------------------------------------------------------------------

/// Where the profiles of a snapshot are read, by the place of the snapshot that holds them.
#[derive(Debug, Clone, Copy, PartialEq, Eq, Structural)]
pub enum ProfileSource {
    /// From the graph that the snapshot is.
    Graph(usize),
    /// From the scan of the snapshot.
    Scan(usize),
}

/// Where the profiles are read once a walk down the overlays has taken a path and ended.
pub open spec fn profiles_after(facts: Seq<SnapshotFacts>, path: Seq<usize>, end: WalkEnd) -> Result<
    ProfileSource,
    LayerError,
> {
    match end {
        WalkEnd::End => {
            let place = path[path.len() - 1];
            if adds_layer(contents_of(facts[place as int])) {
                Ok(ProfileSource::Graph(place))
            } else {
                Ok(ProfileSource::Scan(place))
            }
        },
        WalkEnd::Missing => Err(LayerError::SnapshotMissing),
        WalkEnd::Cycle => Err(LayerError::ParentCycle),
        WalkEnd::Fail(error) => Err(error),
    }
}

/// Where the profiles of a snapshot are read: an overlay has those of its parent, a layer
/// those of its graph, and any other snapshot those of its scan.
pub fn profile_source(facts: &Vec<SnapshotFacts>, snapshot_id: &str) -> (result: Result<ProfileSource, LayerError>)
    ensures
        exists|path: Seq<usize>, end: WalkEnd| #[trigger]
            is_chain(facts@, snapshot_id@, WalkPurpose::Profiles, path, end) && result == profiles_after(
                facts@,
                path,
                end,
            ),
{
    let (path, end) = snapshot_chain(facts, snapshot_id, WalkPurpose::Profiles);
    assert(is_chain(facts@, snapshot_id@, WalkPurpose::Profiles, path@, end));
    match end {
        WalkEnd::Missing => Err(LayerError::SnapshotMissing),
        WalkEnd::Cycle => Err(LayerError::ParentCycle),
        WalkEnd::Fail(error) => Err(error),
        WalkEnd::End => {
            let place: usize = path[path.len() - 1];
            assert(path@[path.len() - 1] < snapshot_ids(facts@).len());
            let record = &facts[place].record;
            if record.build_attempt_id.is_some() || record.runtime_session_ids.len() != 0 {
                Ok(ProfileSource::Graph(place))
            } else {
                Ok(ProfileSource::Scan(place))
            }
        },
    }
}

// ---------------------------------------------------------------------------------------
// The content of a new snapshot
// ---------------------------------------------------------------------------------------

/// What a new snapshot is made from.
#[derive(Debug, Clone)]
pub struct SnapshotContents {
    pub scan_id: String,
    pub build_attempt_id: Option<String>,
    pub runtime_session_ids: Vec<String>,
    pub parent_snapshot_id: Option<String>,
    pub source_revision: Option<String>,
    pub scan_is_overlay: bool,
    pub scan_parent_snapshot_id: Option<String>,
}

/// What contents hold.
#[verifier::ext_equal]
pub struct ContentsModel {
    pub scan_id: Seq<char>,
    pub build_attempt_id: Option<Seq<char>>,
    pub runtime_session_ids: Seq<Seq<char>>,
    pub parent_snapshot_id: Option<Seq<char>>,
    pub source_revision: Option<Seq<char>>,
    pub scan_is_overlay: bool,
    pub scan_parent_snapshot_id: Option<Seq<char>>,
}

impl View for SnapshotContents {
    type V = ContentsModel;

    open spec fn view(&self) -> ContentsModel {
        ContentsModel {
            scan_id: self.scan_id@,
            build_attempt_id: opt_text(self.build_attempt_id),
            runtime_session_ids: texts(self.runtime_session_ids@),
            parent_snapshot_id: opt_text(self.parent_snapshot_id),
            source_revision: opt_text(self.source_revision),
            scan_is_overlay: self.scan_is_overlay,
            scan_parent_snapshot_id: opt_text(self.scan_parent_snapshot_id),
        }
    }
}

/// The contents of the snapshot that a source makes. Whether the scan is an overlay, and the
/// parent that it names, come from the caller.
pub fn source_contents(
    source: &SnapshotSource,
    scan_is_overlay: bool,
    scan_parent_snapshot_id: Option<String>,
) -> (result: SnapshotContents)
    ensures
        result@ == (ContentsModel {
            scan_id: source.scan_id@,
            build_attempt_id: opt_text(source.build_attempt_id),
            runtime_session_ids: texts(source.runtime_session_ids@),
            parent_snapshot_id: opt_text(source.parent_snapshot_id),
            source_revision: opt_text(source.source_revision),
            scan_is_overlay,
            scan_parent_snapshot_id: opt_text(scan_parent_snapshot_id),
        }),
{
    SnapshotContents {
        scan_id: source.scan_id.clone(),
        build_attempt_id: source.build_attempt_id.clone(),
        runtime_session_ids: copy_texts(&source.runtime_session_ids),
        parent_snapshot_id: source.parent_snapshot_id.clone(),
        source_revision: source.source_revision.clone(),
        scan_is_overlay,
        scan_parent_snapshot_id,
    }
}

/// The contents of a recorded snapshot.
pub fn recorded_contents(facts: &SnapshotFacts) -> (result: SnapshotContents)
    ensures
        result@ == contents_of(*facts)@,
{
    SnapshotContents {
        scan_id: facts.record.scan_id.clone(),
        build_attempt_id: facts.record.build_attempt_id.clone(),
        runtime_session_ids: copy_texts(&facts.record.runtime_session_ids),
        parent_snapshot_id: facts.record.parent_snapshot_id.clone(),
        source_revision: facts.record.source_revision.clone(),
        scan_is_overlay: facts.scan_is_overlay,
        scan_parent_snapshot_id: facts.scan_parent_snapshot_id.clone(),
    }
}

/// How a new snapshot is named.
#[derive(Debug, Clone, PartialEq, Eq)]
pub enum IdentityPlan {
    /// By what it re-states: its parent under the overlay of its scan.
    Overlay { parent_snapshot_id: String },
    /// By the graph that steps put together.
    Content(Vec<LoadStep>),
}

/// What names a new snapshot.
pub enum IdentityModel {
    Overlay { parent_snapshot_id: Seq<char> },
    Content(Seq<LoadStepModel>),
}

impl View for IdentityPlan {
    type V = IdentityModel;

    open spec fn view(&self) -> IdentityModel {
        match *self {
            IdentityPlan::Overlay { parent_snapshot_id } => IdentityModel::Overlay {
                parent_snapshot_id: parent_snapshot_id@,
            },
            IdentityPlan::Content(steps) => IdentityModel::Content(steps_held(steps@)),
        }
    }
}

/// Whether contents add a build or runtime sessions.
pub open spec fn adds_layer(contents: SnapshotContents) -> bool {
    contents.build_attempt_id is Some || contents.runtime_session_ids@.len() != 0
}

/// The contents of a recorded snapshot.
pub open spec fn contents_of(facts: SnapshotFacts) -> SnapshotContents {
    SnapshotContents {
        scan_id: facts.record.scan_id,
        build_attempt_id: facts.record.build_attempt_id,
        runtime_session_ids: facts.record.runtime_session_ids,
        parent_snapshot_id: facts.record.parent_snapshot_id,
        source_revision: facts.record.source_revision,
        scan_is_overlay: facts.scan_is_overlay,
        scan_parent_snapshot_id: facts.scan_parent_snapshot_id,
    }
}

/// The snapshot that contents rest on, none where they rest on their scan alone.
pub open spec fn ground_of(facts: Seq<SnapshotFacts>, contents: SnapshotContents) -> Result<
    Option<Seq<char>>,
    LayerError,
> {
    let parent = opt_text(contents.parent_snapshot_id);
    if parent is Some && place_of_id(snapshot_ids(facts), parent->0) is None {
        Err(LayerError::ParentMissing)
    } else if adds_layer(contents) && parent is Some {
        Ok(parent)
    } else if !contents.scan_is_overlay {
        Ok(None)
    } else if contents.scan_parent_snapshot_id is None {
        Err(LayerError::OverlayWithoutParent)
    } else {
        Ok(opt_text(contents.scan_parent_snapshot_id))
    }
}

/// The steps of contents once what they rest on is put together.
pub open spec fn own_steps(facts: Seq<SnapshotFacts>, contents: SnapshotContents) -> Seq<LoadStepModel> {
    let overlay = if contents.scan_is_overlay && !(adds_layer(contents) && contents.parent_snapshot_id is Some) {
        seq![LoadStepModel::Overlay(contents.scan_id@)]
    } else {
        Seq::empty()
    };
    overlay + layer_steps(
        contents.scan_id@,
        opt_text(contents.build_attempt_id),
        texts(contents.runtime_session_ids@),
        named_record(facts, opt_text(contents.parent_snapshot_id)),
    )
}

/// Whether contents are named so: an overlay without a layer of its own by its parent, any
/// other contents by the graph that what they rest on and their own steps make.
pub open spec fn is_named_by(
    facts: Seq<SnapshotFacts>,
    contents: SnapshotContents,
    outcome: Result<IdentityModel, LayerError>,
) -> bool {
    if !adds_layer(contents) && contents.scan_is_overlay {
        match opt_text(contents.parent_snapshot_id) {
            Some(parent_snapshot_id) => outcome == Ok::<IdentityModel, LayerError>(
                IdentityModel::Overlay { parent_snapshot_id },
            ),
            None => outcome == Err::<IdentityModel, LayerError>(LayerError::OverlayWithoutParent),
        }
    } else {
        match ground_of(facts, contents) {
            Err(error) => outcome == Err::<IdentityModel, LayerError>(error),
            Ok(None) => outcome == Ok::<IdentityModel, LayerError>(
                IdentityModel::Content(seq![LoadStepModel::Scan(contents.scan_id@)] + own_steps(facts, contents)),
            ),
            Ok(Some(below)) => match outcome {
                Ok(IdentityModel::Content(steps)) => exists|ground: Seq<LoadStepModel>| #[trigger]
                    loads_as(facts, below, Ok(ground)) && steps == ground + own_steps(facts, contents),
                Ok(IdentityModel::Overlay { parent_snapshot_id }) => false,
                Err(error) => loads_as(facts, below, Err(error)),
            },
        }
    }
}

/// How a new snapshot is named by what it is made from.
pub fn identity_plan(facts: &Vec<SnapshotFacts>, contents: &SnapshotContents) -> (result: Result<
    IdentityPlan,
    LayerError,
>)
    ensures
        is_named_by(
            facts@,
            *contents,
            match result {
                Ok(plan) => Ok(plan@),
                Err(error) => Err(error),
            },
        ),
{
    let layered: bool = contents.build_attempt_id.is_some() || contents.runtime_session_ids.len() != 0;
    if !layered && contents.scan_is_overlay {
        return match &contents.parent_snapshot_id {
            Some(parent_id) => Ok(IdentityPlan::Overlay { parent_snapshot_id: parent_id.clone() }),
            None => Err(LayerError::OverlayWithoutParent),
        };
    }
    let parent = named(facts, &contents.parent_snapshot_id);
    if contents.parent_snapshot_id.is_some() && parent.is_none() {
        return Err(LayerError::ParentMissing);
    }
    let on_parent: bool = layered && contents.parent_snapshot_id.is_some();
    let below: &Option<String> = if on_parent {
        &contents.parent_snapshot_id
    } else {
        &contents.scan_parent_snapshot_id
    };
    let mut steps: Vec<LoadStep> = Vec::new();
    let ghost mut ground: Seq<LoadStepModel> = Seq::empty();
    if on_parent || contents.scan_is_overlay {
        match below {
            None => {
                return Err(LayerError::OverlayWithoutParent);
            },
            Some(id) => match load_plan(facts, id.as_str()) {
                Ok(plan) => {
                    steps = plan;
                    proof {
                        ground = steps_held(steps@);
                    }
                },
                Err(error) => {
                    return Err(error);
                },
            },
        }
        if !on_parent {
            push_step(&mut steps, LoadStep::Overlay(contents.scan_id.clone()));
        }
    } else {
        push_step(&mut steps, LoadStep::Scan(contents.scan_id.clone()));
        proof {
            ground = seq![LoadStepModel::Scan(contents.scan_id@)];
            assert(steps_held(steps@) =~= ground);
        }
    }
    push_layer(
        &mut steps,
        &contents.scan_id,
        &contents.build_attempt_id,
        &contents.runtime_session_ids,
        parent,
    );
    assert(steps_held(steps@) =~= ground + own_steps(facts@, *contents));
    proof {
        if on_parent || contents.scan_is_overlay {
            assert(loads_as(facts@, opt_text(*below)->0, Ok(ground)));
        }
    }
    Ok(IdentityPlan::Content(steps))
}

// ---------------------------------------------------------------------------------------
// Laws
// ---------------------------------------------------------------------------------------

/// A snapshot is put together in one way only.
pub proof fn loading_is_determined(
    facts: Seq<SnapshotFacts>,
    snapshot_id: Seq<char>,
    a: Result<Seq<LoadStepModel>, LayerError>,
    b: Result<Seq<LoadStepModel>, LayerError>,
)
    requires
        loads_as(facts, snapshot_id, a),
        loads_as(facts, snapshot_id, b),
    ensures
        a == b,
{
    let purpose = WalkPurpose::Load;
    let (p, p_end) = choose|path: Seq<usize>, end: WalkEnd| #[trigger]
        is_chain(facts, snapshot_id, purpose, path, end) && a == walk_outcome(facts, path, end);
    let (q, q_end) = choose|path: Seq<usize>, end: WalkEnd| #[trigger]
        is_chain(facts, snapshot_id, purpose, path, end) && b == walk_outcome(facts, path, end);
    walks_agree(snapshot_ids(facts), links_for(purpose, facts), snapshot_id, p, p_end, q, q_end);
}

proof fn steps_of_the_rest(facts: Seq<SnapshotFacts>, path: Seq<usize>, from: int)
    requires
        0 < from <= path.len(),
    ensures
        path_steps(facts, path, from) == path_steps(facts, path.drop_first(), from - 1),
    decreases path.len() - from,
{
    if from < path.len() {
        steps_of_the_rest(facts, path, from + 1);
    }
}

/// The snapshot that another rests on is put together first, and nothing is added to it but
/// the steps of the other.
pub proof fn snapshots_extend_what_they_rest_on(
    facts: Seq<SnapshotFacts>,
    snapshot_id: Seq<char>,
    place: int,
    below: Seq<char>,
    steps: Seq<LoadStepModel>,
)
    requires
        place_of_id(snapshot_ids(facts), snapshot_id) == Some(place),
        load_link(snapshot_ids(facts), facts[place]) == LinkModel::To(below),
        loads_as(facts, snapshot_id, Ok(steps)),
    ensures
        exists|ground: Seq<LoadStepModel>| #[trigger]
            loads_as(facts, below, Ok(ground)) && steps == ground + snapshot_steps(facts, place, false),
{
    let ids = snapshot_ids(facts);
    let links = links_for(WalkPurpose::Load, facts);
    let (path, end) = choose|path: Seq<usize>, end: WalkEnd| #[trigger]
        is_chain(facts, snapshot_id, WalkPurpose::Load, path, end) && Ok::<Seq<LoadStepModel>, LayerError>(steps)
            == walk_outcome(facts, path, end);
    let rest = path.drop_first();
    crate::order::last_position_is_last(ids, snapshot_id, ids.len() as int);
    assert(path[0] == place);
    assert(links[path[0] as int] == LinkModel::To(below));
    assert(path.len() > 1);
    assert(is_path(ids, links, below, rest)) by {
        assert forall|i: int| 0 <= i < rest.len() - 1 implies (#[trigger] links[rest[i] as int] matches LinkModel::To(
            id,
        ) && place_of_id(ids, id) == Some(rest[i + 1] as int)) by {
            assert(links[path[i + 1] as int] matches LinkModel::To(id) && place_of_id(ids, id) == Some(
                path[i + 2] as int,
            ));
        }
        assert forall|i: int| 0 <= i < rest.len() implies (#[trigger] rest[i]) < ids.len() by {
            assert(path[i + 1] < ids.len());
        }
    }
    assert(is_walk(ids, links, below, rest, end));
    assert(is_chain(facts, below, WalkPurpose::Load, rest, end));
    steps_of_the_rest(facts, path, 1);
    let ground = path_steps(facts, rest, 0);
    assert(loads_as(facts, below, Ok(ground)));
}

/// Loading and naming apply the same layers in the same order: a recorded snapshot that adds
/// a layer exactly where its kind says so, and does not only re-state its parent, is named by
/// the very steps that put it together.
pub proof fn loading_and_naming_agree(
    facts: Seq<SnapshotFacts>,
    snapshot_id: Seq<char>,
    place: int,
    steps: Seq<LoadStepModel>,
    outcome: Result<IdentityModel, LayerError>,
)
    requires
        place_of_id(snapshot_ids(facts), snapshot_id) == Some(place),
        !is_overlay(facts[place]),
        is_layer(facts[place].record) == adds_layer(contents_of(facts[place])),
        loads_as(facts, snapshot_id, Ok(steps)),
        is_named_by(facts, contents_of(facts[place]), outcome),
    ensures
        outcome == Ok::<IdentityModel, LayerError>(IdentityModel::Content(steps)),
{
    let ids = snapshot_ids(facts);
    let links = links_for(WalkPurpose::Load, facts);
    let own = facts[place];
    let contents = contents_of(own);
    let (path, end) = choose|path: Seq<usize>, end: WalkEnd| #[trigger]
        is_chain(facts, snapshot_id, WalkPurpose::Load, path, end) && Ok::<Seq<LoadStepModel>, LayerError>(steps)
            == walk_outcome(facts, path, end);
    crate::order::last_position_is_last(ids, snapshot_id, ids.len() as int);
    assert(path[0] == place);
    assert(links[place] == load_link(ids, own));
    match load_link(ids, own) {
        LinkModel::To(below) => {
            snapshots_extend_what_they_rest_on(facts, snapshot_id, place, below, steps);
            let ground = choose|ground: Seq<LoadStepModel>| #[trigger]
                loads_as(facts, below, Ok(ground)) && steps == ground + snapshot_steps(facts, place, false);
            assert(snapshot_steps(facts, place, false) =~= own_steps(facts, contents));
            match outcome {
                Ok(IdentityModel::Content(named)) => {
                    let other = choose|other: Seq<LoadStepModel>| #[trigger]
                        loads_as(facts, below, Ok(other)) && named == other + own_steps(facts, contents);
                    loading_is_determined(facts, below, Ok(ground), Ok(other));
                },
                Err(error) => {
                    loading_is_determined(facts, below, Ok(ground), Err(error));
                },
                Ok(IdentityModel::Overlay { parent_snapshot_id }) => {},
            }
        },
        LinkModel::End => {
            if path.len() > 1 {
                assert(links[path[0] as int] is To);
            }
            assert(path_steps(facts, path, 1) =~= Seq::empty());
            assert(own_steps(facts, contents) =~= layer_steps(
                own.record.scan_id@,
                opt_text(own.record.build_attempt_id),
                texts(own.record.runtime_session_ids@),
                named_record(facts, opt_text(own.record.parent_snapshot_id)),
            ));
            assert(steps =~= snapshot_steps(facts, place, true));
        },
        LinkModel::Fail(error) => {
            if path.len() > 1 {
                assert(links[path[0] as int] is To);
            }
        },
    }
}

/// How contents are named depends on what they hold alone.
pub proof fn equal_contents_are_named_alike(
    facts: Seq<SnapshotFacts>,
    a: SnapshotContents,
    b: SnapshotContents,
    outcome: Result<IdentityModel, LayerError>,
)
    requires
        a@ == b@,
        is_named_by(facts, a, outcome),
    ensures
        is_named_by(facts, b, outcome),
{
    assert(texts(a.runtime_session_ids@).len() == a.runtime_session_ids@.len());
    assert(texts(b.runtime_session_ids@).len() == b.runtime_session_ids@.len());
    assert(adds_layer(a) == adds_layer(b));
    assert(ground_of(facts, a) == ground_of(facts, b));
    assert(own_steps(facts, a) == own_steps(facts, b));
}

/// A snapshot is verified over the contents that named it: the record of the snapshot that a
/// source makes has the contents of the source.
pub proof fn records_keep_the_contents_of_their_source(
    source: SnapshotSource,
    snapshot_id: Seq<char>,
    profile_ids: Seq<Seq<char>>,
    facts: SnapshotFacts,
    contents: SnapshotContents,
)
    requires
        is_record_of(source, snapshot_id, profile_ids, facts.record),
        contents@ == (ContentsModel {
            scan_id: source.scan_id@,
            build_attempt_id: opt_text(source.build_attempt_id),
            runtime_session_ids: texts(source.runtime_session_ids@),
            parent_snapshot_id: opt_text(source.parent_snapshot_id),
            source_revision: opt_text(source.source_revision),
            scan_is_overlay: facts.scan_is_overlay,
            scan_parent_snapshot_id: opt_text(facts.scan_parent_snapshot_id),
        }),
    ensures
        contents_of(facts)@ == contents@,
{
}

/// A snapshot that is no more than its scan is put together by one step: it begins with the
/// graph of that scan, and nothing is added.
pub proof fn plain_snapshots_are_their_scans(
    facts: Seq<SnapshotFacts>,
    snapshot_id: Seq<char>,
    place: int,
    steps: Seq<LoadStepModel>,
)
    requires
        place_of_id(snapshot_ids(facts), snapshot_id) == Some(place),
        !is_more_than_its_scan(facts[place]),
        loads_as(facts, snapshot_id, Ok(steps)),
    ensures
        steps == seq![LoadStepModel::Scan(facts[place].record.scan_id@)],
{
    let ids = snapshot_ids(facts);
    let links = links_for(WalkPurpose::Load, facts);
    let (path, end) = choose|path: Seq<usize>, end: WalkEnd| #[trigger]
        is_chain(facts, snapshot_id, WalkPurpose::Load, path, end) && Ok::<_, LayerError>(steps) == walk_outcome(
            facts,
            path,
            end,
        );
    assert(path[0] < ids.len());
    assert(links[place] == load_link(ids, facts[place]));
    reveal_strlit("scan");
    reveal_strlit("build");
    reveal_strlit("runtime");
    let record = facts[place].record;
    assert("scan"@.len() != "build"@.len() && "scan"@.len() != "runtime"@.len());
    assert(!is_layer(record));
    assert(links[path[0] as int] !is To);
    assert(path.len() == 1);
    assert(path_steps(facts, path, 1) =~= Seq::empty());
    assert(texts(record.runtime_session_ids@).len() == 0);
    assert(snapshot_steps(facts, place, true) =~= seq![LoadStepModel::Scan(record.scan_id@)]);
    assert(path_steps(facts, path, 0) =~= snapshot_steps(facts, place, true));
}

proof fn more_steps_keep_a_graph(
    scan: spec_fn(Seq<char>) -> GraphSnapshot,
    apply: spec_fn(GraphSnapshot, LoadStepModel) -> GraphSnapshot,
    below: Seq<LoadStepModel>,
    above: Seq<LoadStepModel>,
)
    requires
        put_together(scan, apply, below) is Some,
    ensures
        put_together(scan, apply, below + above) is Some,
    decreases above.len(),
{
    if above.len() == 0 {
        assert(below + above =~= below);
    } else {
        more_steps_keep_a_graph(scan, apply, below, above.drop_last());
        assert((below + above).drop_last() =~= below + above.drop_last());
    }
}

proof fn paths_put_a_graph_together(
    facts: Seq<SnapshotFacts>,
    path: Seq<usize>,
    from: int,
    scan: spec_fn(Seq<char>) -> GraphSnapshot,
    apply: spec_fn(GraphSnapshot, LoadStepModel) -> GraphSnapshot,
)
    requires
        0 <= from < path.len(),
    ensures
        put_together(scan, apply, path_steps(facts, path, from)) is Some,
    decreases path.len() - from,
{
    let own = snapshot_steps(facts, path[from] as int, from == path.len() - 1);
    if from == path.len() - 1 {
        let ground = seq![LoadStepModel::Scan(facts[path[from] as int].record.scan_id@)];
        assert(path_steps(facts, path, from) =~= ground + own.drop_first());
        assert(put_together(scan, apply, ground) is Some);
        more_steps_keep_a_graph(scan, apply, ground, own.drop_first());
    } else {
        paths_put_a_graph_together(facts, path, from + 1, scan, apply);
        more_steps_keep_a_graph(scan, apply, path_steps(facts, path, from + 1), own);
    }
}

/// Whatever the scans hold and whatever the other steps make of the graph below them, a
/// snapshot that can be put together has a graph, and its topology is the shape of that graph:
/// for a plain scan and for what is more than one alike.
pub proof fn topologies_are_those_of_the_graphs(
    facts: Seq<SnapshotFacts>,
    snapshot_id: Seq<char>,
    place: int,
    steps: Seq<LoadStepModel>,
    scan: spec_fn(Seq<char>) -> GraphSnapshot,
    apply: spec_fn(GraphSnapshot, LoadStepModel) -> GraphSnapshot,
)
    requires
        place_of_id(snapshot_ids(facts), snapshot_id) == Some(place),
        loads_as(facts, snapshot_id, Ok(steps)),
    ensures
        put_together(scan, apply, steps) matches Some(graph) && topology_read(facts[place], scan, graph)
            == topology_of(graph),
{
    let (path, end) = choose|path: Seq<usize>, end: WalkEnd| #[trigger]
        is_chain(facts, snapshot_id, WalkPurpose::Load, path, end) && Ok::<_, LayerError>(steps) == walk_outcome(
            facts,
            path,
            end,
        );
    paths_put_a_graph_together(facts, path, 0, scan, apply);
    if !is_more_than_its_scan(facts[place]) {
        plain_snapshots_are_their_scans(facts, snapshot_id, place, steps);
    }
}

} // verus!

//! The profile matrix: which profiles share an effective input, what each phase covers,
//! and where observed evidence agrees with predictions.

use vstd::prelude::*;

use crate::digest::{is_hex, is_hex_text};
use crate::json::{Json, JsonModel};
use crate::order::{collect, last_position, sorted_set, sorted_set_is_unique, TextIndex};
use crate::records::{ProfileModel, ProfileRecord};
use crate::text::{after_prefix, same, same_option, same_texts, texts};

verus! {

/// Coverage of one phase.
#[derive(Debug, Clone, PartialEq, Eq)]
pub struct PhaseCoverageRecord {
    pub profile_ids: Vec<String>,
    pub sites: u64,
    pub edges: u64,
    pub evidence: u64,
    pub resolved: u64,
    pub candidates: u64,
    pub external: u64,
    pub unresolved: u64,
    pub completeness: Vec<String>,
}

/// A child profile whose effective axes differ from those of its declared parent.
#[derive(Debug, Clone, PartialEq, Eq)]
pub struct ProfileAxisConflictRecord {
    pub profile_id: String,
    pub parent_profile_id: String,
    pub fields: Vec<String>,
    pub diagnostic_id: String,
}

/// All profiles that share one effective input. `phase_coverage` stands in ascending
/// order of the phases.
#[derive(Debug, Clone, PartialEq)]
pub struct ProfileMatrixEntryRecord {
    pub id: String,
    pub effective_input_id: String,
    pub language: String,
    pub profile_ids: Vec<String>,
    pub parent_profile_ids: Vec<String>,
    pub phases: Vec<String>,
    pub condition_union: Json,
    pub phase_coverage: Vec<(String, PhaseCoverageRecord)>,
    pub selection_reasons: Vec<String>,
    pub axis_conflicts: Vec<ProfileAxisConflictRecord>,
}

/// All sites of one effective profile with the same source, kind and specifier. Each
/// list by phase stands in ascending order of the phases.
#[derive(Debug, Clone, PartialEq)]
pub struct ProfileCorrelationRecord {
    pub id: String,
    pub effective_profile_id: String,
    pub source: String,
    pub kind: String,
    pub specifier: String,
    pub status: String,
    pub condition_union: Json,
    pub conditions_by_phase: Vec<(String, Json)>,
    pub targets_by_phase: Vec<(String, Vec<String>)>,
    pub resolutions_by_phase: Vec<(String, Vec<String>)>,
    pub site_ids_by_phase: Vec<(String, Vec<String>)>,
    pub edge_ids_by_phase: Vec<(String, Vec<String>)>,
    pub difference_reasons: Vec<String>,
    pub diagnostic_id: Option<String>,
}

/// The profile matrix of a snapshot. `phase_coverage` and `difference_counts` stand in
/// ascending order of their keys.
#[derive(Debug, Clone, PartialEq)]
pub struct ProfileMatrixRecord {
    pub schema_version: String,
    pub entries: Vec<ProfileMatrixEntryRecord>,
    pub correlations: Vec<ProfileCorrelationRecord>,
    pub phase_coverage: Vec<(String, PhaseCoverageRecord)>,
    pub difference_counts: Vec<(String, u64)>,
}

/// The version of the matrix layout.
pub const PROFILE_MATRIX_SCHEMA_VERSION: &'static str = "profile-matrix-v1";

impl Default for ProfileMatrixRecord {
    fn default() -> (result: ProfileMatrixRecord)
        ensures
            result.schema_version@ == PROFILE_MATRIX_SCHEMA_VERSION@,
            result.entries@.len() == 0,
            result.correlations@.len() == 0,
            result.phase_coverage@.len() == 0,
            result.difference_counts@.len() == 0,
    {
        ProfileMatrixRecord {
            schema_version: String::from_str(PROFILE_MATRIX_SCHEMA_VERSION),
            entries: Vec::new(),
            correlations: Vec::new(),
            phase_coverage: Vec::new(),
            difference_counts: Vec::new(),
        }
    }
}

/// What the coverage of a phase holds.
#[verifier::ext_equal]
pub struct PhaseCoverageModel {
    pub profile_ids: Seq<Seq<char>>,
    pub sites: u64,
    pub edges: u64,
    pub evidence: u64,
    pub resolved: u64,
    pub candidates: u64,
    pub external: u64,
    pub unresolved: u64,
    pub completeness: Seq<Seq<char>>,
}

impl View for PhaseCoverageRecord {
    type V = PhaseCoverageModel;

    open spec fn view(&self) -> PhaseCoverageModel {
        PhaseCoverageModel {
            profile_ids: texts(self.profile_ids@),
            sites: self.sites,
            edges: self.edges,
            evidence: self.evidence,
            resolved: self.resolved,
            candidates: self.candidates,
            external: self.external,
            unresolved: self.unresolved,
            completeness: texts(self.completeness@),
        }
    }
}

impl PhaseCoverageRecord {
    /// A copy of the coverage.
    pub fn copy(&self) -> (result: PhaseCoverageRecord)
        ensures
            result@ == self@,
    {
        PhaseCoverageRecord {
            profile_ids: crate::text::copy_texts(&self.profile_ids),
            sites: self.sites,
            edges: self.edges,
            evidence: self.evidence,
            resolved: self.resolved,
            candidates: self.candidates,
            external: self.external,
            unresolved: self.unresolved,
            completeness: crate::text::copy_texts(&self.completeness),
        }
    }
}

/// What coverage by phase holds.
pub open spec fn coverage_models(list: Seq<(String, PhaseCoverageRecord)>) -> Seq<(Seq<char>, PhaseCoverageModel)> {
    Seq::new(list.len(), |i: int| (list[i].0@, list[i].1@))
}

/// Whether a list by phase holds a text.
pub open spec fn holds_text(list: Seq<(String, Vec<String>)>, value: Seq<char>) -> bool {
    exists|i: int| 0 <= i < list.len() && texts((#[trigger] list[i]).1@).contains(value)
}

fn list_holds(list: &Vec<(String, Vec<String>)>, value: &str) -> (result: bool)
    ensures
        result == holds_text(list@, value@),
{
    let mut i: usize = 0;
    while i < list.len()
        invariant
            i <= list.len(),
            forall|k: int| 0 <= k < i ==> !texts((#[trigger] list@[k]).1@).contains(value@),
        decreases list.len() - i,
    {
        if crate::text::contains_text(&list[i].1, value) {
            assert(texts(list@[i as int].1@).contains(value@));
            return true;
        }
        i = i + 1;
    }
    false
}

/// The first correlation that holds an edge.
pub fn correlation_for_edge<'a>(matrix: &'a ProfileMatrixRecord, edge_id: &str) -> (result: Option<
    &'a ProfileCorrelationRecord,
>)
    ensures
        match result {
            Some(correlation) => exists|i: int|
                0 <= i < matrix.correlations@.len() && *correlation == #[trigger] matrix.correlations@[i]
                    && holds_text(correlation.edge_ids_by_phase@, edge_id@) && forall|j: int|
                    0 <= j < i ==> !holds_text((#[trigger] matrix.correlations@[j]).edge_ids_by_phase@, edge_id@),
            None => forall|j: int|
                0 <= j < matrix.correlations@.len() ==> !holds_text(
                    (#[trigger] matrix.correlations@[j]).edge_ids_by_phase@,
                    edge_id@,
                ),
        },
{
    let mut i: usize = 0;
    while i < matrix.correlations.len()
        invariant
            i <= matrix.correlations.len(),
            forall|j: int|
                0 <= j < i ==> !holds_text((#[trigger] matrix.correlations@[j]).edge_ids_by_phase@, edge_id@),
        decreases matrix.correlations.len() - i,
    {
        if list_holds(&matrix.correlations[i].edge_ids_by_phase, edge_id) {
            return Some(&matrix.correlations[i]);
        }
        i = i + 1;
    }
    None
}

/// The first correlation that holds a site.
pub fn correlation_for_site<'a>(matrix: &'a ProfileMatrixRecord, site_id: &str) -> (result: Option<
    &'a ProfileCorrelationRecord,
>)
    ensures
        match result {
            Some(correlation) => exists|i: int|
                0 <= i < matrix.correlations@.len() && *correlation == #[trigger] matrix.correlations@[i]
                    && holds_text(correlation.site_ids_by_phase@, site_id@) && forall|j: int|
                    0 <= j < i ==> !holds_text((#[trigger] matrix.correlations@[j]).site_ids_by_phase@, site_id@),
            None => forall|j: int|
                0 <= j < matrix.correlations@.len() ==> !holds_text(
                    (#[trigger] matrix.correlations@[j]).site_ids_by_phase@,
                    site_id@,
                ),
        },
{
    let mut i: usize = 0;
    while i < matrix.correlations.len()
        invariant
            i <= matrix.correlations.len(),
            forall|j: int|
                0 <= j < i ==> !holds_text((#[trigger] matrix.correlations@[j]).site_ids_by_phase@, site_id@),
        decreases matrix.correlations.len() - i,
    {
        if list_holds(&matrix.correlations[i].site_ids_by_phase, site_id) {
            return Some(&matrix.correlations[i]);
        }
        i = i + 1;
    }
    None
}

/// The coverage by phase of the first entry from `from` on with an identity; nothing
/// where no entry has it.
pub open spec fn entry_coverage_from(
    entries: Seq<ProfileMatrixEntryRecord>,
    id: Seq<char>,
    from: int,
) -> Seq<(Seq<char>, PhaseCoverageModel)>
    decreases entries.len() - from,
{
    if from < 0 || from >= entries.len() {
        Seq::empty()
    } else if entries[from].id@ == id {
        coverage_models(entries[from].phase_coverage@)
    } else {
        entry_coverage_from(entries, id, from + 1)
    }
}

/// The coverage by phase of an effective profile.
pub fn phase_coverage_for_effective_profile(
    matrix: &ProfileMatrixRecord,
    effective_profile_id: &str,
) -> (result: Vec<(String, PhaseCoverageRecord)>)
    ensures
        coverage_models(result@) == entry_coverage_from(matrix.entries@, effective_profile_id@, 0),
{
    let mut result: Vec<(String, PhaseCoverageRecord)> = Vec::new();
    let mut i: usize = 0;
    while i < matrix.entries.len()
        invariant
            i <= matrix.entries.len(),
            result.len() == 0,
            entry_coverage_from(matrix.entries@, effective_profile_id@, 0) == entry_coverage_from(
                matrix.entries@,
                effective_profile_id@,
                i as int,
            ),
        decreases matrix.entries.len() - i,
    {
        if same(matrix.entries[i].id.as_str(), effective_profile_id) {
            let source = &matrix.entries[i].phase_coverage;
            let mut k: usize = 0;
            while k < source.len()
                invariant
                    k <= source.len(),
                    result.len() == k,
                    forall|j: int|
                        0 <= j < k ==> (#[trigger] result@[j]).0@ == source@[j].0@ && result@[j].1@
                            == source@[j].1@,
                decreases source.len() - k,
            {
                result.push((source[k].0.clone(), source[k].1.copy()));
                k = k + 1;
            }
            assert(coverage_models(result@) =~= coverage_models(source@));
            return result;
        }
        i = i + 1;
    }
    assert(coverage_models(result@) =~= Seq::empty());
    result
}

// ---------------------------------------------------------------------------------------
// Phases
// ---------------------------------------------------------------------------------------

/// A phase of observation, in the order of the phases' names.
#[derive(Debug, Clone, Copy, PartialEq, Eq, Structural)]
pub enum Phase {
    Build,
    Runtime,
    Semantic,
    Static,
}

/// The name of a phase.
pub open spec fn phase_name(phase: Phase) -> Seq<char> {
    match phase {
        Phase::Build => "build"@,
        Phase::Runtime => "runtime"@,
        Phase::Semantic => "semantic"@,
        Phase::Static => "static"@,
    }
}

/// The phase with the given place among the names.
pub open spec fn phase_at(place: int) -> Phase {
    if place == 0 {
        Phase::Build
    } else if place == 1 {
        Phase::Runtime
    } else if place == 2 {
        Phase::Semantic
    } else {
        Phase::Static
    }
}

impl Phase {
    /// The name of the phase.
    pub fn name(self) -> (result: &'static str)
        ensures
            result@ == phase_name(self),
    {
        match self {
            Phase::Build => "build",
            Phase::Runtime => "runtime",
            Phase::Semantic => "semantic",
            Phase::Static => "static",
        }
    }

    /// The phase with the given place among the names.
    pub fn at(place: usize) -> (result: Phase)
        requires
            place < 4,
        ensures
            result == phase_at(place as int),
    {
        match place {
            0 => Phase::Build,
            1 => Phase::Runtime,
            2 => Phase::Semantic,
            _ => Phase::Static,
        }
    }
}

/// The phase that a name stands for; unknown names stand for the static phase.
pub open spec fn phase_of(name: Seq<char>) -> Phase {
    if name == "semantic"@ {
        Phase::Semantic
    } else if name == "build"@ {
        Phase::Build
    } else if name == "runtime"@ {
        Phase::Runtime
    } else {
        Phase::Static
    }
}

/// The phase that a completeness level belongs to.
pub open spec fn phase_of_completeness(level: Seq<char>) -> Option<Phase> {
    if level == "syntax-complete"@ {
        Some(Phase::Static)
    } else if level == "semantic-complete"@ {
        Some(Phase::Semantic)
    } else if level == "build-observed"@ {
        Some(Phase::Build)
    } else if level == "runtime-observed"@ {
        Some(Phase::Runtime)
    } else {
        None
    }
}

/// The name of a language; the web languages count as one.
pub open spec fn language_name(language: Seq<char>) -> Seq<char> {
    if language == "typescript"@ || language == "javascript"@ || language == "web"@ {
        "web"@
    } else {
        language
    }
}

/// The phase that an edge's phase stands for.
pub fn canonical_phase(phase: &str) -> (result: Phase)
    ensures
        result == phase_of(phase@),
{
    if same(phase, "semantic") {
        Phase::Semantic
    } else if same(phase, "build") {
        Phase::Build
    } else if same(phase, "runtime") {
        Phase::Runtime
    } else {
        Phase::Static
    }
}

/// The phase that a kind of evidence belongs to.
pub fn evidence_kind_phase(kind: &str) -> (result: Phase)
    ensures
        result == phase_of(kind@),
{
    canonical_phase(kind)
}

/// The phase that a completeness level belongs to.
pub fn completeness_phase(completeness: &str) -> (result: Option<Phase>)
    ensures
        result == phase_of_completeness(completeness@),
{
    if same(completeness, "syntax-complete") {
        Some(Phase::Static)
    } else if same(completeness, "semantic-complete") {
        Some(Phase::Semantic)
    } else if same(completeness, "build-observed") {
        Some(Phase::Build)
    } else if same(completeness, "runtime-observed") {
        Some(Phase::Runtime)
    } else {
        None
    }
}

/// The name of a language; the web languages count as one.
pub fn canonical_language(language: &str) -> (result: &str)
    ensures
        result@ == language_name(language@),
{
    if same(language, "typescript") || same(language, "javascript") || same(language, "web") {
        "web"
    } else {
        language
    }
}

// ---------------------------------------------------------------------------------------
// Effective inputs
// ---------------------------------------------------------------------------------------

/// The parent that a profile declares; an empty name declares none.
pub open spec fn declared_parent(profile: ProfileModel) -> Option<Seq<char>> {
    match profile.properties.text_field("parent_profile_id"@) {
        Some(parent) => if parent.len() > 0 {
            Some(parent)
        } else {
            None
        },
        None => None,
    }
}

/// Whether a text is a well-formed effective input identity.
pub open spec fn is_effective_input_id(value: Seq<char>) -> bool {
    exists|digest: Seq<char>| #[trigger]
        is_hex_text(digest, 64) && value == "effective-input:sha256:"@ + digest
}

/// The effective input that a profile declares, where it is well formed.
pub open spec fn declared_input(profile: ProfileModel) -> Option<Seq<char>> {
    match profile.properties.text_field("effective_input_id"@) {
        Some(input) => if is_effective_input_id(input) {
            Some(input)
        } else {
            None
        },
        None => None,
    }
}

/// The effective input of a profile by itself: the one that it declares together with a
/// parent, else the one derived from its identity.
pub open spec fn canonical_input(profile: ProfileModel, derived: Seq<char>) -> Seq<char> {
    match (declared_parent(profile), declared_input(profile)) {
        (Some(_), Some(input)) => input,
        _ => derived,
    }
}

/// The identities of profiles.
pub open spec fn profile_ids_of(profiles: Seq<ProfileRecord>) -> Seq<Seq<char>> {
    Seq::new(profiles.len(), |i: int| profiles[i].id@)
}

/// The position of a profile by identity; the last of several counts.
pub open spec fn profile_position(profiles: Seq<ProfileRecord>, id: Seq<char>) -> Option<int> {
    last_position(profile_ids_of(profiles), id, profiles.len() as int)
}

/// The effective input of the profile at a position: that of its declared parent where
/// the parent is present, else its own.
pub open spec fn input_at(profiles: Seq<ProfileRecord>, derived: Seq<String>, i: int) -> Seq<char> {
    let own = canonical_input(profiles[i]@, derived[i]@);
    match declared_parent(profiles[i]@) {
        Some(parent) => match profile_position(profiles, parent) {
            Some(j) => canonical_input(profiles[j]@, derived[j]@),
            None => own,
        },
        None => own,
    }
}

/// The effective input of a profile by identity, at one of its positions.
pub open spec fn effective_input(profiles: Seq<ProfileRecord>, derived: Seq<String>, i: int) -> Seq<char> {
    match profile_position(profiles, profiles[i].id@) {
        Some(j) => input_at(profiles, derived, j),
        None => input_at(profiles, derived, i),
    }
}

/// The parent that a profile declares.
pub fn declared_parent_profile_id(profile: &ProfileRecord) -> (result: Option<&str>)
    ensures
        match result {
            Some(parent) => declared_parent(profile@) == Some(parent@),
            None => declared_parent(profile@) is None,
        },
{
    match profile.properties.get_str("parent_profile_id") {
        Some(parent) => if parent.is_empty() {
            None
        } else {
            Some(parent)
        },
        None => None,
    }
}

/// Whether a text is a well-formed effective input identity.
pub fn valid_effective_input_id(value: &str) -> (result: bool)
    ensures
        result == is_effective_input_id(value@),
{
    let ghost prefix = "effective-input:sha256:"@;
    match after_prefix(value, "effective-input:sha256:") {
        Some(digest) => {
            let result = is_hex(digest, 64);
            proof {
                if !result && is_effective_input_id(value@) {
                    let other = choose|other: Seq<char>| #[trigger] is_hex_text(other, 64) && value@ == prefix + other;
                    assert(other =~= value@.subrange(prefix.len() as int, value@.len() as int));
                    assert(digest@ =~= value@.subrange(prefix.len() as int, value@.len() as int));
                }
            }
            result
        },
        None => {
            proof {
                if is_effective_input_id(value@) {
                    let other = choose|other: Seq<char>| #[trigger] is_hex_text(other, 64) && value@ == prefix + other;
                    assert(prefix =~= value@.subrange(0, prefix.len() as int));
                    assert(prefix.is_prefix_of(value@));
                }
            }
            false
        },
    }
}

/// The effective input that a profile declares, where it is well formed.
pub fn declared_effective_input_id(profile: &ProfileRecord) -> (result: Option<&str>)
    ensures
        match result {
            Some(input) => declared_input(profile@) == Some(input@),
            None => declared_input(profile@) is None,
        },
{
    match profile.properties.get_str("effective_input_id") {
        Some(input) => if valid_effective_input_id(input) {
            Some(input)
        } else {
            None
        },
        None => None,
    }
}

/// The effective input of a profile by itself. `derived` is the identity derived from
/// the profile's own.
pub fn canonical_effective_input_id(profile: &ProfileRecord, derived: &str) -> (result: String)
    ensures
        result@ == canonical_input(profile@, derived@),
{
    if declared_parent_profile_id(profile).is_some() {
        if let Some(input) = declared_effective_input_id(profile) {
            return String::from_str(input);
        }
    }
    String::from_str(derived)
}

/// An index over the identities of profiles.
pub(crate) fn profile_index(profiles: &Vec<ProfileRecord>) -> (result: TextIndex)
    ensures
        result.keys() == profile_ids_of(profiles@),
{
    let mut ids: Vec<String> = Vec::new();
    let mut i: usize = 0;
    while i < profiles.len()
        invariant
            i <= profiles.len(),
            ids.len() == i,
            forall|k: int| 0 <= k < i ==> ids@[k]@ == profiles@[k].id@,
        decreases profiles.len() - i,
    {
        ids.push(profiles[i].id.clone());
        i = i + 1;
    }
    assert(texts(ids@) =~= profile_ids_of(profiles@));
    TextIndex::new(ids)
}

/// The effective input of each profile. `derived` holds, for each profile, the identity
/// derived from the profile's own.
pub fn effective_inputs(profiles: &Vec<ProfileRecord>, derived: &Vec<String>) -> (result: Vec<String>)
    requires
        derived.len() == profiles.len(),
    ensures
        result.len() == profiles.len(),
        forall|i: int|
            0 <= i < profiles.len() ==> (#[trigger] result@[i])@ == effective_input(profiles@, derived@, i),
{
    let index = profile_index(profiles);
    let mut own: Vec<String> = Vec::new();
    let mut i: usize = 0;
    while i < profiles.len()
        invariant
            i <= profiles.len(),
            derived.len() == profiles.len(),
            own.len() == i,
            index.keys() == profile_ids_of(profiles@),
            forall|k: int| 0 <= k < i ==> (#[trigger] own@[k])@ == input_at(profiles@, derived@, k),
        decreases profiles.len() - i,
    {
        let position: usize = match declared_parent_profile_id(&profiles[i]) {
            Some(parent) => match index.last(parent) {
                Some(j) => j,
                None => i,
            },
            None => i,
        };
        own.push(canonical_effective_input_id(&profiles[position], derived[position].as_str()));
        i = i + 1;
    }
    let mut result: Vec<String> = Vec::new();
    let mut i: usize = 0;
    while i < profiles.len()
        invariant
            i <= profiles.len(),
            derived.len() == profiles.len(),
            own.len() == profiles.len(),
            result.len() == i,
            index.keys() == profile_ids_of(profiles@),
            forall|k: int| 0 <= k < own.len() ==> (#[trigger] own@[k])@ == input_at(profiles@, derived@, k),
            forall|k: int| 0 <= k < i ==> (#[trigger] result@[k])@ == effective_input(profiles@, derived@, k),
        decreases profiles.len() - i,
    {
        let position: usize = match index.last(profiles[i].id.as_str()) {
            Some(j) => j,
            None => i,
        };
        result.push(own[position].clone());
        i = i + 1;
    }
    result
}

// ---------------------------------------------------------------------------------------
// Axis conflicts
// ---------------------------------------------------------------------------------------

/// The fields of an environment other than its phase; nothing where it is no object.
pub open spec fn environment_axes(environment: JsonModel) -> Seq<(Seq<char>, JsonModel)> {
    match environment {
        JsonModel::Object(fields) => collect(
            fields.len() as int,
            field_is_axis(fields),
            |i: int| fields[i],
        ),
        _ => Seq::empty(),
    }
}

/// Which fields of an environment are not its phase.
pub open spec fn field_is_axis(fields: Seq<(Seq<char>, JsonModel)>) -> spec_fn(int) -> bool {
    |i: int| fields[i].0 != "phase"@
}

/// Whether two lists hold the same strings, whatever their order and number.
pub open spec fn same_members(a: Seq<Seq<char>>, b: Seq<Seq<char>>) -> bool {
    forall|x: Seq<char>| a.contains(x) <==> b.contains(x)
}

/// The axes on which a child profile differs from its parent, in a fixed order.
pub open spec fn axis_differences(child: ProfileModel, parent: ProfileModel) -> Seq<Seq<char>> {
    let language = if language_name(child.language) != language_name(parent.language) {
        seq!["language"@]
    } else {
        Seq::empty()
    };
    let target = if child.target is Some && child.target != parent.target {
        seq!["target"@]
    } else {
        Seq::empty()
    };
    let features = if !same_members(child.features, parent.features) {
        seq!["features"@]
    } else {
        Seq::empty()
    };
    let environment = if JsonModel::Object(environment_axes(child.environment)).value()
        != JsonModel::Object(environment_axes(parent.environment)).value() {
        seq!["environment"@]
    } else {
        Seq::empty()
    };
    language + target + features + environment
}

/// An environment without its phase; an empty one where it is no object.
pub fn effective_environment(environment: &Json) -> (result: Json)
    ensures
        result@ == JsonModel::Object(environment_axes(environment@)),
{
    let mut kept: Vec<(String, Json)> = Vec::new();
    match environment {
        Json::Object(fields) => {
            let ghost model = environment@->Object_0;
            let mut i: usize = 0;
            while i < fields.len()
                invariant
                    i <= fields.len(),
                    *environment == Json::Object(*fields),
                    model == environment@->Object_0,
                    model.len() == fields.len(),
                    ({
                        let expected = collect(i as int, field_is_axis(model), |k: int| model[k]);
                        &&& kept.len() == expected.len()
                        &&& forall|k: int|
                            0 <= k < kept.len() ==> (#[trigger] expected[k]) == (kept@[k].0@, kept@[k].1@)
                    }),
                decreases fields.len() - i,
            {
                assert(model[i as int] == (fields@[i as int].0@, fields@[i as int].1@));
                if !same(fields[i].0.as_str(), "phase") {
                    kept.push((fields[i].0.clone(), fields[i].1.copy()));
                }
                i = i + 1;
            }
        },
        _ => {},
    }
    let result = Json::Object(kept);
    assert(result@->Object_0 =~= environment_axes(environment@));
    result
}

/// The axes on which a child profile differs from its parent.
pub fn profile_axis_differences(child: &ProfileRecord, parent: &ProfileRecord) -> (result: Vec<String>)
    ensures
        texts(result@) == axis_differences(child@, parent@),
{
    let mut fields: Vec<String> = Vec::new();
    if !same(canonical_language(child.language.as_str()), canonical_language(parent.language.as_str())) {
        fields.push(String::from_str("language"));
    }
    if child.target.is_some() && !same_option(&child.target, &parent.target) {
        fields.push(String::from_str("target"));
    }
    let child_features = sorted_set(crate::text::copy_texts(&child.features));
    let parent_features = sorted_set(crate::text::copy_texts(&parent.features));
    let same_features = same_texts(&child_features, &parent_features);
    proof {
        let a = texts(child_features@);
        let b = texts(parent_features@);
        if same_members(texts(child.features@), texts(parent.features@)) {
            assert forall|x: Seq<char>| #[trigger] b.contains(x) <==> texts(child.features@).contains(x) by {
                assert(texts(child.features@).contains(x) <==> texts(parent.features@).contains(x));
            }
            sorted_set_is_unique(a, b, texts(child.features@));
        }
        if a == b {
            assert forall|x: Seq<char>|
                texts(child.features@).contains(x) <==> texts(parent.features@).contains(x) by {
                assert(a.contains(x) <==> texts(child.features@).contains(x));
                assert(b.contains(x) <==> texts(parent.features@).contains(x));
            }
        }
    }
    if !same_features {
        fields.push(String::from_str("features"));
    }
    if !effective_environment(&child.environment).same_value(&effective_environment(&parent.environment)) {
        fields.push(String::from_str("environment"));
    }
    assert(texts(fields@) =~= axis_differences(child@, parent@));
    fields
}

/// A child profile whose axes differ from those of its parent, before its diagnostic has
/// an identity.
#[derive(Debug, Clone, PartialEq, Eq)]
pub struct AxisConflict {
    pub profile_id: String,
    pub parent_profile_id: String,
    pub fields: Vec<String>,
}

/// The position of the parent that a profile declares, where the parent is present and
/// differs on some axis.
pub open spec fn conflicting_parent(profiles: Seq<ProfileRecord>, i: int) -> Option<int> {
    match declared_parent(profiles[i]@) {
        Some(parent) => match profile_position(profiles, parent) {
            Some(j) => if axis_differences(profiles[i]@, profiles[j]@).len() > 0 {
                Some(j)
            } else {
                None
            },
            None => None,
        },
        None => None,
    }
}

/// For each profile the conflict with its declared parent, where there is one.
pub fn axis_conflicts(profiles: &Vec<ProfileRecord>) -> (result: Vec<Option<AxisConflict>>)
    ensures
        result.len() == profiles.len(),
        forall|i: int|
            0 <= i < profiles.len() ==> match (#[trigger] result@[i]) {
                Some(conflict) => conflicting_parent(profiles@, i) matches Some(j) && {
                    &&& conflict.profile_id@ == profiles@[i].id@
                    &&& Some(conflict.parent_profile_id@) == declared_parent(profiles@[i]@)
                    &&& texts(conflict.fields@) == axis_differences(profiles@[i]@, profiles@[j]@)
                },
                None => conflicting_parent(profiles@, i) is None,
            },
{
    let index = profile_index(profiles);
    let mut result: Vec<Option<AxisConflict>> = Vec::new();
    let mut i: usize = 0;
    while i < profiles.len()
        invariant
            i <= profiles.len(),
            result.len() == i,
            index.keys() == profile_ids_of(profiles@),
            forall|i: int|
                0 <= i < result.len() ==> match (#[trigger] result@[i]) {
                    Some(conflict) => conflicting_parent(profiles@, i) matches Some(j) && {
                        &&& conflict.profile_id@ == profiles@[i].id@
                        &&& Some(conflict.parent_profile_id@) == declared_parent(profiles@[i]@)
                        &&& texts(conflict.fields@) == axis_differences(profiles@[i]@, profiles@[j]@)
                    },
                    None => conflicting_parent(profiles@, i) is None,
                },
        decreases profiles.len() - i,
    {
        let conflict: Option<AxisConflict> = match declared_parent_profile_id(&profiles[i]) {
            Some(parent) => match index.last(parent) {
                Some(j) => {
                    let fields = profile_axis_differences(&profiles[i], &profiles[j]);
                    assert(texts(fields@).len() == fields@.len());
                    if fields.len() > 0 {
                        Some(
                            AxisConflict {
                                profile_id: profiles[i].id.clone(),
                                parent_profile_id: String::from_str(parent),
                                fields,
                            },
                        )
                    } else {
                        None
                    }
                },
                None => None,
            },
            None => None,
        };
        result.push(conflict);
        i = i + 1;
    }
    result
}

} // verus!

//! What phases, languages, parents and axes mean for a profile, and what the coverage of a phase
//! counts.

use vstd::prelude::*;

use crate::counting::kept_is_wanted;
use crate::json::JsonModel;
use crate::matrix_facts::{
    fact_profile, fact_text, in_scope, is_phase_coverage, kind_in_scope, leading_evidence, owner_ids_of, site_phase,
    status_in_scope, FactKind, FactModel,
};
use crate::order::{
    collect_holds_the_kept_items, last_position_is_last, positions_of, positions_of_are_ascending_and_complete,
};
use crate::profile_matrix::{
    axis_differences, canonical_input, conflicting_parent, declared_parent, effective_input, environment_axes,
    field_is_axis, is_effective_input_id, language_name, phase_name, phase_of, phase_of_completeness,
    profile_ids_of, profile_position, Phase, PhaseCoverageRecord,
};
use crate::records::{EvidenceRecord, ProfileModel, ProfileRecord};
use crate::text::texts;

verus! {

/// The four phases have names of their own; a name that is none of them stands for the static
/// phase, and a phase is found by its name.
pub proof fn phases_are_found_by_name(name: Seq<char>)
    ensures
        phase_of("static"@) == Phase::Static,
        phase_of("semantic"@) == Phase::Semantic,
        phase_of("build"@) == Phase::Build,
        phase_of("runtime"@) == Phase::Runtime,
        name != "semantic"@ && name != "build"@ && name != "runtime"@ ==> phase_of(name) == Phase::Static,
        forall|phase: Phase| #[trigger] phase_of(phase_name(phase)) == phase,
        forall|a: Phase, b: Phase| #[trigger] phase_name(a) == #[trigger] phase_name(b) ==> a == b,
        phase_name(Phase::Static) == "static"@,
        phase_name(Phase::Semantic) == "semantic"@,
        phase_name(Phase::Build) == "build"@,
        phase_name(Phase::Runtime) == "runtime"@,
{
    reveal_strlit("static");
    reveal_strlit("semantic");
    reveal_strlit("build");
    reveal_strlit("runtime");
    assert("static"@.len() == 6 && "semantic"@.len() == 8 && "build"@.len() == 5 && "runtime"@.len() == 7);
}

/// Each level of completeness belongs to one phase, and nothing else does.
pub proof fn levels_belong_to_phases(level: Seq<char>)
    ensures
        phase_of_completeness("syntax-complete"@) == Some(Phase::Static),
        phase_of_completeness("semantic-complete"@) == Some(Phase::Semantic),
        phase_of_completeness("build-observed"@) == Some(Phase::Build),
        phase_of_completeness("runtime-observed"@) == Some(Phase::Runtime),
        phase_of_completeness(level) is Some <==> level == "syntax-complete"@ || level == "semantic-complete"@ || level
            == "build-observed"@ || level == "runtime-observed"@,
{
    reveal_strlit("syntax-complete");
    reveal_strlit("semantic-complete");
    reveal_strlit("build-observed");
    reveal_strlit("runtime-observed");
    assert("syntax-complete"@.len() == 15 && "semantic-complete"@.len() == 17 && "build-observed"@.len() == 14
        && "runtime-observed"@.len() == 16);
}

/// TypeScript and JavaScript are languages of the web; every other language is itself.
pub proof fn languages_of_the_web_are_one(language: Seq<char>)
    ensures
        language_name("typescript"@) == "web"@,
        language_name("javascript"@) == "web"@,
        language_name("web"@) == "web"@,
        language != "typescript"@ && language != "javascript"@ ==> language_name(language) == language,
        language_name(language_name(language)) == language_name(language),
{
}

/// The phase of a site is that of its evidence with the lowest ordinal, and static where it has
/// none.
pub proof fn sites_are_of_the_phase_of_their_first_evidence(
    evidence: Seq<EvidenceRecord>,
    site_id: Seq<char>,
    e: int,
)
    ensures
        0 <= e < evidence.len() && evidence[e].owner_type@ == "site"@ && evidence[e].owner_id@ == site_id && (forall|
            j: int,
        |
            0 <= j < evidence.len() && j != e && (#[trigger] evidence[j]).owner_type@ == "site"@
                && evidence[j].owner_id@ == site_id ==> evidence[e].ordinal < evidence[j].ordinal) ==> site_phase(
            evidence,
            site_id,
        ) == phase_of(evidence[e].kind@),
        (forall|j: int|
            0 <= j < evidence.len() ==> (#[trigger] evidence[j]).owner_type@ != "site"@ || evidence[j].owner_id@
                != site_id) ==> site_phase(evidence, site_id) == Phase::Static,
{
    let ids = owner_ids_of(evidence);
    let positions = positions_of(ids, site_id, evidence.len() as int);
    positions_of_are_ascending_and_complete(ids, site_id, evidence.len() as int);
    assert forall|k: int| 0 <= k < positions.len() implies 0 <= #[trigger] positions[k] < evidence.len()
        && evidence[positions[k]].owner_id@ == site_id by {
        assert(ids[positions[k]] == site_id);
    }
    lowest_evidence_leads(evidence, positions, positions.len() as int);
    let lead = leading_evidence(evidence, positions, positions.len() as int);
    if 0 <= e < evidence.len() && evidence[e].owner_type@ == "site"@ && evidence[e].owner_id@ == site_id && (forall|
        j: int,
    |
        0 <= j < evidence.len() && j != e && (#[trigger] evidence[j]).owner_type@ == "site"@ && evidence[j].owner_id@
            == site_id ==> evidence[e].ordinal < evidence[j].ordinal) {
        assert(ids[e] == site_id);
        assert(positions.contains(e));
        let k = choose|k: int| 0 <= k < positions.len() && positions[k] == e;
        assert(evidence[positions[k]].owner_type@ == "site"@);
        assert(lead is Some);
        let p = lead->0;
        assert(evidence[p].owner_type@ == "site"@);
        assert(p == e);
    }
}

proof fn lowest_evidence_leads(evidence: Seq<EvidenceRecord>, positions: Seq<int>, count: int)
    requires
        0 <= count <= positions.len(),
    ensures
        match leading_evidence(evidence, positions, count) {
            Some(p) => evidence[p].owner_type@ == "site"@ && (exists|k: int|
                0 <= k < count && #[trigger] positions[k] == p) && forall|k: int|
                0 <= k < count && evidence[#[trigger] positions[k]].owner_type@ == "site"@ ==> evidence[p].ordinal
                    <= evidence[positions[k]].ordinal,
            None => forall|k: int| 0 <= k < count ==> evidence[#[trigger] positions[k]].owner_type@ != "site"@,
        },
    decreases count,
{
    if count > 0 {
        lowest_evidence_leads(evidence, positions, count - 1);
        let p = positions[count - 1];
        let earlier = leading_evidence(evidence, positions, count - 1);
        if earlier is Some {
            let k = choose|k: int| 0 <= k < count - 1 && #[trigger] positions[k] == earlier->0;
            assert(positions[k] == earlier->0);
        }
        assert(positions[count - 1] == p);
    }
}

/// The coverage of a phase counts the sites, edges and pieces of evidence of the phase, and of
/// the sites each resolution for itself. It names the profiles of the phase and the levels that
/// they reached.
pub proof fn phases_are_counted(
    record: PhaseCoverageRecord,
    facts: Seq<FactModel>,
    scope: Option<Seq<char>>,
    phase: Phase,
)
    requires
        is_phase_coverage(record, facts, scope, phase),
    ensures
        ({
            let own = |fact: FactModel| fact.phase == phase && (scope is None || fact.input == scope);
            &&& record.sites == facts.filter(|fact: FactModel| own(fact) && fact.kind == FactKind::Site).len()
            &&& record.edges == facts.filter(|fact: FactModel| own(fact) && fact.kind == FactKind::Edge).len()
            &&& record.evidence == facts.filter(|fact: FactModel| own(fact) && fact.kind == FactKind::Evidence).len()
            &&& record.resolved == facts.filter(
                |fact: FactModel| own(fact) && fact.kind == FactKind::Site && fact.text == "resolved"@,
            ).len()
            &&& record.candidates == facts.filter(
                |fact: FactModel| own(fact) && fact.kind == FactKind::Site && fact.text == "candidates"@,
            ).len()
            &&& record.external == facts.filter(
                |fact: FactModel| own(fact) && fact.kind == FactKind::Site && fact.text == "external"@,
            ).len()
            &&& record.unresolved == facts.filter(
                |fact: FactModel| own(fact) && fact.kind == FactKind::Site && fact.text == "unresolved"@,
            ).len()
            &&& forall|id: Seq<char>| #[trigger]
                texts(record.profile_ids@).contains(id) <==> exists|i: int|
                    0 <= i < facts.len() && own(#[trigger] facts[i]) && facts[i].profile_id == id
            &&& forall|level: Seq<char>| #[trigger]
                texts(record.completeness@).contains(level) <==> exists|i: int|
                    0 <= i < facts.len() && own(#[trigger] facts[i]) && facts[i].kind == FactKind::Completeness
                        && facts[i].text == level
        }),
{
    let own = |fact: FactModel| fact.phase == phase && (scope is None || fact.input == scope);
    let n = facts.len() as int;
    kept_is_wanted(
        facts,
        |fact: FactModel| own(fact) && fact.kind == FactKind::Site,
        kind_in_scope(facts, scope, phase, FactKind::Site),
    );
    kept_is_wanted(
        facts,
        |fact: FactModel| own(fact) && fact.kind == FactKind::Edge,
        kind_in_scope(facts, scope, phase, FactKind::Edge),
    );
    kept_is_wanted(
        facts,
        |fact: FactModel| own(fact) && fact.kind == FactKind::Evidence,
        kind_in_scope(facts, scope, phase, FactKind::Evidence),
    );
    kept_is_wanted(
        facts,
        |fact: FactModel| own(fact) && fact.kind == FactKind::Site && fact.text == "resolved"@,
        status_in_scope(facts, scope, phase, "resolved"@),
    );
    kept_is_wanted(
        facts,
        |fact: FactModel| own(fact) && fact.kind == FactKind::Site && fact.text == "candidates"@,
        status_in_scope(facts, scope, phase, "candidates"@),
    );
    kept_is_wanted(
        facts,
        |fact: FactModel| own(fact) && fact.kind == FactKind::Site && fact.text == "external"@,
        status_in_scope(facts, scope, phase, "external"@),
    );
    kept_is_wanted(
        facts,
        |fact: FactModel| own(fact) && fact.kind == FactKind::Site && fact.text == "unresolved"@,
        status_in_scope(facts, scope, phase, "unresolved"@),
    );
    assert forall|id: Seq<char>| #[trigger] texts(record.profile_ids@).contains(id) <==> exists|i: int|
        0 <= i < facts.len() && own(#[trigger] facts[i]) && facts[i].profile_id == id by {
        let keep = in_scope(facts, scope, phase);
        collect_holds_the_kept_items(n, keep, fact_profile(facts), id);
        if exists|i: int| 0 <= i < n && #[trigger] keep(i) && fact_profile(facts)(i) == id {
            let i = choose|i: int| 0 <= i < n && #[trigger] keep(i) && fact_profile(facts)(i) == id;
            assert(own(facts[i]));
        }
        if exists|i: int| 0 <= i < facts.len() && own(#[trigger] facts[i]) && facts[i].profile_id == id {
            let i = choose|i: int| 0 <= i < facts.len() && own(#[trigger] facts[i]) && facts[i].profile_id == id;
            assert(keep(i) && fact_profile(facts)(i) == id);
        }
    }
    assert forall|level: Seq<char>| #[trigger] texts(record.completeness@).contains(level) <==> exists|i: int|
        0 <= i < facts.len() && own(#[trigger] facts[i]) && facts[i].kind == FactKind::Completeness && facts[i].text
            == level by {
        let keep = kind_in_scope(facts, scope, phase, FactKind::Completeness);
        collect_holds_the_kept_items(n, keep, fact_text(facts), level);
        if exists|i: int| 0 <= i < n && #[trigger] keep(i) && fact_text(facts)(i) == level {
            let i = choose|i: int| 0 <= i < n && #[trigger] keep(i) && fact_text(facts)(i) == level;
            assert(own(facts[i]));
        }
        if exists|i: int|
            0 <= i < facts.len() && own(#[trigger] facts[i]) && facts[i].kind == FactKind::Completeness
                && facts[i].text == level {
            let i = choose|i: int|
                0 <= i < facts.len() && own(#[trigger] facts[i]) && facts[i].kind == FactKind::Completeness
                    && facts[i].text == level;
            assert(keep(i) && fact_text(facts)(i) == level);
        }
    }
}

/// A profile has the parent that its properties name, unless the name is empty.
pub proof fn parents_are_declared(profile: ProfileModel, parent: Seq<char>)
    ensures
        declared_parent(profile) == Some(parent) <==> parent.len() > 0 && profile.properties.field(
            "parent_profile_id"@,
        ) == Some(JsonModel::Text(parent)),
{
}

/// A profile with a parent belongs to the input that it declares, where what it declares is an
/// identity of an input; every other profile belongs to the input that was derived for it.
pub proof fn inputs_are_declared_by_children(profile: ProfileModel, derived: Seq<char>, digest: Seq<char>)
    requires
        crate::digest::is_hex_text(digest, 64),
    ensures
        declared_parent(profile) is None ==> canonical_input(profile, derived) == derived,
        declared_parent(profile) is Some && profile.properties.field("effective_input_id"@) == Some(
            JsonModel::Text("effective-input:sha256:"@ + digest),
        ) ==> canonical_input(profile, derived) == "effective-input:sha256:"@ + digest,
        canonical_input(profile, derived) != derived ==> declared_parent(profile) is Some && profile.properties.field(
            "effective_input_id"@,
        ) == Some(JsonModel::Text(canonical_input(profile, derived))),
{
    assert(is_effective_input_id("effective-input:sha256:"@ + digest));
}

proof fn position_is(profiles: Seq<ProfileRecord>, j: int)
    requires
        profile_ids_of(profiles).no_duplicates(),
        0 <= j < profiles.len(),
    ensures
        profile_position(profiles, profiles[j].id@) == Some(j),
{
    let ids = profile_ids_of(profiles);
    last_position_is_last(ids, profiles[j].id@, profiles.len() as int);
    assert(ids[j] == profiles[j].id@);
}

/// Of profiles with identities of their own, one whose parent is among them belongs to the input
/// of its parent; every other belongs to its own.
pub proof fn children_belong_to_the_input_of_their_parent(
    profiles: Seq<ProfileRecord>,
    derived: Seq<String>,
    i: int,
    j: int,
)
    requires
        profile_ids_of(profiles).no_duplicates(),
        derived.len() == profiles.len(),
        0 <= i < profiles.len(),
        0 <= j < profiles.len(),
    ensures
        declared_parent(profiles[i]@) == Some(profiles[j].id@) ==> effective_input(profiles, derived, i)
            == canonical_input(profiles[j]@, derived[j]@),
        (forall|k: int| 0 <= k < profiles.len() ==> declared_parent(profiles[i]@) != Some((#[trigger] profiles[k]).id@))
            ==> effective_input(profiles, derived, i) == canonical_input(profiles[i]@, derived[i]@),
{
    position_is(profiles, i);
    position_is(profiles, j);
    if let Some(parent) = declared_parent(profiles[i]@) {
        let ids = profile_ids_of(profiles);
        last_position_is_last(ids, parent, profiles.len() as int);
        if profile_position(profiles, parent) is Some {
            let k = profile_position(profiles, parent)->0;
            assert(ids[k] == profiles[k].id@);
        }
    }
}

proof fn axes_are_named(child: ProfileModel, parent: ProfileModel)
    ensures
        ({
            let fields = axis_differences(child, parent);
            &&& fields.contains("language"@) <==> language_name(child.language) != language_name(parent.language)
            &&& fields.contains("target"@) <==> child.target is Some && child.target != parent.target
            &&& fields.contains("features"@) <==> !(forall|feature: Seq<char>|
                child.features.contains(feature) <==> parent.features.contains(feature))
            &&& fields.contains("environment"@) <==> JsonModel::Object(environment_axes(child.environment)).value()
                != JsonModel::Object(environment_axes(parent.environment)).value()
        }),
{
    reveal_strlit("language");
    reveal_strlit("target");
    reveal_strlit("features");
    reveal_strlit("environment");
    assert("language"@.len() == 8 && "target"@.len() == 6 && "features"@.len() == 8 && "environment"@.len() == 11);
    assert("language"@[0] == 'l' && "features"@[0] == 'f');
    let fields = axis_differences(child, parent);
    let l: int = if language_name(child.language) != language_name(parent.language) {
        1
    } else {
        0
    };
    let t: int = if child.target is Some && child.target != parent.target {
        1
    } else {
        0
    };
    let same = crate::profile_matrix::same_members(child.features, parent.features);
    let f: int = if !same {
        1
    } else {
        0
    };
    if l == 1 {
        assert(fields[0] == "language"@);
    }
    if t == 1 {
        assert(fields[l] == "target"@);
    }
    if f == 1 {
        assert(fields[l + t] == "features"@);
    }
    if JsonModel::Object(environment_axes(child.environment)).value() != JsonModel::Object(
        environment_axes(parent.environment),
    ).value() {
        assert(fields[l + t + f] == "environment"@);
    }
}

/// A profile departs from its parent in the language, where the languages are not one; in the
/// target, where it names another; in the features, where it has others; and in the environment,
/// where that differs in more than the phase.
pub proof fn departures_from_a_parent_are_named(child: ProfileModel, parent: ProfileModel)
    ensures
        ({
            let fields = axis_differences(child, parent);
            &&& fields.contains("language"@) <==> language_name(child.language) != language_name(parent.language)
            &&& fields.contains("target"@) <==> child.target is Some && child.target != parent.target
            &&& fields.contains("features"@) <==> !(forall|feature: Seq<char>|
                child.features.contains(feature) <==> parent.features.contains(feature))
            &&& child.environment matches JsonModel::Object(own) ==> parent.environment matches JsonModel::Object(
                other,
            ) ==> (fields.contains("environment"@) <==> JsonModel::Object(
                own.filter(|field: (Seq<char>, JsonModel)| field.0 != "phase"@),
            ).value() != JsonModel::Object(other.filter(|field: (Seq<char>, JsonModel)| field.0 != "phase"@)).value())
            &&& child == parent ==> fields.len() == 0
        }),
{
    axes_are_named(child, parent);
    if let JsonModel::Object(own) = child.environment {
        axes_are_filtered(own);
    }
    if let JsonModel::Object(other) = parent.environment {
        axes_are_filtered(other);
    }
}

proof fn axes_are_filtered(fields: Seq<(Seq<char>, JsonModel)>)
    ensures
        environment_axes(JsonModel::Object(fields)) == fields.filter(
            |field: (Seq<char>, JsonModel)| field.0 != "phase"@,
        ),
{
    let wanted = |field: (Seq<char>, JsonModel)| field.0 != "phase"@;
    let whole = |field: (Seq<char>, JsonModel)| field;
    crate::counting::selected_is_wanted(
        fields,
        wanted,
        whole,
        fields.len() as int,
        field_is_axis(fields),
        |i: int| fields[i],
    );
    assert(fields.take(fields.len() as int) =~= fields);
    assert(fields.filter(wanted).map_values(whole) =~= fields.filter(wanted));
}

/// A profile is in conflict with a parent exactly where the parent is among the profiles and the
/// profile departs from it.
pub proof fn conflicts_are_departures(profiles: Seq<ProfileRecord>, i: int, j: int)
    requires
        profile_ids_of(profiles).no_duplicates(),
        0 <= i < profiles.len(),
        0 <= j < profiles.len(),
    ensures
        conflicting_parent(profiles, i) == Some(j) <==> declared_parent(profiles[i]@) == Some(profiles[j].id@)
            && axis_differences(profiles[i]@, profiles[j]@).len() > 0,
{
    position_is(profiles, j);
    if let Some(parent) = declared_parent(profiles[i]@) {
        let ids = profile_ids_of(profiles);
        last_position_is_last(ids, parent, profiles.len() as int);
        if profile_position(profiles, parent) is Some {
            let k = profile_position(profiles, parent)->0;
            assert(ids[k] == profiles[k].id@);
        }
    }
}

} // verus!

//! What a build records of what was observed.

use vstd::prelude::*;

use crate::build_attempt::BuildError;
use crate::observed::{
    build_delta_from_protocol, covered_profiles, diagnostic_evidence, diagnostic_of, edge_evidence, edge_of, node_of,
    owned, profile_of, site_evidence, site_of, ObservedBuild, ObservedEvidence,
};
use crate::order::views;
use crate::records::{BuildGraphDelta, EvidenceRecord};
use crate::text::{opt_text, texts};

verus! {

/// A build without coverage is refused, any other is recorded.
pub proof fn builds_end_with_coverage(build: &ObservedBuild, result: Result<BuildGraphDelta, BuildError>)
    requires
        call_ensures(build_delta_from_protocol, (build,), result),
    ensures
        build.coverage@.len() == 0 ==> result matches Err(BuildError::NoFinalCoverage),
        build.coverage@.len() > 0 ==> result is Ok,
{
}

/// The coverage of a build is the last that was observed.
pub proof fn builds_have_their_last_coverage(build: &ObservedBuild, delta: BuildGraphDelta)
    requires
        call_ensures(build_delta_from_protocol, (build,), Ok(delta)),
    ensures
        delta.coverage@ == build.coverage@.last()@,
{
}

/// An observed profile is recorded as it was observed, with the last coverage that was observed
/// of it.
pub proof fn observed_profiles_are_recorded(build: &ObservedBuild, delta: BuildGraphDelta, i: int)
    requires
        call_ensures(build_delta_from_protocol, (build,), Ok(delta)),
        0 <= i < build.profiles@.len(),
    ensures
        delta.profiles@.len() == build.profiles@.len(),
        ({
            let seen = build.profiles@[i];
            let kept = delta.profiles@[i];
            &&& kept.id@ == seen.id@
            &&& kept.language@ == seen.language@
            &&& kept.toolchain is Some <==> seen.toolchain is Some
            &&& seen.toolchain is Some ==> kept.toolchain->0@ == seen.toolchain->0@
            &&& opt_text(kept.command) == opt_text(seen.command)
            &&& opt_text(kept.target) == opt_text(seen.target)
            &&& texts(kept.features@) == texts(seen.features@)
            &&& kept.environment@ == seen.environment@
            &&& opt_text(kept.source_revision) == opt_text(seen.source_revision)
            &&& kept.properties@ == seen.properties@
        }),
{
    assert(views(delta.profiles@).len() == build.profiles@.len());
    assert(views(delta.profiles@)[i] == delta.profiles@[i]@);
    assert(views(delta.profiles@)[i] == profile_of(build.profiles@[i], build.profile_coverage@));
}

/// A profile has coverage where some was observed of it, and the last of it.
pub proof fn observed_profiles_have_their_last_coverage(
    build: &ObservedBuild,
    delta: BuildGraphDelta,
    i: int,
    c: int,
)
    requires
        call_ensures(build_delta_from_protocol, (build,), Ok(delta)),
        0 <= i < build.profiles@.len(),
        0 <= c < build.profile_coverage@.len(),
        build.profile_coverage@[c].profile_id@ == build.profiles@[i].id@,
        forall|d: int|
            c < d < build.profile_coverage@.len() ==> (#[trigger] build.profile_coverage@[d]).profile_id@
                != build.profiles@[i].id@,
    ensures
        delta.profiles@[i].coverage is Some,
        delta.profiles@[i].coverage->0@ == build.profile_coverage@[c].coverage@,
{
    let names = covered_profiles(build.profile_coverage@);
    assert(views(delta.profiles@).len() == build.profiles@.len());
    assert(views(delta.profiles@)[i] == delta.profiles@[i]@);
    assert(views(delta.profiles@)[i] == profile_of(build.profiles@[i], build.profile_coverage@));
    the_last_place_is_found(names, build.profiles@[i].id@, names.len() as int, c);
}

proof fn the_last_place_is_found(names: Seq<Seq<char>>, name: Seq<char>, count: int, c: int)
    requires
        0 <= c < count <= names.len(),
        names[c] == name,
        forall|d: int| c < d < names.len() ==> #[trigger] names[d] != name,
    ensures
        crate::order::last_position(names, name, count) == Some(c),
    decreases count,
{
    if count - 1 > c {
        assert(names[count - 1] != name);
        the_last_place_is_found(names, name, count - 1, c);
    }
}

/// An observed node is recorded as it was observed; without a name of its own it is shown by its
/// locator.
pub proof fn observed_nodes_are_recorded(build: &ObservedBuild, delta: BuildGraphDelta, i: int)
    requires
        call_ensures(build_delta_from_protocol, (build,), Ok(delta)),
        0 <= i < build.nodes@.len(),
    ensures
        delta.nodes@.len() == build.nodes@.len(),
        ({
            let seen = build.nodes@[i];
            let kept = delta.nodes@[i];
            &&& kept.id@ == seen.id@
            &&& kept.kind@ == seen.kind@
            &&& kept.locator@ == seen.locator@
            &&& seen.display_name is Some ==> kept.display_name@ == seen.display_name->0@
            &&& seen.display_name is None ==> kept.display_name@ == seen.locator@
            &&& kept.properties@ == seen.properties@
        }),
{
    assert(views(delta.nodes@).len() == build.nodes@.len());
    assert(views(delta.nodes@)[i] == delta.nodes@[i]@);
    assert(views(delta.nodes@)[i] == node_of(build.nodes@[i]));
}

/// An observed site is recorded as it was observed.
pub proof fn observed_sites_are_recorded(build: &ObservedBuild, delta: BuildGraphDelta, i: int)
    requires
        call_ensures(build_delta_from_protocol, (build,), Ok(delta)),
        0 <= i < build.sites@.len(),
    ensures
        delta.sites@.len() == build.sites@.len(),
        ({
            let seen = build.sites@[i];
            let kept = delta.sites@[i];
            &&& kept.id@ == seen.id@
            &&& kept.source@ == seen.source@
            &&& kept.kind@ == seen.kind@
            &&& opt_text(kept.specifier) == Some(seen.specifier@)
            &&& kept.profile_id@ == seen.profile_id@
            &&& kept.resolution_status@ == seen.resolution_status@
            &&& kept.precision@ == seen.precision@
            &&& kept.condition@ == seen.condition@
            &&& texts(kept.target_ids@) == texts(seen.target_ids@)
            &&& opt_text(kept.reason) == opt_text(seen.reason)
        }),
{
    assert(views(delta.sites@).len() == build.sites@.len());
    assert(views(delta.sites@)[i] == delta.sites@[i]@);
    assert(views(delta.sites@)[i] == site_of(build.sites@[i]));
}

/// An observed edge is recorded as it was observed; without an environment it holds in any.
pub proof fn observed_edges_are_recorded(build: &ObservedBuild, delta: BuildGraphDelta, i: int)
    requires
        call_ensures(build_delta_from_protocol, (build,), Ok(delta)),
        0 <= i < build.edges@.len(),
    ensures
        delta.edges@.len() == build.edges@.len(),
        ({
            let seen = build.edges@[i];
            let kept = delta.edges@[i];
            &&& kept.id@ == seen.id@
            &&& opt_text(kept.site_id) == opt_text(seen.site_id)
            &&& kept.source@ == seen.source@
            &&& kept.target@ == seen.target@
            &&& kept.kind@ == seen.kind@
            &&& kept.phase@ == seen.phase@
            &&& seen.environment is Some ==> kept.environment@ == seen.environment->0@
            &&& seen.environment is None ==> kept.environment@ == "any"@
            &&& kept.profile_id@ == seen.profile_id@
            &&& kept.resolution_status@ == seen.resolution_status@
            &&& kept.precision@ == seen.precision@
            &&& kept.condition@ == seen.condition@
            &&& kept.generated == seen.generated
        }),
{
    assert(views(delta.edges@).len() == build.edges@.len());
    assert(views(delta.edges@)[i] == delta.edges@[i]@);
    assert(views(delta.edges@)[i] == edge_of(build.edges@[i]));
}

/// An observed diagnostic is recorded as it was observed, at its place, and is of no adapter.
pub proof fn observed_diagnostics_are_recorded(build: &ObservedBuild, delta: BuildGraphDelta, i: int)
    requires
        call_ensures(build_delta_from_protocol, (build,), Ok(delta)),
        0 <= i < build.diagnostics@.len(),
        i <= i64::MAX,
    ensures
        delta.diagnostics@.len() == build.diagnostics@.len(),
        ({
            let seen = build.diagnostics@[i];
            let kept = delta.diagnostics@[i];
            &&& kept.ordinal == i
            &&& kept.id@ == seen.id@
            &&& kept.severity@ == seen.severity@
            &&& kept.code@ == seen.code@
            &&& kept.message@ == seen.message@
            &&& opt_text(kept.path) == opt_text(seen.path)
            &&& kept.adapter is None
            &&& kept.start_line is Some <==> seen.start_line is Some
            &&& seen.start_line is Some ==> kept.start_line->0 == seen.start_line->0
            &&& kept.start_column is Some <==> seen.start_column is Some
            &&& seen.start_column is Some ==> kept.start_column->0 == seen.start_column->0
            &&& kept.end_line is Some <==> seen.end_line is Some
            &&& seen.end_line is Some ==> kept.end_line->0 == seen.end_line->0
            &&& kept.end_column is Some <==> seen.end_column is Some
            &&& seen.end_column is Some ==> kept.end_column->0 == seen.end_column->0
            &&& kept.properties@ == seen.properties@
        }),
{
    assert(views(delta.diagnostics@).len() == build.diagnostics@.len());
    assert(views(delta.diagnostics@)[i] == delta.diagnostics@[i]@);
    assert(views(delta.diagnostics@)[i] == diagnostic_of(build.diagnostics@[i], i));
}

/// Whether a record is a piece of evidence under an owner at a place among what the owner has.
/// Without a path it is in none, and without a line or a column in the first.
pub open spec fn is_recorded(
    kept: EvidenceRecord,
    seen: ObservedEvidence,
    owner_type: Seq<char>,
    owner: Seq<char>,
    place: int,
) -> bool {
    &&& kept.owner_type@ == owner_type
    &&& kept.owner_id@ == owner
    &&& kept.ordinal == place
    &&& kept.kind@ == seen.kind@
    &&& kept.extractor@ == seen.extractor@
    &&& kept.extractor_version@ == seen.extractor_version@
    &&& seen.path is Some ==> kept.path@ == seen.path->0@
    &&& seen.path is None ==> kept.path@.len() == 0
    &&& seen.start_line is Some ==> kept.start_line == seen.start_line->0
    &&& seen.start_line is None ==> kept.start_line == 1
    &&& seen.start_column is Some ==> kept.start_column == seen.start_column->0
    &&& seen.start_column is None ==> kept.start_column == 1
    &&& seen.end_line is Some ==> kept.end_line == seen.end_line->0
    &&& seen.end_line is None ==> kept.end_line == 1
    &&& seen.end_column is Some ==> kept.end_column == seen.end_column->0
    &&& seen.end_column is None ==> kept.end_column == 1
    &&& opt_text(kept.detail) == opt_text(seen.detail)
    &&& kept.properties@ == seen.properties@
}

/// Every piece of evidence of a site is recorded under that site.
pub proof fn observed_evidence_of_sites_is_recorded(build: &ObservedBuild, delta: BuildGraphDelta, i: int, k: int)
    requires
        call_ensures(build_delta_from_protocol, (build,), Ok(delta)),
        0 <= i < build.sites@.len(),
        0 <= k < build.sites@[i].evidence@.len(),
        k <= i64::MAX,
    ensures
        exists|e: int|
            0 <= e < delta.evidence@.len() && is_recorded(
                #[trigger] delta.evidence@[e],
                build.sites@[i].evidence@[k],
                "site"@,
                build.sites@[i].id@,
                k,
            ),
{
    let sites = build.sites@;
    let all = views(delta.evidence@);
    let at = site_place(build, sites.len() as int, i, k);
    assert(all.len() == delta.evidence@.len());
    assert(0 <= at < all.len());
    assert(all[at] == delta.evidence@[at]@);
    assert(all[at] == owned(sites[i].evidence@, "site"@, sites[i].id@)[k]);
    assert(is_recorded(delta.evidence@[at], sites[i].evidence@[k], "site"@, sites[i].id@, k));
}

proof fn site_place(build: &ObservedBuild, count: int, i: int, k: int) -> (at: int)
    requires
        0 <= i < count <= build.sites@.len(),
        0 <= k < build.sites@[i].evidence@.len(),
    ensures
        0 <= at < site_evidence(build.sites@, count).len(),
        site_evidence(build.sites@, count)[at] == owned(build.sites@[i].evidence@, "site"@, build.sites@[i].id@)[k],
    decreases count,
{
    if i == count - 1 {
        site_evidence(build.sites@, count - 1).len() + k
    } else {
        site_place(build, count - 1, i, k)
    }
}

/// Every piece of evidence of an edge is recorded under that edge.
pub proof fn observed_evidence_of_edges_is_recorded(build: &ObservedBuild, delta: BuildGraphDelta, i: int, k: int)
    requires
        call_ensures(build_delta_from_protocol, (build,), Ok(delta)),
        0 <= i < build.edges@.len(),
        0 <= k < build.edges@[i].evidence@.len(),
        k <= i64::MAX,
    ensures
        exists|e: int|
            0 <= e < delta.evidence@.len() && is_recorded(
                #[trigger] delta.evidence@[e],
                build.edges@[i].evidence@[k],
                "edge"@,
                build.edges@[i].id@,
                k,
            ),
{
    let edges = build.edges@;
    let all = views(delta.evidence@);
    let at = edge_place(build, edges.len() as int, i, k) + site_evidence(
        build.sites@,
        build.sites@.len() as int,
    ).len();
    assert(all.len() == delta.evidence@.len());
    assert(0 <= at < all.len());
    assert(all[at] == delta.evidence@[at]@);
    assert(all[at] == owned(edges[i].evidence@, "edge"@, edges[i].id@)[k]);
    assert(is_recorded(delta.evidence@[at], edges[i].evidence@[k], "edge"@, edges[i].id@, k));
}

proof fn edge_place(build: &ObservedBuild, count: int, i: int, k: int) -> (at: int)
    requires
        0 <= i < count <= build.edges@.len(),
        0 <= k < build.edges@[i].evidence@.len(),
    ensures
        0 <= at < edge_evidence(build.edges@, count).len(),
        edge_evidence(build.edges@, count)[at] == owned(build.edges@[i].evidence@, "edge"@, build.edges@[i].id@)[k],
    decreases count,
{
    if i == count - 1 {
        edge_evidence(build.edges@, count - 1).len() + k
    } else {
        edge_place(build, count - 1, i, k)
    }
}

/// Every piece of evidence of a diagnostic is recorded under that diagnostic.
pub proof fn observed_evidence_of_diagnostics_is_recorded(
    build: &ObservedBuild,
    delta: BuildGraphDelta,
    i: int,
    k: int,
)
    requires
        call_ensures(build_delta_from_protocol, (build,), Ok(delta)),
        0 <= i < build.diagnostics@.len(),
        0 <= k < build.diagnostics@[i].evidence@.len(),
        k <= i64::MAX,
    ensures
        exists|e: int|
            0 <= e < delta.evidence@.len() && is_recorded(
                #[trigger] delta.evidence@[e],
                build.diagnostics@[i].evidence@[k],
                "diagnostic"@,
                build.diagnostics@[i].id@,
                k,
            ),
{
    let diagnostics = build.diagnostics@;
    let all = views(delta.evidence@);
    let at = diagnostic_place(build, diagnostics.len() as int, i, k) + site_evidence(
        build.sites@,
        build.sites@.len() as int,
    ).len() + edge_evidence(build.edges@, build.edges@.len() as int).len();
    assert(all.len() == delta.evidence@.len());
    assert(0 <= at < all.len());
    assert(all[at] == delta.evidence@[at]@);
    assert(all[at] == owned(diagnostics[i].evidence@, "diagnostic"@, diagnostics[i].id@)[k]);
    assert(is_recorded(delta.evidence@[at], diagnostics[i].evidence@[k], "diagnostic"@, diagnostics[i].id@, k));
}

proof fn diagnostic_place(build: &ObservedBuild, count: int, i: int, k: int) -> (at: int)
    requires
        0 <= i < count <= build.diagnostics@.len(),
        0 <= k < build.diagnostics@[i].evidence@.len(),
    ensures
        0 <= at < diagnostic_evidence(build.diagnostics@, count).len(),
        diagnostic_evidence(build.diagnostics@, count)[at] == owned(
            build.diagnostics@[i].evidence@,
            "diagnostic"@,
            build.diagnostics@[i].id@,
        )[k],
    decreases count,
{
    if i == count - 1 {
        diagnostic_evidence(build.diagnostics@, count - 1).len() + k
    } else {
        diagnostic_place(build, count - 1, i, k)
    }
}

} // verus!

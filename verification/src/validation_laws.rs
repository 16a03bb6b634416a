//! What an accepted scan is, said of its rows themselves.

use vstd::prelude::*;

use crate::counting::kept_is_wanted;
use crate::order::{count_of, count_of_none, count_of_nothing, last_position, last_position_is_last};
use crate::records::FileCoverageRecord;
use crate::scan_validation::{
    edges_from_site, emitted_sites, file_is_skipped, file_is_unbalanced, first_disagreement,
    first_profile_error, first_site_error, aggregate_error, file_error, total_error, graph_error,
    has_invalid_target, is_from_site, lacks_endpoint, node_row_ids, profile_error, profile_maximum,
    scan_error, site_error, site_has_status, site_of_profile, site_of_profile_with, site_row_ids, targets_at,
    CoverageField, EdgeValidationRecord, ProfileCoverageRow, ScanError, ScanRows, SiteValidationRecord,
};
use crate::text::{opt_text, texts};

verus! {

/// Whether rows hold each node and each site once, as a store does.
pub open spec fn rows_are_keyed(rows: ScanRows) -> bool {
    &&& forall|i: int, j: int|
        0 <= i < j < rows.nodes@.len() ==> (#[trigger] rows.nodes@[i]).id@ != (#[trigger] rows.nodes@[j]).id@
    &&& forall|i: int, j: int|
        0 <= i < j < rows.sites@.len() ==> (#[trigger] rows.sites@[i]).id@ != (#[trigger] rows.sites@[j]).id@
}

proof fn node_is_found(rows: ScanRows, n: int)
    requires
        rows_are_keyed(rows),
        0 <= n < rows.nodes@.len(),
    ensures
        last_position(node_row_ids(rows.nodes@), rows.nodes@[n].id@, rows.nodes@.len() as int) == Some(n),
{
    let ids = node_row_ids(rows.nodes@);
    last_position_is_last(ids, rows.nodes@[n].id@, rows.nodes@.len() as int);
    assert(ids[n] == rows.nodes@[n].id@);
    let p = last_position(ids, rows.nodes@[n].id@, rows.nodes@.len() as int)->0;
    if p != n {
        assert(rows.nodes@[p].id@ == rows.nodes@[n].id@);
    }
}

proof fn site_is_found(rows: ScanRows, s: int)
    requires
        rows_are_keyed(rows),
        0 <= s < rows.sites@.len(),
    ensures
        last_position(site_row_ids(rows.sites@), rows.sites@[s].id@, rows.sites@.len() as int) == Some(s),
{
    let ids = site_row_ids(rows.sites@);
    last_position_is_last(ids, rows.sites@[s].id@, rows.sites@.len() as int);
    assert(ids[s] == rows.sites@[s].id@);
    let p = last_position(ids, rows.sites@[s].id@, rows.sites@.len() as int)->0;
    if p != s {
        assert(rows.sites@[p].id@ == rows.sites@[s].id@);
    }
}

/// In an accepted scan every edge begins and ends at a node of the scan. An edge of an external
/// site ends at an external system, an edge of an unresolved site at an unknown target, and an
/// edge of a resolved site at neither.
pub proof fn accepted_edges_end_where_their_sites_say(rows: ScanRows, e: int, s: int, n: int)
    requires
        scan_error(rows) is None,
        rows_are_keyed(rows),
        0 <= e < rows.edges@.len(),
        0 <= s < rows.sites@.len(),
        0 <= n < rows.nodes@.len(),
        opt_text(rows.edges@[e].site_id) == Some(rows.sites@[s].id@),
        rows.edges@[e].target@ == rows.nodes@[n].id@,
    ensures
        rows.sites@[s].resolution_status@ == "external"@ ==> rows.nodes@[n].kind@ == "external_system"@,
        rows.sites@[s].resolution_status@ == "unresolved"@ ==> rows.nodes@[n].kind@ == "unknown_target"@,
        rows.sites@[s].resolution_status@ == "resolved"@ ==> rows.nodes@[n].kind@ != "external_system"@
            && rows.nodes@[n].kind@ != "unknown_target"@,
{
    count_of_none(rows.edges@.len() as int, has_invalid_target(rows));
    assert(!has_invalid_target(rows)(e));
    node_is_found(rows, n);
    site_is_found(rows, s);
}

/// In an accepted scan both ends of every edge are nodes of the scan.
pub proof fn accepted_edges_have_their_ends(rows: ScanRows, e: int)
    requires
        scan_error(rows) is None,
        0 <= e < rows.edges@.len(),
    ensures
        exists|n: int| 0 <= n < rows.nodes@.len() && (#[trigger] rows.nodes@[n]).id@ == rows.edges@[e].source@,
        exists|n: int| 0 <= n < rows.nodes@.len() && (#[trigger] rows.nodes@[n]).id@ == rows.edges@[e].target@,
{
    count_of_none(rows.edges@.len() as int, lacks_endpoint(rows));
    assert(!lacks_endpoint(rows)(e));
    let ids = node_row_ids(rows.nodes@);
    let a = choose|a: int| 0 <= a < ids.len() && ids[a] == rows.edges@[e].source@;
    let b = choose|b: int| 0 <= b < ids.len() && ids[b] == rows.edges@[e].target@;
    assert(rows.nodes@[a].id@ == rows.edges@[e].source@);
    assert(rows.nodes@[b].id@ == rows.edges@[e].target@);
}

proof fn statuses_differ()
    ensures
        "resolved"@ != "candidates"@,
        "resolved"@ != "external"@,
        "resolved"@ != "unresolved"@,
        "candidates"@ != "external"@,
        "candidates"@ != "unresolved"@,
        "external"@ != "unresolved"@,
        "external_system"@ != "unknown_target"@,
{
    reveal_strlit("resolved");
    reveal_strlit("candidates");
    reveal_strlit("external");
    reveal_strlit("unresolved");
    reveal_strlit("external_system");
    reveal_strlit("unknown_target");
    assert("resolved"@[0] == 'r' && "candidates"@[0] == 'c' && "external"@[0] == 'e' && "unresolved"@[0] == 'u');
    assert("external_system"@[0] == 'e' && "unknown_target"@[0] == 'u');
}

proof fn sites_are_classified(sites: Seq<SiteValidationRecord>, count: int)
    requires
        0 <= count <= sites.len(),
    ensures
        ({
            let r = count_of(count, site_has_status(sites, "resolved"@));
            let c = count_of(count, site_has_status(sites, "candidates"@));
            let e = count_of(count, site_has_status(sites, "external"@));
            let u = count_of(count, site_has_status(sites, "unresolved"@));
            &&& r + c + e + u <= count
            &&& r + c + e + u == count <==> forall|i: int|
                0 <= i < count ==> (#[trigger] sites[i]).resolution_status@ == "resolved"@
                    || sites[i].resolution_status@ == "candidates"@ || sites[i].resolution_status@ == "external"@
                    || sites[i].resolution_status@ == "unresolved"@
        }),
    decreases count,
{
    statuses_differ();
    if count > 0 {
        sites_are_classified(sites, count - 1);
        assert(site_has_status(sites, "resolved"@)(count - 1) == (sites[count - 1].resolution_status@ == "resolved"@));
        assert(site_has_status(sites, "candidates"@)(count - 1) == (sites[count - 1].resolution_status@
            == "candidates"@));
        assert(site_has_status(sites, "external"@)(count - 1) == (sites[count - 1].resolution_status@ == "external"@));
        assert(site_has_status(sites, "unresolved"@)(count - 1) == (sites[count - 1].resolution_status@
            == "unresolved"@));
    }
}

/// A graph has no error where every edge has its ends, every site a known resolution, and every
/// edge of an external, an unresolved or a resolved site an end of the right kind.
pub proof fn sound_graphs_have_no_error(rows: ScanRows)
    requires
        rows_are_keyed(rows),
        forall|e: int|
            0 <= e < rows.edges@.len() ==> (exists|n: int|
                0 <= n < rows.nodes@.len() && (#[trigger] rows.nodes@[n]).id@ == (#[trigger] rows.edges@[e]).source@)
                && (exists|n: int|
                0 <= n < rows.nodes@.len() && (#[trigger] rows.nodes@[n]).id@ == rows.edges@[e].target@),
        forall|s: int|
            0 <= s < rows.sites@.len() ==> (#[trigger] rows.sites@[s]).resolution_status@ == "resolved"@
                || rows.sites@[s].resolution_status@ == "candidates"@ || rows.sites@[s].resolution_status@
                == "external"@ || rows.sites@[s].resolution_status@ == "unresolved"@,
        forall|e: int, s: int, n: int|
            0 <= e < rows.edges@.len() && 0 <= s < rows.sites@.len() && 0 <= n < rows.nodes@.len() && opt_text(
                (#[trigger] rows.edges@[e]).site_id,
            ) == Some((#[trigger] rows.sites@[s]).id@) && rows.edges@[e].target@ == (
            #[trigger] rows.nodes@[n]).id@ ==> {
                let status = rows.sites@[s].resolution_status@;
                let kind = rows.nodes@[n].kind@;
                &&& status == "external"@ ==> kind == "external_system"@
                &&& status == "unresolved"@ ==> kind == "unknown_target"@
                &&& status == "resolved"@ ==> kind != "external_system"@ && kind != "unknown_target"@
            },
    ensures
        graph_error(rows) is None,
{
    let count = rows.edges@.len() as int;
    let ids = node_row_ids(rows.nodes@);
    assert forall|e: int| 0 <= e < count implies !#[trigger] lacks_endpoint(rows)(e) by {
        let edge = rows.edges@[e];
        let a = choose|n: int| 0 <= n < rows.nodes@.len() && (#[trigger] rows.nodes@[n]).id@ == edge.source@;
        let b = choose|n: int| 0 <= n < rows.nodes@.len() && (#[trigger] rows.nodes@[n]).id@ == edge.target@;
        assert(ids[a] == edge.source@ && ids[b] == edge.target@);
    }
    count_of_nothing(count, lacks_endpoint(rows));
    sites_are_classified(rows.sites@, rows.sites@.len() as int);
    assert forall|e: int| 0 <= e < count implies !#[trigger] has_invalid_target(rows)(e) by {
        let edge = rows.edges@[e];
        if edge.site_id is Some {
            last_position_is_last(site_row_ids(rows.sites@), edge.site_id->0@, rows.sites@.len() as int);
            last_position_is_last(ids, edge.target@, rows.nodes@.len() as int);
            let s = last_position(site_row_ids(rows.sites@), edge.site_id->0@, rows.sites@.len() as int);
            let n = last_position(ids, edge.target@, rows.nodes@.len() as int);
            if s is Some && n is Some {
                assert(opt_text(rows.edges@[e].site_id) == Some(rows.sites@[s->0].id@));
                assert(rows.edges@[e].target@ == rows.nodes@[n->0].id@);
            }
        }
    }
    count_of_nothing(count, has_invalid_target(rows));
}

proof fn no_site_error(rows: ScanRows, count: int, s: int)
    requires
        first_site_error(rows, count) is None,
        0 <= s < count,
    ensures
        site_error(rows, s) is None,
    decreases count,
{
    if s < count - 1 {
        no_site_error(rows, count - 1, s);
    }
}

proof fn no_disagreement(
    site: SiteValidationRecord,
    edges: Seq<EdgeValidationRecord>,
    positions: Seq<int>,
    count: int,
    k: int,
)
    requires
        first_disagreement(site, edges, positions, count) is None,
        0 <= k < count,
    ensures
        edges[positions[k]].source@ == site.source@,
        edges[positions[k]].profile_id@ == site.profile_id@,
        edges[positions[k]].resolution_status@ == site.resolution_status@,
        edges[positions[k]].precision@ == site.precision@,
    decreases count,
{
    if k < count - 1 {
        no_disagreement(site, edges, positions, count - 1, k);
    }
}

/// In an accepted scan a resolved, an external and an unresolved site have one target and one
/// edge, and a site with candidates has some targets and as many edges. No target is listed
/// twice, every edge of a site leads to a listed target, and to every listed target leads one.
/// The edges of a site begin where it does and share its profile, its resolution and its
/// precision.
pub proof fn accepted_sites_have_their_edges(rows: ScanRows, s: int)
    requires
        scan_error(rows) is None,
        0 <= s < rows.sites@.len(),
    ensures
        ({
            let site = rows.sites@[s];
            let own = rows.edges@.filter(|edge: EdgeValidationRecord| opt_text(edge.site_id) == Some(site.id@));
            let targets = texts(site.target_ids@);
            &&& targets.no_duplicates()
            &&& site.resolution_status@ == "resolved"@ || site.resolution_status@ == "external"@
                || site.resolution_status@ == "unresolved"@ ==> targets.len() == 1 && own.len() == 1
            &&& site.resolution_status@ == "candidates"@ ==> targets.len() > 0 && own.len() == targets.len()
            &&& forall|e: int|
                0 <= e < rows.edges@.len() && opt_text((#[trigger] rows.edges@[e]).site_id) == Some(site.id@) ==> {
                    &&& targets.contains(rows.edges@[e].target@)
                    &&& rows.edges@[e].source@ == site.source@
                    &&& rows.edges@[e].profile_id@ == site.profile_id@
                    &&& rows.edges@[e].resolution_status@ == site.resolution_status@
                    &&& rows.edges@[e].precision@ == site.precision@
                }
            &&& forall|target: Seq<char>| #[trigger]
                targets.contains(target) ==> exists|e: int|
                    0 <= e < rows.edges@.len() && opt_text((#[trigger] rows.edges@[e]).site_id) == Some(site.id@)
                        && rows.edges@[e].target@ == target
        }),
{
    statuses_differ();
    let site = rows.sites@[s];
    no_site_error(rows, rows.sites@.len() as int, s);
    let edges = rows.edges@;
    let keep = is_from_site(edges, site.id@);
    let at = |i: int| i;
    let positions = edges_from_site(edges, site.id@);
    let wanted = |edge: EdgeValidationRecord| opt_text(edge.site_id) == Some(site.id@);
    kept_is_wanted(edges, wanted, keep);
    crate::order::selections_are_counted(edges.len() as int, keep, at);
    let targets = texts(site.target_ids@);
    let found = targets_at(edges, positions);
    assert forall|e: int| 0 <= e < edges.len() && opt_text((#[trigger] edges[e]).site_id) == Some(site.id@) implies {
        &&& targets.contains(edges[e].target@)
        &&& edges[e].source@ == site.source@
        &&& edges[e].profile_id@ == site.profile_id@
        &&& edges[e].resolution_status@ == site.resolution_status@
        &&& edges[e].precision@ == site.precision@
    } by {
        assert(keep(e));
        crate::order::kept_items_stand_in_order(edges.len() as int, keep, at, e);
        let k = count_of(e, keep) as int;
        assert(positions[k] == e);
        no_disagreement(site, edges, positions, positions.len() as int, k);
        assert(found[k] == edges[e].target@);
        assert(found.contains(edges[e].target@));
    }
    assert forall|target: Seq<char>| #[trigger] targets.contains(target) implies exists|e: int|
        0 <= e < edges.len() && opt_text((#[trigger] edges[e]).site_id) == Some(site.id@) && edges[e].target@
            == target by {
        assert(found.contains(target));
        let k = choose|k: int| 0 <= k < found.len() && found[k] == target;
        crate::order::collect_holds_the_kept_items(edges.len() as int, keep, at, positions[k]);
        assert(positions.contains(positions[k]));
        let e = choose|e: int| 0 <= e < edges.len() && #[trigger] keep(e) && at(e) == positions[k];
        assert(opt_text(edges[e].site_id) == Some(site.id@) && edges[e].target@ == target);
    }
}

/// The final coverage of an accepted scan counts its profiles and its sites, and each resolution
/// for itself; a level is claimed once.
pub proof fn accepted_coverage_counts_the_sites(rows: ScanRows)
    requires
        scan_error(rows) is None,
    ensures
        rows.coverage matches Some(coverage) && {
            let sites = rows.sites@;
            &&& coverage.profiles == rows.profile_count
            &&& rows.profile_coverage@.len() == rows.profile_count
            &&& coverage.dependency_sites == sites.len()
            &&& coverage.resolved == sites.filter(
                |site: SiteValidationRecord| site.resolution_status@ == "resolved"@,
            ).len()
            &&& coverage.candidates == sites.filter(
                |site: SiteValidationRecord| site.resolution_status@ == "candidates"@,
            ).len()
            &&& coverage.external == sites.filter(
                |site: SiteValidationRecord| site.resolution_status@ == "external"@,
            ).len()
            &&& coverage.unresolved == sites.filter(
                |site: SiteValidationRecord| site.resolution_status@ == "unresolved"@,
            ).len()
            &&& texts(coverage.completeness@).no_duplicates()
        },
{
    let sites = rows.sites@;
    kept_is_wanted(
        sites,
        |site: SiteValidationRecord| site.resolution_status@ == "resolved"@,
        site_has_status(sites, "resolved"@),
    );
    kept_is_wanted(
        sites,
        |site: SiteValidationRecord| site.resolution_status@ == "candidates"@,
        site_has_status(sites, "candidates"@),
    );
    kept_is_wanted(
        sites,
        |site: SiteValidationRecord| site.resolution_status@ == "external"@,
        site_has_status(sites, "external"@),
    );
    kept_is_wanted(
        sites,
        |site: SiteValidationRecord| site.resolution_status@ == "unresolved"@,
        site_has_status(sites, "unresolved"@),
    );
}

proof fn no_profile_error(rows: ScanRows, count: int, p: int)
    requires
        first_profile_error(rows, count) is None,
        0 <= p < count,
    ensures
        profile_error(rows, p) is None,
    decreases count,
{
    if p < count - 1 {
        no_profile_error(rows, count - 1, p);
    }
}

/// The coverage of each profile of an accepted scan counts one profile, its own sites by their
/// resolutions, and every file that it found as analysed or skipped; a level is claimed once.
pub proof fn accepted_profiles_count_their_sites(rows: ScanRows, p: int)
    requires
        scan_error(rows) is None,
        0 <= p < rows.profile_coverage@.len(),
    ensures
        ({
            let id = rows.profile_coverage@[p].profile_id@;
            let coverage = rows.profile_coverage@[p].coverage;
            let sites = rows.sites@;
            &&& coverage.profiles == 1
            &&& coverage.files_discovered == coverage.files_analyzed + coverage.files_skipped
            &&& texts(coverage.completeness@).no_duplicates()
            &&& coverage.dependency_sites == sites.filter(|site: SiteValidationRecord| site.profile_id@ == id).len()
            &&& coverage.resolved == sites.filter(
                |site: SiteValidationRecord| site.profile_id@ == id && site.resolution_status@ == "resolved"@,
            ).len()
            &&& coverage.candidates == sites.filter(
                |site: SiteValidationRecord| site.profile_id@ == id && site.resolution_status@ == "candidates"@,
            ).len()
            &&& coverage.external == sites.filter(
                |site: SiteValidationRecord| site.profile_id@ == id && site.resolution_status@ == "external"@,
            ).len()
            &&& coverage.unresolved == sites.filter(
                |site: SiteValidationRecord| site.profile_id@ == id && site.resolution_status@ == "unresolved"@,
            ).len()
        }),
{
    no_profile_error(rows, rows.profile_coverage@.len() as int, p);
    let id = rows.profile_coverage@[p].profile_id@;
    let sites = rows.sites@;
    kept_is_wanted(sites, |site: SiteValidationRecord| site.profile_id@ == id, site_of_profile(sites, id));
    kept_is_wanted(
        sites,
        |site: SiteValidationRecord| site.profile_id@ == id && site.resolution_status@ == "resolved"@,
        site_of_profile_with(sites, id, "resolved"@),
    );
    kept_is_wanted(
        sites,
        |site: SiteValidationRecord| site.profile_id@ == id && site.resolution_status@ == "candidates"@,
        site_of_profile_with(sites, id, "candidates"@),
    );
    kept_is_wanted(
        sites,
        |site: SiteValidationRecord| site.profile_id@ == id && site.resolution_status@ == "external"@,
        site_of_profile_with(sites, id, "external"@),
    );
    kept_is_wanted(
        sites,
        |site: SiteValidationRecord| site.profile_id@ == id && site.resolution_status@ == "unresolved"@,
        site_of_profile_with(sites, id, "unresolved"@),
    );
}

proof fn maximum_is_reached(profiles: Seq<ProfileCoverageRow>, field: CoverageField, count: int, p: int)
    requires
        0 <= p < count <= profiles.len(),
    ensures
        profile_maximum(profiles, field, count) >= crate::scan_validation::counter(profiles[p].coverage, field),
    decreases count,
{
    if p < count - 1 {
        maximum_is_reached(profiles, field, count - 1, p);
    }
}

/// The final coverage of an accepted scan claims a level exactly where every profile does, counts
/// no fewer files and no less unsupported syntax than any profile, and hides no execution.
pub proof fn accepted_coverage_is_that_of_the_profiles(rows: ScanRows, p: int)
    requires
        scan_error(rows) is None,
        0 <= p < rows.profile_coverage@.len(),
    ensures
        rows.coverage matches Some(coverage) && {
            let profile = rows.profile_coverage@[p].coverage;
            &&& coverage.files_discovered >= profile.files_discovered
            &&& coverage.files_analyzed >= profile.files_analyzed
            &&& coverage.files_skipped >= profile.files_skipped
            &&& coverage.unsupported_syntax >= profile.unsupported_syntax
            &&& profile.project_code_executed ==> coverage.project_code_executed
            &&& forall|level: Seq<char>| #[trigger]
                texts(coverage.completeness@).contains(level) <==> forall|q: int|
                    0 <= q < rows.profile_coverage@.len() ==> texts(
                        (#[trigger] rows.profile_coverage@[q]).coverage.completeness@,
                    ).contains(level)
        },
{
    let profiles = rows.profile_coverage@;
    let count = profiles.len() as int;
    maximum_is_reached(profiles, CoverageField::FilesDiscovered, count, p);
    maximum_is_reached(profiles, CoverageField::FilesAnalyzed, count, p);
    maximum_is_reached(profiles, CoverageField::FilesSkipped, count, p);
    maximum_is_reached(profiles, CoverageField::UnsupportedSyntax, count, p);
    if profiles[p].coverage.project_code_executed {
        assert(crate::scan_validation::some_profile_executed(profiles));
    }
    let coverage = rows.coverage->0;
    assert forall|level: Seq<char>| #[trigger] texts(coverage.completeness@).contains(level) <==> forall|q: int|
        0 <= q < profiles.len() ==> texts((#[trigger] profiles[q]).coverage.completeness@).contains(level) by {
        assert(texts(coverage.completeness@).contains(level) <==> crate::scan_validation::every_profile_reached(
            profiles,
            level,
        ));
    }
}

/// The file counters of an accepted scan are those of its ledger: every file, those that were
/// skipped, and the others. Each file accounts for all its sites, and no more sites were emitted
/// than there are.
pub proof fn accepted_coverage_counts_the_files(rows: ScanRows)
    requires
        scan_error(rows) is None,
    ensures
        rows.coverage matches Some(coverage) && {
            let files = rows.files@;
            &&& coverage.files_discovered == files.len()
            &&& coverage.files_skipped == files.filter(|file: FileCoverageRecord| file.skipped).len()
            &&& coverage.files_analyzed == files.filter(|file: FileCoverageRecord| !file.skipped).len()
            &&& forall|i: int|
                0 <= i < files.len() ==> (#[trigger] files[i]).discovered_sites == files[i].emitted_sites
                    + files[i].skipped_sites
            &&& files.map_values(|file: FileCoverageRecord| file.emitted_sites as int).fold_left(
                0int,
                |sum: int, sites: int| sum + sites,
            ) <= coverage.dependency_sites
        },
{
    let files = rows.files@;
    let skipped = |file: FileCoverageRecord| file.skipped;
    let kept = |file: FileCoverageRecord| !file.skipped;
    kept_is_wanted(files, skipped, file_is_skipped(files));
    parts_add_up(files, files.len() as int);
    assert(files.take(files.len() as int) =~= files);
    count_of_none(files.len() as int, file_is_unbalanced(files));
    assert forall|i: int| 0 <= i < files.len() implies (#[trigger] files[i]).discovered_sites == files[i].emitted_sites
        + files[i].skipped_sites by {
        assert(!file_is_unbalanced(files)(i));
    }
    emitted_is_the_sum(files, files.len() as int);
}

proof fn parts_add_up(files: Seq<FileCoverageRecord>, count: int)
    requires
        0 <= count <= files.len(),
    ensures
        files.take(count).filter(|file: FileCoverageRecord| file.skipped).len() + files.take(count).filter(
            |file: FileCoverageRecord| !file.skipped,
        ).len() == count,
    decreases count,
{
    reveal(Seq::filter);
    if count > 0 {
        parts_add_up(files, count - 1);
        assert(files.take(count).drop_last() =~= files.take(count - 1));
    }
}

proof fn emitted_is_the_sum(files: Seq<FileCoverageRecord>, count: int)
    requires
        0 <= count <= files.len(),
    ensures
        emitted_sites(files, count) == files.take(count).map_values(
            |file: FileCoverageRecord| file.emitted_sites as int,
        ).fold_left(0int, |sum: int, sites: int| sum + sites),
    decreases count,
{
    let of = |file: FileCoverageRecord| file.emitted_sites as int;
    let add = |sum: int, sites: int| sum + sites;
    reveal_with_fuel(Seq::fold_left, 2);
    if count > 0 {
        emitted_is_the_sum(files, count - 1);
        assert(files.take(count).map_values(of).drop_last() =~= files.take(count - 1).map_values(of));
    }
}

proof fn sites_without_errors(rows: ScanRows, count: int)
    requires
        0 <= count <= rows.sites@.len(),
        forall|s: int| 0 <= s < count ==> #[trigger] site_error(rows, s) is None,
    ensures
        first_site_error(rows, count) is None,
    decreases count,
{
    if count > 0 {
        sites_without_errors(rows, count - 1);
        assert(site_error(rows, count - 1) is None);
    }
}

proof fn agreement_everywhere(
    site: SiteValidationRecord,
    edges: Seq<EdgeValidationRecord>,
    positions: Seq<int>,
    count: int,
)
    requires
        0 <= count <= positions.len(),
        forall|k: int|
            0 <= k < count ==> edges[#[trigger] positions[k]].source@ == site.source@ && edges[positions[k]].profile_id@
                == site.profile_id@ && edges[positions[k]].resolution_status@ == site.resolution_status@
                && edges[positions[k]].precision@ == site.precision@,
    ensures
        first_disagreement(site, edges, positions, count) is None,
    decreases count,
{
    if count > 0 {
        agreement_everywhere(site, edges, positions, count - 1);
        assert(edges[positions[count - 1]].source@ == site.source@);
    }
}

/// A site has no error where its targets are listed once, its edges are as many as its
/// resolution asks for, lead to the listed targets and to all of them, and agree with it.
pub proof fn sound_sites_have_no_error(rows: ScanRows, s: int)
    requires
        0 <= s < rows.sites@.len(),
        ({
            let site = rows.sites@[s];
            let own = rows.edges@.filter(|edge: EdgeValidationRecord| opt_text(edge.site_id) == Some(site.id@));
            let targets = texts(site.target_ids@);
            &&& targets.no_duplicates()
            &&& site.resolution_status@ == "resolved"@ || site.resolution_status@ == "external"@
                || site.resolution_status@ == "unresolved"@ || site.resolution_status@ == "candidates"@
            &&& site.resolution_status@ != "candidates"@ ==> targets.len() == 1 && own.len() == 1
            &&& site.resolution_status@ == "candidates"@ ==> targets.len() > 0 && own.len() == targets.len()
            &&& forall|e: int|
                0 <= e < rows.edges@.len() && opt_text((#[trigger] rows.edges@[e]).site_id) == Some(site.id@) ==> {
                    &&& targets.contains(rows.edges@[e].target@)
                    &&& rows.edges@[e].source@ == site.source@
                    &&& rows.edges@[e].profile_id@ == site.profile_id@
                    &&& rows.edges@[e].resolution_status@ == site.resolution_status@
                    &&& rows.edges@[e].precision@ == site.precision@
                }
            &&& forall|target: Seq<char>| #[trigger]
                targets.contains(target) ==> exists|e: int|
                    0 <= e < rows.edges@.len() && opt_text((#[trigger] rows.edges@[e]).site_id) == Some(site.id@)
                        && rows.edges@[e].target@ == target
        }),
    ensures
        site_error(rows, s) is None,
{
    statuses_differ();
    let site = rows.sites@[s];
    let edges = rows.edges@;
    let keep = is_from_site(edges, site.id@);
    let at = |i: int| i;
    let positions = edges_from_site(edges, site.id@);
    let wanted = |edge: EdgeValidationRecord| opt_text(edge.site_id) == Some(site.id@);
    kept_is_wanted(edges, wanted, keep);
    crate::order::selections_are_counted(edges.len() as int, keep, at);
    let targets = texts(site.target_ids@);
    let found = targets_at(edges, positions);
    assert forall|k: int| 0 <= k < positions.len() implies 0 <= #[trigger] positions[k] < edges.len() && opt_text(
        edges[positions[k]].site_id,
    ) == Some(site.id@) by {
        crate::order::collect_holds_the_kept_items(edges.len() as int, keep, at, positions[k]);
        assert(positions.contains(positions[k]));
        let e = choose|e: int| 0 <= e < edges.len() && #[trigger] keep(e) && at(e) == positions[k];
        assert(e == positions[k]);
    }
    assert forall|value: Seq<char>| targets.contains(value) <==> found.contains(value) by {
        if targets.contains(value) {
            let e = choose|e: int|
                0 <= e < rows.edges@.len() && opt_text((#[trigger] rows.edges@[e]).site_id) == Some(site.id@)
                    && rows.edges@[e].target@ == value;
            assert(keep(e));
            crate::order::kept_items_stand_in_order(edges.len() as int, keep, at, e);
            let k = count_of(e, keep) as int;
            assert(positions[k] == e);
            assert(found[k] == value);
        }
        if found.contains(value) {
            let k = choose|k: int| 0 <= k < found.len() && found[k] == value;
            assert(opt_text(edges[positions[k]].site_id) == Some(site.id@));
        }
    }
    agreement_everywhere(site, edges, positions, positions.len() as int);
}

proof fn profiles_without_errors(rows: ScanRows, count: int)
    requires
        0 <= count <= rows.profile_coverage@.len(),
        forall|p: int| 0 <= p < count ==> #[trigger] profile_error(rows, p) is None,
    ensures
        first_profile_error(rows, count) is None,
    decreases count,
{
    if count > 0 {
        profiles_without_errors(rows, count - 1);
        assert(profile_error(rows, count - 1) is None);
    }
}

proof fn maximum_is_bounded(profiles: Seq<ProfileCoverageRow>, field: CoverageField, count: int, bound: u64)
    requires
        0 <= count <= profiles.len(),
        forall|p: int|
            0 <= p < count ==> crate::scan_validation::counter((#[trigger] profiles[p]).coverage, field) <= bound,
    ensures
        profile_maximum(profiles, field, count) <= bound,
    decreases count,
{
    if count > 0 {
        maximum_is_bounded(profiles, field, count - 1, bound);
        assert(crate::scan_validation::counter(profiles[count - 1].coverage, field) <= bound);
    }
}

/// The coverage of a profile has no error where it counts one profile, its own sites by their
/// resolutions, and every file that it found as analysed or skipped, and claims a level once.
pub proof fn sound_profiles_have_no_error(rows: ScanRows, p: int)
    requires
        0 <= p < rows.profile_coverage@.len(),
        ({
            let id = rows.profile_coverage@[p].profile_id@;
            let coverage = rows.profile_coverage@[p].coverage;
            let sites = rows.sites@;
            &&& coverage.profiles == 1
            &&& coverage.files_discovered == coverage.files_analyzed + coverage.files_skipped
            &&& texts(coverage.completeness@).no_duplicates()
            &&& coverage.dependency_sites == sites.filter(|site: SiteValidationRecord| site.profile_id@ == id).len()
            &&& coverage.resolved == sites.filter(
                |site: SiteValidationRecord| site.profile_id@ == id && site.resolution_status@ == "resolved"@,
            ).len()
            &&& coverage.candidates == sites.filter(
                |site: SiteValidationRecord| site.profile_id@ == id && site.resolution_status@ == "candidates"@,
            ).len()
            &&& coverage.external == sites.filter(
                |site: SiteValidationRecord| site.profile_id@ == id && site.resolution_status@ == "external"@,
            ).len()
            &&& coverage.unresolved == sites.filter(
                |site: SiteValidationRecord| site.profile_id@ == id && site.resolution_status@ == "unresolved"@,
            ).len()
        }),
    ensures
        profile_error(rows, p) is None,
{
    let id = rows.profile_coverage@[p].profile_id@;
    let sites = rows.sites@;
    kept_is_wanted(sites, |site: SiteValidationRecord| site.profile_id@ == id, site_of_profile(sites, id));
    kept_is_wanted(
        sites,
        |site: SiteValidationRecord| site.profile_id@ == id && site.resolution_status@ == "resolved"@,
        site_of_profile_with(sites, id, "resolved"@),
    );
    kept_is_wanted(
        sites,
        |site: SiteValidationRecord| site.profile_id@ == id && site.resolution_status@ == "candidates"@,
        site_of_profile_with(sites, id, "candidates"@),
    );
    kept_is_wanted(
        sites,
        |site: SiteValidationRecord| site.profile_id@ == id && site.resolution_status@ == "external"@,
        site_of_profile_with(sites, id, "external"@),
    );
    kept_is_wanted(
        sites,
        |site: SiteValidationRecord| site.profile_id@ == id && site.resolution_status@ == "unresolved"@,
        site_of_profile_with(sites, id, "unresolved"@),
    );
}

/// A scan is accepted where its graph, its sites and its profiles have no error and its final
/// coverage counts the profiles, the sites by their resolutions and the files of the ledger,
/// claims a level once and exactly where every profile does, counts no less than any profile and
/// hides no execution, and every file accounts for its sites.
pub proof fn sound_scans_are_accepted(rows: ScanRows)
    requires
        graph_error(rows) is None,
        forall|s: int| 0 <= s < rows.sites@.len() ==> #[trigger] site_error(rows, s) is None,
        forall|p: int| 0 <= p < rows.profile_coverage@.len() ==> #[trigger] profile_error(rows, p) is None,
        rows.coverage matches Some(coverage) && {
            let sites = rows.sites@;
            let files = rows.files@;
            &&& coverage.profiles == rows.profile_count
            &&& rows.profile_coverage@.len() == rows.profile_count
            &&& coverage.dependency_sites == sites.len()
            &&& coverage.resolved == sites.filter(
                |site: SiteValidationRecord| site.resolution_status@ == "resolved"@,
            ).len()
            &&& coverage.candidates == sites.filter(
                |site: SiteValidationRecord| site.resolution_status@ == "candidates"@,
            ).len()
            &&& coverage.external == sites.filter(
                |site: SiteValidationRecord| site.resolution_status@ == "external"@,
            ).len()
            &&& coverage.unresolved == sites.filter(
                |site: SiteValidationRecord| site.resolution_status@ == "unresolved"@,
            ).len()
            &&& texts(coverage.completeness@).no_duplicates()
            &&& rows.profile_coverage@.len() > 0 ==> forall|level: Seq<char>| #[trigger]
                texts(coverage.completeness@).contains(level) <==> forall|q: int|
                    0 <= q < rows.profile_coverage@.len() ==> texts(
                        (#[trigger] rows.profile_coverage@[q]).coverage.completeness@,
                    ).contains(level)
            &&& forall|p: int|
                0 <= p < rows.profile_coverage@.len() ==> {
                    let profile = (#[trigger] rows.profile_coverage@[p]).coverage;
                    &&& coverage.files_discovered >= profile.files_discovered
                    &&& coverage.files_analyzed >= profile.files_analyzed
                    &&& coverage.files_skipped >= profile.files_skipped
                    &&& coverage.unsupported_syntax >= profile.unsupported_syntax
                    &&& profile.project_code_executed ==> coverage.project_code_executed
                }
            &&& coverage.files_discovered == files.len()
            &&& coverage.files_skipped == files.filter(|file: FileCoverageRecord| file.skipped).len()
            &&& coverage.files_analyzed == files.filter(|file: FileCoverageRecord| !file.skipped).len()
            &&& forall|i: int|
                0 <= i < files.len() ==> (#[trigger] files[i]).discovered_sites == files[i].emitted_sites
                    + files[i].skipped_sites
            &&& files.map_values(|file: FileCoverageRecord| file.emitted_sites as int).fold_left(
                0int,
                |sum: int, sites: int| sum + sites,
            ) <= coverage.dependency_sites
        },
    ensures
        scan_error(rows) is None,
{
    let sites = rows.sites@;
    let files = rows.files@;
    let profiles = rows.profile_coverage@;
    let coverage = rows.coverage->0;
    sites_without_errors(rows, sites.len() as int);
    profiles_without_errors(rows, profiles.len() as int);
    kept_is_wanted(
        sites,
        |site: SiteValidationRecord| site.resolution_status@ == "resolved"@,
        site_has_status(sites, "resolved"@),
    );
    kept_is_wanted(
        sites,
        |site: SiteValidationRecord| site.resolution_status@ == "candidates"@,
        site_has_status(sites, "candidates"@),
    );
    kept_is_wanted(
        sites,
        |site: SiteValidationRecord| site.resolution_status@ == "external"@,
        site_has_status(sites, "external"@),
    );
    kept_is_wanted(
        sites,
        |site: SiteValidationRecord| site.resolution_status@ == "unresolved"@,
        site_has_status(sites, "unresolved"@),
    );
    assert(total_error(rows, coverage) is None);
    let count = profiles.len() as int;
    maximum_is_bounded(profiles, CoverageField::FilesDiscovered, count, coverage.files_discovered);
    maximum_is_bounded(profiles, CoverageField::FilesAnalyzed, count, coverage.files_analyzed);
    maximum_is_bounded(profiles, CoverageField::FilesSkipped, count, coverage.files_skipped);
    maximum_is_bounded(profiles, CoverageField::UnsupportedSyntax, count, coverage.unsupported_syntax);
    assert(aggregate_error(rows, coverage) is None);
    let skipped = |file: FileCoverageRecord| file.skipped;
    kept_is_wanted(files, skipped, file_is_skipped(files));
    parts_add_up(files, files.len() as int);
    assert(files.take(files.len() as int) =~= files);
    emitted_is_the_sum(files, files.len() as int);
    assert forall|i: int| 0 <= i < files.len() implies !#[trigger] file_is_unbalanced(files)(i) by {
        assert(files[i].discovered_sites == files[i].emitted_sites + files[i].skipped_sites);
    }
    count_of_nothing(files.len() as int, file_is_unbalanced(files));
    assert(file_error(rows, coverage) is None);
}

/// What is wrong with a graph first is counted: the edges that lack an end, or else the edges
/// whose target does not fit the resolution of their site.
pub proof fn graph_errors_count_the_edges(rows: ScanRows)
    requires
        rows.edges@.len() <= u64::MAX,
    ensures
        ({
            let lacking = rows.edges@.filter(
                |edge: EdgeValidationRecord|
                    !(exists|n: int| 0 <= n < rows.nodes@.len() && (#[trigger] rows.nodes@[n]).id@ == edge.source@)
                        || !(exists|n: int|
                        0 <= n < rows.nodes@.len() && (#[trigger] rows.nodes@[n]).id@ == edge.target@),
            ).len();
            &&& lacking > 0 <==> graph_error(rows) is Some && graph_error(rows)->0 is MissingEndpoints
            &&& lacking > 0 ==> graph_error(rows) == Some(ScanError::MissingEndpoints { edges: lacking as u64 })
        }),
{
    let wanted = |edge: EdgeValidationRecord|
        !(exists|n: int| 0 <= n < rows.nodes@.len() && (#[trigger] rows.nodes@[n]).id@ == edge.source@) || !(exists|
            n: int,
        |
            0 <= n < rows.nodes@.len() && (#[trigger] rows.nodes@[n]).id@ == edge.target@);
    let ids = node_row_ids(rows.nodes@);
    assert forall|i: int| 0 <= i < rows.edges@.len() implies #[trigger] lacks_endpoint(rows)(i) == wanted(
        rows.edges@[i],
    ) by {
        let edge = rows.edges@[i];
        assert forall|id: Seq<char>| ids.contains(id) <==> (exists|n: int|
            0 <= n < rows.nodes@.len() && (#[trigger] rows.nodes@[n]).id@ == id) by {
            if ids.contains(id) {
                let n = choose|n: int| 0 <= n < ids.len() && ids[n] == id;
                assert(rows.nodes@[n].id@ == id);
            }
            if exists|n: int| 0 <= n < rows.nodes@.len() && (#[trigger] rows.nodes@[n]).id@ == id {
                let n = choose|n: int| 0 <= n < rows.nodes@.len() && (#[trigger] rows.nodes@[n]).id@ == id;
                assert(ids[n] == id);
            }
        }
        assert(ids.contains(edge.source@) <==> (exists|n: int|
            0 <= n < rows.nodes@.len() && (#[trigger] rows.nodes@[n]).id@ == edge.source@));
        assert(ids.contains(edge.target@) <==> (exists|n: int|
            0 <= n < rows.nodes@.len() && (#[trigger] rows.nodes@[n]).id@ == edge.target@));
    }
    kept_is_wanted(rows.edges@, wanted, lacks_endpoint(rows));
}

/// A site with a resolution that there is none of is told so; one whose targets and edges do not fit
/// its resolution is told how many it has.
pub proof fn faulty_sites_are_told_their_fault(rows: ScanRows, s: int)
    requires
        0 <= s < rows.sites@.len(),
        texts(rows.sites@[s].target_ids@).no_duplicates(),
        rows.sites@[s].target_ids@.len() <= usize::MAX,
        rows.edges@.len() <= usize::MAX,
    ensures
        ({
            let site = rows.sites@[s];
            let status = site.resolution_status@;
            let own = rows.edges@.filter(|edge: EdgeValidationRecord| opt_text(edge.site_id) == Some(site.id@));
            let known = status == "resolved"@ || status == "candidates"@ || status == "external"@ || status
                == "unresolved"@;
            &&& !known ==> (site_error(rows, s) matches Some(ScanError::UnknownStatus { site: at }) && at == s as usize)
            &&& known && (if status == "candidates"@ {
                site.target_ids@.len() == 0 || own.len() != site.target_ids@.len()
            } else {
                site.target_ids@.len() != 1 || own.len() != 1
            }) ==> (site_error(rows, s) matches Some(ScanError::Cardinality { site: at, targets, edges }) && at
                == s as usize && targets == site.target_ids@.len() && edges == own.len())
        }),
{
    statuses_differ();
    let site = rows.sites@[s];
    let edges = rows.edges@;
    let keep = is_from_site(edges, site.id@);
    let at = |i: int| i;
    let wanted = |edge: EdgeValidationRecord| opt_text(edge.site_id) == Some(site.id@);
    kept_is_wanted(edges, wanted, keep);
    crate::order::selections_are_counted(edges.len() as int, keep, at);
    crate::order::count_of_is_bounded(edges.len() as int, keep);
    assert(texts(site.target_ids@).len() == site.target_ids@.len());
}

} // verus!

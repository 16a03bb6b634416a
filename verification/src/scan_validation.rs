//! Whether a staged scan is complete and consistent: its graph, its sites, its coverage
//! and its file ledger.

use vstd::prelude::*;

use crate::order::{
    collect, count_of, count_of_is_bounded, last_position, positions_of, sorted_set,
    sorted_set_is_unique, TextIndex,
};
use crate::profile_matrix::same_members;
use crate::records::{CoverageRecord, FileCoverageRecord};
use crate::text::{contains_text, copy_texts, same, same_texts, texts};

verus! {

/// The identity and the kind of a stored node.
#[derive(Debug, Clone, PartialEq, Eq)]
pub struct NodeRow {
    pub id: String,
    pub kind: String,
}

/// The fields of a stored site that validation reads.
#[derive(Debug, Clone, PartialEq, Eq)]
pub struct SiteValidationRecord {
    pub id: String,
    pub source: String,
    pub profile_id: String,
    pub resolution_status: String,
    pub precision: String,
    pub target_ids: Vec<String>,
}

/// The fields of a stored edge that validation reads.
#[derive(Debug, Clone, PartialEq, Eq)]
pub struct EdgeValidationRecord {
    pub id: String,
    pub site_id: Option<String>,
    pub source: String,
    pub target: String,
    pub profile_id: String,
    pub resolution_status: String,
    pub precision: String,
}

/// Coverage that was stored for a profile.
#[derive(Debug, Clone, PartialEq, Eq)]
pub struct ProfileCoverageRow {
    pub profile_id: String,
    pub coverage: CoverageRecord,
}

/// Everything stored for a scan that validation reads. Sites, edges and profile coverage
/// stand in ascending order of their identities.
#[derive(Debug, Clone, PartialEq, Eq)]
pub struct ScanRows {
    pub nodes: Vec<NodeRow>,
    pub sites: Vec<SiteValidationRecord>,
    pub edges: Vec<EdgeValidationRecord>,
    pub coverage: Option<CoverageRecord>,
    pub profile_count: u64,
    pub profile_coverage: Vec<ProfileCoverageRow>,
    pub files: Vec<FileCoverageRecord>,
}

/// A counter of the final coverage.
#[derive(Debug, Clone, Copy, PartialEq, Eq, Structural)]
pub enum CoverageField {
    Profiles,
    DependencySites,
    Resolved,
    Candidates,
    External,
    Unresolved,
    FilesDiscovered,
    FilesAnalyzed,
    FilesSkipped,
    UnsupportedSyntax,
}

/// Why a scan is refused. Sites, edges and profiles are given by position.
#[derive(Debug, Clone, Copy, PartialEq, Eq, Structural)]
pub enum ScanError {
    MissingEndpoints { edges: u64 },
    UnclassifiedSites,
    InvalidTargets { edges: u64 },
    DuplicateTargets { site: usize },
    Cardinality { site: usize, targets: usize, edges: usize },
    UnknownStatus { site: usize },
    TargetMismatch { site: usize },
    ContractMismatch { site: usize, edge: usize },
    NoCoverage,
    DuplicateCompleteness,
    CountMismatch { field: CoverageField, reported: u64, observed: u64 },
    ProfileCoverageMissing { profiles: u64, records: u64 },
    ProfileCountNotOne { profile: usize },
    ProfileFilesUnbalanced { profile: usize },
    ProfileDuplicateCompleteness { profile: usize },
    ProfileSiteCounts { profile: usize },
    CompletenessMismatch,
    BelowProfileMaximum { field: CoverageField, reported: u64, minimum: u64 },
    HiddenExecution,
    FileLedgerMismatch,
    FileLedgerExceedsSites,
    InvalidFileLedgers { files: u64 },
}

// ---------------------------------------------------------------------------------------
// The graph
// ---------------------------------------------------------------------------------------

/// The identities of nodes.
pub open spec fn node_row_ids(nodes: Seq<NodeRow>) -> Seq<Seq<char>> {
    Seq::new(nodes.len(), |i: int| nodes[i].id@)
}

/// The identities of sites.
pub open spec fn site_row_ids(sites: Seq<SiteValidationRecord>) -> Seq<Seq<char>> {
    Seq::new(sites.len(), |i: int| sites[i].id@)
}

/// Which edges lack a node at one of their ends.
pub open spec fn lacks_endpoint(rows: ScanRows) -> spec_fn(int) -> bool {
    |i: int|
        !node_row_ids(rows.nodes@).contains(rows.edges@[i].source@) || !node_row_ids(rows.nodes@).contains(
            rows.edges@[i].target@,
        )
}

/// Which sites have a resolution.
pub open spec fn site_has_status(
    sites: Seq<SiteValidationRecord>,
    status: Seq<char>,
) -> spec_fn(int) -> bool {
    |i: int| sites[i].resolution_status@ == status
}

/// The number of sites with a resolution.
pub open spec fn sites_with(sites: Seq<SiteValidationRecord>, status: Seq<char>) -> nat {
    count_of(sites.len() as int, site_has_status(sites, status))
}

/// Whether a target of the given kind does not fit a resolution.
pub open spec fn is_misclassified(status: Seq<char>, kind: Seq<char>) -> bool {
    ||| status == "resolved"@ && (kind == "external_system"@ || kind == "unknown_target"@)
    ||| status == "external"@ && kind != "external_system"@
    ||| status == "unresolved"@ && kind != "unknown_target"@
}

/// Which edges of sites lead to a node whose kind does not fit the site's resolution.
pub open spec fn has_invalid_target(rows: ScanRows) -> spec_fn(int) -> bool {
    |i: int|
        rows.edges@[i].site_id matches Some(site_id) && last_position(
            site_row_ids(rows.sites@),
            site_id@,
            rows.sites@.len() as int,
        ) matches Some(s) && last_position(
            node_row_ids(rows.nodes@),
            rows.edges@[i].target@,
            rows.nodes@.len() as int,
        ) matches Some(n) && is_misclassified(rows.sites@[s].resolution_status@, rows.nodes@[n].kind@)
}

/// What is wrong with the graph as a whole.
pub open spec fn graph_error(rows: ScanRows) -> Option<ScanError> {
    let sites = rows.sites@;
    let missing = count_of(rows.edges@.len() as int, lacks_endpoint(rows));
    let invalid = count_of(rows.edges@.len() as int, has_invalid_target(rows));
    if missing > 0 {
        Some(ScanError::MissingEndpoints { edges: missing as u64 })
    } else if sites.len() != sites_with(sites, "resolved"@) + sites_with(sites, "candidates"@) + sites_with(
        sites,
        "external"@,
    ) + sites_with(sites, "unresolved"@) {
        Some(ScanError::UnclassifiedSites)
    } else if invalid > 0 {
        Some(ScanError::InvalidTargets { edges: invalid as u64 })
    } else {
        None
    }
}

fn node_index(nodes: &Vec<NodeRow>) -> (result: TextIndex)
    ensures
        result.keys() == node_row_ids(nodes@),
{
    let mut ids: Vec<String> = Vec::new();
    let mut i: usize = 0;
    while i < nodes.len()
        invariant
            i <= nodes.len(),
            ids.len() == i,
            forall|k: int| 0 <= k < i ==> (#[trigger] ids@[k])@ == nodes@[k].id@,
        decreases nodes.len() - i,
    {
        ids.push(nodes[i].id.clone());
        i = i + 1;
    }
    assert(texts(ids@) =~= node_row_ids(nodes@));
    TextIndex::new(ids)
}

fn site_row_index(sites: &Vec<SiteValidationRecord>) -> (result: TextIndex)
    ensures
        result.keys() == site_row_ids(sites@),
{
    let mut ids: Vec<String> = Vec::new();
    let mut i: usize = 0;
    while i < sites.len()
        invariant
            i <= sites.len(),
            ids.len() == i,
            forall|k: int| 0 <= k < i ==> (#[trigger] ids@[k])@ == sites@[k].id@,
        decreases sites.len() - i,
    {
        ids.push(sites[i].id.clone());
        i = i + 1;
    }
    assert(texts(ids@) =~= site_row_ids(sites@));
    TextIndex::new(ids)
}

fn count_sites(sites: &Vec<SiteValidationRecord>, status: &str) -> (result: u64)
    ensures
        result == sites_with(sites@, status@),
{
    let ghost keep = site_has_status(sites@, status@);
    let mut count: u64 = 0;
    let mut i: usize = 0;
    while i < sites.len()
        invariant
            i <= sites.len(),
            keep == site_has_status(sites@, status@),
            count == count_of(i as int, keep),
        decreases sites.len() - i,
    {
        proof {
            count_of_is_bounded(i as int, keep);
        }
        if same(sites[i].resolution_status.as_str(), status) {
            count = count + 1;
        }
        i = i + 1;
    }
    count
}

fn misclassified(status: &str, kind: &str) -> (result: bool)
    ensures
        result == is_misclassified(status@, kind@),
{
    (same(status, "resolved") && (same(kind, "external_system") || same(kind, "unknown_target"))) || (same(
        status,
        "external",
    ) && !same(kind, "external_system")) || (same(status, "unresolved") && !same(kind, "unknown_target"))
}

/// Checks the graph as a whole: every edge ends at nodes, every site has a known
/// resolution, and every target fits the resolution of its site.
pub fn check_graph(rows: &ScanRows) -> (result: Option<ScanError>)
    ensures
        result == graph_error(*rows),
{
    let nodes = node_index(&rows.nodes);
    let sites = site_row_index(&rows.sites);
    let mut missing: u64 = 0;
    let mut invalid: u64 = 0;
    let mut i: usize = 0;
    while i < rows.edges.len()
        invariant
            i <= rows.edges.len(),
            nodes.keys() == node_row_ids(rows.nodes@),
            sites.keys() == site_row_ids(rows.sites@),
            missing == count_of(i as int, lacks_endpoint(*rows)),
            invalid == count_of(i as int, has_invalid_target(*rows)),
        decreases rows.edges.len() - i,
    {
        proof {
            count_of_is_bounded(i as int, lacks_endpoint(*rows));
            count_of_is_bounded(i as int, has_invalid_target(*rows));
        }
        let edge = &rows.edges[i];
        if !nodes.contains(edge.source.as_str()) || !nodes.contains(edge.target.as_str()) {
            missing = missing + 1;
        }
        let wrong: bool = match &edge.site_id {
            Some(site_id) => match (sites.last(site_id.as_str()), nodes.last(edge.target.as_str())) {
                (Some(s), Some(n)) => misclassified(
                    rows.sites[s].resolution_status.as_str(),
                    rows.nodes[n].kind.as_str(),
                ),
                _ => false,
            },
            None => false,
        };
        if wrong {
            invalid = invalid + 1;
        }
        i = i + 1;
    }
    if missing > 0 {
        return Some(ScanError::MissingEndpoints { edges: missing });
    }
    let total: u128 = count_sites(&rows.sites, "resolved") as u128 + count_sites(&rows.sites, "candidates") as u128
        + count_sites(&rows.sites, "external") as u128 + count_sites(&rows.sites, "unresolved") as u128;
    if rows.sites.len() as u128 != total {
        return Some(ScanError::UnclassifiedSites);
    }
    if invalid > 0 {
        return Some(ScanError::InvalidTargets { edges: invalid });
    }
    None
}

// ---------------------------------------------------------------------------------------
// Sites and their edges
// ---------------------------------------------------------------------------------------

/// Which edges were resolved from some site.
pub open spec fn has_site(edges: Seq<EdgeValidationRecord>) -> spec_fn(int) -> bool {
    |i: int| edges[i].site_id is Some
}

/// The site that an edge was resolved from.
pub open spec fn site_of_edge(edges: Seq<EdgeValidationRecord>) -> spec_fn(int) -> Seq<char> {
    |i: int| edges[i].site_id->0@
}

/// Which edges were resolved from a site.
pub open spec fn is_from_site(edges: Seq<EdgeValidationRecord>, site_id: Seq<char>) -> spec_fn(int) -> bool {
    |i: int| edges[i].site_id is Some && edges[i].site_id->0@ == site_id
}

/// The positions of the edges that were resolved from a site, ascending.
pub open spec fn edges_from_site(edges: Seq<EdgeValidationRecord>, site_id: Seq<char>) -> Seq<int> {
    collect(edges.len() as int, is_from_site(edges, site_id), |i: int| i)
}

/// The targets of edges given by position.
pub open spec fn targets_at(edges: Seq<EdgeValidationRecord>, positions: Seq<int>) -> Seq<Seq<char>> {
    Seq::new(positions.len(), |i: int| edges[positions[i]].target@)
}

/// Whether a site and an edge disagree on what they both state.
pub open spec fn disagrees(site: SiteValidationRecord, edge: EdgeValidationRecord) -> bool {
    ||| edge.source@ != site.source@
    ||| edge.profile_id@ != site.profile_id@
    ||| edge.resolution_status@ != site.resolution_status@
    ||| edge.precision@ != site.precision@
}

/// The first of the first `count` edges that disagrees with the site.
pub open spec fn first_disagreement(
    site: SiteValidationRecord,
    edges: Seq<EdgeValidationRecord>,
    positions: Seq<int>,
    count: int,
) -> Option<int>
    decreases count,
{
    if count <= 0 {
        None
    } else {
        match first_disagreement(site, edges, positions, count - 1) {
            Some(p) => Some(p),
            None => if disagrees(site, edges[positions[count - 1]]) {
                Some(positions[count - 1])
            } else {
                None
            },
        }
    }
}

/// Whether a status is one of the four resolutions.
pub open spec fn is_resolution(status: Seq<char>) -> bool {
    status == "resolved"@ || status == "candidates"@ || status == "external"@ || status == "unresolved"@
}

/// Whether the numbers of targets and edges fit a resolution: one of each, or for
/// candidates as many edges as targets and at least one.
pub open spec fn fits_cardinality(status: Seq<char>, targets: nat, edges: nat) -> bool {
    ||| (status == "resolved"@ || status == "external"@ || status == "unresolved"@) && targets == 1 && edges == 1
    ||| status == "candidates"@ && targets > 0 && edges == targets
}

/// What is wrong with a site and the edges that were resolved from it.
pub open spec fn site_error(rows: ScanRows, s: int) -> Option<ScanError> {
    let site = rows.sites@[s];
    let targets = texts(site.target_ids@);
    let edges = edges_from_site(rows.edges@, site.id@);
    if !targets.no_duplicates() {
        Some(ScanError::DuplicateTargets { site: s as usize })
    } else if !fits_cardinality(site.resolution_status@, targets.len(), edges.len()) {
        if is_resolution(site.resolution_status@) {
            Some(
                ScanError::Cardinality {
                    site: s as usize,
                    targets: targets.len() as usize,
                    edges: edges.len() as usize,
                },
            )
        } else {
            Some(ScanError::UnknownStatus { site: s as usize })
        }
    } else if !same_members(targets, targets_at(rows.edges@, edges)) {
        Some(ScanError::TargetMismatch { site: s as usize })
    } else {
        match first_disagreement(site, rows.edges@, edges, edges.len() as int) {
            Some(e) => Some(ScanError::ContractMismatch { site: s as usize, edge: e as usize }),
            None => None,
        }
    }
}

/// What is wrong with the first faulty of the first `count` sites.
pub open spec fn first_site_error(rows: ScanRows, count: int) -> Option<ScanError>
    decreases count,
{
    if count <= 0 {
        None
    } else {
        match first_site_error(rows, count - 1) {
            Some(error) => Some(error),
            None => site_error(rows, count - 1),
        }
    }
}

/// The positions of the edges with a site, and the sites.
fn edges_with_site(edges: &Vec<EdgeValidationRecord>) -> (result: (Vec<usize>, Vec<String>))
    ensures
        result.0.len() == result.1.len(),
        ({
            let positions = collect(edges@.len() as int, has_site(edges@), |i: int| i);
            let sites = collect(edges@.len() as int, has_site(edges@), site_of_edge(edges@));
            &&& positions.len() == result.0.len()
            &&& texts(result.1@) == sites
            &&& forall|i: int| 0 <= i < result.0.len() ==> positions[i] == #[trigger] result.0@[i]
            &&& forall|i: int| 0 <= i < result.0.len() ==> (#[trigger] result.0@[i]) < edges.len()
        }),
{
    let ghost same_position = |i: int| i;
    let mut positions: Vec<usize> = Vec::new();
    let mut sites: Vec<String> = Vec::new();
    let mut i: usize = 0;
    assert(texts(sites@) =~= Seq::empty());
    while i < edges.len()
        invariant
            i <= edges.len(),
            same_position == (|i: int| i),
            positions.len() == sites.len(),
            collect(i as int, has_site(edges@), same_position).len() == positions.len(),
            texts(sites@) == collect(i as int, has_site(edges@), site_of_edge(edges@)),
            forall|k: int|
                0 <= k < positions.len() ==> collect(i as int, has_site(edges@), same_position)[k]
                    == #[trigger] positions@[k],
            forall|k: int| 0 <= k < positions.len() ==> (#[trigger] positions@[k]) < edges.len(),
        decreases edges.len() - i,
    {
        if let Some(site_id) = &edges[i].site_id {
            let ghost earlier = texts(sites@);
            positions.push(i);
            sites.push(site_id.clone());
            assert(texts(sites@) =~= earlier.push(site_id@));
        }
        i = i + 1;
    }
    (positions, sites)
}

proof fn positions_of_depends_on_prefix(a: Seq<Seq<char>>, b: Seq<Seq<char>>, key: Seq<char>, upto: int)
    requires
        upto <= a.len(),
        upto <= b.len(),
        forall|i: int| 0 <= i < upto ==> a[i] == b[i],
    ensures
        positions_of(a, key, upto) == positions_of(b, key, upto),
    decreases upto,
{
    if upto > 0 {
        positions_of_depends_on_prefix(a, b, key, upto - 1);
    }
}

/// The edges of a site are those edges with a site whose site it is.
proof fn edges_from_site_by_key(edges: Seq<EdgeValidationRecord>, site_id: Seq<char>, count: int)
    requires
        0 <= count <= edges.len(),
    ensures
        ({
            let same_position = |i: int| i;
            let linked = collect(count, has_site(edges), same_position);
            let keys = collect(count, has_site(edges), site_of_edge(edges));
            let found = positions_of(keys, site_id, keys.len() as int);
            &&& linked.len() == keys.len()
            &&& collect(count, is_from_site(edges, site_id), same_position) == Seq::new(
                found.len(),
                |k: int| linked[found[k]],
            )
            &&& forall|k: int| 0 <= k < found.len() ==> 0 <= #[trigger] found[k] < linked.len()
        }),
    decreases count,
{
    let same_position = |i: int| i;
    if count > 0 {
        edges_from_site_by_key(edges, site_id, count - 1);
        let linked0 = collect(count - 1, has_site(edges), same_position);
        let keys0 = collect(count - 1, has_site(edges), site_of_edge(edges));
        let found0 = positions_of(keys0, site_id, keys0.len() as int);
        let linked = collect(count, has_site(edges), same_position);
        let keys = collect(count, has_site(edges), site_of_edge(edges));
        let found = positions_of(keys, site_id, keys.len() as int);
        if has_site(edges)(count - 1) {
            positions_of_depends_on_prefix(keys0, keys, site_id, keys0.len() as int);
            assert(keys.len() == keys0.len() + 1);
            assert(found == if keys[keys.len() - 1] == site_id {
                found0.push(keys.len() - 1)
            } else {
                found0
            });
        }
        assert(collect(count, is_from_site(edges, site_id), same_position) =~= Seq::new(
            found.len(),
            |k: int| linked[found[k]],
        ));
    } else {
        assert(collect(count, is_from_site(edges, site_id), same_position) =~= Seq::new(
            0,
            |k: int| collect(count, has_site(edges), same_position)[positions_of(
                collect(count, has_site(edges), site_of_edge(edges)),
                site_id,
                0,
            )[k]],
        ));
    }
}

fn no_duplicate_texts(items: &Vec<String>) -> (result: bool)
    ensures
        result == texts(items@).no_duplicates(),
{
    let mut i: usize = 0;
    while i < items.len()
        invariant
            i <= items.len(),
            forall|a: int, b: int| 0 <= a < b < i ==> (#[trigger] items@[a])@ != (#[trigger] items@[b])@,
        decreases items.len() - i,
    {
        let mut j: usize = 0;
        while j < i
            invariant
                j <= i < items.len(),
                forall|a: int| 0 <= a < j ==> (#[trigger] items@[a])@ != items@[i as int]@,
            decreases i - j,
        {
            if items[j] == items[i] {
                assert(texts(items@)[j as int] == texts(items@)[i as int]);
                return false;
            }
            j = j + 1;
        }
        i = i + 1;
    }
    assert forall|a: int, b: int|
        0 <= a < texts(items@).len() && 0 <= b < texts(items@).len() && a != b implies texts(items@)[a]
        != texts(items@)[b] by {
        if a < b {
            assert(items@[a]@ != items@[b]@);
        } else {
            assert(items@[b]@ != items@[a]@);
        }
    }
    true
}

/// Whether two lists hold the same strings, whatever their order and number.
pub fn have_same_members(a: &Vec<String>, b: &Vec<String>) -> (result: bool)
    ensures
        result == same_members(texts(a@), texts(b@)),
{
    let left = sorted_set(copy_texts(a));
    let right = sorted_set(copy_texts(b));
    let result = same_texts(&left, &right);
    proof {
        let l = texts(left@);
        let r = texts(right@);
        if same_members(texts(a@), texts(b@)) {
            assert forall|x: Seq<char>| #[trigger] r.contains(x) <==> texts(a@).contains(x) by {
                assert(texts(a@).contains(x) <==> texts(b@).contains(x));
            }
            sorted_set_is_unique(l, r, texts(a@));
        }
        if l == r {
            assert forall|x: Seq<char>| texts(a@).contains(x) <==> texts(b@).contains(x) by {
                assert(l.contains(x) <==> texts(a@).contains(x));
                assert(r.contains(x) <==> texts(b@).contains(x));
            }
        }
    }
    result
}

fn cardinality_fits(status: &str, targets: usize, edges: usize) -> (result: bool)
    ensures
        result == fits_cardinality(status@, targets as nat, edges as nat),
{
    ((same(status, "resolved") || same(status, "external") || same(status, "unresolved")) && targets == 1 && edges
        == 1) || (same(status, "candidates") && targets > 0 && edges == targets)
}

/// Checks one site against the edges that were resolved from it, given by position.
fn check_site(rows: &ScanRows, s: usize, edges: &Vec<usize>) -> (result: Option<ScanError>)
    requires
        s < rows.sites.len(),
        forall|i: int| 0 <= i < edges.len() ==> (#[trigger] edges@[i]) < rows.edges.len(),
        Seq::new(edges@.len(), |i: int| edges@[i] as int) == edges_from_site(rows.edges@, rows.sites@[s as int].id@),
    ensures
        result == site_error(*rows, s as int),
{
    let site = &rows.sites[s];
    let ghost positions = edges_from_site(rows.edges@, site.id@);
    assert(positions.len() == edges@.len());
    assert forall|i: int| 0 <= i < edges.len() implies positions[i] == #[trigger] edges@[i] by {
        assert(Seq::new(edges@.len(), |i: int| edges@[i] as int)[i] == edges@[i]);
    }
    if !no_duplicate_texts(&site.target_ids) {
        return Some(ScanError::DuplicateTargets { site: s });
    }
    let status = site.resolution_status.as_str();
    if !cardinality_fits(status, site.target_ids.len(), edges.len()) {
        if same(status, "resolved") || same(status, "candidates") || same(status, "external") || same(
            status,
            "unresolved",
        ) {
            return Some(
                ScanError::Cardinality { site: s, targets: site.target_ids.len(), edges: edges.len() },
            );
        }
        return Some(ScanError::UnknownStatus { site: s });
    }
    let mut targets: Vec<String> = Vec::new();
    let mut i: usize = 0;
    while i < edges.len()
        invariant
            i <= edges.len(),
            positions.len() == edges@.len(),
            forall|k: int| 0 <= k < edges.len() ==> positions[k] == #[trigger] edges@[k],
            forall|k: int| 0 <= k < edges.len() ==> (#[trigger] edges@[k]) < rows.edges.len(),
            targets.len() == i,
            forall|k: int| 0 <= k < i ==> (#[trigger] targets@[k])@ == rows.edges@[positions[k]].target@,
        decreases edges.len() - i,
    {
        assert(positions[i as int] == edges@[i as int]);
        targets.push(rows.edges[edges[i]].target.clone());
        i = i + 1;
    }
    assert(texts(targets@) =~= targets_at(rows.edges@, positions));
    if !have_same_members(&site.target_ids, &targets) {
        return Some(ScanError::TargetMismatch { site: s });
    }
    match find_disagreement(rows, site, edges, Ghost(positions)) {
        Some(edge) => Some(ScanError::ContractMismatch { site: s, edge }),
        None => None,
    }
}

fn find_disagreement(
    rows: &ScanRows,
    site: &SiteValidationRecord,
    edges: &Vec<usize>,
    Ghost(positions): Ghost<Seq<int>>,
) -> (result: Option<usize>)
    requires
        positions.len() == edges@.len(),
        forall|k: int| 0 <= k < edges.len() ==> positions[k] == #[trigger] edges@[k],
        forall|k: int| 0 <= k < edges.len() ==> (#[trigger] edges@[k]) < rows.edges.len(),
    ensures
        match result {
            Some(e) => first_disagreement(*site, rows.edges@, positions, positions.len() as int) == Some(e as int),
            None => first_disagreement(*site, rows.edges@, positions, positions.len() as int) is None,
        },
{
    let mut i: usize = 0;
    while i < edges.len()
        invariant
            i <= edges.len(),
            positions.len() == edges@.len(),
            forall|k: int| 0 <= k < edges.len() ==> positions[k] == #[trigger] edges@[k],
            forall|k: int| 0 <= k < edges.len() ==> (#[trigger] edges@[k]) < rows.edges.len(),
            first_disagreement(*site, rows.edges@, positions, i as int) is None,
        decreases edges.len() - i,
    {
        assert(positions[i as int] == edges@[i as int]);
        let edge = &rows.edges[edges[i]];
        if edge.source != site.source || edge.profile_id != site.profile_id || edge.resolution_status
            != site.resolution_status || edge.precision != site.precision {
            proof {
                first_disagreement_remains(*site, rows.edges@, positions, i + 1, positions.len() as int);
            }
            return Some(edges[i]);
        }
        i = i + 1;
    }
    None
}

proof fn first_disagreement_remains(
    site: SiteValidationRecord,
    edges: Seq<EdgeValidationRecord>,
    positions: Seq<int>,
    a: int,
    b: int,
)
    requires
        a <= b,
        first_disagreement(site, edges, positions, a) is Some,
    ensures
        first_disagreement(site, edges, positions, b) == first_disagreement(site, edges, positions, a),
    decreases b - a,
{
    if a < b {
        first_disagreement_remains(site, edges, positions, a, b - 1);
    }
}

proof fn first_site_error_remains(rows: ScanRows, a: int, b: int)
    requires
        a <= b,
        first_site_error(rows, a) is Some,
    ensures
        first_site_error(rows, b) == first_site_error(rows, a),
    decreases b - a,
{
    if a < b {
        first_site_error_remains(rows, a, b - 1);
    }
}

/// Checks each site against the edges that were resolved from it.
pub fn check_sites(rows: &ScanRows) -> (result: Option<ScanError>)
    ensures
        result == first_site_error(*rows, rows.sites@.len() as int),
{
    let (positions, keys) = edges_with_site(&rows.edges);
    let ghost key_texts = texts(keys@);
    let index = TextIndex::new(keys);
    let mut s: usize = 0;
    while s < rows.sites.len()
        invariant
            s <= rows.sites.len(),
            index.keys() == key_texts,
            key_texts == collect(rows.edges@.len() as int, has_site(rows.edges@), site_of_edge(rows.edges@)),
            positions.len() == key_texts.len(),
            forall|i: int|
                0 <= i < positions.len() ==> collect(rows.edges@.len() as int, has_site(rows.edges@), |i: int| i)[i]
                    == #[trigger] positions@[i],
            forall|i: int| 0 <= i < positions.len() ==> (#[trigger] positions@[i]) < rows.edges.len(),
            first_site_error(*rows, s as int) is None,
        decreases rows.sites.len() - s,
    {
        let found = index.positions(rows.sites[s].id.as_str());
        let ghost site_id = rows.sites@[s as int].id@;
        let ghost members = positions_of(key_texts, site_id, key_texts.len() as int);
        let ghost linked = collect(rows.edges@.len() as int, has_site(rows.edges@), |i: int| i);
        proof {
            edges_from_site_by_key(rows.edges@, site_id, rows.edges@.len() as int);
            let listed = Seq::new(found@.len(), |i: int| found@[i] as int);
            assert(listed == members);
            assert forall|k: int| 0 <= k < found.len() implies members[k] == #[trigger] found@[k] by {
                assert(listed[k] == found@[k]);
            }
        }
        let mut edges: Vec<usize> = Vec::new();
        let mut i: usize = 0;
        while i < found.len()
            invariant
                i <= found.len(),
                found.len() == members.len(),
                positions.len() == key_texts.len(),
                forall|k: int| 0 <= k < found.len() ==> members[k] == #[trigger] found@[k],
                forall|k: int| 0 <= k < found.len() ==> (#[trigger] found@[k]) < key_texts.len(),
                forall|i: int| 0 <= i < positions.len() ==> linked[i] == #[trigger] positions@[i],
                forall|i: int| 0 <= i < positions.len() ==> (#[trigger] positions@[i]) < rows.edges.len(),
                edges.len() == i,
                forall|k: int| 0 <= k < i ==> (#[trigger] edges@[k]) < rows.edges.len(),
                forall|k: int| 0 <= k < i ==> linked[members[k]] == #[trigger] edges@[k],
            decreases found.len() - i,
        {
            assert(members[i as int] == found@[i as int]);
            assert(linked[found@[i as int] as int] == positions@[found@[i as int] as int]);
            edges.push(positions[found[i]]);
            i = i + 1;
        }
        assert(Seq::new(edges@.len(), |i: int| edges@[i] as int) =~= edges_from_site(rows.edges@, site_id));
        let error = check_site(rows, s, &edges);
        if error.is_some() {
            proof {
                first_site_error_remains(*rows, s + 1, rows.sites@.len() as int);
            }
            return error;
        }
        s = s + 1;
    }
    None
}

// ---------------------------------------------------------------------------------------
// Coverage
// ---------------------------------------------------------------------------------------

/// A counter that does not match.
pub open spec fn mismatch(field: CoverageField, reported: u64, observed: nat) -> Option<ScanError> {
    if reported != observed {
        Some(ScanError::CountMismatch { field, reported, observed: observed as u64 })
    } else {
        None
    }
}

/// The first of two errors.
pub open spec fn or_error(first: Option<ScanError>, second: Option<ScanError>) -> Option<ScanError> {
    match first {
        Some(error) => Some(error),
        None => second,
    }
}

/// What is wrong with the totals of the final coverage.
pub open spec fn total_error(rows: ScanRows, coverage: CoverageRecord) -> Option<ScanError> {
    let sites = rows.sites@;
    if !texts(coverage.completeness@).no_duplicates() {
        Some(ScanError::DuplicateCompleteness)
    } else {
        or_error(
            mismatch(CoverageField::Profiles, coverage.profiles, rows.profile_count as nat),
            or_error(
                mismatch(CoverageField::DependencySites, coverage.dependency_sites, sites.len()),
                or_error(
                    mismatch(CoverageField::Resolved, coverage.resolved, sites_with(sites, "resolved"@)),
                    or_error(
                        mismatch(CoverageField::Candidates, coverage.candidates, sites_with(sites, "candidates"@)),
                        or_error(
                            mismatch(CoverageField::External, coverage.external, sites_with(sites, "external"@)),
                            or_error(
                                mismatch(
                                    CoverageField::Unresolved,
                                    coverage.unresolved,
                                    sites_with(sites, "unresolved"@),
                                ),
                                if rows.profile_coverage@.len() != rows.profile_count {
                                    Some(
                                        ScanError::ProfileCoverageMissing {
                                            profiles: rows.profile_count,
                                            records: rows.profile_coverage@.len() as u64,
                                        },
                                    )
                                } else {
                                    None
                                },
                            ),
                        ),
                    ),
                ),
            ),
        )
    }
}

fn check_count(field: CoverageField, reported: u64, observed: u64) -> (result: Option<ScanError>)
    ensures
        result == mismatch(field, reported, observed as nat),
{
    if reported != observed {
        Some(ScanError::CountMismatch { field, reported, observed })
    } else {
        None
    }
}

fn first_error(first: Option<ScanError>, second: Option<ScanError>) -> (result: Option<ScanError>)
    ensures
        result == or_error(first, second),
{
    match first {
        Some(error) => Some(error),
        None => second,
    }
}

/// Checks the totals of the final coverage against what is stored.
pub fn check_totals(rows: &ScanRows, coverage: &CoverageRecord) -> (result: Option<ScanError>)
    ensures
        result == total_error(*rows, *coverage),
{
    if !no_duplicate_texts(&coverage.completeness) {
        return Some(ScanError::DuplicateCompleteness);
    }
    let missing: Option<ScanError> = if rows.profile_coverage.len() as u64 != rows.profile_count {
        Some(
            ScanError::ProfileCoverageMissing {
                profiles: rows.profile_count,
                records: rows.profile_coverage.len() as u64,
            },
        )
    } else {
        None
    };
    let unresolved = check_count(
        CoverageField::Unresolved,
        coverage.unresolved,
        count_sites(&rows.sites, "unresolved"),
    );
    let external = check_count(CoverageField::External, coverage.external, count_sites(&rows.sites, "external"));
    let candidates = check_count(
        CoverageField::Candidates,
        coverage.candidates,
        count_sites(&rows.sites, "candidates"),
    );
    let resolved = check_count(CoverageField::Resolved, coverage.resolved, count_sites(&rows.sites, "resolved"));
    let sites = check_count(CoverageField::DependencySites, coverage.dependency_sites, rows.sites.len() as u64);
    let profiles = check_count(CoverageField::Profiles, coverage.profiles, rows.profile_count);
    first_error(
        profiles,
        first_error(
            sites,
            first_error(
                resolved,
                first_error(candidates, first_error(external, first_error(unresolved, missing))),
            ),
        ),
    )
}

/// Which sites belong to a profile.
pub open spec fn site_of_profile(
    sites: Seq<SiteValidationRecord>,
    profile_id: Seq<char>,
) -> spec_fn(int) -> bool {
    |i: int| sites[i].profile_id@ == profile_id
}

/// Which sites of a profile have a resolution.
pub open spec fn site_of_profile_with(
    sites: Seq<SiteValidationRecord>,
    profile_id: Seq<char>,
    status: Seq<char>,
) -> spec_fn(int) -> bool {
    |i: int| sites[i].profile_id@ == profile_id && sites[i].resolution_status@ == status
}

/// Whether the site counters of a profile's coverage are those of the stored sites.
pub open spec fn counts_profile_sites(
    sites: Seq<SiteValidationRecord>,
    profile_id: Seq<char>,
    coverage: CoverageRecord,
) -> bool {
    let n = sites.len() as int;
    &&& coverage.dependency_sites == count_of(n, site_of_profile(sites, profile_id))
    &&& coverage.resolved == count_of(n, site_of_profile_with(sites, profile_id, "resolved"@))
    &&& coverage.candidates == count_of(n, site_of_profile_with(sites, profile_id, "candidates"@))
    &&& coverage.external == count_of(n, site_of_profile_with(sites, profile_id, "external"@))
    &&& coverage.unresolved == count_of(n, site_of_profile_with(sites, profile_id, "unresolved"@))
}

/// What is wrong with the coverage of a profile.
pub open spec fn profile_error(rows: ScanRows, p: int) -> Option<ScanError> {
    let row = rows.profile_coverage@[p];
    if row.coverage.profiles != 1 {
        Some(ScanError::ProfileCountNotOne { profile: p as usize })
    } else if row.coverage.files_analyzed + row.coverage.files_skipped != row.coverage.files_discovered {
        Some(ScanError::ProfileFilesUnbalanced { profile: p as usize })
    } else if !texts(row.coverage.completeness@).no_duplicates() {
        Some(ScanError::ProfileDuplicateCompleteness { profile: p as usize })
    } else if !counts_profile_sites(rows.sites@, row.profile_id@, row.coverage) {
        Some(ScanError::ProfileSiteCounts { profile: p as usize })
    } else {
        None
    }
}

/// What is wrong with the first faulty of the first `count` profiles.
pub open spec fn first_profile_error(rows: ScanRows, count: int) -> Option<ScanError>
    decreases count,
{
    if count <= 0 {
        None
    } else {
        match first_profile_error(rows, count - 1) {
            Some(error) => Some(error),
            None => profile_error(rows, count - 1),
        }
    }
}

proof fn first_profile_error_remains(rows: ScanRows, a: int, b: int)
    requires
        a <= b,
        first_profile_error(rows, a) is Some,
    ensures
        first_profile_error(rows, b) == first_profile_error(rows, a),
    decreases b - a,
{
    if a < b {
        first_profile_error_remains(rows, a, b - 1);
    }
}

fn profile_sites_are_counted(
    sites: &Vec<SiteValidationRecord>,
    profile_id: &String,
    coverage: &CoverageRecord,
) -> (result: bool)
    ensures
        result == counts_profile_sites(sites@, profile_id@, *coverage),
{
    let ghost p = profile_id@;
    let ghost s = sites@;
    let mut total: u64 = 0;
    let mut resolved: u64 = 0;
    let mut candidates: u64 = 0;
    let mut external: u64 = 0;
    let mut unresolved: u64 = 0;
    let mut i: usize = 0;
    while i < sites.len()
        invariant
            i <= sites.len(),
            p == profile_id@,
            s == sites@,
            total == count_of(i as int, site_of_profile(s, p)),
            resolved == count_of(i as int, site_of_profile_with(s, p, "resolved"@)),
            candidates == count_of(i as int, site_of_profile_with(s, p, "candidates"@)),
            external == count_of(i as int, site_of_profile_with(s, p, "external"@)),
            unresolved == count_of(i as int, site_of_profile_with(s, p, "unresolved"@)),
        decreases sites.len() - i,
    {
        proof {
            count_of_is_bounded(i as int, site_of_profile(s, p));
            count_of_is_bounded(i as int, site_of_profile_with(s, p, "resolved"@));
            count_of_is_bounded(i as int, site_of_profile_with(s, p, "candidates"@));
            count_of_is_bounded(i as int, site_of_profile_with(s, p, "external"@));
            count_of_is_bounded(i as int, site_of_profile_with(s, p, "unresolved"@));
        }
        if sites[i].profile_id == *profile_id {
            total = total + 1;
            if same(sites[i].resolution_status.as_str(), "resolved") {
                resolved = resolved + 1;
            }
            if same(sites[i].resolution_status.as_str(), "candidates") {
                candidates = candidates + 1;
            }
            if same(sites[i].resolution_status.as_str(), "external") {
                external = external + 1;
            }
            if same(sites[i].resolution_status.as_str(), "unresolved") {
                unresolved = unresolved + 1;
            }
        }
        i = i + 1;
    }
    coverage.dependency_sites == total && coverage.resolved == resolved && coverage.candidates == candidates
        && coverage.external == external && coverage.unresolved == unresolved
}

/// Checks the coverage of each profile.
pub fn check_profiles(rows: &ScanRows) -> (result: Option<ScanError>)
    ensures
        result == first_profile_error(*rows, rows.profile_coverage@.len() as int),
{
    let mut p: usize = 0;
    while p < rows.profile_coverage.len()
        invariant
            p <= rows.profile_coverage.len(),
            first_profile_error(*rows, p as int) is None,
        decreases rows.profile_coverage.len() - p,
    {
        let row = &rows.profile_coverage[p];
        let error: Option<ScanError> = if row.coverage.profiles != 1 {
            Some(ScanError::ProfileCountNotOne { profile: p })
        } else if row.coverage.files_analyzed as u128 + row.coverage.files_skipped as u128
            != row.coverage.files_discovered as u128 {
            Some(ScanError::ProfileFilesUnbalanced { profile: p })
        } else if !no_duplicate_texts(&row.coverage.completeness) {
            Some(ScanError::ProfileDuplicateCompleteness { profile: p })
        } else if !profile_sites_are_counted(&rows.sites, &row.profile_id, &row.coverage) {
            Some(ScanError::ProfileSiteCounts { profile: p })
        } else {
            None
        };
        assert(error == profile_error(*rows, p as int));
        if error.is_some() {
            proof {
                first_profile_error_remains(*rows, p + 1, rows.profile_coverage@.len() as int);
            }
            return error;
        }
        p = p + 1;
    }
    None
}

/// Whether every profile reached a level.
pub open spec fn every_profile_reached(profiles: Seq<ProfileCoverageRow>, level: Seq<char>) -> bool {
    forall|p: int|
        0 <= p < profiles.len() ==> texts((#[trigger] profiles[p]).coverage.completeness@).contains(level)
}

/// Whether the levels of a scan are those that every profile reached.
pub open spec fn is_profile_intersection(levels: Seq<Seq<char>>, profiles: Seq<ProfileCoverageRow>) -> bool {
    forall|level: Seq<char>| levels.contains(level) <==> every_profile_reached(profiles, level)
}

fn reached_by_every_profile(profiles: &Vec<ProfileCoverageRow>, level: &str) -> (result: bool)
    ensures
        result == every_profile_reached(profiles@, level@),
{
    let mut p: usize = 0;
    while p < profiles.len()
        invariant
            p <= profiles.len(),
            forall|q: int|
                0 <= q < p ==> texts((#[trigger] profiles@[q]).coverage.completeness@).contains(level@),
        decreases profiles.len() - p,
    {
        if !contains_text(&profiles[p].coverage.completeness, level) {
            assert(!texts(profiles@[p as int].coverage.completeness@).contains(level@));
            return false;
        }
        p = p + 1;
    }
    true
}

fn levels_are_intersection(levels: &Vec<String>, profiles: &Vec<ProfileCoverageRow>) -> (result: bool)
    requires
        profiles.len() > 0,
    ensures
        result == is_profile_intersection(texts(levels@), profiles@),
{
    let mut i: usize = 0;
    while i < levels.len()
        invariant
            i <= levels.len(),
            forall|k: int| 0 <= k < i ==> every_profile_reached(profiles@, #[trigger] texts(levels@)[k]),
        decreases levels.len() - i,
    {
        assert(texts(levels@)[i as int] == levels@[i as int]@);
        if !reached_by_every_profile(profiles, levels[i].as_str()) {
            assert(texts(levels@).contains(levels@[i as int]@));
            return false;
        }
        i = i + 1;
    }
    let first = &profiles[0].coverage.completeness;
    let mut i: usize = 0;
    while i < first.len()
        invariant
            i <= first.len(),
            forall|k: int|
                0 <= k < i ==> every_profile_reached(profiles@, #[trigger] texts(first@)[k]) ==> texts(
                    levels@,
                ).contains(texts(first@)[k]),
        decreases first.len() - i,
    {
        assert(texts(first@)[i as int] == first@[i as int]@);
        if reached_by_every_profile(profiles, first[i].as_str()) && !contains_text(levels, first[i].as_str()) {
            assert(every_profile_reached(profiles@, first@[i as int]@));
            return false;
        }
        i = i + 1;
    }
    proof {
        assert forall|level: Seq<char>| texts(levels@).contains(level) <==> every_profile_reached(profiles@, level) by {
            if texts(levels@).contains(level) {
                let k = choose|k: int| 0 <= k < texts(levels@).len() && texts(levels@)[k] == level;
                assert(every_profile_reached(profiles@, texts(levels@)[k]));
            }
            if every_profile_reached(profiles@, level) {
                assert(texts(profiles@[0].coverage.completeness@).contains(level));
                let k = choose|k: int| 0 <= k < texts(first@).len() && texts(first@)[k] == level;
                assert(every_profile_reached(profiles@, texts(first@)[k]));
            }
        }
    }
    true
}

/// A counter of a profile's coverage.
pub open spec fn counter(coverage: CoverageRecord, field: CoverageField) -> u64 {
    match field {
        CoverageField::Profiles => coverage.profiles,
        CoverageField::DependencySites => coverage.dependency_sites,
        CoverageField::Resolved => coverage.resolved,
        CoverageField::Candidates => coverage.candidates,
        CoverageField::External => coverage.external,
        CoverageField::Unresolved => coverage.unresolved,
        CoverageField::FilesDiscovered => coverage.files_discovered,
        CoverageField::FilesAnalyzed => coverage.files_analyzed,
        CoverageField::FilesSkipped => coverage.files_skipped,
        CoverageField::UnsupportedSyntax => coverage.unsupported_syntax,
    }
}

/// The greatest value of a counter among the first `count` profiles; zero without any.
pub open spec fn profile_maximum(profiles: Seq<ProfileCoverageRow>, field: CoverageField, count: int) -> u64
    decreases count,
{
    if count <= 0 {
        0
    } else if counter(profiles[count - 1].coverage, field) > profile_maximum(profiles, field, count - 1) {
        counter(profiles[count - 1].coverage, field)
    } else {
        profile_maximum(profiles, field, count - 1)
    }
}

/// A total that stays below what some profile reported.
pub open spec fn below_maximum(
    coverage: CoverageRecord,
    profiles: Seq<ProfileCoverageRow>,
    field: CoverageField,
) -> Option<ScanError> {
    let minimum = profile_maximum(profiles, field, profiles.len() as int);
    if counter(coverage, field) < minimum {
        Some(ScanError::BelowProfileMaximum { field, reported: counter(coverage, field), minimum })
    } else {
        None
    }
}

/// Whether some profile executed project code.
pub open spec fn some_profile_executed(profiles: Seq<ProfileCoverageRow>) -> bool {
    exists|p: int| 0 <= p < profiles.len() && (#[trigger] profiles[p]).coverage.project_code_executed
}

/// What is wrong between the totals and the profiles.
pub open spec fn aggregate_error(rows: ScanRows, coverage: CoverageRecord) -> Option<ScanError> {
    let profiles = rows.profile_coverage@;
    if profiles.len() > 0 && !is_profile_intersection(texts(coverage.completeness@), profiles) {
        Some(ScanError::CompletenessMismatch)
    } else {
        or_error(
            below_maximum(coverage, profiles, CoverageField::FilesDiscovered),
            or_error(
                below_maximum(coverage, profiles, CoverageField::FilesAnalyzed),
                or_error(
                    below_maximum(coverage, profiles, CoverageField::FilesSkipped),
                    or_error(
                        below_maximum(coverage, profiles, CoverageField::UnsupportedSyntax),
                        if some_profile_executed(profiles) && !coverage.project_code_executed {
                            Some(ScanError::HiddenExecution)
                        } else {
                            None
                        },
                    ),
                ),
            ),
        )
    }
}

fn read_counter(coverage: &CoverageRecord, field: CoverageField) -> (result: u64)
    ensures
        result == counter(*coverage, field),
{
    match field {
        CoverageField::Profiles => coverage.profiles,
        CoverageField::DependencySites => coverage.dependency_sites,
        CoverageField::Resolved => coverage.resolved,
        CoverageField::Candidates => coverage.candidates,
        CoverageField::External => coverage.external,
        CoverageField::Unresolved => coverage.unresolved,
        CoverageField::FilesDiscovered => coverage.files_discovered,
        CoverageField::FilesAnalyzed => coverage.files_analyzed,
        CoverageField::FilesSkipped => coverage.files_skipped,
        CoverageField::UnsupportedSyntax => coverage.unsupported_syntax,
    }
}

fn check_maximum(
    coverage: &CoverageRecord,
    profiles: &Vec<ProfileCoverageRow>,
    field: CoverageField,
) -> (result: Option<ScanError>)
    ensures
        result == below_maximum(*coverage, profiles@, field),
{
    let mut minimum: u64 = 0;
    let mut p: usize = 0;
    while p < profiles.len()
        invariant
            p <= profiles.len(),
            minimum == profile_maximum(profiles@, field, p as int),
        decreases profiles.len() - p,
    {
        let value: u64 = read_counter(&profiles[p].coverage, field);
        if value > minimum {
            minimum = value;
        }
        p = p + 1;
    }
    let reported: u64 = read_counter(coverage, field);
    if reported < minimum {
        Some(ScanError::BelowProfileMaximum { field, reported, minimum })
    } else {
        None
    }
}

/// Checks the totals against the profiles.
pub fn check_aggregate(rows: &ScanRows, coverage: &CoverageRecord) -> (result: Option<ScanError>)
    ensures
        result == aggregate_error(*rows, *coverage),
{
    let profiles = &rows.profile_coverage;
    if profiles.len() > 0 && !levels_are_intersection(&coverage.completeness, profiles) {
        return Some(ScanError::CompletenessMismatch);
    }
    let mut executed: bool = false;
    let mut p: usize = 0;
    while p < profiles.len()
        invariant
            p <= profiles.len(),
            executed == exists|q: int| 0 <= q < p && (#[trigger] profiles@[q]).coverage.project_code_executed,
        decreases profiles.len() - p,
    {
        if profiles[p].coverage.project_code_executed {
            executed = true;
        }
        p = p + 1;
    }
    let hidden: Option<ScanError> = if executed && !coverage.project_code_executed {
        Some(ScanError::HiddenExecution)
    } else {
        None
    };
    first_error(
        check_maximum(coverage, profiles, CoverageField::FilesDiscovered),
        first_error(
            check_maximum(coverage, profiles, CoverageField::FilesAnalyzed),
            first_error(
                check_maximum(coverage, profiles, CoverageField::FilesSkipped),
                first_error(check_maximum(coverage, profiles, CoverageField::UnsupportedSyntax), hidden),
            ),
        ),
    )
}

// ---------------------------------------------------------------------------------------
// The file ledger
// ---------------------------------------------------------------------------------------

/// Which files were skipped.
pub open spec fn file_is_skipped(files: Seq<FileCoverageRecord>) -> spec_fn(int) -> bool {
    |i: int| files[i].skipped
}

/// Which files have more or fewer sites than they emitted and skipped.
pub open spec fn file_is_unbalanced(files: Seq<FileCoverageRecord>) -> spec_fn(int) -> bool {
    |i: int| files[i].discovered_sites != files[i].emitted_sites + files[i].skipped_sites
}

/// The sites that the first `count` files emitted.
pub open spec fn emitted_sites(files: Seq<FileCoverageRecord>, count: int) -> nat
    decreases count,
{
    if count <= 0 {
        0
    } else {
        emitted_sites(files, count - 1) + files[count - 1].emitted_sites as nat
    }
}

/// What is wrong with the file ledger.
pub open spec fn file_error(rows: ScanRows, coverage: CoverageRecord) -> Option<ScanError> {
    let files = rows.files@;
    let skipped = count_of(files.len() as int, file_is_skipped(files));
    let unbalanced = count_of(files.len() as int, file_is_unbalanced(files));
    if coverage.files_discovered != files.len() || coverage.files_skipped != skipped || coverage.files_analyzed
        != files.len() - skipped {
        Some(ScanError::FileLedgerMismatch)
    } else if emitted_sites(files, files.len() as int) > coverage.dependency_sites {
        Some(ScanError::FileLedgerExceedsSites)
    } else if unbalanced > 0 {
        Some(ScanError::InvalidFileLedgers { files: unbalanced as u64 })
    } else {
        None
    }
}

/// Checks the file ledger against the totals.
pub fn check_files(rows: &ScanRows, coverage: &CoverageRecord) -> (result: Option<ScanError>)
    ensures
        result == file_error(*rows, *coverage),
{
    let files = &rows.files;
    let mut skipped: u64 = 0;
    let mut unbalanced: u64 = 0;
    let mut emitted: u64 = 0;
    let mut exceeded: bool = false;
    let mut i: usize = 0;
    while i < files.len()
        invariant
            i <= files.len(),
            skipped == count_of(i as int, file_is_skipped(files@)),
            unbalanced == count_of(i as int, file_is_unbalanced(files@)),
            skipped <= i,
            exceeded ==> emitted_sites(files@, i as int) > coverage.dependency_sites,
            !exceeded ==> emitted == emitted_sites(files@, i as int) && emitted <= coverage.dependency_sites,
        decreases files.len() - i,
    {
        proof {
            count_of_is_bounded(i as int, file_is_unbalanced(files@));
        }
        let file = &files[i];
        if file.skipped {
            skipped = skipped + 1;
        }
        if file.discovered_sites as u128 != file.emitted_sites as u128 + file.skipped_sites as u128 {
            unbalanced = unbalanced + 1;
        }
        if !exceeded {
            match emitted.checked_add(file.emitted_sites) {
                Some(total) => {
                    emitted = total;
                    if total > coverage.dependency_sites {
                        exceeded = true;
                    }
                },
                None => {
                    exceeded = true;
                },
            }
        }
        i = i + 1;
    }
    if coverage.files_discovered != files.len() as u64 || coverage.files_skipped != skipped || coverage.files_analyzed
        != files.len() as u64 - skipped {
        return Some(ScanError::FileLedgerMismatch);
    }
    if exceeded {
        return Some(ScanError::FileLedgerExceedsSites);
    }
    if unbalanced > 0 {
        return Some(ScanError::InvalidFileLedgers { files: unbalanced });
    }
    None
}

// ---------------------------------------------------------------------------------------
// The scan
// ---------------------------------------------------------------------------------------

/// Why a scan is refused; nothing where it is complete and consistent.
pub open spec fn scan_error(rows: ScanRows) -> Option<ScanError> {
    or_error(
        graph_error(rows),
        or_error(
            first_site_error(rows, rows.sites@.len() as int),
            match rows.coverage {
                None => Some(ScanError::NoCoverage),
                Some(coverage) => or_error(
                    total_error(rows, coverage),
                    or_error(
                        first_profile_error(rows, rows.profile_coverage@.len() as int),
                        or_error(aggregate_error(rows, coverage), file_error(rows, coverage)),
                    ),
                ),
            },
        ),
    )
}

/// Accepts a scan exactly where it is complete and consistent; otherwise says what is
/// wrong first.
pub fn validate_scan(rows: &ScanRows) -> (result: Result<(), ScanError>)
    ensures
        match result {
            Ok(_) => scan_error(*rows) is None,
            Err(error) => scan_error(*rows) == Some(error),
        },
{
    if let Some(error) = check_graph(rows) {
        return Err(error);
    }
    if let Some(error) = check_sites(rows) {
        return Err(error);
    }
    let coverage = match &rows.coverage {
        None => {
            return Err(ScanError::NoCoverage);
        },
        Some(coverage) => coverage,
    };
    if let Some(error) = check_totals(rows, coverage) {
        return Err(error);
    }
    if let Some(error) = check_profiles(rows) {
        return Err(error);
    }
    if let Some(error) = check_aggregate(rows, coverage) {
        return Err(error);
    }
    if let Some(error) = check_files(rows, coverage) {
        return Err(error);
    }
    Ok(())
}

/// An accepted scan adds up: every edge ends at stored nodes, every dependency site is
/// resolved in one of four ways, every file is analyzed or skipped, and a scan with
/// profiles claims exactly the levels that every profile reached.
pub proof fn accepted_scan_adds_up(rows: ScanRows)
    requires
        scan_error(rows) is None,
    ensures
        rows.coverage is Some,
        ({
            let coverage = rows.coverage->0;
            &&& coverage.dependency_sites == rows.sites@.len()
            &&& coverage.dependency_sites == coverage.resolved + coverage.candidates + coverage.external
                + coverage.unresolved
            &&& coverage.files_discovered == coverage.files_analyzed + coverage.files_skipped
            &&& rows.profile_coverage@.len() > 0 ==> is_profile_intersection(
                texts(coverage.completeness@),
                rows.profile_coverage@,
            )
        }),
        forall|i: int|
            0 <= i < rows.edges@.len() ==> node_row_ids(rows.nodes@).contains((#[trigger] rows.edges@[i]).source@)
                && node_row_ids(rows.nodes@).contains(rows.edges@[i].target@),
{
    crate::order::count_of_none(rows.edges@.len() as int, lacks_endpoint(rows));
    assert forall|i: int| 0 <= i < rows.edges@.len() implies node_row_ids(rows.nodes@).contains(
        (#[trigger] rows.edges@[i]).source@,
    ) && node_row_ids(rows.nodes@).contains(rows.edges@[i].target@) by {
        assert(!lacks_endpoint(rows)(i));
    }
    count_of_is_bounded(rows.files@.len() as int, file_is_skipped(rows.files@));
}

} // verus!

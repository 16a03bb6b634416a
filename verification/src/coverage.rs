//! Coverage arithmetic: uniting, subtracting, merging and observing coverage.

use vstd::prelude::*;

use crate::json::JsonModel;
use crate::order::{
    ascending_lists_are_determined_by_their_members, collect, collect_holds_the_kept_items, count_of,
    count_of_is_bounded, is_sorted_set, selections_are_counted, sorted_list, sorted_list_is, sorted_set, views,
};
use crate::records::{CoverageModel, CoverageRecord, SiteRecord};
use crate::text::{copy_texts, same, texts};
use crate::written::{
    contains_value, copy_written, holds_value, is_ordered_once, is_written_in_one_way, ordered_once,
    ordered_texts_ascend, ordering_keeps_the_values, texts_of, WrittenJson, WrittenModel,
};

verus! {

/// The sum of two counters, or the greatest number there is.
pub open spec fn sum_or_max(a: u64, b: u64) -> u64 {
    if a + b > u64::MAX {
        u64::MAX
    } else {
        (a + b) as u64
    }
}

/// The difference of two counters, or zero.
pub open spec fn difference_or_zero(a: u64, b: nat) -> u64 {
    if a < b {
        0
    } else {
        (a - b) as u64
    }
}

fn united(a: &Vec<String>, b: &Vec<String>) -> (result: Vec<String>)
    ensures
        is_sorted_set(texts(result@), texts(a@) + texts(b@)),
{
    let mut all = copy_texts(a);
    let mut more = copy_texts(b);
    let ghost left = all@;
    let ghost right = more@;
    all.append(&mut more);
    assert(texts(all@) =~= texts(left) + texts(right));
    sorted_set(all)
}

// ---------------------------------------------------------------------------------------
// Uniting
// ---------------------------------------------------------------------------------------

/// Whether `after` is `before` with what a build or a profile of a build adds: the site
/// counters summed, and levels and reasons united, each once, ascending. Profiles and
/// files stay as they are.
pub open spec fn is_coverage_union(before: CoverageModel, delta: CoverageModel, after: CoverageModel) -> bool {
    &&& is_sorted_set(after.completeness, before.completeness + delta.completeness)
    &&& is_sorted_set(after.reasons, before.reasons + delta.reasons)
    &&& after == (CoverageModel {
        dependency_sites: sum_or_max(before.dependency_sites, delta.dependency_sites),
        resolved: sum_or_max(before.resolved, delta.resolved),
        candidates: sum_or_max(before.candidates, delta.candidates),
        external: sum_or_max(before.external, delta.external),
        unresolved: sum_or_max(before.unresolved, delta.unresolved),
        unsupported_syntax: sum_or_max(before.unsupported_syntax, delta.unsupported_syntax),
        project_code_executed: before.project_code_executed || delta.project_code_executed,
        completeness: after.completeness,
        reasons: after.reasons,
        ..before
    })
}

/// Coverage united with that of a build.
pub open spec fn coverage_union(before: CoverageModel, delta: CoverageModel) -> CoverageModel {
    CoverageModel {
        dependency_sites: sum_or_max(before.dependency_sites, delta.dependency_sites),
        resolved: sum_or_max(before.resolved, delta.resolved),
        candidates: sum_or_max(before.candidates, delta.candidates),
        external: sum_or_max(before.external, delta.external),
        unresolved: sum_or_max(before.unresolved, delta.unresolved),
        unsupported_syntax: sum_or_max(before.unsupported_syntax, delta.unsupported_syntax),
        project_code_executed: before.project_code_executed || delta.project_code_executed,
        completeness: sorted_list(before.completeness + delta.completeness),
        reasons: sorted_list(before.reasons + delta.reasons),
        ..before
    }
}

/// The union of coverage is unique.
pub proof fn coverage_union_is_unique(before: CoverageModel, delta: CoverageModel, after: CoverageModel)
    requires
        is_coverage_union(before, delta, after),
    ensures
        after == coverage_union(before, delta),
{
    sorted_list_is(after.completeness, before.completeness + delta.completeness);
    sorted_list_is(after.reasons, before.reasons + delta.reasons);
}

/// Unites coverage with that of a build.
pub fn union_coverage(target: &mut CoverageRecord, delta: &CoverageRecord)
    ensures
        is_coverage_union(old(target)@, delta@, final(target)@),
{
    target.dependency_sites = target.dependency_sites.saturating_add(delta.dependency_sites);
    target.resolved = target.resolved.saturating_add(delta.resolved);
    target.candidates = target.candidates.saturating_add(delta.candidates);
    target.external = target.external.saturating_add(delta.external);
    target.unresolved = target.unresolved.saturating_add(delta.unresolved);
    target.unsupported_syntax = target.unsupported_syntax.saturating_add(delta.unsupported_syntax);
    target.project_code_executed = target.project_code_executed || delta.project_code_executed;
    target.completeness = united(&target.completeness, &delta.completeness);
    target.reasons = united(&target.reasons, &delta.reasons);
}

/// Whether `after` is `before` with what a runtime session says of the whole: counters of
/// sites stay as they are.
pub open spec fn is_metadata_union(before: CoverageModel, session: CoverageModel, after: CoverageModel) -> bool {
    &&& is_sorted_set(after.completeness, before.completeness + session.completeness)
    &&& is_sorted_set(after.reasons, before.reasons + session.reasons)
    &&& after == (CoverageModel {
        unsupported_syntax: sum_or_max(before.unsupported_syntax, session.unsupported_syntax),
        project_code_executed: before.project_code_executed || session.project_code_executed,
        completeness: after.completeness,
        reasons: after.reasons,
        ..before
    })
}

/// Coverage with what a runtime session says of the whole.
pub open spec fn metadata_union(before: CoverageModel, session: CoverageModel) -> CoverageModel {
    CoverageModel {
        unsupported_syntax: sum_or_max(before.unsupported_syntax, session.unsupported_syntax),
        project_code_executed: before.project_code_executed || session.project_code_executed,
        completeness: sorted_list(before.completeness + session.completeness),
        reasons: sorted_list(before.reasons + session.reasons),
        ..before
    }
}

/// The union with a runtime session is unique.
pub proof fn metadata_union_is_unique(before: CoverageModel, session: CoverageModel, after: CoverageModel)
    requires
        is_metadata_union(before, session, after),
    ensures
        after == metadata_union(before, session),
{
    sorted_list_is(after.completeness, before.completeness + session.completeness);
    sorted_list_is(after.reasons, before.reasons + session.reasons);
}

/// Unites what coverage says of the whole with that of a runtime session.
pub fn union_runtime_coverage_metadata(target: &mut CoverageRecord, session: &CoverageRecord)
    ensures
        is_metadata_union(old(target)@, session@, final(target)@),
{
    target.unsupported_syntax = target.unsupported_syntax.saturating_add(session.unsupported_syntax);
    target.project_code_executed = target.project_code_executed || session.project_code_executed;
    target.completeness = united(&target.completeness, &session.completeness);
    target.reasons = united(&target.reasons, &session.reasons);
}

/// Whether `after` is `before` without its levels and with one more reason, the reasons
/// each once, ascending.
pub open spec fn is_incomplete_for(before: CoverageModel, reason: Seq<char>, after: CoverageModel) -> bool {
    &&& is_sorted_set(after.reasons, before.reasons.push(reason))
    &&& after == (CoverageModel { completeness: Seq::empty(), reasons: after.reasons, ..before })
}

/// Withdraws every level of completeness for a reason.
pub fn mark_coverage_incomplete(coverage: &mut CoverageRecord, reason: &str)
    ensures
        is_incomplete_for(old(coverage)@, reason@, final(coverage)@),
{
    coverage.completeness = Vec::new();
    assert(texts(coverage.completeness@) =~= Seq::empty());
    let mut reasons = copy_texts(&coverage.reasons);
    let ghost before = texts(reasons@);
    reasons.push(String::from_str(reason));
    assert(texts(reasons@) =~= before.push(reason@));
    coverage.reasons = sorted_set(reasons);
}

// ---------------------------------------------------------------------------------------
// Subtracting
// ---------------------------------------------------------------------------------------

/// The resolutions of sites.
pub open spec fn site_statuses(sites: Seq<SiteRecord>) -> Seq<Seq<char>> {
    Seq::new(sites.len(), |i: int| sites[i].resolution_status@)
}

/// Which resolutions are the given one.
pub open spec fn is_status(statuses: Seq<Seq<char>>, status: Seq<char>) -> spec_fn(int) -> bool {
    |i: int| statuses[i] == status
}

/// How often a resolution occurs.
pub open spec fn resolved_as(statuses: Seq<Seq<char>>, status: Seq<char>) -> nat {
    count_of(statuses.len() as int, is_status(statuses, status))
}

/// Coverage without sites with the given resolutions. Where no site is left, neither are
/// unsupported syntax and reasons.
pub open spec fn without_sites(coverage: CoverageModel, statuses: Seq<Seq<char>>) -> CoverageModel {
    let left = difference_or_zero(coverage.dependency_sites, statuses.len());
    CoverageModel {
        dependency_sites: left,
        resolved: difference_or_zero(coverage.resolved, resolved_as(statuses, "resolved"@)),
        candidates: difference_or_zero(coverage.candidates, resolved_as(statuses, "candidates"@)),
        external: difference_or_zero(coverage.external, resolved_as(statuses, "external"@)),
        unresolved: difference_or_zero(coverage.unresolved, resolved_as(statuses, "unresolved"@)),
        unsupported_syntax: if left == 0 {
            0
        } else {
            coverage.unsupported_syntax
        },
        reasons: if left == 0 {
            Seq::empty()
        } else {
            coverage.reasons
        },
        ..coverage
    }
}

/// How often a resolution occurs.
pub fn count_status(statuses: &Vec<String>, status: &str) -> (result: u64)
    ensures
        result == resolved_as(texts(statuses@), status@),
{
    let ghost s = texts(statuses@);
    let ghost keep = is_status(s, status@);
    let mut count: u64 = 0;
    let mut i: usize = 0;
    while i < statuses.len()
        invariant
            i <= statuses.len(),
            s == texts(statuses@),
            keep == is_status(s, status@),
            count == count_of(i as int, keep),
        decreases statuses.len() - i,
    {
        proof {
            count_of_is_bounded(i as int, keep);
        }
        assert(s[i as int] == statuses@[i as int]@);
        if same(statuses[i].as_str(), status) {
            count = count + 1;
        }
        i = i + 1;
    }
    count
}

/// The resolutions of sites.
pub fn statuses(sites: &Vec<SiteRecord>) -> (result: Vec<String>)
    ensures
        texts(result@) == site_statuses(sites@),
{
    let mut result: Vec<String> = Vec::new();
    let mut i: usize = 0;
    while i < sites.len()
        invariant
            i <= sites.len(),
            result.len() == i,
            forall|k: int| 0 <= k < i ==> (#[trigger] result@[k])@ == sites@[k].resolution_status@,
        decreases sites.len() - i,
    {
        result.push(sites[i].resolution_status.clone());
        i = i + 1;
    }
    assert(texts(result@) =~= site_statuses(sites@));
    result
}

/// Takes sites with the given resolutions out of coverage.
pub fn subtract_site_coverage(coverage: &mut CoverageRecord, statuses: &Vec<String>)
    ensures
        final(coverage)@ == without_sites(old(coverage)@, texts(statuses@)),
{
    coverage.dependency_sites = coverage.dependency_sites.saturating_sub(statuses.len() as u64);
    coverage.resolved = coverage.resolved.saturating_sub(count_status(statuses, "resolved"));
    coverage.candidates = coverage.candidates.saturating_sub(count_status(statuses, "candidates"));
    coverage.external = coverage.external.saturating_sub(count_status(statuses, "external"));
    coverage.unresolved = coverage.unresolved.saturating_sub(count_status(statuses, "unresolved"));
    if coverage.dependency_sites == 0 {
        coverage.unsupported_syntax = 0;
        coverage.reasons = Vec::new();
        assert(texts(coverage.reasons@) =~= Seq::empty());
    }
}

// ---------------------------------------------------------------------------------------
// Observing
// ---------------------------------------------------------------------------------------

/// The coverage that the stored rows of a scan amount to: the counters of profiles, files
/// and sites are those observed; the rest is what was reported last, or nothing but a
/// reason where nothing was reported.
pub open spec fn observed_of(
    stored: Option<CoverageModel>,
    sites: Seq<SiteRecord>,
    profiles: u64,
    files: u64,
    skipped: u64,
    project_code_executed: bool,
) -> CoverageModel {
    let reported = match stored {
        Some(coverage) => coverage,
        None => CoverageModel {
            reasons: seq!["final worker coverage unavailable"@],
            ..crate::records::coverage_zero()
        },
    };
    CoverageModel {
        profiles,
        files_discovered: files,
        files_skipped: skipped,
        files_analyzed: (files - skipped) as u64,
        dependency_sites: sites.len() as u64,
        resolved: resolved_as(site_statuses(sites), "resolved"@) as u64,
        candidates: resolved_as(site_statuses(sites), "candidates"@) as u64,
        external: resolved_as(site_statuses(sites), "external"@) as u64,
        unresolved: resolved_as(site_statuses(sites), "unresolved"@) as u64,
        project_code_executed: reported.project_code_executed || project_code_executed,
        ..reported
    }
}

/// The coverage that the stored rows of a scan amount to.
pub fn observed_coverage(
    stored: Option<CoverageRecord>,
    sites: &Vec<SiteRecord>,
    profiles: u64,
    files: u64,
    skipped: u64,
    project_code_executed: bool,
) -> (result: CoverageRecord)
    requires
        skipped <= files,
    ensures
        result@ == observed_of(
            crate::records::opt_coverage(stored),
            sites@,
            profiles,
            files,
            skipped,
            project_code_executed,
        ),
{
    let mut coverage: CoverageRecord = match stored {
        Some(coverage) => coverage,
        None => {
            let mut coverage = CoverageRecord::default();
            coverage.reasons.push(String::from_str("final worker coverage unavailable"));
            assert(texts(coverage.reasons@) =~= seq!["final worker coverage unavailable"@]);
            coverage
        },
    };
    let found = statuses(sites);
    coverage.dependency_sites = sites.len() as u64;
    coverage.resolved = count_status(&found, "resolved");
    coverage.candidates = count_status(&found, "candidates");
    coverage.external = count_status(&found, "external");
    coverage.unresolved = count_status(&found, "unresolved");
    coverage.profiles = profiles;
    coverage.files_discovered = files;
    coverage.files_skipped = skipped;
    coverage.files_analyzed = files - skipped;
    coverage.project_code_executed = coverage.project_code_executed || project_code_executed;
    coverage
}

// ---------------------------------------------------------------------------------------
// Merging the reports of workers
// ---------------------------------------------------------------------------------------

/// What a worker reported of its part of a scan. Levels and reasons are JSON values with their
/// texts; an absent counter counts as zero.
#[derive(Debug, Clone, PartialEq)]
pub struct WorkerCoverage {
    pub profiles: u64,
    pub files_discovered: u64,
    pub files_analyzed: u64,
    pub files_skipped: u64,
    pub dependency_sites: u64,
    pub resolved: u64,
    pub candidates: u64,
    pub external: u64,
    pub unresolved: u64,
    pub unsupported_syntax: u64,
    pub project_code_executed: bool,
    pub completeness: Vec<WrittenJson>,
    pub reasons: Vec<WrittenJson>,
}

/// What a worker's report holds.
#[verifier::ext_equal]
pub struct WorkerModel {
    pub profiles: u64,
    pub files_discovered: u64,
    pub files_analyzed: u64,
    pub files_skipped: u64,
    pub dependency_sites: u64,
    pub resolved: u64,
    pub candidates: u64,
    pub external: u64,
    pub unresolved: u64,
    pub unsupported_syntax: u64,
    pub project_code_executed: bool,
    pub completeness: Seq<WrittenModel>,
    pub reasons: Seq<WrittenModel>,
}

impl View for WorkerCoverage {
    type V = WorkerModel;

    open spec fn view(&self) -> WorkerModel {
        WorkerModel {
            profiles: self.profiles,
            files_discovered: self.files_discovered,
            files_analyzed: self.files_analyzed,
            files_skipped: self.files_skipped,
            dependency_sites: self.dependency_sites,
            resolved: self.resolved,
            candidates: self.candidates,
            external: self.external,
            unresolved: self.unresolved,
            unsupported_syntax: self.unsupported_syntax,
            project_code_executed: self.project_code_executed,
            completeness: views(self.completeness@),
            reasons: views(self.reasons@),
        }
    }
}

/// Whether the counters of two reports can be added.
pub open spec fn counters_fit(a: WorkerModel, b: WorkerModel) -> bool {
    &&& a.profiles + b.profiles <= u64::MAX
    &&& a.files_discovered + b.files_discovered <= u64::MAX
    &&& a.files_analyzed + b.files_analyzed <= u64::MAX
    &&& a.files_skipped + b.files_skipped <= u64::MAX
    &&& a.dependency_sites + b.dependency_sites <= u64::MAX
    &&& a.resolved + b.resolved <= u64::MAX
    &&& a.candidates + b.candidates <= u64::MAX
    &&& a.external + b.external <= u64::MAX
    &&& a.unresolved + b.unresolved <= u64::MAX
    &&& a.unsupported_syntax + b.unsupported_syntax <= u64::MAX
}

/// The levels that stand in both lists, as they stand in the first.
pub open spec fn common_levels(a: Seq<WrittenModel>, b: Seq<WrittenModel>) -> Seq<WrittenModel> {
    collect(a.len() as int, level_is_common(a, b), |i: int| a[i])
}

/// Which levels of the first list stand in the second.
pub open spec fn level_is_common(a: Seq<WrittenModel>, b: Seq<WrittenModel>) -> spec_fn(int) -> bool {
    |i: int| holds_value(b, a[i].value)
}

/// Whether a report merges two others: counters added, execution reported if either did,
/// the levels that both reached, and the reasons of either, in the order of their texts, without
/// those that repeat the one before them. A level is a guarantee about the whole scan, so every
/// worker must have reached it.
pub open spec fn is_merge(merged: WorkerModel, a: WorkerModel, b: WorkerModel) -> bool {
    &&& merged.profiles == a.profiles + b.profiles
    &&& merged.files_discovered == a.files_discovered + b.files_discovered
    &&& merged.files_analyzed == a.files_analyzed + b.files_analyzed
    &&& merged.files_skipped == a.files_skipped + b.files_skipped
    &&& merged.dependency_sites == a.dependency_sites + b.dependency_sites
    &&& merged.resolved == a.resolved + b.resolved
    &&& merged.candidates == a.candidates + b.candidates
    &&& merged.external == a.external + b.external
    &&& merged.unresolved == a.unresolved + b.unresolved
    &&& merged.unsupported_syntax == a.unsupported_syntax + b.unsupported_syntax
    &&& merged.project_code_executed == (a.project_code_executed || b.project_code_executed)
    &&& is_ordered_once(common_levels(a.completeness, b.completeness), merged.completeness)
    &&& is_ordered_once(a.reasons + b.reasons, merged.reasons)
}

/// Merges the reports of two workers.
pub fn merge_coverage(left: &WorkerCoverage, right: &WorkerCoverage) -> (result: WorkerCoverage)
    requires
        counters_fit(left@, right@),
    ensures
        is_merge(result@, left@, right@),
{
    let ghost a = views(left.completeness@);
    let ghost b = views(right.completeness@);
    let mut common: Vec<WrittenJson> = Vec::new();
    let mut i: usize = 0;
    let ghost item = |i: int| a[i];
    assert(views(common@) =~= collect(0, level_is_common(a, b), item));
    while i < left.completeness.len()
        invariant
            i <= left.completeness.len(),
            a == views(left.completeness@),
            b == views(right.completeness@),
            item == (|i: int| a[i]),
            views(common@) == collect(i as int, level_is_common(a, b), item),
        decreases left.completeness.len() - i,
    {
        assert(a[i as int] == left.completeness@[i as int]@);
        if contains_value(&right.completeness, &left.completeness[i].value) {
            let ghost earlier = views(common@);
            common.push(left.completeness[i].copy());
            assert(views(common@) =~= earlier.push(a[i as int]));
        }
        i = i + 1;
    }
    let mut reasons = copy_written(&left.reasons);
    let mut more = copy_written(&right.reasons);
    let ghost of_left = reasons@;
    let ghost of_right = more@;
    reasons.append(&mut more);
    assert(views(reasons@) =~= views(of_left) + views(of_right));
    WorkerCoverage {
        profiles: left.profiles + right.profiles,
        files_discovered: left.files_discovered + right.files_discovered,
        files_analyzed: left.files_analyzed + right.files_analyzed,
        files_skipped: left.files_skipped + right.files_skipped,
        dependency_sites: left.dependency_sites + right.dependency_sites,
        resolved: left.resolved + right.resolved,
        candidates: left.candidates + right.candidates,
        external: left.external + right.external,
        unresolved: left.unresolved + right.unresolved,
        unsupported_syntax: left.unsupported_syntax + right.unsupported_syntax,
        project_code_executed: left.project_code_executed || right.project_code_executed,
        completeness: ordered_once(common),
        reasons: ordered_once(reasons),
    }
}

// ---------------------------------------------------------------------------------------
// Laws
// ---------------------------------------------------------------------------------------

proof fn common_levels_are_in_both(a: Seq<WrittenModel>, b: Seq<WrittenModel>)
    ensures
        common_levels(a, b).len() <= a.len(),
        forall|i: int| 0 <= i < common_levels(a, b).len() ==> a.contains(#[trigger] common_levels(a, b)[i]),
        forall|value: JsonModel| #[trigger]
            holds_value(common_levels(a, b), value) <==> holds_value(a, value) && holds_value(b, value),
{
    let keep = level_is_common(a, b);
    let item = |i: int| a[i];
    let common = common_levels(a, b);
    selections_are_counted(a.len() as int, keep, item);
    count_of_is_bounded(a.len() as int, keep);
    assert forall|i: int| 0 <= i < common.len() implies a.contains(#[trigger] common[i]) && holds_value(
        b,
        common[i].value,
    ) by {
        collect_holds_the_kept_items(a.len() as int, keep, item, common[i]);
        assert(common.contains(common[i]));
        let k = choose|k: int| 0 <= k < a.len() && #[trigger] keep(k) && item(k) == common[i];
        assert(a[k] == common[i]);
    }
    assert forall|value: JsonModel| #[trigger] holds_value(common, value) <==> holds_value(a, value) && holds_value(
        b,
        value,
    ) by {
        if holds_value(common, value) {
            let i = choose|i: int| 0 <= i < common.len() && (#[trigger] common[i]).value.value() == value.value();
            assert(a.contains(common[i]));
            let k = choose|k: int| 0 <= k < a.len() && a[k] == common[i];
            assert(a[k].value.value() == value.value());
            let j = choose|j: int| 0 <= j < b.len() && (#[trigger] b[j]).value.value() == common[i].value.value();
            assert(b[j].value.value() == value.value());
        }
        if holds_value(a, value) && holds_value(b, value) {
            let k = choose|k: int| 0 <= k < a.len() && (#[trigger] a[k]).value.value() == value.value();
            let j = choose|j: int| 0 <= j < b.len() && (#[trigger] b[j]).value.value() == value.value();
            assert(b[j].value.value() == a[k].value.value());
            assert(keep(k));
            collect_holds_the_kept_items(a.len() as int, keep, item, a[k]);
            assert(item(k) == a[k]);
            assert(common.contains(a[k]));
            let i = choose|i: int| 0 <= i < common.len() && common[i] == a[k];
            assert(common[i].value.value() == value.value());
        }
    }
}

proof fn either_value_is_held(a: Seq<WrittenModel>, b: Seq<WrittenModel>)
    ensures
        forall|value: JsonModel| #[trigger]
            holds_value(a + b, value) <==> holds_value(a, value) || holds_value(b, value),
{
    let both = a + b;
    assert forall|value: JsonModel| #[trigger] holds_value(both, value) <==> holds_value(a, value) || holds_value(
        b,
        value,
    ) by {
        if holds_value(a, value) {
            let i = choose|i: int| 0 <= i < a.len() && (#[trigger] a[i]).value.value() == value.value();
            assert(both[i].value.value() == value.value());
        }
        if holds_value(b, value) {
            let i = choose|i: int| 0 <= i < b.len() && (#[trigger] b[i]).value.value() == value.value();
            assert(both[a.len() + i].value.value() == value.value());
        }
        if holds_value(both, value) {
            let i = choose|i: int| 0 <= i < both.len() && (#[trigger] both[i]).value.value() == value.value();
            if i < a.len() {
                assert(a[i].value.value() == value.value());
            } else {
                assert(b[i - a.len()].value.value() == value.value());
            }
        }
    }
}

proof fn either_holds(a: Seq<Seq<char>>, b: Seq<Seq<char>>, value: Seq<char>)
    ensures
        (a + b).contains(value) <==> a.contains(value) || b.contains(value),
{
    if a.contains(value) {
        let i = choose|i: int| 0 <= i < a.len() && a[i] == value;
        assert((a + b)[i] == value);
    }
    if b.contains(value) {
        let i = choose|i: int| 0 <= i < b.len() && b[i] == value;
        assert((a + b)[a.len() + i] == value);
    }
}

/// Whether the lists of reports fit in memory together.
pub open spec fn lists_fit(a: WorkerModel, b: WorkerModel) -> bool {
    &&& a.completeness.len() + b.completeness.len() <= usize::MAX
    &&& a.reasons.len() + b.reasons.len() <= usize::MAX
}

proof fn merge_has_the_values(merged: WorkerModel, a: WorkerModel, b: WorkerModel)
    requires
        is_merge(merged, a, b),
        lists_fit(a, b),
    ensures
        forall|i: int|
            0 <= i < merged.completeness.len() ==> a.completeness.contains(#[trigger] merged.completeness[i]),
        forall|i: int| 0 <= i < merged.reasons.len() ==> (a.reasons + b.reasons).contains(#[trigger] merged.reasons[i]),
        forall|level: JsonModel| #[trigger]
            holds_value(merged.completeness, level) <==> holds_value(a.completeness, level) && holds_value(
                b.completeness,
                level,
            ),
        forall|reason: JsonModel| #[trigger]
            holds_value(merged.reasons, reason) <==> holds_value(a.reasons, reason) || holds_value(b.reasons, reason),
{
    let common = common_levels(a.completeness, b.completeness);
    common_levels_are_in_both(a.completeness, b.completeness);
    ordering_keeps_the_values(common, merged.completeness);
    assert forall|i: int| 0 <= i < merged.completeness.len() implies a.completeness.contains(
        #[trigger] merged.completeness[i],
    ) by {
        assert(common.contains(merged.completeness[i]));
        let k = choose|k: int| 0 <= k < common.len() && common[k] == merged.completeness[i];
    }
    either_value_is_held(a.reasons, b.reasons);
    ordering_keeps_the_values(a.reasons + b.reasons, merged.reasons);
}

/// A merged report claims a level exactly where both workers do, and no reason is lost.
pub proof fn merge_claims_only_what_both_reached(merged: WorkerModel, a: WorkerModel, b: WorkerModel)
    requires
        is_merge(merged, a, b),
        lists_fit(a, b),
    ensures
        forall|level: JsonModel| #[trigger]
            holds_value(merged.completeness, level) <==> holds_value(a.completeness, level) && holds_value(
                b.completeness,
                level,
            ),
        forall|reason: JsonModel| #[trigger]
            holds_value(merged.reasons, reason) <==> holds_value(a.reasons, reason) || holds_value(b.reasons, reason),
{
    merge_has_the_values(merged, a, b);
}

proof fn part_is_written_in_one_way(all: Seq<WrittenModel>, part: Seq<WrittenModel>)
    requires
        is_written_in_one_way(all),
        forall|i: int| 0 <= i < part.len() ==> all.contains(#[trigger] part[i]),
    ensures
        is_written_in_one_way(part),
{
    assert forall|i: int, j: int|
        0 <= i < part.len() && 0 <= j < part.len() && ((#[trigger] part[i]).text == (#[trigger] part[j]).text
            || part[i].value.value() == part[j].value.value()) implies part[i] == part[j] by {
        let p = choose|p: int| 0 <= p < all.len() && all[p] == part[i];
        let q = choose|q: int| 0 <= q < all.len() && all[q] == part[j];
        assert(all[p] == all[q]);
    }
}

/// Two lists in order that hold the same values of one list are the same, where that list is
/// written in one way.
proof fn ordered_lists_agree(
    all: Seq<WrittenModel>,
    a_items: Seq<WrittenModel>,
    a: Seq<WrittenModel>,
    b_items: Seq<WrittenModel>,
    b: Seq<WrittenModel>,
)
    requires
        is_written_in_one_way(all),
        a_items.len() <= usize::MAX,
        b_items.len() <= usize::MAX,
        forall|i: int| 0 <= i < a_items.len() ==> all.contains(#[trigger] a_items[i]),
        forall|i: int| 0 <= i < b_items.len() ==> all.contains(#[trigger] b_items[i]),
        is_ordered_once(a_items, a),
        is_ordered_once(b_items, b),
        forall|value: JsonModel| #[trigger] holds_value(a, value) <==> holds_value(b, value),
    ensures
        a == b,
{
    part_is_written_in_one_way(all, a_items);
    part_is_written_in_one_way(all, b_items);
    ordered_texts_ascend(a_items, a);
    ordered_texts_ascend(b_items, b);
    ordering_keeps_the_values(a_items, a);
    ordering_keeps_the_values(b_items, b);
    assert forall|i: int| 0 <= i < a.len() implies all.contains(#[trigger] a[i]) by {
        assert(a_items.contains(a[i]));
        let p = choose|p: int| 0 <= p < a_items.len() && a_items[p] == a[i];
    }
    assert forall|i: int| 0 <= i < b.len() implies all.contains(#[trigger] b[i]) by {
        assert(b_items.contains(b[i]));
        let p = choose|p: int| 0 <= p < b_items.len() && b_items[p] == b[i];
    }
    assert forall|i: int| 0 <= i < a.len() implies b.contains(#[trigger] a[i]) by {
        assert(holds_value(a, a[i].value));
        assert(holds_value(b, a[i].value));
        let j = choose|j: int| 0 <= j < b.len() && (#[trigger] b[j]).value.value() == a[i].value.value();
        let p = choose|p: int| 0 <= p < all.len() && all[p] == a[i];
        let q = choose|q: int| 0 <= q < all.len() && all[q] == b[j];
        assert(all[p] == all[q]);
    }
    assert forall|j: int| 0 <= j < b.len() implies a.contains(#[trigger] b[j]) by {
        assert(holds_value(b, b[j].value));
        assert(holds_value(a, b[j].value));
        let i = choose|i: int| 0 <= i < a.len() && (#[trigger] a[i]).value.value() == b[j].value.value();
        let p = choose|p: int| 0 <= p < all.len() && all[p] == a[i];
        let q = choose|q: int| 0 <= q < all.len() && all[q] == b[j];
        assert(all[p] == all[q]);
    }
    let a_texts = texts_of(a);
    let b_texts = texts_of(b);
    assert forall|x: Seq<char>| a_texts.contains(x) <==> b_texts.contains(x) by {
        if a_texts.contains(x) {
            let i = choose|i: int| 0 <= i < a_texts.len() && a_texts[i] == x;
            assert(b.contains(a[i]));
            let j = choose|j: int| 0 <= j < b.len() && b[j] == a[i];
            assert(b_texts[j] == x);
        }
        if b_texts.contains(x) {
            let j = choose|j: int| 0 <= j < b_texts.len() && b_texts[j] == x;
            assert(a.contains(b[j]));
            let i = choose|i: int| 0 <= i < a.len() && a[i] == b[j];
            assert(a_texts[i] == x);
        }
    }
    ascending_lists_are_determined_by_their_members(a_texts, b_texts);
    assert(a.len() == a_texts.len() && b.len() == b_texts.len());
    assert forall|i: int| 0 <= i < a.len() implies a[i] == b[i] by {
        assert(a_texts[i] == a[i].text && b_texts[i] == b[i].text);
        assert(all.contains(a[i]) && all.contains(b[i]));
        let p = choose|p: int| 0 <= p < all.len() && all[p] == a[i];
        let q = choose|q: int| 0 <= q < all.len() && all[q] == b[i];
        assert(all[p] == all[q]);
    }
    assert(a =~= b);
}

proof fn parts_stand_in_the_whole(a: Seq<WrittenModel>, b: Seq<WrittenModel>, part: Seq<WrittenModel>)
    requires
        (forall|i: int| 0 <= i < part.len() ==> a.contains(#[trigger] part[i])) || (forall|i: int|
            0 <= i < part.len() ==> b.contains(#[trigger] part[i])),
    ensures
        forall|i: int| 0 <= i < part.len() ==> (a + b).contains(#[trigger] part[i]),
{
    let both = a + b;
    assert forall|i: int| 0 <= i < part.len() implies both.contains(#[trigger] part[i]) by {
        if a.contains(part[i]) {
            let p = choose|p: int| 0 <= p < a.len() && a[p] == part[i];
            assert(both[p] == part[i]);
        } else {
            assert(b.contains(part[i]));
            let p = choose|p: int| 0 <= p < b.len() && b[p] == part[i];
            assert(both[a.len() + p] == part[i]);
        }
    }
}

proof fn sums_stand_in(all: Seq<WrittenModel>, a: Seq<WrittenModel>, b: Seq<WrittenModel>)
    requires
        forall|i: int| 0 <= i < a.len() ==> all.contains(#[trigger] a[i]),
        forall|i: int| 0 <= i < b.len() ==> all.contains(#[trigger] b[i]),
    ensures
        forall|i: int| 0 <= i < (a + b).len() ==> all.contains(#[trigger] (a + b)[i]),
{
    let both = a + b;
    assert forall|i: int| 0 <= i < both.len() implies all.contains(#[trigger] both[i]) by {
        if i < a.len() {
            assert(both[i] == a[i]);
        } else {
            assert(both[i] == b[i - a.len()]);
        }
    }
}

/// The merge of two reports does not depend on which worker reported first, where each level and
/// each reason is written in one way.
pub proof fn merge_is_independent_of_worker_order(
    a: WorkerModel,
    b: WorkerModel,
    ab: WorkerModel,
    ba: WorkerModel,
)
    requires
        is_merge(ab, a, b),
        is_merge(ba, b, a),
        lists_fit(a, b),
        is_written_in_one_way(a.completeness + b.completeness),
        is_written_in_one_way(a.reasons + b.reasons),
    ensures
        ab == ba,
{
    let levels = a.completeness + b.completeness;
    let reasons = a.reasons + b.reasons;
    merge_has_the_values(ab, a, b);
    merge_has_the_values(ba, b, a);
    common_levels_are_in_both(a.completeness, b.completeness);
    common_levels_are_in_both(b.completeness, a.completeness);
    parts_stand_in_the_whole(a.completeness, b.completeness, common_levels(a.completeness, b.completeness));
    parts_stand_in_the_whole(a.completeness, b.completeness, common_levels(b.completeness, a.completeness));
    ordered_lists_agree(
        levels,
        common_levels(a.completeness, b.completeness),
        ab.completeness,
        common_levels(b.completeness, a.completeness),
        ba.completeness,
    );
    parts_stand_in_the_whole(a.reasons, b.reasons, a.reasons);
    parts_stand_in_the_whole(a.reasons, b.reasons, b.reasons);
    sums_stand_in(reasons, a.reasons, b.reasons);
    sums_stand_in(reasons, b.reasons, a.reasons);
    ordered_lists_agree(reasons, reasons, ab.reasons, b.reasons + a.reasons, ba.reasons);
    assert(ab =~= ba);
}

/// The merge of three reports does not depend on which two are merged first, where each level and
/// each reason is written in one way.
pub proof fn merge_is_independent_of_grouping(
    a: WorkerModel,
    b: WorkerModel,
    c: WorkerModel,
    ab: WorkerModel,
    bc: WorkerModel,
    left: WorkerModel,
    right: WorkerModel,
)
    requires
        is_merge(ab, a, b),
        is_merge(left, ab, c),
        is_merge(bc, b, c),
        is_merge(right, a, bc),
        lists_fit(a, b),
        lists_fit(ab, c),
        lists_fit(b, c),
        lists_fit(a, bc),
        is_written_in_one_way(a.completeness + b.completeness + c.completeness),
        is_written_in_one_way(a.reasons + b.reasons + c.reasons),
    ensures
        left == right,
{
    let levels = a.completeness + b.completeness + c.completeness;
    let reasons = a.reasons + b.reasons + c.reasons;
    merge_has_the_values(ab, a, b);
    merge_has_the_values(left, ab, c);
    merge_has_the_values(bc, b, c);
    merge_has_the_values(right, a, bc);
    common_levels_are_in_both(ab.completeness, c.completeness);
    common_levels_are_in_both(a.completeness, bc.completeness);
    let left_levels = common_levels(ab.completeness, c.completeness);
    let right_levels = common_levels(a.completeness, bc.completeness);
    assert forall|i: int| 0 <= i < left_levels.len() implies a.completeness.contains(#[trigger] left_levels[i]) by {
        assert(ab.completeness.contains(left_levels[i]));
        let p = choose|p: int| 0 <= p < ab.completeness.len() && ab.completeness[p] == left_levels[i];
    }
    parts_stand_in_the_whole(a.completeness, b.completeness, left_levels);
    parts_stand_in_the_whole(a.completeness, b.completeness, right_levels);
    parts_stand_in_the_whole(a.completeness + b.completeness, c.completeness, left_levels);
    parts_stand_in_the_whole(a.completeness + b.completeness, c.completeness, right_levels);
    ordered_lists_agree(levels, left_levels, left.completeness, right_levels, right.completeness);
    parts_stand_in_the_whole(a.reasons, b.reasons, a.reasons);
    parts_stand_in_the_whole(a.reasons, b.reasons, b.reasons);
    parts_stand_in_the_whole(a.reasons + b.reasons, c.reasons, a.reasons);
    parts_stand_in_the_whole(a.reasons + b.reasons, c.reasons, b.reasons);
    parts_stand_in_the_whole(a.reasons + b.reasons, c.reasons, c.reasons);
    parts_stand_in_the_whole(a.reasons + b.reasons, c.reasons, ab.reasons);
    sums_stand_in(reasons, b.reasons, c.reasons);
    assert forall|i: int| 0 <= i < bc.reasons.len() implies reasons.contains(#[trigger] bc.reasons[i]) by {
        assert((b.reasons + c.reasons).contains(bc.reasons[i]));
        let p = choose|p: int| 0 <= p < (b.reasons + c.reasons).len() && (b.reasons + c.reasons)[p] == bc.reasons[i];
    }
    sums_stand_in(reasons, ab.reasons, c.reasons);
    sums_stand_in(reasons, a.reasons, bc.reasons);
    ordered_lists_agree(reasons, ab.reasons + c.reasons, left.reasons, a.reasons + bc.reasons, right.reasons);
    assert(left =~= right);
}

/// Uniting with a build never withdraws a level or a reason and never lowers a counter.
pub proof fn union_is_additive(before: CoverageModel, delta: CoverageModel, after: CoverageModel)
    requires
        is_coverage_union(before, delta, after),
    ensures
        forall|level: Seq<char>|
            after.completeness.contains(level) <==> before.completeness.contains(level)
                || delta.completeness.contains(level),
        forall|reason: Seq<char>|
            after.reasons.contains(reason) <==> before.reasons.contains(reason) || delta.reasons.contains(reason),
        after.dependency_sites >= before.dependency_sites,
        after.resolved >= before.resolved,
        after.candidates >= before.candidates,
        after.external >= before.external,
        after.unresolved >= before.unresolved,
        after.unsupported_syntax >= before.unsupported_syntax,
        before.project_code_executed ==> after.project_code_executed,
{
    assert forall|level: Seq<char>|
        after.completeness.contains(level) <==> before.completeness.contains(level)
            || delta.completeness.contains(level) by {
        either_holds(before.completeness, delta.completeness, level);
        assert(after.completeness.contains(level) <==> (before.completeness + delta.completeness).contains(level));
    }
    assert forall|reason: Seq<char>|
        after.reasons.contains(reason) <==> before.reasons.contains(reason) || delta.reasons.contains(reason) by {
        either_holds(before.reasons, delta.reasons, reason);
        assert(after.reasons.contains(reason) <==> (before.reasons + delta.reasons).contains(reason));
    }
}

} // verus!

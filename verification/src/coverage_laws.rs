//! What uniting, subtracting and observing coverage does to each counter.

use vstd::prelude::*;

use crate::conditions::{condition_union, is_union, ConditionUnion};
use crate::counting::kept_is_wanted;
use crate::coverage::{
    is_coverage_union, is_incomplete_for, is_metadata_union, is_status, merge_coverage, observed_coverage,
    resolved_as, site_statuses, without_sites, WorkerCoverage,
};
use crate::order::views;
use crate::records::{CoverageModel, CoverageRecord, SiteRecord};
use crate::written::{is_ordered_once, ordering_keeps_the_values, values_of, WrittenJson, WrittenModel};

verus! {

/// Where counters can be added, uniting coverage with that of a build adds the sites and each
/// resolution for itself, and the unsupported syntax. What was counted of profiles and files stays;
/// project code was executed where it was on either side.
pub proof fn united_coverage_adds_the_sites(before: CoverageModel, delta: CoverageModel, after: CoverageModel)
    requires
        is_coverage_union(before, delta, after),
    ensures
        before.dependency_sites + delta.dependency_sites <= u64::MAX ==> after.dependency_sites
            == before.dependency_sites + delta.dependency_sites,
        before.resolved + delta.resolved <= u64::MAX ==> after.resolved == before.resolved + delta.resolved,
        before.candidates + delta.candidates <= u64::MAX ==> after.candidates == before.candidates + delta.candidates,
        before.external + delta.external <= u64::MAX ==> after.external == before.external + delta.external,
        before.unresolved + delta.unresolved <= u64::MAX ==> after.unresolved == before.unresolved + delta.unresolved,
        before.unsupported_syntax + delta.unsupported_syntax <= u64::MAX ==> after.unsupported_syntax
            == before.unsupported_syntax + delta.unsupported_syntax,
        before.resolved + delta.resolved > u64::MAX ==> after.resolved == u64::MAX,
        before.dependency_sites + delta.dependency_sites > u64::MAX ==> after.dependency_sites == u64::MAX,
        after.profiles == before.profiles,
        after.files_discovered == before.files_discovered,
        after.files_analyzed == before.files_analyzed,
        after.files_skipped == before.files_skipped,
        after.project_code_executed <==> before.project_code_executed || delta.project_code_executed,
        forall|level: Seq<char>|
            before.completeness.contains(level) || delta.completeness.contains(level) ==> #[trigger] after.completeness.contains(
                level,
            ),
        forall|reason: Seq<char>|
            before.reasons.contains(reason) || delta.reasons.contains(reason) ==> #[trigger] after.reasons.contains(
                reason,
            ),
{
    crate::coverage::union_is_additive(before, delta, after);
}

/// Uniting coverage with that of a runtime session changes no counter but that of unsupported
/// syntax, and adds levels, reasons and execution.
pub proof fn sessions_add_no_counts(before: CoverageModel, session: CoverageModel, after: CoverageModel)
    requires
        is_metadata_union(before, session, after),
    ensures
        after.profiles == before.profiles,
        after.files_discovered == before.files_discovered,
        after.files_analyzed == before.files_analyzed,
        after.files_skipped == before.files_skipped,
        after.dependency_sites == before.dependency_sites,
        after.resolved == before.resolved,
        after.candidates == before.candidates,
        after.external == before.external,
        after.unresolved == before.unresolved,
        before.unsupported_syntax + session.unsupported_syntax <= u64::MAX ==> after.unsupported_syntax
            == before.unsupported_syntax + session.unsupported_syntax,
        after.project_code_executed <==> before.project_code_executed || session.project_code_executed,
        forall|level: Seq<char>| #[trigger]
            after.completeness.contains(level) <==> before.completeness.contains(level)
                || session.completeness.contains(level),
        forall|reason: Seq<char>| #[trigger]
            after.reasons.contains(reason) <==> before.reasons.contains(reason) || session.reasons.contains(reason),
{
    assert forall|level: Seq<char>| #[trigger] after.completeness.contains(level) <==> before.completeness.contains(
        level,
    ) || session.completeness.contains(level) by {
        joined_lists_hold_both(before.completeness, session.completeness, level);
        assert(after.completeness.contains(level) <==> (before.completeness + session.completeness).contains(level));
    }
    assert forall|reason: Seq<char>| #[trigger] after.reasons.contains(reason) <==> before.reasons.contains(reason)
        || session.reasons.contains(reason) by {
        joined_lists_hold_both(before.reasons, session.reasons, reason);
        assert(after.reasons.contains(reason) <==> (before.reasons + session.reasons).contains(reason));
    }
}

proof fn joined_lists_hold_both<T>(a: Seq<T>, b: Seq<T>, x: T)
    ensures
        (a + b).contains(x) <==> a.contains(x) || b.contains(x),
{
    if a.contains(x) {
        let i = choose|i: int| 0 <= i < a.len() && a[i] == x;
        assert((a + b)[i] == x);
    }
    if b.contains(x) {
        let i = choose|i: int| 0 <= i < b.len() && b[i] == x;
        assert((a + b)[a.len() + i] == x);
    }
    if (a + b).contains(x) {
        let i = choose|i: int| 0 <= i < (a + b).len() && (a + b)[i] == x;
        if i < a.len() {
            assert(a[i] == x);
        } else {
            assert(b[i - a.len()] == x);
        }
    }
}

/// Incomplete coverage claims no level and gives the reason beside those it gave; its counters
/// stay.
pub proof fn incomplete_coverage_claims_nothing(before: CoverageModel, reason: Seq<char>, after: CoverageModel)
    requires
        is_incomplete_for(before, reason, after),
    ensures
        after.completeness.len() == 0,
        after.reasons.contains(reason),
        forall|earlier: Seq<char>| before.reasons.contains(earlier) ==> #[trigger] after.reasons.contains(earlier),
        after.dependency_sites == before.dependency_sites,
        after.resolved == before.resolved,
        after.candidates == before.candidates,
        after.external == before.external,
        after.unresolved == before.unresolved,
        after.profiles == before.profiles,
        after.files_discovered == before.files_discovered,
        after.project_code_executed == before.project_code_executed,
{
    let all = before.reasons.push(reason);
    assert(all[before.reasons.len() as int] == reason);
    assert(all.contains(reason));
    assert forall|earlier: Seq<char>| before.reasons.contains(earlier) implies #[trigger] after.reasons.contains(
        earlier,
    ) by {
        let i = choose|i: int| 0 <= i < before.reasons.len() && before.reasons[i] == earlier;
        assert(all[i] == earlier);
    }
}

proof fn statuses_are_counted(statuses: Seq<Seq<char>>, status: Seq<char>, wanted: spec_fn(Seq<char>) -> bool)
    requires
        forall|text: Seq<char>| #[trigger] wanted(text) == (text == status),
    ensures
        resolved_as(statuses, status) == statuses.filter(wanted).len(),
{
    kept_is_wanted(statuses, wanted, is_status(statuses, status));
}

/// Subtracting sites takes from each counter the sites with its resolution, and all of them from
/// the counter of sites. Where no site is left, neither is unsupported syntax nor a reason; what
/// was counted of profiles and files stays.
pub proof fn subtracted_sites_are_taken_from_their_counters(before: CoverageModel, statuses: Seq<Seq<char>>)
    ensures
        ({
            let after = without_sites(before, statuses);
            let resolved = statuses.filter(|status: Seq<char>| status == "resolved"@).len();
            let candidates = statuses.filter(|status: Seq<char>| status == "candidates"@).len();
            let external = statuses.filter(|status: Seq<char>| status == "external"@).len();
            let unresolved = statuses.filter(|status: Seq<char>| status == "unresolved"@).len();
            &&& statuses.len() <= before.dependency_sites ==> after.dependency_sites == before.dependency_sites
                - statuses.len()
            &&& resolved <= before.resolved ==> after.resolved == before.resolved - resolved
            &&& candidates <= before.candidates ==> after.candidates == before.candidates - candidates
            &&& external <= before.external ==> after.external == before.external - external
            &&& unresolved <= before.unresolved ==> after.unresolved == before.unresolved - unresolved
            &&& statuses.len() >= before.dependency_sites ==> after.dependency_sites == 0 && after.unsupported_syntax
                == 0 && after.reasons.len() == 0
            &&& statuses.len() < before.dependency_sites ==> after.unsupported_syntax == before.unsupported_syntax
                && after.reasons == before.reasons
            &&& after.profiles == before.profiles
            &&& after.files_discovered == before.files_discovered
            &&& after.files_analyzed == before.files_analyzed
            &&& after.files_skipped == before.files_skipped
            &&& after.completeness == before.completeness
            &&& after.project_code_executed == before.project_code_executed
        }),
{
    statuses_are_counted(statuses, "resolved"@, |status: Seq<char>| status == "resolved"@);
    statuses_are_counted(statuses, "candidates"@, |status: Seq<char>| status == "candidates"@);
    statuses_are_counted(statuses, "external"@, |status: Seq<char>| status == "external"@);
    statuses_are_counted(statuses, "unresolved"@, |status: Seq<char>| status == "unresolved"@);
}

/// The coverage that is observed counts the sites, each resolution for itself, the profiles and
/// the files, whatever was stored; of what was stored it keeps the levels, the reasons and the
/// unsupported syntax, and where nothing was it says so.
pub proof fn observed_coverage_counts_what_is_there(
    stored: Option<CoverageRecord>,
    sites: &Vec<SiteRecord>,
    profiles: u64,
    files: u64,
    skipped: u64,
    project_code_executed: bool,
    result: CoverageRecord,
)
    requires
        call_ensures(observed_coverage, (stored, sites, profiles, files, skipped, project_code_executed), result),
        skipped <= files,
        sites@.len() <= u64::MAX,
    ensures
        result.dependency_sites == sites@.len(),
        result.resolved == sites@.filter(|site: SiteRecord| site.resolution_status@ == "resolved"@).len(),
        result.candidates == sites@.filter(|site: SiteRecord| site.resolution_status@ == "candidates"@).len(),
        result.external == sites@.filter(|site: SiteRecord| site.resolution_status@ == "external"@).len(),
        result.unresolved == sites@.filter(|site: SiteRecord| site.resolution_status@ == "unresolved"@).len(),
        result.profiles == profiles,
        result.files_discovered == files,
        result.files_skipped == skipped,
        result.files_analyzed == files - skipped,
        result.project_code_executed <==> project_code_executed || (stored is Some
            && stored->0.project_code_executed),
        stored is Some ==> result@.completeness == stored->0@.completeness && result@.reasons == stored->0@.reasons
            && result.unsupported_syntax == stored->0.unsupported_syntax,
        stored is None ==> result@.completeness.len() == 0 && result@.reasons == seq![
            "final worker coverage unavailable"@,
        ] && result.unsupported_syntax == 0,
{
    let statuses = site_statuses(sites@);
    kept_is_wanted(
        sites@,
        |site: SiteRecord| site.resolution_status@ == "resolved"@,
        is_status(statuses, "resolved"@),
    );
    kept_is_wanted(
        sites@,
        |site: SiteRecord| site.resolution_status@ == "candidates"@,
        is_status(statuses, "candidates"@),
    );
    kept_is_wanted(
        sites@,
        |site: SiteRecord| site.resolution_status@ == "external"@,
        is_status(statuses, "external"@),
    );
    kept_is_wanted(
        sites@,
        |site: SiteRecord| site.resolution_status@ == "unresolved"@,
        is_status(statuses, "unresolved"@),
    );
    sites@.lemma_filter_len(|site: SiteRecord| site.resolution_status@ == "resolved"@);
    sites@.lemma_filter_len(|site: SiteRecord| site.resolution_status@ == "candidates"@);
    sites@.lemma_filter_len(|site: SiteRecord| site.resolution_status@ == "external"@);
    sites@.lemma_filter_len(|site: SiteRecord| site.resolution_status@ == "unresolved"@);
}

/// Merging the coverage of two workers adds every counter, and project code was executed where
/// either worker executed it.
pub proof fn merged_coverage_adds_every_counter(
    left: &WorkerCoverage,
    right: &WorkerCoverage,
    merged: WorkerCoverage,
)
    requires
        call_ensures(merge_coverage, (left, right), merged),
    ensures
        merged.profiles == left.profiles + right.profiles,
        merged.files_discovered == left.files_discovered + right.files_discovered,
        merged.files_analyzed == left.files_analyzed + right.files_analyzed,
        merged.files_skipped == left.files_skipped + right.files_skipped,
        merged.dependency_sites == left.dependency_sites + right.dependency_sites,
        merged.resolved == left.resolved + right.resolved,
        merged.candidates == left.candidates + right.candidates,
        merged.external == left.external + right.external,
        merged.unresolved == left.unresolved + right.unresolved,
        merged.unsupported_syntax == left.unsupported_syntax + right.unsupported_syntax,
        merged.project_code_executed <==> left.project_code_executed || right.project_code_executed,
{
}

proof fn kept_condition_is_given(conditions: Seq<WrittenJson>, kept: Seq<WrittenModel>, k: int) -> (i: int)
    requires
        is_ordered_once(views(conditions), kept),
        conditions.len() <= usize::MAX,
        0 <= k < kept.len(),
    ensures
        0 <= i < conditions.len(),
        conditions[i].value@ == values_of(kept)[k],
{
    let items = views(conditions);
    ordering_keeps_the_values(items, kept);
    assert(items.contains(kept[k]));
    let i = choose|i: int| 0 <= i < items.len() && items[i] == kept[k];
    assert(items[i] == conditions[i]@);
    i
}

proof fn given_condition_is_kept(conditions: Seq<WrittenJson>, kept: Seq<WrittenModel>, i: int) -> (k: int)
    requires
        is_ordered_once(views(conditions), kept),
        conditions.len() <= usize::MAX,
        0 <= i < conditions.len(),
    ensures
        0 <= k < kept.len(),
        values_of(kept)[k].value() == conditions[i].value@.value(),
{
    let items = views(conditions);
    ordering_keeps_the_values(items, kept);
    assert(items[i].value == conditions[i].value@);
    assert(crate::written::holds_value(items, items[i].value));
    assert(crate::written::holds_value(kept, items[i].value));
    choose|k: int| 0 <= k < kept.len() && (#[trigger] kept[k]).value.value() == items[i].value.value()
}

/// The union of conditions holds always where there is no condition, is one of them where it is
/// one, and otherwise lists conditions that were given, each value of them.
pub proof fn united_conditions_are_those_given(conditions: Vec<WrittenJson>, union: ConditionUnion)
    requires
        call_ensures(condition_union, (conditions,), union),
        conditions@.len() <= usize::MAX,
    ensures
        conditions@.len() == 0 <==> union is Always,
        union matches ConditionUnion::One(only) ==> {
            &&& exists|i: int| 0 <= i < conditions@.len() && (#[trigger] conditions@[i]).value@ == only@
            &&& forall|i: int| 0 <= i < conditions@.len() ==> (#[trigger] conditions@[i]).value@.value() == only@.value()
        },
        union matches ConditionUnion::Any(list) ==> {
            &&& list@.len() > 1
            &&& forall|k: int|
                0 <= k < list@.len() ==> exists|i: int|
                    0 <= i < conditions@.len() && (#[trigger] conditions@[i]).value@ == (#[trigger] list@[k])@
            &&& forall|i: int|
                0 <= i < conditions@.len() ==> exists|k: int|
                    0 <= k < list@.len() && (#[trigger] list@[k])@.value() == (#[trigger] conditions@[i]).value@.value()
        },
{
    let kept = choose|kept: Seq<WrittenModel>| #[trigger]
        is_ordered_once(views(conditions@), kept) && is_union(values_of(kept), union);
    let values = values_of(kept);
    if kept.len() > 0 {
        let i = kept_condition_is_given(conditions@, kept, 0);
    }
    if conditions@.len() > 0 {
        let k = given_condition_is_kept(conditions@, kept, 0);
    }
    match union {
        ConditionUnion::One(only) => {
            assert(values[0] == only@);
            let i = kept_condition_is_given(conditions@, kept, 0);
            assert(conditions@[i].value@ == only@);
            assert forall|i: int| 0 <= i < conditions@.len() implies (#[trigger] conditions@[i]).value@.value()
                == only@.value() by {
                let k = given_condition_is_kept(conditions@, kept, i);
                assert(k == 0);
            }
        },
        ConditionUnion::Any(list) => {
            assert forall|k: int| 0 <= k < list@.len() implies exists|i: int|
                0 <= i < conditions@.len() && (#[trigger] conditions@[i]).value@ == (#[trigger] list@[k])@ by {
                assert(views(list@)[k] == values[k]);
                let i = kept_condition_is_given(conditions@, kept, k);
                assert(conditions@[i].value@ == list@[k]@);
            }
            assert forall|i: int| 0 <= i < conditions@.len() implies exists|k: int|
                0 <= k < list@.len() && (#[trigger] list@[k])@.value() == (
                #[trigger] conditions@[i]).value@.value() by {
                let k = given_condition_is_kept(conditions@, kept, i);
                assert(views(list@)[k] == values[k]);
                assert(list@[k]@.value() == conditions@[i].value@.value());
            }
        },
        ConditionUnion::Always => {},
    }
}

} // verus!

//! What a snapshot holds once its matrix is attached anew.

use vstd::prelude::*;

use crate::counting::{selected_is_wanted, sorted_lists_hold_the_items};
use crate::json::JsonModel;
use crate::matrix_refresh::{
    all_texts, are_places, build_run_at, conflict_diagnostic, diagnostic_ids, evidence_is_retained,
    findings_of, greatest_ordinal, is_attached, is_begun, is_build_of_profile, is_retained, item_at,
    json_texts, model_ids, names_build_run, owned_evidence, retained_diagnostics, supports_correlation,
    with_axis_conflicts, with_correlations, with_diagnostic, with_entries, with_matrix, EvidencePlace,
    Findings, RefreshMark,
};
use crate::order::{ascending, collect_holds_the_kept_items, is_sorted_set, is_stable_sort, sorted_list};
use crate::profile_matrix::{
    ProfileCorrelationRecord, ProfileMatrixEntryRecord, ProfileMatrixRecord, PROFILE_MATRIX_SCHEMA_VERSION,
};
use crate::records::{DiagnosticModel, EvidenceModel, GraphSnapshot};
use crate::snapshot_laws::ranked_lists_hold_the_items;
use crate::sort::is_ranked_sort;
use crate::text::{text_lt, text_lt_irreflexive, text_lt_total, text_lt_transitive, texts};

verus! {

/// A refresh drops the diagnostics that name the schema of the matrix and keeps every other, in
/// order.
pub proof fn refreshing_keeps_what_is_not_derived(before: GraphSnapshot, begun: GraphSnapshot, mark: RefreshMark)
    requires
        is_begun(before, begun, mark),
    ensures
        begun.diagnostics@ == before.diagnostics@.filter(
            |d: crate::records::DiagnosticRecord|
                d.properties@.text_field("profile_matrix_schema"@) != Some("profile-matrix-v1"@),
        ),
        begun.scan == before.scan,
        begun.profiles == before.profiles,
        begun.nodes == before.nodes,
        begun.sites == before.sites,
        begun.edges == before.edges,
        begun.file_coverage == before.file_coverage,
        begun.adapter_logs == before.adapter_logs,
        begun.coverage == before.coverage,
        begun.profile_matrix == before.profile_matrix,
        mark.retained_diagnostics == begun.diagnostics@.len(),
{
    let items = before.diagnostics@;
    let wanted = |d: crate::records::DiagnosticRecord|
        d.properties@.text_field("profile_matrix_schema"@) != Some("profile-matrix-v1"@);
    let count = items.len() as int;
    let of = |d: crate::records::DiagnosticRecord| d;
    assert forall|i: int| 0 <= i < count implies #[trigger] is_retained(items)(i) == wanted(items[i]) by {
        assert(items[i]@.properties == items[i].properties@);
    }
    selected_is_wanted(items, wanted, of, count, is_retained(items), item_at(items));
    assert(items.take(count) =~= items);
    assert(items.filter(wanted).map_values(of) =~= items.filter(wanted));
}

/// A refresh drops the evidence of the diagnostics that it drops, and no other.
pub proof fn refreshing_keeps_the_evidence(
    before: GraphSnapshot,
    begun: GraphSnapshot,
    mark: RefreshMark,
    e: int,
)
    requires
        is_begun(before, begun, mark),
        0 <= e < before.evidence@.len(),
    ensures
        begun.evidence@.contains(before.evidence@[e]) <==> before.evidence@[e].owner_type@ != "diagnostic"@ || exists|
            d: int,
        |
            0 <= d < begun.diagnostics@.len() && (#[trigger] begun.diagnostics@[d]).id@
                == before.evidence@[e].owner_id@,
{
    let items = before.evidence@;
    let kept = begun.diagnostics@;
    let keep = evidence_is_retained(items, kept);
    let item = item_at(items);
    collect_holds_the_kept_items(items.len() as int, keep, item, items[e]);
    let ids = diagnostic_ids(kept);
    let owner = items[e].owner_id@;
    if ids.contains(owner) {
        let d = choose|d: int| 0 <= d < ids.len() && ids[d] == owner;
        assert(kept[d].id@ == owner);
    }
    if exists|d: int| 0 <= d < kept.len() && (#[trigger] kept[d]).id@ == owner {
        let d = choose|d: int| 0 <= d < kept.len() && (#[trigger] kept[d]).id@ == owner;
        assert(ids[d] == owner);
    }
    if begun.evidence@.contains(items[e]) {
        let i = choose|i: int| 0 <= i < items.len() && #[trigger] keep(i) && item(i) == items[e];
        assert(items[i] == items[e]);
    }
    if items[e].owner_type@ != "diagnostic"@ || ids.contains(owner) {
        assert(keep(e) && item(e) == items[e]);
    }
}

proof fn the_greatest_is_greatest(list: Seq<crate::records::DiagnosticRecord>, count: int)
    requires
        0 < count <= list.len(),
    ensures
        forall|d: int| 0 <= d < count ==> (#[trigger] list[d]).ordinal <= greatest_ordinal(list, count),
        exists|d: int| 0 <= d < count && (#[trigger] list[d]).ordinal == greatest_ordinal(list, count),
    decreases count,
{
    if count > 1 {
        the_greatest_is_greatest(list, count - 1);
        let d = choose|d: int| 0 <= d < count - 1 && (#[trigger] list[d]).ordinal == greatest_ordinal(list, count - 1);
        assert(list[d].ordinal <= greatest_ordinal(list, count));
        assert(list[count - 1].ordinal <= greatest_ordinal(list, count));
    } else {
        assert(list[0].ordinal == greatest_ordinal(list, 1));
    }
}

/// What is found by a refresh is numbered after what was kept, and from zero where nothing was.
pub proof fn findings_are_numbered_after_what_is_kept(
    before: GraphSnapshot,
    begun: GraphSnapshot,
    mark: RefreshMark,
    d: int,
)
    requires
        is_begun(before, begun, mark),
    ensures
        begun.diagnostics@.len() == 0 ==> mark.next_ordinal == 0,
        0 <= d < begun.diagnostics@.len() && begun.diagnostics@[d].ordinal < i64::MAX ==> begun.diagnostics@[d].ordinal
            < mark.next_ordinal,
        begun.diagnostics@.len() > 0 ==> mark.next_ordinal == i64::MAX || exists|k: int|
            0 <= k < begun.diagnostics@.len() && (#[trigger] begun.diagnostics@[k]).ordinal + 1 == mark.next_ordinal,
{
    let kept = begun.diagnostics@;
    if kept.len() > 0 {
        the_greatest_is_greatest(kept, kept.len() as int);
        let k = choose|k: int|
            0 <= k < kept.len() && (#[trigger] kept[k]).ordinal == greatest_ordinal(kept, kept.len() as int);
        assert(kept[k].ordinal == greatest_ordinal(kept, kept.len() as int));
        if 0 <= d < kept.len() {
            assert(kept[d].ordinal <= greatest_ordinal(kept, kept.len() as int));
        }
    }
}

/// The list with one more string, which stays ascending.
spec fn inserted(list: Seq<Seq<char>>, x: Seq<char>) -> Seq<Seq<char>>
    decreases list.len(),
{
    if list.len() == 0 {
        seq![x]
    } else if list.last() == x {
        list
    } else if text_lt(list.last(), x) {
        list.push(x)
    } else {
        inserted(list.drop_last(), x).push(list.last())
    }
}

proof fn inserted_lists_ascend(list: Seq<Seq<char>>, x: Seq<char>)
    requires
        ascending(list),
    ensures
        ascending(inserted(list, x)),
        forall|y: Seq<char>| #[trigger] inserted(list, x).contains(y) <==> list.contains(y) || y == x,
    decreases list.len(),
{
    let more = inserted(list, x);
    if list.len() == 0 {
        assert(more[0] == x);
    } else if list.last() == x {
        assert(list[list.len() - 1] == x);
    } else if text_lt(list.last(), x) {
        assert forall|i: int, j: int| 0 <= i < j < more.len() implies text_lt(#[trigger] more[i], #[trigger] more[j]) by {
            if j == list.len() && i < list.len() - 1 {
                assert(text_lt(list[i], list[list.len() - 1]));
                text_lt_transitive(list[i], list.last(), x);
            } else if j < list.len() {
                assert(text_lt(list[i], list[j]));
            }
        }
        assert forall|y: Seq<char>| #[trigger] more.contains(y) <==> list.contains(y) || y == x by {
            if more.contains(y) {
                let i = choose|i: int| 0 <= i < more.len() && more[i] == y;
                assert(i < list.len() ==> list[i] == y);
            }
            if list.contains(y) {
                let i = choose|i: int| 0 <= i < list.len() && list[i] == y;
                assert(more[i] == y);
            }
            assert(more[list.len() as int] == x);
        }
    } else {
        let rest = list.drop_last();
        let last = list.last();
        text_lt_total(last, x);
        assert forall|i: int, j: int| 0 <= i < j < rest.len() implies text_lt(#[trigger] rest[i], #[trigger] rest[j]) by {
            assert(text_lt(list[i], list[j]));
        }
        inserted_lists_ascend(rest, x);
        let less = inserted(rest, x);
        assert forall|i: int, j: int| 0 <= i < j < more.len() implies text_lt(#[trigger] more[i], #[trigger] more[j]) by {
            if j == less.len() {
                assert(less.contains(less[i]));
                if less[i] != x {
                    assert(rest.contains(less[i]));
                    let p = choose|p: int| 0 <= p < rest.len() && rest[p] == less[i];
                    assert(text_lt(list[p], list[list.len() - 1]));
                }
            } else {
                assert(text_lt(less[i], less[j]));
            }
        }
        assert forall|y: Seq<char>| #[trigger] more.contains(y) <==> list.contains(y) || y == x by {
            if more.contains(y) {
                let i = choose|i: int| 0 <= i < more.len() && more[i] == y;
                if i < less.len() {
                    assert(less[i] == y);
                    assert(less.contains(y));
                    if y != x {
                        let p = choose|p: int| 0 <= p < rest.len() && rest[p] == y;
                        assert(list[p] == y);
                    }
                } else {
                    assert(list[list.len() - 1] == y);
                }
            }
            if list.contains(y) || y == x {
                if y == last {
                    assert(more[less.len() as int] == y);
                } else {
                    if list.contains(y) {
                        let i = choose|i: int| 0 <= i < list.len() && list[i] == y;
                        assert(rest[i] == y);
                    }
                    assert(less.contains(y));
                    let p = choose|p: int| 0 <= p < less.len() && less[p] == y;
                    assert(more[p] == y);
                }
            }
        }
    }
}

/// Strings can be listed each once, ascending.
pub proof fn strings_are_listed_ascending(members: Seq<Seq<char>>)
    ensures
        ascending(sorted_list(members)),
        forall|x: Seq<char>| #[trigger] sorted_list(members).contains(x) <==> members.contains(x),
{
    let list = listed(members);
    assert(is_sorted_set(list, members));
}

proof fn listed(members: Seq<Seq<char>>) -> (list: Seq<Seq<char>>)
    ensures
        is_sorted_set(list, members),
    decreases members.len(),
{
    if members.len() == 0 {
        Seq::empty()
    } else {
        let rest = members.drop_last();
        let less = listed(rest);
        inserted_lists_ascend(less, members.last());
        let list = inserted(less, members.last());
        assert forall|x: Seq<char>| #[trigger] list.contains(x) <==> members.contains(x) by {
            if members.contains(x) && x != members.last() {
                let i = choose|i: int| 0 <= i < members.len() && members[i] == x;
                assert(rest[i] == x);
                assert(rest.contains(x));
            }
            if rest.contains(x) {
                let i = choose|i: int| 0 <= i < rest.len() && rest[i] == x;
                assert(members[i] == x);
            }
            assert(members[members.len() - 1] == members.last());
            assert(less.contains(x) <==> rest.contains(x));
        }
        list
    }
}

/// Whether findings go on from earlier ones, and all further evidence is of diagnostics.
spec fn goes_on(earlier: Findings, later: Findings) -> bool {
    &&& earlier.diagnostics.len() <= later.diagnostics.len()
    &&& forall|d: int| 0 <= d < earlier.diagnostics.len() ==> #[trigger] later.diagnostics[d] == earlier.diagnostics[d]
    &&& earlier.evidence.len() <= later.evidence.len()
    &&& forall|e: int| 0 <= e < earlier.evidence.len() ==> #[trigger] later.evidence[e] == earlier.evidence[e]
    &&& forall|e: int|
        earlier.evidence.len() <= e < later.evidence.len() ==> (#[trigger] later.evidence[e]).owner_type
            == "diagnostic"@
}

proof fn owned_evidence_has_its_owner(matching: Seq<EvidenceModel>, owner: Seq<char>, count: int)
    requires
        0 <= count <= matching.len(),
    ensures
        ({
            let owned = owned_evidence(matching, owner, count);
            &&& forall|i: int|
                0 <= i < owned.len() ==> (#[trigger] owned[i]).owner_type == "diagnostic"@ && owned[i].owner_id == owner
            &&& forall|m: int|
                0 <= m < count ==> exists|i: int|
                    0 <= i < owned.len() && is_copy(#[trigger] owned[i], #[trigger] matching[m])
        }),
    decreases count,
{
    if count > 0 {
        owned_evidence_has_its_owner(matching, owner, count - 1);
        let earlier = owned_evidence(matching, owner, count - 1);
        let owned = owned_evidence(matching, owner, count);
        assert forall|m: int| 0 <= m < count implies exists|i: int|
            0 <= i < owned.len() && is_copy(#[trigger] owned[i], #[trigger] matching[m]) by {
            if m < count - 1 {
                let i = choose|i: int| 0 <= i < earlier.len() && is_copy(#[trigger] earlier[i], matching[m]);
                assert(owned[i] == earlier[i]);
            } else if exists|i: int|
                0 <= i < earlier.len() && crate::matrix_refresh::same_observation(
                    #[trigger] earlier[i],
                    matching[count - 1],
                ) {
                let i = choose|i: int|
                    0 <= i < earlier.len() && crate::matrix_refresh::same_observation(
                        #[trigger] earlier[i],
                        matching[count - 1],
                    );
                assert(owned[i] == earlier[i]);
                assert(is_copy(owned[i], matching[m]));
            } else {
                assert(is_copy(owned[earlier.len() as int], matching[m]));
            }
        }
    }
}

/// Whether a piece of evidence says what another says, whoever owns it.
pub open spec fn is_copy(copy: EvidenceModel, source: EvidenceModel) -> bool {
    &&& copy.kind == source.kind
    &&& copy.extractor == source.extractor
    &&& copy.extractor_version == source.extractor_version
    &&& copy.path == source.path
    &&& copy.start_line == source.start_line
    &&& copy.start_column == source.start_column
    &&& copy.end_line == source.end_line
    &&& copy.end_column == source.end_column
    &&& copy.detail == source.detail
    &&& copy.properties == source.properties
}

proof fn findings_go_on(findings: Findings, diagnostic: DiagnosticModel, keep: spec_fn(int) -> bool)
    ensures
        goes_on(findings, with_diagnostic(findings, diagnostic, keep)),
        with_diagnostic(findings, diagnostic, keep).diagnostics.len() == findings.diagnostics.len() + 1,
        with_diagnostic(findings, diagnostic, keep).diagnostics[findings.diagnostics.len() as int] == diagnostic,
{
    let matching = crate::order::collect(findings.evidence.len() as int, keep, item_at(findings.evidence));
    owned_evidence_has_its_owner(matching, diagnostic.id, matching.len() as int);
}

/// Evidence that a diagnostic is given is found under it.
proof fn given_evidence_is_found(
    findings: Findings,
    diagnostic: DiagnosticModel,
    keep: spec_fn(int) -> bool,
    e: int,
) -> (at: int)
    requires
        0 <= e < findings.evidence.len(),
        keep(e),
    ensures
        ({
            let after = with_diagnostic(findings, diagnostic, keep).evidence;
            &&& 0 <= at < after.len()
            &&& after[at].owner_type == "diagnostic"@
            &&& after[at].owner_id == diagnostic.id
            &&& is_copy(after[at], findings.evidence[e])
        }),
{
    let item = item_at(findings.evidence);
    let count = findings.evidence.len() as int;
    let matching = crate::order::collect(count, keep, item);
    collect_holds_the_kept_items(count, keep, item, findings.evidence[e]);
    assert(keep(e) && item(e) == findings.evidence[e]);
    let m = choose|m: int| 0 <= m < matching.len() && matching[m] == findings.evidence[e];
    owned_evidence_has_its_owner(matching, diagnostic.id, matching.len() as int);
    let owned = owned_evidence(matching, diagnostic.id, matching.len() as int);
    let i = choose|i: int| 0 <= i < owned.len() && is_copy(#[trigger] owned[i], matching[m]);
    let after = with_diagnostic(findings, diagnostic, keep).evidence;
    assert(after[findings.evidence.len() + i] == owned[i]);
    findings.evidence.len() + i
}

proof fn correlations_go_on(
    findings: Findings,
    correlations: Seq<ProfileCorrelationRecord>,
    from: int,
    count: int,
    wanted: spec_fn(ProfileCorrelationRecord) -> bool,
)
    requires
        0 <= from <= count <= correlations.len(),
        forall|c: ProfileCorrelationRecord| #[trigger]
            wanted(c) == (c.status@ == "conflict"@ && c.diagnostic_id is Some),
    ensures
        goes_on(
            with_correlations(findings, correlations, from),
            with_correlations(findings, correlations, count),
        ),
        from == 0 ==> with_correlations(findings, correlations, count).diagnostics.len()
            == findings.diagnostics.len() + correlations.take(count).filter(wanted).len(),
    decreases count,
{
    reveal(Seq::filter);
    if count > from {
        correlations_go_on(findings, correlations, from, count - 1, wanted);
        let earlier = with_correlations(findings, correlations, count - 1);
        let correlation = correlations[count - 1];
        assert(correlations.take(count).drop_last() =~= correlations.take(count - 1));
        assert(correlations.take(count).last() == correlation);
        assert(wanted(correlation) == (correlation.status@ == "conflict"@ && correlation.diagnostic_id is Some));
        if wanted(correlation) {
            findings_go_on(
                earlier,
                conflict_diagnostic(correlation, earlier.evidence),
                supports_correlation(
                    earlier.evidence,
                    all_texts(correlation.site_ids_by_phase@, correlation.site_ids_by_phase@.len() as int),
                ),
            );
        }
    }
}

proof fn axis_conflicts_go_on(findings: Findings, entry: ProfileMatrixEntryRecord, from: int, count: int)
    requires
        0 <= from <= count <= entry.axis_conflicts@.len(),
    ensures
        goes_on(with_axis_conflicts(findings, entry, from), with_axis_conflicts(findings, entry, count)),
        with_axis_conflicts(findings, entry, count).diagnostics.len() == with_axis_conflicts(
            findings,
            entry,
            from,
        ).diagnostics.len() + count - from,
    decreases count,
{
    if count > from {
        axis_conflicts_go_on(findings, entry, from, count - 1);
        let earlier = with_axis_conflicts(findings, entry, count - 1);
        let conflict = entry.axis_conflicts@[count - 1]@;
        findings_go_on(
            earlier,
            crate::matrix_refresh::axis_diagnostic(entry.id@, entry.effective_input_id@, conflict),
            is_build_of_profile(earlier.evidence, conflict.profile_id),
        );
    }
}

proof fn entries_go_on(findings: Findings, entries: Seq<ProfileMatrixEntryRecord>, from: int, count: int)
    requires
        0 <= from <= count <= entries.len(),
    ensures
        goes_on(with_entries(findings, entries, from), with_entries(findings, entries, count)),
        from == 0 ==> with_entries(findings, entries, count).diagnostics.len() == findings.diagnostics.len()
            + entries.take(count).map_values(
            |entry: ProfileMatrixEntryRecord| entry.axis_conflicts@.len() as int,
        ).fold_left(0int, |sum: int, part: int| sum + part),
    decreases count,
{
    let of = |entry: ProfileMatrixEntryRecord| entry.axis_conflicts@.len() as int;
    reveal_with_fuel(Seq::fold_left, 2);
    if count > from {
        entries_go_on(findings, entries, from, count - 1);
        let earlier = with_entries(findings, entries, count - 1);
        let entry = entries[count - 1];
        axis_conflicts_go_on(earlier, entry, 0, entry.axis_conflicts@.len() as int);
        assert(entries.take(count).map_values(of).drop_last() =~= entries.take(count - 1).map_values(of));
        assert(entries.take(count).map_values(of).last() == of(entry));
    }
}

/// Every conflict of a matrix is reported once: there is a finding for each correlation in
/// conflict, and one for each axis on which a profile departs from its parent.
pub proof fn conflicts_are_counted(begun: GraphSnapshot, matrix: ProfileMatrixRecord)
    ensures
        with_matrix(findings_of(begun), matrix).diagnostics.len() == begun.diagnostics@.len()
            + matrix.correlations@.filter(
            |c: ProfileCorrelationRecord| c.status@ == "conflict"@ && c.diagnostic_id is Some,
        ).len() + matrix.entries@.map_values(
            |entry: ProfileMatrixEntryRecord| entry.axis_conflicts@.len() as int,
        ).fold_left(0int, |sum: int, part: int| sum + part),
{
    let findings = findings_of(begun);
    let correlations = matrix.correlations@;
    let entries = matrix.entries@;
    let wanted = |c: ProfileCorrelationRecord| c.status@ == "conflict"@ && c.diagnostic_id is Some;
    correlations_go_on(findings, correlations, 0, correlations.len() as int, wanted);
    let middle = with_correlations(findings, correlations, correlations.len() as int);
    entries_go_on(middle, entries, 0, entries.len() as int);
    assert(correlations.take(correlations.len() as int) =~= correlations);
    assert(entries.take(entries.len() as int) =~= entries);
}

proof fn texts_of_all_phases(list: Seq<(String, Vec<String>)>, count: int, x: Seq<char>)
    requires
        0 <= count <= list.len(),
    ensures
        all_texts(list, count).contains(x) <==> exists|p: int, s: int|
            0 <= p < count && 0 <= s < list[p].1@.len() && (#[trigger] list[p].1@[s])@ == x,
    decreases count,
{
    if count > 0 {
        texts_of_all_phases(list, count - 1, x);
        let earlier = all_texts(list, count - 1);
        let own = texts(list[count - 1].1@);
        let all = all_texts(list, count);
        if all.contains(x) {
            let i = choose|i: int| 0 <= i < all.len() && all[i] == x;
            if i < earlier.len() {
                assert(earlier[i] == x);
                assert(earlier.contains(x));
            } else {
                assert(own[i - earlier.len()] == x);
                assert(list[count - 1].1@[i - earlier.len()]@ == x);
            }
        }
        if exists|p: int, s: int|
            0 <= p < count && 0 <= s < list[p].1@.len() && (#[trigger] list[p].1@[s])@ == x {
            let (p, s) = choose|p: int, s: int|
                0 <= p < count && 0 <= s < list[p].1@.len() && (#[trigger] list[p].1@[s])@ == x;
            if p < count - 1 {
                assert(earlier.contains(x));
                let i = choose|i: int| 0 <= i < earlier.len() && earlier[i] == x;
                assert(all[i] == x);
            } else {
                assert(own[s] == x);
                assert(all[earlier.len() + s] == x);
            }
        }
    }
}

/// Whether a piece of evidence is of a site of a correlation.
pub open spec fn is_of_correlation(evidence: EvidenceModel, correlation: ProfileCorrelationRecord) -> bool {
    &&& evidence.owner_type == "site"@
    &&& exists|p: int, s: int|
        0 <= p < correlation.site_ids_by_phase@.len() && 0 <= s < correlation.site_ids_by_phase@[p].1@.len()
            && (#[trigger] correlation.site_ids_by_phase@[p].1@[s])@ == evidence.owner_id
}

/// Whether a finding reports a correlation in conflict: by its identity, as a warning, and with
/// what the correlation says.
pub open spec fn reports_conflict(
    found: DiagnosticModel,
    correlation: ProfileCorrelationRecord,
    evidence: Seq<EvidenceModel>,
) -> bool {
    &&& found.id == correlation.diagnostic_id->0@
    &&& found.severity == "warning"@
    &&& found.code == "BUILD_EVIDENCE_CONFLICT"@
    &&& found.path is None
    &&& found.adapter is None
    &&& found.start_line is None
    &&& found.start_column is None
    &&& found.end_line is None
    &&& found.end_column is None
    &&& found.properties is Object
    &&& ({
        let fields = found.properties->Object_0;
        &&& fields.contains(("profile_matrix_schema"@, JsonModel::Text("profile-matrix-v1"@)))
        &&& fields.contains(("profile_correlation_id"@, JsonModel::Text(correlation.id@)))
        &&& fields.contains(("effective_profile_id"@, JsonModel::Text(correlation.effective_profile_id@)))
        &&& exists|reasons: Seq<JsonModel>| #[trigger]
            fields.contains(("difference_reasons"@, JsonModel::Array(reasons))) && reasons.len()
                == correlation.difference_reasons@.len() && forall|i: int|
                0 <= i < reasons.len() ==> #[trigger] reasons[i] == JsonModel::Text(
                    correlation.difference_reasons@[i]@,
                )
        &&& exists|runs: Seq<JsonModel>| #[trigger]
            fields.contains(("build_run_ids"@, JsonModel::Array(runs))) && forall|x: Seq<char>|
                #[trigger] runs.contains(JsonModel::Text(x)) <==> exists|e: int|
                    0 <= e < evidence.len() && is_of_correlation(#[trigger] evidence[e], correlation)
                        && evidence[e].kind == "build"@ && evidence[e].properties.text_field("build_run_id"@) == Some(x)
    })
}

proof fn conflicts_are_described(
    correlation: ProfileCorrelationRecord,
    initial: Seq<EvidenceModel>,
    evidence: Seq<EvidenceModel>,
)
    requires
        initial.len() <= evidence.len(),
        forall|e: int| 0 <= e < initial.len() ==> #[trigger] evidence[e] == initial[e],
        forall|e: int| initial.len() <= e < evidence.len() ==> (#[trigger] evidence[e]).owner_type == "diagnostic"@,
    ensures
        reports_conflict(conflict_diagnostic(correlation, evidence), correlation, initial),
{
    let found = conflict_diagnostic(correlation, evidence);
    let fields = found.properties->Object_0;
    let list = correlation.site_ids_by_phase@;
    let site_ids = all_texts(list, list.len() as int);
    let keep = names_build_run(evidence, site_ids);
    let item = build_run_at(evidence);
    let count = evidence.len() as int;
    let members = crate::order::collect(count, keep, item);
    strings_are_listed_ascending(members);
    let runs = sorted_list(members);
    assert(PROFILE_MATRIX_SCHEMA_VERSION@ == "profile-matrix-v1"@);
    assert(fields[7] == ("profile_matrix_schema"@, JsonModel::Text("profile-matrix-v1"@)));
    assert(fields[6] == ("profile_correlation_id"@, JsonModel::Text(correlation.id@)));
    assert(fields[4] == ("effective_profile_id"@, JsonModel::Text(correlation.effective_profile_id@)));
    let reasons = json_texts(texts(correlation.difference_reasons@))->Array_0;
    assert(fields[3] == ("difference_reasons"@, JsonModel::Array(reasons)));
    assert(fields.contains(("difference_reasons"@, JsonModel::Array(reasons))));
    let shown = json_texts(runs)->Array_0;
    assert(fields[1] == ("build_run_ids"@, JsonModel::Array(shown)));
    assert(fields.contains(("build_run_ids"@, JsonModel::Array(shown))));
    reveal_strlit("site");
    reveal_strlit("diagnostic");
    assert("site"@.len() != "diagnostic"@.len());
    assert forall|x: Seq<char>| #[trigger] shown.contains(JsonModel::Text(x)) <==> exists|e: int|
        0 <= e < initial.len() && is_of_correlation(#[trigger] initial[e], correlation) && initial[e].kind == "build"@
            && initial[e].properties.text_field("build_run_id"@) == Some(x) by {
        collect_holds_the_kept_items(count, keep, item, x);
        if shown.contains(JsonModel::Text(x)) {
            let i = choose|i: int| 0 <= i < shown.len() && shown[i] == JsonModel::Text(x);
            assert(runs[i] == x);
            assert(runs.contains(x));
            assert(members.contains(x));
            let e = choose|e: int| 0 <= e < count && #[trigger] keep(e) && item(e) == x;
            assert(supports_correlation(evidence, site_ids)(e));
            texts_of_all_phases(list, list.len() as int, evidence[e].owner_id);
            assert(e < initial.len());
            assert(initial[e] == evidence[e]);
            assert(is_of_correlation(initial[e], correlation));
        }
        if exists|e: int|
            0 <= e < initial.len() && is_of_correlation(#[trigger] initial[e], correlation) && initial[e].kind
                == "build"@ && initial[e].properties.text_field("build_run_id"@) == Some(x) {
            let e = choose|e: int|
                0 <= e < initial.len() && is_of_correlation(#[trigger] initial[e], correlation) && initial[e].kind
                    == "build"@ && initial[e].properties.text_field("build_run_id"@) == Some(x);
            assert(evidence[e] == initial[e]);
            texts_of_all_phases(list, list.len() as int, evidence[e].owner_id);
            assert(supports_correlation(evidence, site_ids)(e));
            assert(keep(e) && item(e) == x);
            assert(members.contains(x));
            assert(runs.contains(x));
            let i = choose|i: int| 0 <= i < runs.len() && runs[i] == x;
            assert(shown[i] == JsonModel::Text(x));
        }
    }
}

/// Each correlation in conflict is reported, and what was seen of its sites is found under the
/// report too.
pub proof fn conflicts_are_reported(begun: GraphSnapshot, matrix: ProfileMatrixRecord, c: int, e: int)
    requires
        0 <= c < matrix.correlations@.len(),
        matrix.correlations@[c].status@ == "conflict"@,
        matrix.correlations@[c].diagnostic_id is Some,
    ensures
        exists|d: int|
            0 <= d < with_matrix(findings_of(begun), matrix).diagnostics.len() && reports_conflict(
                #[trigger] with_matrix(findings_of(begun), matrix).diagnostics[d],
                matrix.correlations@[c],
                findings_of(begun).evidence,
            ),
        0 <= e < begun.evidence@.len() && is_of_correlation(begun.evidence@[e]@, matrix.correlations@[c])
            ==> exists|k: int|
            0 <= k < with_matrix(findings_of(begun), matrix).evidence.len() && (#[trigger] with_matrix(
                findings_of(begun),
                matrix,
            ).evidence[k]).owner_type == "diagnostic"@ && with_matrix(findings_of(begun), matrix).evidence[k].owner_id
                == matrix.correlations@[c].diagnostic_id->0@ && is_copy(
                with_matrix(findings_of(begun), matrix).evidence[k],
                begun.evidence@[e]@,
            ),
{
    let findings = findings_of(begun);
    let correlations = matrix.correlations@;
    let entries = matrix.entries@;
    let total = correlations.len() as int;
    let wanted = |x: ProfileCorrelationRecord| x.status@ == "conflict"@ && x.diagnostic_id is Some;
    let correlation = correlations[c];
    let list = correlation.site_ids_by_phase@;
    let site_ids = all_texts(list, list.len() as int);
    correlations_go_on(findings, correlations, 0, c, wanted);
    correlations_go_on(findings, correlations, c + 1, total, wanted);
    let middle = with_correlations(findings, correlations, total);
    entries_go_on(middle, entries, 0, entries.len() as int);
    let last = with_matrix(findings, matrix);
    let earlier = with_correlations(findings, correlations, c);
    let later = with_correlations(findings, correlations, c + 1);
    let found = conflict_diagnostic(correlation, earlier.evidence);
    let keep = supports_correlation(earlier.evidence, site_ids);
    assert(later == with_diagnostic(earlier, found, keep));
    findings_go_on(earlier, found, keep);
    conflicts_are_described(correlation, findings.evidence, earlier.evidence);
    let d = earlier.diagnostics.len() as int;
    assert(later.diagnostics[d] == found);
    assert(middle.diagnostics[d] == found);
    assert(last.diagnostics[d] == found);
    if 0 <= e < begun.evidence@.len() && is_of_correlation(begun.evidence@[e]@, correlation) {
        assert(findings.evidence[e] == begun.evidence@[e]@);
        assert(earlier.evidence[e] == findings.evidence[e]);
        texts_of_all_phases(list, list.len() as int, earlier.evidence[e].owner_id);
        assert(keep(e));
        let k = given_evidence_is_found(earlier, found, keep, e);
        assert(middle.evidence[k] == later.evidence[k]);
        assert(last.evidence[k] == middle.evidence[k]);
    }
}

/// Whether a finding reports an axis on which a profile departs from its parent.
pub open spec fn reports_departure(found: DiagnosticModel, entry: ProfileMatrixEntryRecord, a: int) -> bool {
    let conflict = entry.axis_conflicts@[a];
    &&& found.id == conflict.diagnostic_id@
    &&& found.severity == "warning"@
    &&& found.code == "PROFILE_MATRIX_PROFILE_CONFLICT"@
    &&& found.path is None
    &&& found.adapter is None
    &&& found.start_line is None
    &&& found.start_column is None
    &&& found.end_line is None
    &&& found.end_column is None
    &&& found.properties is Object
    &&& ({
        let fields = found.properties->Object_0;
        &&& fields.contains(("profile_matrix_schema"@, JsonModel::Text("profile-matrix-v1"@)))
        &&& fields.contains(("effective_input_id"@, JsonModel::Text(entry.effective_input_id@)))
        &&& fields.contains(("effective_profile_id"@, JsonModel::Text(entry.id@)))
        &&& fields.contains(("parent_profile_id"@, JsonModel::Text(conflict.parent_profile_id@)))
        &&& fields.contains(("profile_id"@, JsonModel::Text(conflict.profile_id@)))
        &&& exists|names: Seq<JsonModel>| #[trigger]
            fields.contains(("fields"@, JsonModel::Array(names))) && names.len() == conflict.fields@.len() && forall|
                i: int,
            |
                0 <= i < names.len() ==> #[trigger] names[i] == JsonModel::Text(conflict.fields@[i]@)
    })
}

/// Each axis on which a profile departs from its parent is reported, and what builds of the
/// profile showed is found under the report too.
pub proof fn departures_are_reported(begun: GraphSnapshot, matrix: ProfileMatrixRecord, p: int, a: int, e: int)
    requires
        0 <= p < matrix.entries@.len(),
        0 <= a < matrix.entries@[p].axis_conflicts@.len(),
    ensures
        exists|d: int|
            0 <= d < with_matrix(findings_of(begun), matrix).diagnostics.len() && reports_departure(
                #[trigger] with_matrix(findings_of(begun), matrix).diagnostics[d],
                matrix.entries@[p],
                a,
            ),
        0 <= e < begun.evidence@.len() && begun.evidence@[e].kind@ == "build"@
            && begun.evidence@[e].properties@.text_field("profile_id"@) == Some(
            matrix.entries@[p].axis_conflicts@[a].profile_id@,
        ) ==> exists|k: int|
            0 <= k < with_matrix(findings_of(begun), matrix).evidence.len() && (#[trigger] with_matrix(
                findings_of(begun),
                matrix,
            ).evidence[k]).owner_type == "diagnostic"@ && with_matrix(findings_of(begun), matrix).evidence[k].owner_id
                == matrix.entries@[p].axis_conflicts@[a].diagnostic_id@ && is_copy(
                with_matrix(findings_of(begun), matrix).evidence[k],
                begun.evidence@[e]@,
            ),
{
    let findings = findings_of(begun);
    let correlations = matrix.correlations@;
    let entries = matrix.entries@;
    let wanted = |x: ProfileCorrelationRecord| x.status@ == "conflict"@ && x.diagnostic_id is Some;
    correlations_go_on(findings, correlations, 0, correlations.len() as int, wanted);
    let middle = with_correlations(findings, correlations, correlations.len() as int);
    entries_go_on(middle, entries, 0, p);
    entries_go_on(middle, entries, p + 1, entries.len() as int);
    let start = with_entries(middle, entries, p);
    let entry = entries[p];
    let total = entry.axis_conflicts@.len() as int;
    axis_conflicts_go_on(start, entry, 0, a);
    axis_conflicts_go_on(start, entry, a + 1, total);
    let earlier = with_axis_conflicts(start, entry, a);
    let later = with_axis_conflicts(start, entry, a + 1);
    let conflict = entry.axis_conflicts@[a]@;
    let found = crate::matrix_refresh::axis_diagnostic(entry.id@, entry.effective_input_id@, conflict);
    let keep = is_build_of_profile(earlier.evidence, conflict.profile_id);
    assert(later == with_diagnostic(earlier, found, keep));
    findings_go_on(earlier, found, keep);
    let done = with_axis_conflicts(start, entry, total);
    assert(done == with_entries(middle, entries, p + 1));
    let last = with_matrix(findings, matrix);
    let d = earlier.diagnostics.len() as int;
    assert(later.diagnostics[d] == found);
    assert(done.diagnostics[d] == found);
    assert(last.diagnostics[d] == found);
    let fields = found.properties->Object_0;
    assert(PROFILE_MATRIX_SCHEMA_VERSION@ == "profile-matrix-v1"@);
    assert(fields[0] == ("effective_input_id"@, JsonModel::Text(entry.effective_input_id@)));
    assert(fields[1] == ("effective_profile_id"@, JsonModel::Text(entry.id@)));
    let names = json_texts(conflict.fields)->Array_0;
    assert(fields[2] == ("fields"@, JsonModel::Array(names)));
    assert(fields.contains(("fields"@, JsonModel::Array(names))));
    assert(fields[3] == ("parent_profile_id"@, JsonModel::Text(conflict.parent_profile_id)));
    assert(fields[4] == ("profile_id"@, JsonModel::Text(conflict.profile_id)));
    assert(fields[5] == ("profile_matrix_schema"@, JsonModel::Text("profile-matrix-v1"@)));
    assert(reports_departure(last.diagnostics[d], entry, a));
    if 0 <= e < begun.evidence@.len() && begun.evidence@[e].kind@ == "build"@
        && begun.evidence@[e].properties@.text_field("profile_id"@) == Some(conflict.profile_id) {
        assert(findings.evidence[e] == begun.evidence@[e]@);
        assert(middle.evidence[e] == findings.evidence[e]);
        assert(start.evidence[e] == middle.evidence[e]);
        assert(earlier.evidence[e] == start.evidence[e]);
        assert(keep(e));
        let k = given_evidence_is_found(earlier, found, keep, e);
        assert(done.evidence[k] == later.evidence[k]);
        assert(last.evidence[k] == done.evidence[k]);
    }
}

/// Attaching a matrix keeps all that was found, each as it is but for its number, and changes
/// nothing else of the snapshot.
pub proof fn attached_snapshots_hold_the_findings(
    begun: GraphSnapshot,
    matrix: ProfileMatrixRecord,
    mark: RefreshMark,
    canonical: bool,
    after: GraphSnapshot,
    d: int,
    e: int,
)
    requires
        is_attached(begun, matrix, mark, canonical, after),
        with_matrix(findings_of(begun), matrix).diagnostics.len() <= usize::MAX,
        with_matrix(findings_of(begun), matrix).evidence.len() <= usize::MAX,
    ensures
        after.profile_matrix == matrix,
        after.scan == begun.scan,
        after.profiles == begun.profiles,
        after.nodes == begun.nodes,
        after.sites == begun.sites,
        after.edges == begun.edges,
        after.file_coverage == begun.file_coverage,
        after.adapter_logs == begun.adapter_logs,
        after.coverage == begun.coverage,
        after.diagnostics@.len() == with_matrix(findings_of(begun), matrix).diagnostics.len(),
        after.evidence@.len() == with_matrix(findings_of(begun), matrix).evidence.len(),
        0 <= d < after.diagnostics@.len() ==> exists|k: int|
            0 <= k < after.diagnostics@.len() && ({
                let shown = (#[trigger] after.diagnostics@[k])@;
                shown == (DiagnosticModel {
                    ordinal: shown.ordinal,
                    ..with_matrix(findings_of(begun), matrix).diagnostics[d]
                })
            }),
        0 <= e < after.evidence@.len() ==> exists|k: int|
            0 <= k < after.evidence@.len() && (#[trigger] after.evidence@[k])@ == with_matrix(
                findings_of(begun),
                matrix,
            ).evidence[e],
{
    let found = with_matrix(findings_of(begun), matrix);
    let shown = findings_of(after);
    let places = choose|places: Seq<EvidencePlace>| #[trigger]
        are_places(places, found.evidence) && is_ranked_sort(found.evidence, places, shown.evidence);
    ranked_lists_hold_the_items(found.evidence, places, shown.evidence);
    if 0 <= e < after.evidence@.len() {
        assert(found.evidence.contains(found.evidence[e]));
        assert(shown.evidence.contains(found.evidence[e]));
        let k = choose|k: int| 0 <= k < shown.evidence.len() && shown.evidence[k] == found.evidence[e];
        assert(after.evidence@[k]@ == found.evidence[e]);
    }
    if canonical {
        let sorted = choose|sorted: Seq<DiagnosticModel>| #[trigger]
            is_stable_sort(found.diagnostics, model_ids(found.diagnostics), sorted) && shown.diagnostics == Seq::new(
                sorted.len(),
                |i: int| crate::matrix_refresh::renumbered(sorted[i], i as i64),
            );
        sorted_lists_hold_the_items(found.diagnostics, model_ids(found.diagnostics), sorted);
        assert(shown.diagnostics.len() == after.diagnostics@.len());
        if 0 <= d < after.diagnostics@.len() {
            assert(found.diagnostics.contains(found.diagnostics[d]));
            assert(sorted.contains(found.diagnostics[d]));
            let k = choose|k: int| 0 <= k < sorted.len() && sorted[k] == found.diagnostics[d];
            assert(shown.diagnostics[k] == after.diagnostics@[k]@);
        }
    } else {
        assert(shown.diagnostics.len() == after.diagnostics@.len());
        if 0 <= d < after.diagnostics@.len() {
            assert(shown.diagnostics[d] == after.diagnostics@[d]@);
        }
    }
}

/// Evidence is shown by the kind of its owner, then by its owner, then by its number.
pub proof fn attached_evidence_is_in_order(
    begun: GraphSnapshot,
    matrix: ProfileMatrixRecord,
    mark: RefreshMark,
    canonical: bool,
    after: GraphSnapshot,
    i: int,
    j: int,
)
    requires
        is_attached(begun, matrix, mark, canonical, after),
        0 <= i < j < after.evidence@.len(),
    ensures
        ({
            let a = after.evidence@[i];
            let b = after.evidence@[j];
            ||| text_lt(a.owner_type@, b.owner_type@)
            ||| a.owner_type@ == b.owner_type@ && text_lt(a.owner_id@, b.owner_id@)
            ||| a.owner_type@ == b.owner_type@ && a.owner_id@ == b.owner_id@ && a.ordinal <= b.ordinal
        }),
{
    let found = with_matrix(findings_of(begun), matrix);
    let shown = findings_of(after);
    let places = choose|places: Seq<EvidencePlace>| #[trigger]
        are_places(places, found.evidence) && is_ranked_sort(found.evidence, places, shown.evidence);
    let order = choose|order: Seq<usize>| #[trigger]
        crate::sort::is_rank_order(places, order) && shown.evidence == Seq::new(
            order.len(),
            |k: int| found.evidence[order[k] as int],
        );
    assert(shown.evidence.len() == after.evidence@.len());
    assert(crate::sort::goes_before(places, order[i] as int, order[j] as int));
    assert(shown.evidence[i] == after.evidence@[i]@);
    assert(shown.evidence[j] == after.evidence@[j]@);
    let x = places[order[i] as int];
    let y = places[order[j] as int];
    text_lt_total(x.owner_type@, y.owner_type@);
    text_lt_total(x.owner_id@, y.owner_id@);
}

/// Canonical diagnostics are shown by their identities and numbered by their places.
pub proof fn canonical_diagnostics_are_in_order(
    begun: GraphSnapshot,
    matrix: ProfileMatrixRecord,
    mark: RefreshMark,
    after: GraphSnapshot,
    i: int,
    j: int,
)
    requires
        is_attached(begun, matrix, mark, true, after),
        0 <= i < j < after.diagnostics@.len(),
        j <= i64::MAX,
    ensures
        after.diagnostics@[i].ordinal == i,
        after.diagnostics@[j].ordinal == j,
        !text_lt(after.diagnostics@[j].id@, after.diagnostics@[i].id@),
{
    let found = with_matrix(findings_of(begun), matrix);
    let shown = findings_of(after);
    let keys = model_ids(found.diagnostics);
    let sorted = choose|sorted: Seq<DiagnosticModel>| #[trigger]
        is_stable_sort(found.diagnostics, keys, sorted) && shown.diagnostics == Seq::new(
            sorted.len(),
            |k: int| crate::matrix_refresh::renumbered(sorted[k], k as i64),
        );
    let order = choose|order: Seq<usize>| #[trigger]
        crate::order::is_stable_order(keys, order) && sorted == Seq::new(
            order.len(),
            |k: int| found.diagnostics[order[k] as int],
        );
    assert(shown.diagnostics.len() == after.diagnostics@.len());
    assert(shown.diagnostics[i] == after.diagnostics@[i]@);
    assert(shown.diagnostics[j] == after.diagnostics@[j]@);
    assert(crate::order::before(keys, order[i] as int, order[j] as int));
    let x = keys[order[i] as int];
    let y = keys[order[j] as int];
    text_lt_irreflexive(x);
    if text_lt(y, x) {
        if text_lt(x, y) {
            text_lt_transitive(x, y, x);
        }
    }
}

/// Without canonical numbers, what was kept keeps its number and place, and what was found is
/// numbered on from the mark.
pub proof fn findings_are_numbered_from_the_mark(
    begun: GraphSnapshot,
    matrix: ProfileMatrixRecord,
    mark: RefreshMark,
    after: GraphSnapshot,
    i: int,
)
    requires
        is_attached(begun, matrix, mark, false, after),
        mark.retained_diagnostics == begun.diagnostics@.len(),
        0 <= i < after.diagnostics@.len(),
        i <= i64::MAX,
    ensures
        i < begun.diagnostics@.len() ==> after.diagnostics@[i]@ == begun.diagnostics@[i]@,
        i >= begun.diagnostics@.len() && mark.next_ordinal + i - begun.diagnostics@.len() <= i64::MAX
            ==> after.diagnostics@[i].ordinal == mark.next_ordinal + i - begun.diagnostics@.len(),
{
    let findings = findings_of(begun);
    let found = with_matrix(findings, matrix);
    let shown = findings_of(after);
    assert(shown.diagnostics.len() == after.diagnostics@.len());
    assert(shown.diagnostics[i] == after.diagnostics@[i]@);
    let correlations = matrix.correlations@;
    let wanted = |x: ProfileCorrelationRecord| x.status@ == "conflict"@ && x.diagnostic_id is Some;
    correlations_go_on(findings, correlations, 0, correlations.len() as int, wanted);
    let middle = with_correlations(findings, correlations, correlations.len() as int);
    entries_go_on(middle, matrix.entries@, 0, matrix.entries@.len() as int);
    if i < begun.diagnostics@.len() {
        assert(middle.diagnostics[i] == findings.diagnostics[i]);
        assert(found.diagnostics[i] == middle.diagnostics[i]);
        assert(findings.diagnostics[i] == begun.diagnostics@[i]@);
    }
}

} // verus!

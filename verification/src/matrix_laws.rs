//! That refreshing the profile matrix of a graph again changes nothing.

use vstd::prelude::*;

use crate::json::{Json, JsonModel};
use crate::matrix_build::{axis_models, AxisModel};
use crate::matrix_refresh::{
    all_texts, are_places, axis_diagnostic, conflict_diagnostic, derived_diagnostics_are_recognised, diagnostic_ids,
    diagnostic_models, evidence_is_retained, evidence_models, findings_of, is_attached, is_begun,
    is_build_of_profile, is_canonical, is_evidence_order, is_retained, item_at, json_texts_by_phase,
    json_values_by_phase, model_ids, owned_evidence, phases_of, renumbered, retained_evidence, supports_correlation,
    with_axis_conflicts, with_correlation, with_correlations, with_diagnostic, with_entries, with_matrix,
    EvidencePlace, Findings, RefreshMark,
};
use crate::order::{
    before, collect, collect_holds_the_kept_items, count_of, counts_grow, equal_selections_are_equal,
    is_stable_order, is_stable_sort, kept_items_stand_in_order, selected_from, selections_are_counted,
    stable_orders_agree, views,
};
use crate::profile_matrix::{
    coverage_models, PhaseCoverageModel, ProfileCorrelationRecord, ProfileMatrixEntryRecord, ProfileMatrixRecord,
    PROFILE_MATRIX_SCHEMA_VERSION,
};
use crate::records::{DiagnosticModel, DiagnosticRecord, EvidenceModel, EvidenceRecord, GraphSnapshot};
use crate::sort::{
    enumerations_agree, goes_before, goes_before_is_asymmetric, is_rank_order, is_ranked_sort, rank_orders_agree,
    Ranked,
};
use crate::text::{opt_text, text_lt, text_lt_irreflexive, texts};

verus! {

proof fn evidence_selections(count: int, keep: spec_fn(int) -> bool, evidence: Seq<EvidenceRecord>)
    requires
        count <= evidence.len(),
    ensures
        evidence_models(collect(count, keep, item_at(evidence))) == collect(
            count,
            keep,
            item_at(evidence_models(evidence)),
        ),
    decreases count,
{
    if count > 0 {
        evidence_selections(count - 1, keep, evidence);
        let earlier = collect(count - 1, keep, item_at(evidence));
        if keep(count - 1) {
            assert(evidence_models(earlier.push(evidence[count - 1])) =~= evidence_models(earlier).push(
                evidence_models(evidence)[count - 1],
            ));
        }
    } else {
        assert(evidence_models(Seq::<EvidenceRecord>::empty()) =~= Seq::<EvidenceModel>::empty());
    }
}

// ---------------------------------------------------------------------------------------
// What a matrix adds
// ---------------------------------------------------------------------------------------

/// Findings with further diagnostics in front.
spec fn behind(earlier: Seq<DiagnosticModel>, findings: Findings) -> Findings {
    Findings { diagnostics: earlier + findings.diagnostics, evidence: findings.evidence }
}

/// What a matrix finds on some evidence.
pub open spec fn derived_from(evidence: Seq<EvidenceModel>, matrix: ProfileMatrixRecord) -> Findings {
    with_matrix(Findings { diagnostics: Seq::empty(), evidence }, matrix)
}

proof fn correlation_stands_behind(earlier: Seq<DiagnosticModel>, findings: Findings, correlation: ProfileCorrelationRecord)
    ensures
        with_correlation(behind(earlier, findings), correlation) == behind(
            earlier,
            with_correlation(findings, correlation),
        ),
{
    assert(with_correlation(behind(earlier, findings), correlation).diagnostics =~= behind(
        earlier,
        with_correlation(findings, correlation),
    ).diagnostics);
}

proof fn correlations_stand_behind(
    earlier: Seq<DiagnosticModel>,
    findings: Findings,
    correlations: Seq<ProfileCorrelationRecord>,
    count: int,
)
    ensures
        with_correlations(behind(earlier, findings), correlations, count) == behind(
            earlier,
            with_correlations(findings, correlations, count),
        ),
    decreases count,
{
    if count > 0 {
        correlations_stand_behind(earlier, findings, correlations, count - 1);
        correlation_stands_behind(
            earlier,
            with_correlations(findings, correlations, count - 1),
            correlations[count - 1],
        );
    }
}

proof fn axis_conflicts_stand_behind(
    earlier: Seq<DiagnosticModel>,
    findings: Findings,
    entry: ProfileMatrixEntryRecord,
    count: int,
)
    ensures
        with_axis_conflicts(behind(earlier, findings), entry, count) == behind(
            earlier,
            with_axis_conflicts(findings, entry, count),
        ),
    decreases count,
{
    if count > 0 {
        axis_conflicts_stand_behind(earlier, findings, entry, count - 1);
        assert(with_axis_conflicts(behind(earlier, findings), entry, count).diagnostics =~= behind(
            earlier,
            with_axis_conflicts(findings, entry, count),
        ).diagnostics);
    }
}

proof fn entries_stand_behind(
    earlier: Seq<DiagnosticModel>,
    findings: Findings,
    entries: Seq<ProfileMatrixEntryRecord>,
    count: int,
)
    ensures
        with_entries(behind(earlier, findings), entries, count) == behind(
            earlier,
            with_entries(findings, entries, count),
        ),
    decreases count,
{
    if count > 0 {
        entries_stand_behind(earlier, findings, entries, count - 1);
        axis_conflicts_stand_behind(
            earlier,
            with_entries(findings, entries, count - 1),
            entries[count - 1],
            entries[count - 1].axis_conflicts@.len() as int,
        );
    }
}

/// What a matrix derives depends on the evidence alone, and stands behind the diagnostics
/// that were there.
proof fn derived_findings_stand_behind(findings: Findings, matrix: ProfileMatrixRecord)
    ensures
        with_matrix(findings, matrix).diagnostics == findings.diagnostics + derived_from(
            findings.evidence,
            matrix,
        ).diagnostics,
        with_matrix(findings, matrix).evidence == derived_from(findings.evidence, matrix).evidence,
{
    let bare = Findings { diagnostics: Seq::empty(), evidence: findings.evidence };
    assert(behind(findings.diagnostics, bare) =~= findings);
    let count = matrix.correlations@.len() as int;
    correlations_stand_behind(findings.diagnostics, bare, matrix.correlations@, count);
    entries_stand_behind(
        findings.diagnostics,
        with_correlations(bare, matrix.correlations@, count),
        matrix.entries@,
        matrix.entries@.len() as int,
    );
}

/// Whether a diagnostic says that it was derived from a matrix.
spec fn says_derived(diagnostic: DiagnosticModel) -> bool {
    diagnostic.properties.text_field("profile_matrix_schema"@) == Some(PROFILE_MATRIX_SCHEMA_VERSION@)
}

/// Whether findings add derived diagnostics to none, and their evidence to some evidence.
spec fn only_adds(evidence: Seq<EvidenceModel>, findings: Findings) -> bool {
    &&& findings.evidence.len() >= evidence.len()
    &&& findings.evidence.subrange(0, evidence.len() as int) == evidence
    &&& forall|k: int|
        evidence.len() <= k < findings.evidence.len() ==> (#[trigger] findings.evidence[k]).owner_type
            == "diagnostic"@ && model_ids(findings.diagnostics).contains(findings.evidence[k].owner_id)
    &&& forall|d: int| 0 <= d < findings.diagnostics.len() ==> says_derived(#[trigger] findings.diagnostics[d])
}

proof fn owned_evidence_is_owned(matching: Seq<EvidenceModel>, id: Seq<char>, count: int)
    ensures
        forall|k: int|
            0 <= k < owned_evidence(matching, id, count).len() ==> (#[trigger] owned_evidence(
                matching,
                id,
                count,
            )[k]).owner_type == "diagnostic"@ && owned_evidence(matching, id, count)[k].owner_id == id,
    decreases count,
{
    if count > 0 {
        owned_evidence_is_owned(matching, id, count - 1);
    }
}

proof fn diagnostics_only_add(
    evidence: Seq<EvidenceModel>,
    findings: Findings,
    diagnostic: DiagnosticModel,
    keep: spec_fn(int) -> bool,
)
    requires
        only_adds(evidence, findings),
        says_derived(diagnostic),
    ensures
        only_adds(evidence, with_diagnostic(findings, diagnostic, keep)),
{
    let after = with_diagnostic(findings, diagnostic, keep);
    let matching = collect(findings.evidence.len() as int, keep, item_at(findings.evidence));
    let fresh = owned_evidence(matching, diagnostic.id, matching.len() as int);
    owned_evidence_is_owned(matching, diagnostic.id, matching.len() as int);
    assert(after.evidence.subrange(0, evidence.len() as int) =~= evidence) by {
        assert(findings.evidence.subrange(0, evidence.len() as int) =~= after.evidence.subrange(
            0,
            evidence.len() as int,
        ));
    }
    let ids = model_ids(after.diagnostics);
    assert(ids[findings.diagnostics.len() as int] == diagnostic.id);
    assert forall|k: int| evidence.len() <= k < after.evidence.len() implies (#[trigger] after.evidence[k]).owner_type
        == "diagnostic"@ && ids.contains(after.evidence[k].owner_id) by {
        if k < findings.evidence.len() {
            assert(after.evidence[k] == findings.evidence[k]);
            let old_ids = model_ids(findings.diagnostics);
            let d = choose|d: int| 0 <= d < old_ids.len() && old_ids[d] == findings.evidence[k].owner_id;
            assert(ids[d] == old_ids[d]);
        } else {
            assert(after.evidence[k] == fresh[k - findings.evidence.len()]);
        }
    }
}

proof fn correlations_only_add(
    evidence: Seq<EvidenceModel>,
    findings: Findings,
    correlations: Seq<ProfileCorrelationRecord>,
    count: int,
)
    requires
        only_adds(evidence, findings),
    ensures
        only_adds(evidence, with_correlations(findings, correlations, count)),
    decreases count,
{
    if count > 0 {
        correlations_only_add(evidence, findings, correlations, count - 1);
        let earlier = with_correlations(findings, correlations, count - 1);
        let correlation = correlations[count - 1];
        if correlation.status@ == "conflict"@ && correlation.diagnostic_id is Some {
            conflicts_say_derived(correlation, earlier.evidence);
            diagnostics_only_add(
                evidence,
                earlier,
                conflict_diagnostic(correlation, earlier.evidence),
                supports_correlation(
                    earlier.evidence,
                    all_texts(
                        correlation.site_ids_by_phase@,
                        correlation.site_ids_by_phase@.len() as int,
                    ),
                ),
            );
        }
    }
}

proof fn conflicts_say_derived(correlation: ProfileCorrelationRecord, evidence: Seq<EvidenceModel>)
    ensures
        says_derived(conflict_diagnostic(correlation, evidence)),
{
    let conflict = AxisModel {
        profile_id: Seq::empty(),
        parent_profile_id: Seq::empty(),
        fields: Seq::empty(),
        diagnostic_id: Seq::empty(),
    };
    derived_diagnostics_are_recognised(correlation, evidence, Seq::empty(), Seq::empty(), conflict);
}

proof fn axis_conflicts_only_add(
    evidence: Seq<EvidenceModel>,
    findings: Findings,
    entry: ProfileMatrixEntryRecord,
    count: int,
)
    requires
        only_adds(evidence, findings),
    ensures
        only_adds(evidence, with_axis_conflicts(findings, entry, count)),
    decreases count,
{
    if count > 0 {
        axis_conflicts_only_add(evidence, findings, entry, count - 1);
        let earlier = with_axis_conflicts(findings, entry, count - 1);
        let conflict = entry.axis_conflicts@[count - 1]@;
        axes_say_derived(entry.id@, entry.effective_input_id@, conflict);
        diagnostics_only_add(
            evidence,
            earlier,
            axis_diagnostic(entry.id@, entry.effective_input_id@, conflict),
            is_build_of_profile(earlier.evidence, conflict.profile_id),
        );
    }
}

proof fn axes_say_derived(entry_id: Seq<char>, input: Seq<char>, conflict: AxisModel)
    ensures
        says_derived(axis_diagnostic(entry_id, input, conflict)),
{
    let correlation: ProfileCorrelationRecord = arbitrary();
    derived_diagnostics_are_recognised(correlation, Seq::empty(), entry_id, input, conflict);
}

proof fn entries_only_add(
    evidence: Seq<EvidenceModel>,
    findings: Findings,
    entries: Seq<ProfileMatrixEntryRecord>,
    count: int,
)
    requires
        only_adds(evidence, findings),
    ensures
        only_adds(evidence, with_entries(findings, entries, count)),
    decreases count,
{
    if count > 0 {
        entries_only_add(evidence, findings, entries, count - 1);
        axis_conflicts_only_add(
            evidence,
            with_entries(findings, entries, count - 1),
            entries[count - 1],
            entries[count - 1].axis_conflicts@.len() as int,
        );
    }
}

proof fn a_matrix_only_adds(evidence: Seq<EvidenceModel>, matrix: ProfileMatrixRecord)
    ensures
        only_adds(evidence, derived_from(evidence, matrix)),
{
    let bare = Findings { diagnostics: Seq::empty(), evidence };
    assert(bare.evidence.subrange(0, evidence.len() as int) =~= evidence);
    let count = matrix.correlations@.len() as int;
    correlations_only_add(evidence, bare, matrix.correlations@, count);
    entries_only_add(
        evidence,
        with_correlations(bare, matrix.correlations@, count),
        matrix.entries@,
        matrix.entries@.len() as int,
    );
}

// ---------------------------------------------------------------------------------------
// Diagnostics
// ---------------------------------------------------------------------------------------

/// Which diagnostics do not say that they were derived.
spec fn says_other(diagnostics: Seq<DiagnosticModel>) -> spec_fn(int) -> bool {
    |i: int| !says_derived(diagnostics[i])
}

/// The diagnostics that do not say that they were derived.
spec fn others(diagnostics: Seq<DiagnosticModel>) -> Seq<DiagnosticModel> {
    collect(diagnostics.len() as int, says_other(diagnostics), item_at(diagnostics))
}

proof fn canonical_forms_agree(diagnostics: Seq<DiagnosticModel>, a: Seq<DiagnosticModel>, b: Seq<DiagnosticModel>)
    requires
        is_canonical(diagnostics, a),
        is_canonical(diagnostics, b),
        diagnostics.len() <= usize::MAX,
    ensures
        a == b,
{
    let keys = model_ids(diagnostics);
    let first = choose|sorted: Seq<DiagnosticModel>| #[trigger]
        is_stable_sort(diagnostics, keys, sorted) && a == Seq::new(
            sorted.len(),
            |i: int| renumbered(sorted[i], i as i64),
        );
    let second = choose|sorted: Seq<DiagnosticModel>| #[trigger]
        is_stable_sort(diagnostics, keys, sorted) && b == Seq::new(
            sorted.len(),
            |i: int| renumbered(sorted[i], i as i64),
        );
    let first_order = choose|order: Seq<usize>| #[trigger]
        is_stable_order(keys, order) && first == Seq::new(order.len(), |i: int| diagnostics[order[i] as int]);
    let second_order = choose|order: Seq<usize>| #[trigger]
        is_stable_order(keys, order) && second == Seq::new(order.len(), |i: int| diagnostics[order[i] as int]);
    stable_orders_agree(keys, first_order, second_order);
}

/// Which positions of an order lie below a bound.
spec fn lies_below(order: Seq<usize>, bound: int) -> spec_fn(int) -> bool {
    |i: int| order[i] < bound
}

/// As many positions of an order lie below a bound as there are.
proof fn positions_below(order: Seq<usize>, bound: int)
    requires
        0 <= bound <= order.len() <= usize::MAX,
        forall|i: int, j: int| 0 <= i < j < order.len() ==> #[trigger] order[i] != #[trigger] order[j],
        forall|p: usize| p < order.len() ==> #[trigger] order.contains(p),
    ensures
        count_of(order.len() as int, lies_below(order, bound)) == bound,
{
    let count = order.len() as int;
    let keep = lies_below(order, bound);
    let at = |i: int| order[i] as int;
    let kept = collect(count, keep, at);
    selections_are_counted(count, keep, at);
    assert forall|x: int| #[trigger] kept.contains(x) <==> 0 <= x < bound by {
        collect_holds_the_kept_items(count, keep, at, x);
        if kept.contains(x) {
            let i = choose|i: int| 0 <= i < count && #[trigger] keep(i) && at(i) == x;
            assert(order[i] == x);
        }
        if 0 <= x < bound {
            assert(order.contains(x as usize));
            let i = choose|i: int| 0 <= i < order.len() && order[i] == x as usize;
            assert(keep(i) && at(i) == x);
        }
    }
    assert(kept.no_duplicates()) by {
        assert forall|a: int, b: int| 0 <= a < kept.len() && 0 <= b < kept.len() && a != b implies kept[a] != kept[b] by {
            let i = selected_from(count, keep, a);
            let j = selected_from(count, keep, b);
            kept_items_stand_in_order(count, keep, at, i);
            kept_items_stand_in_order(count, keep, at, j);
            if i < j {
                assert(order[i] != order[j]);
            } else {
                assert(j < i);
                assert(order[j] != order[i]);
            }
        }
    }
    vstd::seq_lib::seq_to_set_is_finite(kept);
    kept.unique_seq_to_set();
    vstd::set_lib::lemma_int_range(0, bound);
    assert(kept.to_set() =~= vstd::set_lib::set_int_range(0, bound)) by {
        assert forall|x: int| kept.to_set().contains(x) <==> vstd::set_lib::set_int_range(0, bound).contains(x) by {
            assert(kept.contains(x) <==> 0 <= x < bound);
        }
    }
}

/// Diagnostics in canonical form, without the derived ones and with these put behind them
/// again, have the same canonical form.
#[verifier::spinoff_prover]
proof fn canonical_again(kept: Seq<DiagnosticModel>, derived: Seq<DiagnosticModel>, result: Seq<DiagnosticModel>)
    requires
        is_canonical(kept + derived, result),
        result.len() <= usize::MAX,
        forall|i: int| 0 <= i < kept.len() ==> !says_derived(#[trigger] kept[i]),
        forall|i: int| 0 <= i < derived.len() ==> says_derived(#[trigger] derived[i]),
    ensures
        is_canonical(others(result) + derived, result),
        others(result).len() == kept.len(),
        result.len() == kept.len() + derived.len(),
        forall|id: Seq<char>|
            model_ids(others(result)).contains(id) ==> #[trigger] model_ids(kept).contains(id),
        forall|id: Seq<char>|
            #[trigger] model_ids(kept).contains(id) ==> model_ids(others(result)).contains(id),
{
    let all = kept + derived;
    let keys = model_ids(all);
    let sorted = choose|sorted: Seq<DiagnosticModel>| #[trigger]
        is_stable_sort(all, keys, sorted) && result == Seq::new(
            sorted.len(),
            |i: int| renumbered(sorted[i], i as i64),
        );
    let order = choose|order: Seq<usize>| #[trigger]
        is_stable_order(keys, order) && sorted == Seq::new(order.len(), |i: int| all[order[i] as int]);
    let count = result.len() as int;
    let d = kept.len() as int;
    assert forall|i: int, j: int| 0 <= i < j < order.len() implies #[trigger] order[i] != #[trigger] order[j] by {
        assert(before(keys, order[i] as int, order[j] as int));
        text_lt_irreflexive(keys[order[i] as int]);
    }
    let keep = lies_below(order, d);
    positions_below(order, d);
    let rest = others(result);
    assert forall|i: int| 0 <= i < count implies #[trigger] keep(i) == says_other(result)(i) by {
        assert(result[i].properties == all[order[i] as int].properties);
        if order[i] < d {
            assert(!says_derived(kept[order[i] as int]));
        } else {
            assert(says_derived(derived[order[i] - d]));
        }
    }
    equal_selections_are_equal(count, keep, says_other(result), item_at(result), item_at(result));
    selections_are_counted(count, keep, item_at(result));
    assert(rest.len() == d);
    let again = rest + derived;
    let new_keys = model_ids(again);
    let place = |i: int|
        if order[i] < d {
            count_of(i, keep) as usize
        } else {
            order[i]
        };
    let new_order = Seq::<usize>::new(order.len(), place);
    assert forall|i: int| 0 <= i < count implies {
        &&& (#[trigger] new_order[i]) < count
        &&& (order[i] < d ==> new_order[i] == count_of(i, keep) && new_order[i] < d && again[new_order[i] as int]
            == result[i])
        &&& (order[i] >= d ==> again[new_order[i] as int] == all[order[i] as int])
        &&& new_keys[new_order[i] as int] == keys[order[i] as int]
    } by {
        if order[i] < d {
            assert(keep(i));
            kept_items_stand_in_order(count, keep, item_at(result), i);
            assert(again[new_order[i] as int] == result[i]);
            assert(result[i].id == all[order[i] as int].id);
        } else {
            assert(again[order[i] as int] == derived[order[i] - d]);
        }
    }
    assert forall|i: int, j: int| 0 <= i < j < new_order.len() implies before(
        new_keys,
        #[trigger] new_order[i] as int,
        #[trigger] new_order[j] as int,
    ) by {
        assert(before(keys, order[i] as int, order[j] as int));
        if !text_lt(keys[order[i] as int], keys[order[j] as int]) {
            if order[i] < d && order[j] < d {
                assert(keep(i));
                counts_grow(i + 1, j, keep);
            }
        }
    }
    assert forall|p: usize| p < new_keys.len() implies #[trigger] new_order.contains(p) by {
        if p < d {
            let i = selected_from(count, keep, p as int);
            assert(new_order[i] == p);
        } else {
            assert(order.contains(p));
            let i = choose|i: int| 0 <= i < order.len() && order[i] == p;
            assert(new_order[i] == p);
        }
    }
    assert(is_stable_order(new_keys, new_order));
    let new_sorted = Seq::new(new_order.len(), |i: int| again[new_order[i] as int]);
    assert(is_stable_sort(again, new_keys, new_sorted));
    let renamed = Seq::new(new_sorted.len(), |i: int| renumbered(new_sorted[i], i as i64));
    assert(result =~= renamed);
    assert(is_canonical(again, result));
    assert forall|id: Seq<char>| model_ids(rest).contains(id) implies #[trigger] model_ids(kept).contains(id) by {
        let p = choose|p: int| 0 <= p < model_ids(rest).len() && model_ids(rest)[p] == id;
        let i = selected_from(count, keep, p);
        kept_items_stand_in_order(count, keep, item_at(result), i);
        assert(rest[p] == result[i]);
        assert(model_ids(kept)[order[i] as int] == id);
    }
    assert forall|id: Seq<char>| #[trigger] model_ids(kept).contains(id) implies model_ids(rest).contains(id) by {
        let p = choose|p: int| 0 <= p < model_ids(kept).len() && model_ids(kept)[p] == id;
        assert(order.contains(p as usize));
        let i = choose|i: int| 0 <= i < order.len() && order[i] == p as usize;
        assert(keep(i));
        kept_items_stand_in_order(count, keep, item_at(result), i);
        assert(model_ids(rest)[count_of(i, keep) as int] == id);
    }
}

// ---------------------------------------------------------------------------------------
// Evidence
// ---------------------------------------------------------------------------------------

/// Whether a piece of evidence has its place before another: by owner, and for each owner by
/// ordinal.
pub open spec fn is_placed_before(a: EvidenceModel, b: EvidenceModel) -> bool {
    ||| text_lt(a.owner_type, b.owner_type)
    ||| a.owner_type == b.owner_type && text_lt(a.owner_id, b.owner_id)
    ||| a.owner_type == b.owner_type && a.owner_id == b.owner_id && a.ordinal < b.ordinal
}

/// Whether evidence stands by owner and ordinal.
pub open spec fn is_ordered(evidence: Seq<EvidenceModel>) -> bool {
    forall|i: int, j: int|
        0 <= i < j < evidence.len() ==> !is_placed_before(#[trigger] evidence[j], #[trigger] evidence[i])
}

pub(crate) proof fn evidence_orders_agree(evidence: Seq<EvidenceModel>, a: Seq<EvidenceModel>, b: Seq<EvidenceModel>)
    requires
        is_evidence_order(evidence, a),
        is_evidence_order(evidence, b),
        evidence.len() <= usize::MAX,
    ensures
        a == b,
{
    let places = choose|places: Seq<EvidencePlace>| #[trigger]
        are_places(places, evidence) && is_ranked_sort(evidence, places, a);
    let others = choose|places: Seq<EvidencePlace>| #[trigger]
        are_places(places, evidence) && is_ranked_sort(evidence, places, b);
    let first = choose|order: Seq<usize>| #[trigger]
        is_rank_order(places, order) && a == Seq::new(order.len(), |i: int| evidence[order[i] as int]);
    let second = choose|order: Seq<usize>| #[trigger]
        is_rank_order(others, order) && b == Seq::new(order.len(), |i: int| evidence[order[i] as int]);
    assert forall|x: int, y: int| 0 <= x < places.len() && 0 <= y < places.len() implies #[trigger] EvidencePlace::before(
        places[x],
        places[y],
    ) == EvidencePlace::before(others[x], others[y]) by {
        assert(places[x].owner_type@ == others[x].owner_type@ && places[x].owner_id@ == others[x].owner_id@);
        assert(places[y].owner_type@ == others[y].owner_type@ && places[y].owner_id@ == others[y].owner_id@);
        assert(places[x].ordinal == others[x].ordinal && places[y].ordinal == others[y].ordinal);
    }
    rank_orders_agree(places, others, first, second);
}

/// Evidence that stood in order, is put in order together with more and is then selected from
/// it stands as it stood.
proof fn ordered_evidence_is_found_again(
    evidence: Seq<EvidenceModel>,
    more: Seq<EvidenceModel>,
    sorted: Seq<EvidenceModel>,
    stays: spec_fn(int) -> bool,
    stays_in: spec_fn(EvidenceModel) -> bool,
)
    requires
        is_evidence_order(more, sorted),
        sorted.len() <= usize::MAX,
        more.len() >= evidence.len(),
        more.subrange(0, evidence.len() as int) == evidence,
        is_ordered(evidence),
        forall|i: int| 0 <= i < evidence.len() ==> stays_in(#[trigger] evidence[i]),
        forall|i: int| evidence.len() <= i < more.len() ==> !stays_in(#[trigger] more[i]),
        forall|i: int| 0 <= i < sorted.len() ==> #[trigger] stays(i) == stays_in(sorted[i]),
    ensures
        collect(sorted.len() as int, stays, item_at(sorted)) == evidence,
        more.len() == sorted.len(),
{
    let places = choose|places: Seq<EvidencePlace>| #[trigger]
        are_places(places, more) && is_ranked_sort(more, places, sorted);
    let order = choose|order: Seq<usize>| #[trigger]
        is_rank_order(places, order) && sorted == Seq::new(order.len(), |i: int| more[order[i] as int]);
    let count = sorted.len() as int;
    let bound = evidence.len() as int;
    let keep = lies_below(order, bound);
    let at = |i: int| order[i] as int;
    let lt = |x: int, y: int| goes_before(places, x, y);
    assert forall|x: int, y: int| #[trigger] lt(x, y) implies !lt(y, x) by {
        goes_before_is_asymmetric(places, x, y);
    }
    assert forall|k: int| 0 <= k < bound implies more[k] == evidence[k] by {
        assert(more.subrange(0, bound)[k] == more[k]);
    }
    assert forall|i: int| 0 <= i < count implies #[trigger] keep(i) == stays(i) by {
        assert(sorted[i] == more[order[i] as int]);
        if order[i] < bound {
            assert(stays_in(evidence[order[i] as int]));
        }
    }
    equal_selections_are_equal(count, keep, stays, item_at(sorted), item_at(sorted));
    let positions = collect(count, keep, at);
    let own = Seq::new(evidence.len(), |i: int| i);
    selections_are_counted(count, keep, at);
    assert forall|a: int, b: int| 0 <= a < b < positions.len() implies lt(
        #[trigger] positions[a],
        #[trigger] positions[b],
    ) by {
        let i = selected_from(count, keep, a);
        let j = selected_from(count, keep, b);
        kept_items_stand_in_order(count, keep, at, i);
        kept_items_stand_in_order(count, keep, at, j);
        if j <= i {
            counts_grow(j, i, keep);
        }
        assert(goes_before(places, order[i] as int, order[j] as int));
    }
    assert forall|a: int, b: int| 0 <= a < b < own.len() implies lt(#[trigger] own[a], #[trigger] own[b]) by {
        assert(!is_placed_before(evidence[b], evidence[a]));
        assert(places[a].owner_type@ == more[a].owner_type && places[a].owner_id@ == more[a].owner_id);
        assert(places[b].owner_type@ == more[b].owner_type && places[b].owner_id@ == more[b].owner_id);
        assert(places[a].ordinal == more[a].ordinal && places[b].ordinal == more[b].ordinal);
    }
    assert forall|x: int| positions.contains(x) <==> own.contains(x) by {
        collect_holds_the_kept_items(count, keep, at, x);
        if positions.contains(x) {
            let i = choose|i: int| 0 <= i < count && #[trigger] keep(i) && at(i) == x;
            assert(order[i] == x);
            assert(own[x] == x);
        }
        if own.contains(x) {
            assert(order.contains(x as usize));
            let i = choose|i: int| 0 <= i < order.len() && order[i] == x as usize;
            assert(keep(i) && at(i) == x);
        }
    }
    enumerations_agree(lt, positions, own);
    let found = collect(count, keep, item_at(sorted));
    selections_are_counted(count, keep, item_at(sorted));
    assert forall|p: int| 0 <= p < found.len() implies found[p] == evidence[p] by {
        let i = selected_from(count, keep, p);
        kept_items_stand_in_order(count, keep, item_at(sorted), i);
        kept_items_stand_in_order(count, keep, at, i);
        assert(positions[p] == own[p]);
        assert(order[i] == p);
    }
    assert(found =~= evidence);
}

// ---------------------------------------------------------------------------------------
// What a matrix holds
// ---------------------------------------------------------------------------------------

/// What an entry of a matrix holds.
#[verifier::ext_equal]
pub struct EntryModel {
    pub id: Seq<char>,
    pub effective_input_id: Seq<char>,
    pub language: Seq<char>,
    pub profile_ids: Seq<Seq<char>>,
    pub parent_profile_ids: Seq<Seq<char>>,
    pub phases: Seq<Seq<char>>,
    pub condition_union: JsonModel,
    pub phase_coverage: Seq<(Seq<char>, PhaseCoverageModel)>,
    pub selection_reasons: Seq<Seq<char>>,
    pub axis_conflicts: Seq<AxisModel>,
}

impl View for ProfileMatrixEntryRecord {
    type V = EntryModel;

    open spec fn view(&self) -> EntryModel {
        EntryModel {
            id: self.id@,
            effective_input_id: self.effective_input_id@,
            language: self.language@,
            profile_ids: texts(self.profile_ids@),
            parent_profile_ids: texts(self.parent_profile_ids@),
            phases: texts(self.phases@),
            condition_union: self.condition_union@,
            phase_coverage: coverage_models(self.phase_coverage@),
            selection_reasons: texts(self.selection_reasons@),
            axis_conflicts: axis_models(self.axis_conflicts@),
        }
    }
}

/// What texts by phase hold.
pub open spec fn phase_text_models(list: Seq<(String, Vec<String>)>) -> Seq<(Seq<char>, Seq<Seq<char>>)> {
    Seq::new(list.len(), |i: int| (list[i].0@, texts(list[i].1@)))
}

/// What values by phase hold.
pub open spec fn phase_value_models(list: Seq<(String, Json)>) -> Seq<(Seq<char>, JsonModel)> {
    Seq::new(list.len(), |i: int| (list[i].0@, list[i].1@))
}

/// What a correlation holds.
#[verifier::ext_equal]
pub struct CorrelationModel {
    pub id: Seq<char>,
    pub effective_profile_id: Seq<char>,
    pub source: Seq<char>,
    pub kind: Seq<char>,
    pub specifier: Seq<char>,
    pub status: Seq<char>,
    pub condition_union: JsonModel,
    pub conditions_by_phase: Seq<(Seq<char>, JsonModel)>,
    pub targets_by_phase: Seq<(Seq<char>, Seq<Seq<char>>)>,
    pub resolutions_by_phase: Seq<(Seq<char>, Seq<Seq<char>>)>,
    pub site_ids_by_phase: Seq<(Seq<char>, Seq<Seq<char>>)>,
    pub edge_ids_by_phase: Seq<(Seq<char>, Seq<Seq<char>>)>,
    pub difference_reasons: Seq<Seq<char>>,
    pub diagnostic_id: Option<Seq<char>>,
}

impl View for ProfileCorrelationRecord {
    type V = CorrelationModel;

    open spec fn view(&self) -> CorrelationModel {
        CorrelationModel {
            id: self.id@,
            effective_profile_id: self.effective_profile_id@,
            source: self.source@,
            kind: self.kind@,
            specifier: self.specifier@,
            status: self.status@,
            condition_union: self.condition_union@,
            conditions_by_phase: phase_value_models(self.conditions_by_phase@),
            targets_by_phase: phase_text_models(self.targets_by_phase@),
            resolutions_by_phase: phase_text_models(self.resolutions_by_phase@),
            site_ids_by_phase: phase_text_models(self.site_ids_by_phase@),
            edge_ids_by_phase: phase_text_models(self.edge_ids_by_phase@),
            difference_reasons: texts(self.difference_reasons@),
            diagnostic_id: opt_text(self.diagnostic_id),
        }
    }
}

/// What a matrix holds.
#[verifier::ext_equal]
pub struct MatrixModel {
    pub schema_version: Seq<char>,
    pub entries: Seq<EntryModel>,
    pub correlations: Seq<CorrelationModel>,
    pub phase_coverage: Seq<(Seq<char>, PhaseCoverageModel)>,
    pub difference_counts: Seq<(Seq<char>, u64)>,
}

impl View for ProfileMatrixRecord {
    type V = MatrixModel;

    open spec fn view(&self) -> MatrixModel {
        MatrixModel {
            schema_version: self.schema_version@,
            entries: views(self.entries@),
            correlations: views(self.correlations@),
            phase_coverage: coverage_models(self.phase_coverage@),
            difference_counts: Seq::new(
                self.difference_counts@.len(),
                |i: int| (self.difference_counts@[i].0@, self.difference_counts@[i].1),
            ),
        }
    }
}

proof fn equal_lists_hold_equal_texts(a: Seq<(String, Vec<String>)>, b: Seq<(String, Vec<String>)>, count: int)
    requires
        phase_text_models(a) == phase_text_models(b),
        count <= a.len(),
    ensures
        all_texts(a, count) == all_texts(b, count),
    decreases count,
{
    if count > 0 {
        equal_lists_hold_equal_texts(a, b, count - 1);
        assert(phase_text_models(b).len() == b.len() && phase_text_models(a).len() == a.len());
        assert(phase_text_models(a)[count - 1] == phase_text_models(b)[count - 1]);
    }
}

proof fn equal_lists_are_equal_json(a: Seq<(String, Vec<String>)>, b: Seq<(String, Vec<String>)>)
    requires
        phase_text_models(a) == phase_text_models(b),
    ensures
        json_texts_by_phase(a) == json_texts_by_phase(b),
        phases_of(a) == phases_of(b),
        a.len() == b.len(),
{
    assert(phase_text_models(a).len() == a.len() && phase_text_models(b).len() == b.len());
    assert forall|i: int| 0 <= i < a.len() implies a[i].0@ == b[i].0@ && texts(a[i].1@) == texts(b[i].1@) by {
        assert(phase_text_models(a)[i] == phase_text_models(b)[i]);
    }
    assert(json_texts_by_phase(a)->Object_0 =~= json_texts_by_phase(b)->Object_0);
    assert(phases_of(a) =~= phases_of(b));
}

proof fn equal_correlations_find_the_same(
    findings: Findings,
    a: ProfileCorrelationRecord,
    b: ProfileCorrelationRecord,
)
    requires
        a@ == b@,
    ensures
        with_correlation(findings, a) == with_correlation(findings, b),
{
    equal_lists_are_equal_json(a.site_ids_by_phase@, b.site_ids_by_phase@);
    equal_lists_are_equal_json(a.targets_by_phase@, b.targets_by_phase@);
    equal_lists_hold_equal_texts(a.site_ids_by_phase@, b.site_ids_by_phase@, a.site_ids_by_phase@.len() as int);
    let x = a.conditions_by_phase@;
    let y = b.conditions_by_phase@;
    assert(phase_value_models(x).len() == x.len() && phase_value_models(y).len() == y.len());
    assert forall|i: int| 0 <= i < x.len() implies x[i].0@ == y[i].0@ && x[i].1@ == y[i].1@ by {
        assert(phase_value_models(x)[i] == phase_value_models(y)[i]);
    }
    assert(json_values_by_phase(x)->Object_0 =~= json_values_by_phase(y)->Object_0);
    if a.diagnostic_id is Some {
        assert(opt_text(a.diagnostic_id) == opt_text(b.diagnostic_id));
        assert(conflict_diagnostic(a, findings.evidence).properties->Object_0 =~= conflict_diagnostic(
            b,
            findings.evidence,
        ).properties->Object_0);
        assert(conflict_diagnostic(a, findings.evidence) == conflict_diagnostic(b, findings.evidence));
    }
}

proof fn equal_correlation_lists_find_the_same(
    findings: Findings,
    a: Seq<ProfileCorrelationRecord>,
    b: Seq<ProfileCorrelationRecord>,
    count: int,
)
    requires
        views(a) == views(b),
        count <= a.len(),
    ensures
        with_correlations(findings, a, count) == with_correlations(findings, b, count),
    decreases count,
{
    if count > 0 {
        equal_correlation_lists_find_the_same(findings, a, b, count - 1);
        assert(views(b).len() == b.len() && views(a).len() == a.len());
        assert(views(a)[count - 1] == views(b)[count - 1]);
        equal_correlations_find_the_same(
            with_correlations(findings, a, count - 1),
            a[count - 1],
            b[count - 1],
        );
    }
}

proof fn equal_entries_find_the_same(
    findings: Findings,
    a: ProfileMatrixEntryRecord,
    b: ProfileMatrixEntryRecord,
    count: int,
)
    requires
        a@ == b@,
        count <= a.axis_conflicts@.len(),
    ensures
        with_axis_conflicts(findings, a, count) == with_axis_conflicts(findings, b, count),
        a.axis_conflicts@.len() == b.axis_conflicts@.len(),
    decreases count,
{
    assert(axis_models(a.axis_conflicts@).len() == axis_models(b.axis_conflicts@).len());
    if count > 0 {
        equal_entries_find_the_same(findings, a, b, count - 1);
        assert(axis_models(a.axis_conflicts@)[count - 1] == axis_models(b.axis_conflicts@)[count - 1]);
    }
}

proof fn equal_entry_lists_find_the_same(
    findings: Findings,
    a: Seq<ProfileMatrixEntryRecord>,
    b: Seq<ProfileMatrixEntryRecord>,
    count: int,
)
    requires
        views(a) == views(b),
        count <= a.len(),
    ensures
        with_entries(findings, a, count) == with_entries(findings, b, count),
    decreases count,
{
    if count > 0 {
        equal_entry_lists_find_the_same(findings, a, b, count - 1);
        assert(views(b).len() == b.len() && views(a).len() == a.len());
        assert(views(a)[count - 1] == views(b)[count - 1]);
        equal_entries_find_the_same(
            with_entries(findings, a, count - 1),
            a[count - 1],
            b[count - 1],
            a[count - 1].axis_conflicts@.len() as int,
        );
    }
}

/// Matrices that hold the same derive the same.
proof fn equal_matrices_find_the_same(findings: Findings, a: ProfileMatrixRecord, b: ProfileMatrixRecord)
    requires
        a@ == b@,
    ensures
        with_matrix(findings, a) == with_matrix(findings, b),
{
    assert(views(a.correlations@).len() == a.correlations@.len());
    assert(views(b.correlations@).len() == b.correlations@.len());
    assert(views(a.entries@).len() == a.entries@.len());
    assert(views(b.entries@).len() == b.entries@.len());
    let count = a.correlations@.len() as int;
    equal_correlation_lists_find_the_same(findings, a.correlations@, b.correlations@, count);
    equal_entry_lists_find_the_same(
        with_correlations(findings, a.correlations@, count),
        a.entries@,
        b.entries@,
        a.entries@.len() as int,
    );
}

// ---------------------------------------------------------------------------------------
// Laws
// ---------------------------------------------------------------------------------------

/// Whether no diagnostic of a graph has the identity of one that a matrix derives.
pub open spec fn has_no_foreign_namesake(begun: GraphSnapshot, matrix: ProfileMatrixRecord) -> bool {
    let derived = derived_from(findings_of(begun).evidence, matrix).diagnostics;
    forall|i: int, j: int|
        0 <= i < begun.diagnostics@.len() && 0 <= j < derived.len() ==> (#[trigger] begun.diagnostics@[i]).id@ != (
        #[trigger] derived[j]).id
}

/// What is retained of diagnostics, in what they hold.
proof fn retained_diagnostic_models(diagnostics: Seq<DiagnosticRecord>, count: int)
    requires
        count <= diagnostics.len(),
    ensures
        diagnostic_models(collect(count, is_retained(diagnostics), item_at(diagnostics))) == collect(
            count,
            says_other(diagnostic_models(diagnostics)),
            item_at(diagnostic_models(diagnostics)),
        ),
    decreases count,
{
    if count > 0 {
        retained_diagnostic_models(diagnostics, count - 1);
        let earlier = collect(count - 1, is_retained(diagnostics), item_at(diagnostics));
        assert(is_retained(diagnostics)(count - 1) == says_other(diagnostic_models(diagnostics))(count - 1));
        assert(diagnostic_models(earlier.push(diagnostics[count - 1])) =~= diagnostic_models(earlier).push(
            diagnostic_models(diagnostics)[count - 1],
        ));
    } else {
        assert(diagnostic_models(Seq::<DiagnosticRecord>::empty()) =~= Seq::<DiagnosticModel>::empty());
    }
}

proof fn retained_are_not_derived(diagnostics: Seq<DiagnosticModel>)
    ensures
        forall|i: int| 0 <= i < others(diagnostics).len() ==> !says_derived(#[trigger] others(diagnostics)[i]),
{
    let count = diagnostics.len() as int;
    let keep = says_other(diagnostics);
    assert forall|i: int| 0 <= i < others(diagnostics).len() implies !says_derived(#[trigger] others(diagnostics)[i]) by {
        selections_are_counted(count, keep, item_at(diagnostics));
        let at = selected_from(count, keep, i);
        kept_items_stand_in_order(count, keep, item_at(diagnostics), at);
    }
}

/// Whether evidence stays where the diagnostics with the given identities do.
spec fn stays_with(ids: Seq<Seq<char>>) -> spec_fn(EvidenceModel) -> bool {
    |item: EvidenceModel| item.owner_type != "diagnostic"@ || ids.contains(item.owner_id)
}

/// What is retained of ordered evidence is ordered, and stays with the diagnostics.
proof fn retained_evidence_is_ordered(evidence: Seq<EvidenceRecord>, diagnostics: Seq<DiagnosticRecord>)
    requires
        is_ordered(evidence_models(evidence)),
    ensures
        is_ordered(evidence_models(retained_evidence(evidence, diagnostics))),
        forall|i: int|
            0 <= i < retained_evidence(evidence, diagnostics).len() ==> stays_with(diagnostic_ids(diagnostics))(
                #[trigger] evidence_models(retained_evidence(evidence, diagnostics))[i],
            ),
{
    let count = evidence.len() as int;
    let keep = evidence_is_retained(evidence, diagnostics);
    let kept = evidence_models(retained_evidence(evidence, diagnostics));
    let models = evidence_models(evidence);
    selections_are_counted(count, keep, item_at(evidence));
    assert forall|p: int, q: int| 0 <= p < q < kept.len() implies !is_placed_before(
        #[trigger] kept[q],
        #[trigger] kept[p],
    ) by {
        let i = selected_from(count, keep, p);
        let j = selected_from(count, keep, q);
        kept_items_stand_in_order(count, keep, item_at(evidence), i);
        kept_items_stand_in_order(count, keep, item_at(evidence), j);
        if j <= i {
            counts_grow(j, i, keep);
        }
        assert(!is_placed_before(models[j], models[i]));
    }
    assert forall|p: int| 0 <= p < kept.len() implies stays_with(diagnostic_ids(diagnostics))(#[trigger] kept[p]) by {
        let i = selected_from(count, keep, p);
        kept_items_stand_in_order(count, keep, item_at(evidence), i);
    }
}

/// A refreshed graph without what was derived is the graph that was refreshed without what
/// was derived: profiles, nodes, sites, edges, coverage, files and logs are untouched, and
/// the evidence is the same, so that the matrix is built from the same again. Of the
/// diagnostics, the same are retained, by identity.
#[verifier::spinoff_prover]
pub proof fn refreshing_keeps_what_the_matrix_is_built_from(
    before: GraphSnapshot,
    begun: GraphSnapshot,
    mark: RefreshMark,
    matrix: ProfileMatrixRecord,
    once: GraphSnapshot,
    begun_again: GraphSnapshot,
    mark_again: RefreshMark,
)
    requires
        is_ordered(findings_of(before).evidence),
        is_begun(before, begun, mark),
        has_no_foreign_namesake(begun, matrix),
        is_attached(begun, matrix, mark, true, once),
        is_begun(once, begun_again, mark_again),
    ensures
        once == (GraphSnapshot {
            diagnostics: once.diagnostics,
            evidence: once.evidence,
            profile_matrix: matrix,
            ..before
        }),
        begun_again == (GraphSnapshot {
            diagnostics: begun_again.diagnostics,
            evidence: begun_again.evidence,
            ..once
        }),
        findings_of(begun_again).evidence == findings_of(begun).evidence,
        is_canonical(
            findings_of(begun_again).diagnostics + derived_from(findings_of(begun).evidence, matrix).diagnostics,
            findings_of(once).diagnostics,
        ),
{
    let start = findings_of(begun);
    let derived = derived_from(start.evidence, matrix);
    let found = with_matrix(start, matrix);
    let result = findings_of(once);
    derived_findings_stand_behind(start, matrix);
    a_matrix_only_adds(start.evidence, matrix);
    retained_diagnostic_models(before.diagnostics@, before.diagnostics@.len() as int);
    let earlier = diagnostic_models(before.diagnostics@);
    assert(start.diagnostics == others(earlier));
    retained_are_not_derived(earlier);
    assert(once.diagnostics.len() == once.diagnostics@.len());
    canonical_again(start.diagnostics, derived.diagnostics, result.diagnostics);
    retained_diagnostic_models(once.diagnostics@, once.diagnostics@.len() as int);
    let rest = others(result.diagnostics);
    assert(findings_of(begun_again).diagnostics == rest);
    let ids = diagnostic_ids(begun.diagnostics@);
    let ids_again = diagnostic_ids(begun_again.diagnostics@);
    assert(ids =~= model_ids(start.diagnostics));
    assert(ids_again =~= model_ids(rest));
    retained_evidence_is_ordered(before.evidence@, begun.diagnostics@);
    let stays_in = stays_with(ids);
    let stays = evidence_is_retained(once.evidence@, begun_again.diagnostics@);
    assert forall|i: int| 0 <= i < result.evidence.len() implies #[trigger] stays(i) == stays_in(result.evidence[i]) by {
        assert(result.evidence[i] == once.evidence@[i]@);
        assert(ids.contains(once.evidence@[i].owner_id@) <==> ids_again.contains(once.evidence@[i].owner_id@));
    }
    assert forall|i: int| start.evidence.len() <= i < found.evidence.len() implies !stays_in(
        #[trigger] found.evidence[i],
    ) by {
        let owner = found.evidence[i].owner_id;
        let names = model_ids(derived.diagnostics);
        assert(names.contains(owner));
        let j = choose|j: int| 0 <= j < names.len() && names[j] == owner;
        if ids.contains(owner) {
            let k = choose|k: int| 0 <= k < ids.len() && ids[k] == owner;
            assert(begun.diagnostics@[k].id@ != derived.diagnostics[j].id);
        }
    }
    assert forall|i: int| 0 <= i < start.evidence.len() implies stays_in(#[trigger] start.evidence[i]) by {
        assert(start.evidence == evidence_models(retained_evidence(before.evidence@, begun.diagnostics@)));
    }
    assert(once.evidence.len() == once.evidence@.len());
    ordered_evidence_is_found_again(start.evidence, found.evidence, result.evidence, stays, stays_in);
    evidence_selections(once.evidence@.len() as int, stays, once.evidence@);
}

/// Refreshing the view of a profile matrix again changes nothing: derived diagnostics and
/// their evidence are rebuilt, never accumulated.
pub proof fn refreshing_twice_changes_nothing(
    before: GraphSnapshot,
    begun: GraphSnapshot,
    mark: RefreshMark,
    matrix: ProfileMatrixRecord,
    once: GraphSnapshot,
    begun_again: GraphSnapshot,
    mark_again: RefreshMark,
    matrix_again: ProfileMatrixRecord,
    twice: GraphSnapshot,
)
    requires
        is_ordered(findings_of(before).evidence),
        is_begun(before, begun, mark),
        has_no_foreign_namesake(begun, matrix),
        is_attached(begun, matrix, mark, true, once),
        is_begun(once, begun_again, mark_again),
        matrix_again@ == matrix@,
        is_attached(begun_again, matrix_again, mark_again, true, twice),
    ensures
        findings_of(twice) == findings_of(once),
        twice.profile_matrix@ == once.profile_matrix@,
        twice == (GraphSnapshot {
            diagnostics: twice.diagnostics,
            evidence: twice.evidence,
            profile_matrix: twice.profile_matrix,
            ..once
        }),
{
    refreshing_keeps_what_the_matrix_is_built_from(before, begun, mark, matrix, once, begun_again, mark_again);
    let start = findings_of(begun);
    let again = findings_of(begun_again);
    equal_matrices_find_the_same(again, matrix_again, matrix);
    derived_findings_stand_behind(start, matrix);
    derived_findings_stand_behind(again, matrix);
    let found = with_matrix(again, matrix_again);
    assert(once.diagnostics.len() == once.diagnostics@.len());
    assert(once.evidence.len() == once.evidence@.len());
    canonical_length(found.diagnostics, findings_of(once).diagnostics);
    canonical_forms_agree(found.diagnostics, findings_of(once).diagnostics, findings_of(twice).diagnostics);
    evidence_order_length(found.evidence, findings_of(once).evidence);
    evidence_orders_agree(found.evidence, findings_of(once).evidence, findings_of(twice).evidence);
}

proof fn canonical_length(diagnostics: Seq<DiagnosticModel>, result: Seq<DiagnosticModel>)
    requires
        is_canonical(diagnostics, result),
    ensures
        result.len() == diagnostics.len(),
{
}

proof fn evidence_order_length(evidence: Seq<EvidenceModel>, sorted: Seq<EvidenceModel>)
    requires
        is_evidence_order(evidence, sorted),
    ensures
        sorted.len() == evidence.len(),
{
}

} // verus!

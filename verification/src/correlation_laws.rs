//! What a finished correlation says of a prediction and of its observations: when it is matched,
//! additional, unobserved or a conflict, and which differences it names.

use vstd::prelude::*;

use crate::correlation::{
    conditions_differ, differences_of, is_finished, phase_texts, phase_texts_from, phase_union,
    phase_union_from, predicted_phase, reasons_of, resolutions_differ, targets_differ, CorrelationDraft,
    Differences,
};
use crate::json::Json;
use crate::profile_matrix::ProfileCorrelationRecord;
use crate::text::{opt_text, texts};

verus! {

/// Whether a list holds a phase.
pub open spec fn lists_phase<T>(list: Seq<(String, T)>, phase: Seq<char>) -> bool {
    exists|i: int| 0 <= i < list.len() && (#[trigger] list[i]).0@ == phase
}

/// Whether a list holds each phase once.
pub open spec fn holds_phases_once<T>(list: Seq<(String, T)>) -> bool {
    forall|i: int, j: int| 0 <= i < j < list.len() ==> (#[trigger] list[i]).0@ != (#[trigger] list[j]).0@
}

/// Whether the lists of a draft hold each phase once.
pub open spec fn draft_holds_phases_once(draft: CorrelationDraft) -> bool {
    holds_phases_once(draft.targets@) && holds_phases_once(draft.conditions@) && holds_phases_once(draft.resolutions@)
}

/// Whether two phases of a draft have other targets than each other.
pub open spec fn other_targets(draft: CorrelationDraft, p: Seq<char>, q: Seq<char>) -> bool {
    exists|i: int, j: int|
        0 <= i < draft.targets@.len() && 0 <= j < draft.targets@.len() && (#[trigger] draft.targets@[i]).0@ == p && (
        #[trigger] draft.targets@[j]).0@ == q && texts(draft.targets@[i].1@) != texts(draft.targets@[j].1@)
}

/// Whether two phases of a draft have other united conditions than each other.
pub open spec fn other_conditions(draft: CorrelationDraft, unions: Seq<Json>, p: Seq<char>, q: Seq<char>) -> bool {
    exists|i: int, j: int|
        0 <= i < draft.conditions@.len() && 0 <= j < draft.conditions@.len() && (#[trigger] draft.conditions@[i]).0@
            == p && (#[trigger] draft.conditions@[j]).0@ == q && unions[i]@.value() != unions[j]@.value()
}

/// Whether two phases of a draft have other resolutions than each other.
pub open spec fn other_resolutions(draft: CorrelationDraft, p: Seq<char>, q: Seq<char>) -> bool {
    exists|i: int, j: int|
        0 <= i < draft.resolutions@.len() && 0 <= j < draft.resolutions@.len() && (
        #[trigger] draft.resolutions@[i]).0@ == p && (#[trigger] draft.resolutions@[j]).0@ == q && texts(
            draft.resolutions@[i].1@,
        ) != texts(draft.resolutions@[j].1@)
}

/// Whether every phase with targets has a condition and a resolution.
pub open spec fn phases_are_complete(draft: CorrelationDraft) -> bool {
    forall|i: int|
        0 <= i < draft.targets@.len() ==> lists_phase(draft.conditions@, (#[trigger] draft.targets@[i]).0@)
            && lists_phase(draft.resolutions@, draft.targets@[i].0@)
}

proof fn texts_are_found(list: Seq<(String, Vec<String>)>, phase: Seq<char>, i: int, from: int)
    requires
        holds_phases_once(list),
        0 <= from <= i < list.len(),
        list[i].0@ == phase,
    ensures
        phase_texts_from(list, phase, from) == Some(texts(list[i].1@)),
    decreases i - from,
{
    if from < i {
        assert(list[from].0@ != list[i].0@);
        texts_are_found(list, phase, i, from + 1);
    }
}

proof fn no_texts_are_found(list: Seq<(String, Vec<String>)>, phase: Seq<char>, from: int)
    requires
        0 <= from <= list.len(),
        !lists_phase(list, phase),
    ensures
        phase_texts_from(list, phase, from) is None,
    decreases list.len() - from,
{
    if from < list.len() {
        assert(list[from].0@ != phase);
        no_texts_are_found(list, phase, from + 1);
    }
}

proof fn phase_texts_are(list: Seq<(String, Vec<String>)>, phase: Seq<char>)
    requires
        holds_phases_once(list),
    ensures
        lists_phase(list, phase) <==> phase_texts(list, phase) is Some,
        forall|i: int|
            0 <= i < list.len() && (#[trigger] list[i]).0@ == phase ==> phase_texts(list, phase) == Some(
                texts(list[i].1@),
            ),
{
    assert forall|i: int| 0 <= i < list.len() && (#[trigger] list[i]).0@ == phase implies phase_texts(list, phase)
        == Some(texts(list[i].1@)) by {
        texts_are_found(list, phase, i, 0);
    }
    if !lists_phase(list, phase) {
        no_texts_are_found(list, phase, 0);
    }
}

proof fn union_is_found(list: Seq<(String, Vec<Json>)>, unions: Seq<Json>, phase: Seq<char>, i: int, from: int)
    requires
        holds_phases_once(list),
        0 <= from <= i < list.len(),
        list[i].0@ == phase,
    ensures
        phase_union_from(list, unions, phase, from) == Some(unions[i]@),
    decreases i - from,
{
    if from < i {
        assert(list[from].0@ != list[i].0@);
        union_is_found(list, unions, phase, i, from + 1);
    }
}

proof fn phase_unions_are(list: Seq<(String, Vec<Json>)>, unions: Seq<Json>, phase: Seq<char>)
    requires
        holds_phases_once(list),
    ensures
        forall|i: int|
            0 <= i < list.len() && (#[trigger] list[i]).0@ == phase ==> phase_union(list, unions, phase) == Some(
                unions[i]@,
            ),
{
    assert forall|i: int| 0 <= i < list.len() && (#[trigger] list[i]).0@ == phase implies phase_union(
        list,
        unions,
        phase,
    ) == Some(unions[i]@) by {
        union_is_found(list, unions, phase, i, 0);
    }
}

proof fn differing_targets(draft: CorrelationDraft, p: Seq<char>, q: Seq<char>)
    requires
        draft_holds_phases_once(draft),
        lists_phase(draft.targets@, p),
    ensures
        targets_differ(draft, p, q) <==> other_targets(draft, p, q),
{
    let list = draft.targets@;
    phase_texts_are(list, p);
    phase_texts_are(list, q);
    if targets_differ(draft, p, q) {
        let i = choose|i: int| 0 <= i < list.len() && (#[trigger] list[i]).0@ == p;
        let j = choose|j: int| 0 <= j < list.len() && (#[trigger] list[j]).0@ == q;
        assert(list[i].0@ == p && list[j].0@ == q && texts(list[i].1@) != texts(list[j].1@));
    }
}

proof fn differing_conditions(draft: CorrelationDraft, unions: Seq<Json>, p: Seq<char>, q: Seq<char>)
    requires
        draft_holds_phases_once(draft),
        phases_are_complete(draft),
        lists_phase(draft.targets@, p),
        lists_phase(draft.targets@, q),
    ensures
        conditions_differ(draft, unions, p, q) <==> other_conditions(draft, unions, p, q),
{
    let list = draft.conditions@;
    phase_texts_are(draft.targets@, q);
    phase_unions_are(list, unions, p);
    phase_unions_are(list, unions, q);
    let a = choose|a: int| 0 <= a < draft.targets@.len() && (#[trigger] draft.targets@[a]).0@ == p;
    let b = choose|b: int| 0 <= b < draft.targets@.len() && (#[trigger] draft.targets@[b]).0@ == q;
    assert(lists_phase(list, draft.targets@[a].0@) && lists_phase(list, draft.targets@[b].0@));
    let i = choose|i: int| 0 <= i < list.len() && (#[trigger] list[i]).0@ == p;
    let j = choose|j: int| 0 <= j < list.len() && (#[trigger] list[j]).0@ == q;
    assert(list[i].0@ == p && list[j].0@ == q);
    assert(phase_union(list, unions, p) == Some(unions[i]@));
    assert(phase_union(list, unions, q) == Some(unions[j]@));
}

proof fn differing_resolutions(draft: CorrelationDraft, p: Seq<char>, q: Seq<char>)
    requires
        draft_holds_phases_once(draft),
        phases_are_complete(draft),
        lists_phase(draft.targets@, p),
        lists_phase(draft.targets@, q),
    ensures
        resolutions_differ(draft, p, q) <==> other_resolutions(draft, p, q),
{
    let list = draft.resolutions@;
    phase_texts_are(draft.targets@, q);
    phase_texts_are(list, p);
    phase_texts_are(list, q);
    let a = choose|a: int| 0 <= a < draft.targets@.len() && (#[trigger] draft.targets@[a]).0@ == p;
    let b = choose|b: int| 0 <= b < draft.targets@.len() && (#[trigger] draft.targets@[b]).0@ == q;
    assert(lists_phase(list, draft.targets@[a].0@) && lists_phase(list, draft.targets@[b].0@));
    let i = choose|i: int| 0 <= i < list.len() && (#[trigger] list[i]).0@ == p;
    let j = choose|j: int| 0 <= j < list.len() && (#[trigger] list[j]).0@ == q;
    assert(list[i].0@ == p && list[j].0@ == q);
}

proof fn names_differ()
    ensures
        "matched"@ != "conflict"@,
        "matched"@ != "additional"@,
        "matched"@ != "unobserved"@,
        "conflict"@ != "additional"@,
        "conflict"@ != "unobserved"@,
        "additional"@ != "unobserved"@,
        "condition_mismatch"@ != "not_observed"@,
        "condition_mismatch"@ != "observed_addition"@,
        "condition_mismatch"@ != "resolution_mismatch"@,
        "condition_mismatch"@ != "semantic_refinement"@,
        "condition_mismatch"@ != "target_mismatch"@,
        "not_observed"@ != "observed_addition"@,
        "not_observed"@ != "resolution_mismatch"@,
        "not_observed"@ != "semantic_refinement"@,
        "not_observed"@ != "target_mismatch"@,
        "observed_addition"@ != "resolution_mismatch"@,
        "observed_addition"@ != "semantic_refinement"@,
        "observed_addition"@ != "target_mismatch"@,
        "resolution_mismatch"@ != "semantic_refinement"@,
        "resolution_mismatch"@ != "target_mismatch"@,
        "semantic_refinement"@ != "target_mismatch"@,
{
    reveal_strlit("matched");
    reveal_strlit("conflict");
    reveal_strlit("additional");
    reveal_strlit("unobserved");
    assert("additional"@[0] == 'a' && "unobserved"@[0] == 'u');
    assert("matched"@.len() == 7 && "conflict"@.len() == 8 && "additional"@.len() == 10 && "unobserved"@.len() == 10);
    reveal_strlit("condition_mismatch");
    reveal_strlit("not_observed");
    reveal_strlit("observed_addition");
    reveal_strlit("resolution_mismatch");
    reveal_strlit("semantic_refinement");
    reveal_strlit("target_mismatch");
    assert("condition_mismatch"@[0] == 'c' && "not_observed"@[0] == 'n' && "observed_addition"@[0] == 'o'
        && "resolution_mismatch"@[0] == 'r' && "semantic_refinement"@[0] == 's' && "target_mismatch"@[0] == 't');
}

proof fn named_reasons(d: Differences)
    ensures
        reasons_of(d).contains("condition_mismatch"@) <==> d.condition_mismatch,
        reasons_of(d).contains("not_observed"@) <==> d.not_observed,
        reasons_of(d).contains("observed_addition"@) <==> d.observed_addition,
        reasons_of(d).contains("resolution_mismatch"@) <==> d.resolution_mismatch,
        reasons_of(d).contains("semantic_refinement"@) <==> d.semantic_refinement,
        reasons_of(d).contains("target_mismatch"@) <==> d.target_mismatch,
        forall|reason: Seq<char>| #[trigger]
            reasons_of(d).contains(reason) ==> reason == "condition_mismatch"@ || reason == "not_observed"@ || reason
                == "observed_addition"@ || reason == "resolution_mismatch"@ || reason == "semantic_refinement"@
                || reason == "target_mismatch"@,
{
    names_differ();
    let one = |flag: bool, name: Seq<char>|
        if flag {
            seq![name]
        } else {
            Seq::<Seq<char>>::empty()
        };
    let a = one(d.condition_mismatch, "condition_mismatch"@);
    let b = a + one(d.not_observed, "not_observed"@);
    let c = b + one(d.observed_addition, "observed_addition"@);
    let e = c + one(d.resolution_mismatch, "resolution_mismatch"@);
    let f = e + one(d.semantic_refinement, "semantic_refinement"@);
    let g = f + one(d.target_mismatch, "target_mismatch"@);
    assert(reasons_of(d) =~= g);
    assert forall|reason: Seq<char>| #[trigger] g.contains(reason) <==> (d.condition_mismatch && reason
        == "condition_mismatch"@) || (d.not_observed && reason == "not_observed"@) || (d.observed_addition && reason
        == "observed_addition"@) || (d.resolution_mismatch && reason == "resolution_mismatch"@) || (
    d.semantic_refinement && reason == "semantic_refinement"@) || (d.target_mismatch && reason
        == "target_mismatch"@) by {
        one_more_holds(Seq::empty(), d.condition_mismatch, "condition_mismatch"@, a, reason);
        one_more_holds(a, d.not_observed, "not_observed"@, b, reason);
        one_more_holds(b, d.observed_addition, "observed_addition"@, c, reason);
        one_more_holds(c, d.resolution_mismatch, "resolution_mismatch"@, e, reason);
        one_more_holds(e, d.semantic_refinement, "semantic_refinement"@, f, reason);
        one_more_holds(f, d.target_mismatch, "target_mismatch"@, g, reason);
    }
}

proof fn one_more_holds(before: Seq<Seq<char>>, flag: bool, name: Seq<char>, after: Seq<Seq<char>>, reason: Seq<char>)
    requires
        after == before + if flag {
            seq![name]
        } else {
            Seq::empty()
        },
    ensures
        after.contains(reason) <==> before.contains(reason) || (flag && reason == name),
{
    if before.contains(reason) {
        let i = choose|i: int| 0 <= i < before.len() && before[i] == reason;
        assert(after[i] == reason);
    }
    if flag && reason == name {
        assert(after[before.len() as int] == reason);
    }
    if after.contains(reason) {
        let i = choose|i: int| 0 <= i < after.len() && after[i] == reason;
        if i < before.len() {
            assert(before[i] == reason);
        }
    }
}

/// The phase that predicts: the semantic phase where it has targets, else the static one.
pub open spec fn predicts(draft: CorrelationDraft, p: Seq<char>) -> bool {
    lists_phase(draft.targets@, p) && (p == "semantic"@ || (p == "static"@ && !lists_phase(
        draft.targets@,
        "semantic"@,
    )))
}

/// A phase in which the correlation was observed: the build or a run, where it has targets.
pub open spec fn observes(draft: CorrelationDraft, q: Seq<char>) -> bool {
    lists_phase(draft.targets@, q) && (q == "build"@ || q == "runtime"@)
}

/// Wherever a build or a run went to other targets, under other conditions or with other
/// resolutions than the prediction says, the correlation is a conflict, it names the difference
/// and it carries the diagnostic.
pub proof fn differing_observations_are_conflicts(
    record: ProfileCorrelationRecord,
    draft: CorrelationDraft,
    unions: Seq<Json>,
    union: Json,
    diagnostic_id: Seq<char>,
    p: Seq<char>,
    q: Seq<char>,
)
    requires
        is_finished(record, draft, unions, union, diagnostic_id),
        draft_holds_phases_once(draft),
        phases_are_complete(draft),
        predicts(draft, p),
        observes(draft, q),
    ensures
        other_targets(draft, p, q) ==> texts(record.difference_reasons@).contains("target_mismatch"@),
        other_conditions(draft, unions, p, q) ==> texts(record.difference_reasons@).contains("condition_mismatch"@),
        other_resolutions(draft, p, q) ==> texts(record.difference_reasons@).contains("resolution_mismatch"@),
        other_targets(draft, p, q) || other_conditions(draft, unions, p, q) || other_resolutions(draft, p, q) ==> {
            &&& record.status@ == "conflict"@
            &&& opt_text(record.diagnostic_id) == Some(diagnostic_id)
        },
{
    let d = differences_of(draft, unions);
    named_reasons(d);
    phases_are_compared(draft, unions, p, q);
}

proof fn phases_are_compared(draft: CorrelationDraft, unions: Seq<Json>, p: Seq<char>, q: Seq<char>)
    requires
        draft_holds_phases_once(draft),
        phases_are_complete(draft),
        predicts(draft, p),
        observes(draft, q),
    ensures
        predicted_phase(draft.targets@) == Some(p),
        targets_differ(draft, p, q) <==> other_targets(draft, p, q),
        conditions_differ(draft, unions, p, q) <==> other_conditions(draft, unions, p, q),
        resolutions_differ(draft, p, q) <==> other_resolutions(draft, p, q),
        phase_texts(draft.targets@, q) is Some,
{
    phase_texts_are(draft.targets@, "semantic"@);
    phase_texts_are(draft.targets@, "static"@);
    phase_texts_are(draft.targets@, q);
    differing_targets(draft, p, q);
    differing_conditions(draft, unions, p, q);
    differing_resolutions(draft, p, q);
}

/// A correlation is matched only where it was predicted and observed, and where every
/// observation has the targets, the conditions and the resolutions of the prediction; then it
/// names no difference but a semantic refinement and carries no diagnostic.
pub proof fn matched_correlations_agree(
    record: ProfileCorrelationRecord,
    draft: CorrelationDraft,
    unions: Seq<Json>,
    union: Json,
    diagnostic_id: Seq<char>,
)
    requires
        is_finished(record, draft, unions, union, diagnostic_id),
        draft_holds_phases_once(draft),
        phases_are_complete(draft),
    ensures
        record.status@ == "matched"@ <==> {
            &&& exists|p: Seq<char>| #[trigger] predicts(draft, p)
            &&& exists|q: Seq<char>| #[trigger] observes(draft, q)
            &&& forall|p: Seq<char>, q: Seq<char>| #[trigger]
                predicts(draft, p) && #[trigger] observes(draft, q) ==> !other_targets(draft, p, q)
                    && !other_conditions(draft, unions, p, q) && !other_resolutions(draft, p, q)
        },
        record.status@ == "matched"@ ==> {
            &&& record.diagnostic_id is None
            &&& forall|reason: Seq<char>| #[trigger]
                texts(record.difference_reasons@).contains(reason) ==> reason == "semantic_refinement"@
        },
{
    names_differ();
    let d = differences_of(draft, unions);
    named_reasons(d);
    phase_texts_are(draft.targets@, "semantic"@);
    phase_texts_are(draft.targets@, "static"@);
    phase_texts_are(draft.targets@, "build"@);
    phase_texts_are(draft.targets@, "runtime"@);
    assert(predicts(draft, "semantic"@) || predicts(draft, "static"@) <==> predicted_phase(draft.targets@) is Some);
    assert(observes(draft, "build"@) || observes(draft, "runtime"@) <==> phase_texts(draft.targets@, "build"@) is Some
        || phase_texts(draft.targets@, "runtime"@) is Some);
    assert forall|p: Seq<char>, q: Seq<char>| #[trigger] predicts(draft, p) && #[trigger] observes(
        draft,
        q,
    ) implies predicted_phase(draft.targets@) == Some(p) && (targets_differ(draft, p, q) <==> other_targets(
        draft,
        p,
        q,
    )) && (conditions_differ(draft, unions, p, q) <==> other_conditions(draft, unions, p, q)) && (resolutions_differ(
        draft,
        p,
        q,
    ) <==> other_resolutions(draft, p, q)) by {
        phases_are_compared(draft, unions, p, q);
    }
    if exists|p: Seq<char>| #[trigger] predicts(draft, p) {
        let p = choose|p: Seq<char>| #[trigger] predicts(draft, p);
        assert(p == "semantic"@ || p == "static"@);
    }
    if exists|q: Seq<char>| #[trigger] observes(draft, q) {
        let q = choose|q: Seq<char>| #[trigger] observes(draft, q);
        assert(q == "build"@ || q == "runtime"@);
    }
    if predicted_phase(draft.targets@) is Some {
        let p = predicted_phase(draft.targets@)->0;
        assert(predicts(draft, p));
        if observes(draft, "build"@) {
            assert(predicts(draft, p) && observes(draft, "build"@));
        }
        if observes(draft, "runtime"@) {
            assert(predicts(draft, p) && observes(draft, "runtime"@));
        }
    }
}

/// A correlation that neither a build nor a run observed is unobserved; one that was observed
/// and that neither phase predicted is additional; both say so, and neither is a conflict.
pub proof fn one_sided_correlations_are_told_apart(
    record: ProfileCorrelationRecord,
    draft: CorrelationDraft,
    unions: Seq<Json>,
    union: Json,
    diagnostic_id: Seq<char>,
)
    requires
        is_finished(record, draft, unions, union, diagnostic_id),
        draft_holds_phases_once(draft),
    ensures
        ({
            let seen = lists_phase(draft.targets@, "build"@) || lists_phase(draft.targets@, "runtime"@);
            let expected = lists_phase(draft.targets@, "semantic"@) || lists_phase(draft.targets@, "static"@);
            let reasons = texts(record.difference_reasons@);
            &&& record.status@ == "unobserved"@ <==> !seen
            &&& record.status@ == "additional"@ <==> seen && !expected
            &&& reasons.contains("not_observed"@) <==> !seen
            &&& reasons.contains("observed_addition"@) <==> seen && !expected
            &&& !seen || !expected ==> record.diagnostic_id is None && !reasons.contains("target_mismatch"@)
                && !reasons.contains("condition_mismatch"@) && !reasons.contains("resolution_mismatch"@)
        }),
{
    names_differ();
    named_reasons(differences_of(draft, unions));
    phase_texts_are(draft.targets@, "semantic"@);
    phase_texts_are(draft.targets@, "static"@);
    phase_texts_are(draft.targets@, "build"@);
    phase_texts_are(draft.targets@, "runtime"@);
}

/// A semantic refinement is named exactly where both predictions are there and they differ in
/// their targets or their conditions; it alone makes no conflict.
pub proof fn refinements_are_named(
    record: ProfileCorrelationRecord,
    draft: CorrelationDraft,
    unions: Seq<Json>,
    union: Json,
    diagnostic_id: Seq<char>,
)
    requires
        is_finished(record, draft, unions, union, diagnostic_id),
        draft_holds_phases_once(draft),
        phases_are_complete(draft),
    ensures
        texts(record.difference_reasons@).contains("semantic_refinement"@) <==> lists_phase(
            draft.targets@,
            "static"@,
        ) && lists_phase(draft.targets@, "semantic"@) && (other_targets(draft, "static"@, "semantic"@)
            || other_conditions(draft, unions, "static"@, "semantic"@)),
{
    named_reasons(differences_of(draft, unions));
    phase_texts_are(draft.targets@, "semantic"@);
    phase_texts_are(draft.targets@, "static"@);
    if lists_phase(draft.targets@, "static"@) && lists_phase(draft.targets@, "semantic"@) {
        differing_targets(draft, "static"@, "semantic"@);
        differing_conditions(draft, unions, "static"@, "semantic"@);
    }
}

/// A finished correlation shows the targets, the resolutions, the sites and the edges of its
/// draft and the united condition of each phase.
pub proof fn finished_correlations_show_their_drafts(
    record: ProfileCorrelationRecord,
    draft: CorrelationDraft,
    unions: Seq<Json>,
    union: Json,
    diagnostic_id: Seq<char>,
    i: int,
)
    requires
        is_finished(record, draft, unions, union, diagnostic_id),
        unions.len() == draft.conditions@.len(),
        0 <= i < unions.len(),
    ensures
        record.id@ == draft.id@,
        record.effective_profile_id@ == draft.effective_profile_id@,
        record.source@ == draft.source@,
        record.kind@ == draft.kind@,
        record.specifier@ == draft.specifier@,
        record.condition_union@ == union@,
        record.targets_by_phase@ == draft.targets@,
        record.resolutions_by_phase@ == draft.resolutions@,
        record.site_ids_by_phase@ == draft.site_ids@,
        record.edge_ids_by_phase@ == draft.edge_ids@,
        record.conditions_by_phase@.len() == draft.conditions@.len(),
        record.conditions_by_phase@[i].0@ == draft.conditions@[i].0@,
        record.conditions_by_phase@[i].1@ == unions[i]@,
{
}

} // verus!

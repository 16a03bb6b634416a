//! The diagnostics of a scan attempt in bounded form: each diagnostic once, how many share
//! a severity, a code and an adapter, and a few samples.

use vstd::prelude::*;

use crate::coverage::difference_or_zero;
use crate::node_page::least;
use crate::order::{count_of, count_of_nothing, same_items_are_as_many, views};
use crate::records::{DiagnosticGroupSummaryRecord, DiagnosticSampleSummaryRecord, DiagnosticSummaryRecord};
use crate::sort::{is_rank_order, is_ranked_sort, sort_ranked, Ranked};
use crate::summary::{
    are_lowest, bounded_summary_text, is_bounded_option, is_bounded_start, lesser_option, lesser_text, lowest_by_id,
    lowest_rows_are_determined, only_rows_are_lowest, row_ids, Lowered, DOCTOR_SUMMARY_MAX_DIAGNOSTIC_GROUPS, DOCTOR_SUMMARY_MAX_DIAGNOSTIC_SAMPLES, DOCTOR_SUMMARY_MAX_KEY_BYTES,
    DOCTOR_SUMMARY_MAX_TEXT_BYTES,
};
use crate::text::{
    less, opt_text, same, same_option, text_lt, text_lt_irreflexive, text_lt_total, text_lt_transitive,
};

verus! {

/// A diagnostic of the scan or of what lies over it: of the scan, of a build, or of a
/// session, with the depth of its layer and its place there.
#[derive(Debug, Clone)]
pub struct DiagnosticCandidate {
    pub id: String,
    pub severity: String,
    pub code: String,
    pub message: String,
    pub path: Option<String>,
    pub adapter: Option<String>,
    pub source_rank: i64,
    pub layer_depth: i64,
    pub ordinal: i64,
}

/// The value of a diagnostic.
#[verifier::ext_equal]
pub struct DiagnosticCandidateModel {
    pub id: Seq<char>,
    pub severity: Seq<char>,
    pub code: Seq<char>,
    pub message: Seq<char>,
    pub path: Option<Seq<char>>,
    pub adapter: Option<Seq<char>>,
    pub source_rank: i64,
    pub layer_depth: i64,
    pub ordinal: i64,
}

impl View for DiagnosticCandidate {
    type V = DiagnosticCandidateModel;

    open spec fn view(&self) -> DiagnosticCandidateModel {
        DiagnosticCandidateModel {
            id: self.id@,
            severity: self.severity@,
            code: self.code@,
            message: self.message@,
            path: opt_text(self.path),
            adapter: opt_text(self.adapter),
            source_rank: self.source_rank,
            layer_depth: self.layer_depth,
            ordinal: self.ordinal,
        }
    }
}

/// The lesser of two numbers.
pub open spec fn lesser(a: i64, b: i64) -> i64 {
    if b < a {
        b
    } else {
        a
    }
}

fn lower_text(value: &mut String, other: String)
    ensures
        final(value)@ == lesser_text(old(value)@, other@),
{
    if less(other.as_str(), value.as_str()) {
        *value = other;
    }
}

fn lower_option(value: Option<String>, other: Option<String>) -> (result: Option<String>)
    ensures
        opt_text(result) == lesser_option(opt_text(value), opt_text(other)),
{
    match (value, other) {
        (Some(value), Some(other)) => if less(other.as_str(), value.as_str()) {
            Some(other)
        } else {
            Some(value)
        },
        (Some(value), None) => Some(value),
        (None, other) => other,
    }
}

fn lower_number(value: i64, other: i64) -> (result: i64)
    ensures
        result == lesser(value, other),
{
    if other < value {
        other
    } else {
        value
    }
}

impl Lowered for DiagnosticCandidate {
    open spec fn identity(row: DiagnosticCandidateModel) -> Seq<char> {
        row.id
    }

    open spec fn lower(a: DiagnosticCandidateModel, b: DiagnosticCandidateModel) -> DiagnosticCandidateModel {
        DiagnosticCandidateModel {
            id: a.id,
            severity: lesser_text(a.severity, b.severity),
            code: lesser_text(a.code, b.code),
            message: lesser_text(a.message, b.message),
            path: lesser_option(a.path, b.path),
            adapter: lesser_option(a.adapter, b.adapter),
            source_rank: lesser(a.source_rank, b.source_rank),
            layer_depth: lesser(a.layer_depth, b.layer_depth),
            ordinal: lesser(a.ordinal, b.ordinal),
        }
    }

    proof fn lower_keeps_identity(a: DiagnosticCandidateModel, b: DiagnosticCandidateModel) {
    }

    fn id(&self) -> (result: &String) {
        &self.id
    }

    fn lower_by(&mut self, other: DiagnosticCandidate) {
        lower_text(&mut self.severity, other.severity);
        lower_text(&mut self.code, other.code);
        lower_text(&mut self.message, other.message);
        let path: Option<String> = self.path.take();
        self.path = lower_option(path, other.path);
        let adapter: Option<String> = self.adapter.take();
        self.adapter = lower_option(adapter, other.adapter);
        self.source_rank = lower_number(self.source_rank, other.source_rank);
        self.layer_depth = lower_number(self.layer_depth, other.layer_depth);
        self.ordinal = lower_number(self.ordinal, other.ordinal);
    }
}

/// Diagnostics of the scan come first, then those of builds and of sessions; those of
/// deeper layers first, and each layer's as they stand there.
impl Ranked for DiagnosticCandidate {
    open spec fn before(a: DiagnosticCandidate, b: DiagnosticCandidate) -> bool {
        a.source_rank < b.source_rank || (a.source_rank == b.source_rank && (a.layer_depth > b.layer_depth || (
        a.layer_depth == b.layer_depth && (a.ordinal < b.ordinal || (a.ordinal == b.ordinal && text_lt(a.id@, b.id@))))))
    }

    proof fn before_is_irreflexive(a: DiagnosticCandidate) {
        text_lt_irreflexive(a.id@);
    }

    proof fn before_is_transitive(a: DiagnosticCandidate, b: DiagnosticCandidate, c: DiagnosticCandidate) {
        if text_lt(a.id@, b.id@) && text_lt(b.id@, c.id@) {
            text_lt_transitive(a.id@, b.id@, c.id@);
        }
    }

    proof fn before_is_weak(a: DiagnosticCandidate, b: DiagnosticCandidate, c: DiagnosticCandidate) {
        text_lt_total(a.id@, b.id@);
        if text_lt(b.id@, a.id@) && text_lt(a.id@, c.id@) {
            text_lt_transitive(b.id@, a.id@, c.id@);
        }
    }

    fn is_before(a: &DiagnosticCandidate, b: &DiagnosticCandidate) -> (result: bool) {
        a.source_rank < b.source_rank || (a.source_rank == b.source_rank && (a.layer_depth > b.layer_depth || (
        a.layer_depth == b.layer_depth && (a.ordinal < b.ordinal || (a.ordinal == b.ordinal && less(
            a.id.as_str(),
            b.id.as_str(),
        ))))))
    }
}

// ---------------------------------------------------------------------------------------
// Groups
// ---------------------------------------------------------------------------------------

/// A text, or the empty text.
pub open spec fn or_empty(value: Option<String>) -> Seq<char> {
    match value {
        Some(value) => value@,
        None => Seq::empty(),
    }
}

fn less_or_empty(a: &Option<String>, b: &Option<String>) -> (result: bool)
    ensures
        result == text_lt(or_empty(*a), or_empty(*b)),
{
    let empty: String = String::new();
    assert(empty@ =~= Seq::empty());
    match (a, b) {
        (Some(a), Some(b)) => less(a.as_str(), b.as_str()),
        (Some(a), None) => less(a.as_str(), empty.as_str()),
        (None, Some(b)) => less(empty.as_str(), b.as_str()),
        (None, None) => less(empty.as_str(), empty.as_str()),
    }
}

/// Larger groups come first, then groups by severity, code and adapter.
impl Ranked for DiagnosticGroupSummaryRecord {
    open spec fn before(a: DiagnosticGroupSummaryRecord, b: DiagnosticGroupSummaryRecord) -> bool {
        a.count > b.count || (a.count == b.count && (text_lt(a.severity@, b.severity@) || (a.severity@ == b.severity@
            && (text_lt(a.code@, b.code@) || (a.code@ == b.code@ && text_lt(or_empty(a.adapter), or_empty(b.adapter)))))))
    }

    proof fn before_is_irreflexive(a: DiagnosticGroupSummaryRecord) {
        text_lt_irreflexive(a.severity@);
        text_lt_irreflexive(a.code@);
        text_lt_irreflexive(or_empty(a.adapter));
    }

    proof fn before_is_transitive(
        a: DiagnosticGroupSummaryRecord,
        b: DiagnosticGroupSummaryRecord,
        c: DiagnosticGroupSummaryRecord,
    ) {
        if text_lt(a.severity@, b.severity@) && text_lt(b.severity@, c.severity@) {
            text_lt_transitive(a.severity@, b.severity@, c.severity@);
        }
        if text_lt(a.code@, b.code@) && text_lt(b.code@, c.code@) {
            text_lt_transitive(a.code@, b.code@, c.code@);
        }
        if text_lt(or_empty(a.adapter), or_empty(b.adapter)) && text_lt(or_empty(b.adapter), or_empty(c.adapter)) {
            text_lt_transitive(or_empty(a.adapter), or_empty(b.adapter), or_empty(c.adapter));
        }
    }

    proof fn before_is_weak(
        a: DiagnosticGroupSummaryRecord,
        b: DiagnosticGroupSummaryRecord,
        c: DiagnosticGroupSummaryRecord,
    ) {
        text_lt_total(a.severity@, b.severity@);
        text_lt_total(a.code@, b.code@);
        text_lt_total(or_empty(a.adapter), or_empty(b.adapter));
        if text_lt(b.severity@, a.severity@) && text_lt(a.severity@, c.severity@) {
            text_lt_transitive(b.severity@, a.severity@, c.severity@);
        }
        if text_lt(b.code@, a.code@) && text_lt(a.code@, c.code@) {
            text_lt_transitive(b.code@, a.code@, c.code@);
        }
        if text_lt(or_empty(b.adapter), or_empty(a.adapter)) && text_lt(or_empty(a.adapter), or_empty(c.adapter)) {
            text_lt_transitive(or_empty(b.adapter), or_empty(a.adapter), or_empty(c.adapter));
        }
    }

    fn is_before(a: &DiagnosticGroupSummaryRecord, b: &DiagnosticGroupSummaryRecord) -> (result: bool) {
        a.count > b.count || (a.count == b.count && (less(a.severity.as_str(), b.severity.as_str()) || (same(
            a.severity.as_str(),
            b.severity.as_str(),
        ) && (less(a.code.as_str(), b.code.as_str()) || (same(a.code.as_str(), b.code.as_str()) && less_or_empty(
            &a.adapter,
            &b.adapter,
        ))))))
    }
}

/// Whether a diagnostic belongs to a group.
pub open spec fn belongs_to(diagnostic: DiagnosticCandidateModel, group: DiagnosticGroupSummaryRecord) -> bool {
    diagnostic.severity == group.severity@ && diagnostic.code == group.code@ && diagnostic.adapter == opt_text(
        group.adapter,
    )
}

/// Which diagnostics belong to a group.
pub open spec fn in_group(
    diagnostics: Seq<DiagnosticCandidateModel>,
    group: DiagnosticGroupSummaryRecord,
) -> spec_fn(int) -> bool {
    |i: int| belongs_to(diagnostics[i], group)
}

/// Whether two groups are of one kind.
pub open spec fn same_group(a: DiagnosticGroupSummaryRecord, b: DiagnosticGroupSummaryRecord) -> bool {
    a.severity@ == b.severity@ && a.code@ == b.code@ && opt_text(a.adapter) == opt_text(b.adapter)
}

/// Whether one of the groups holds a diagnostic.
pub open spec fn has_group(groups: Seq<DiagnosticGroupSummaryRecord>, diagnostic: DiagnosticCandidateModel) -> bool {
    exists|g: int| 0 <= g < groups.len() && belongs_to(diagnostic, #[trigger] groups[g])
}

/// How many diagnostics the first `count` groups hold.
pub open spec fn total_of(groups: Seq<DiagnosticGroupSummaryRecord>, count: int) -> int
    decreases count,
{
    if count <= 0 {
        0
    } else {
        total_of(groups, count - 1) + groups[count - 1].count
    }
}

/// Whether groups are those of the first `count` diagnostics: each kind that there is once, with
/// the number of its diagnostics, and every diagnostic in one of them.
pub open spec fn are_groups(
    diagnostics: Seq<DiagnosticCandidateModel>,
    count: int,
    groups: Seq<DiagnosticGroupSummaryRecord>,
) -> bool {
    &&& forall|g: int|
        0 <= g < groups.len() ==> (#[trigger] groups[g]).count == count_of(count, in_group(diagnostics, groups[g]))
    &&& forall|g: int| 0 <= g < groups.len() ==> (#[trigger] groups[g]).count > 0
    &&& forall|g: int, h: int|
        0 <= g < h < groups.len() ==> !same_group(#[trigger] groups[g], #[trigger] groups[h])
    &&& forall|i: int| 0 <= i < count ==> has_group(groups, #[trigger] diagnostics[i])
    &&& total_of(groups, groups.len() as int) == count
}

proof fn total_of_changed(
    before: Seq<DiagnosticGroupSummaryRecord>,
    after: Seq<DiagnosticGroupSummaryRecord>,
    place: int,
    count: int,
)
    requires
        0 <= count <= before.len(),
        count <= after.len(),
        forall|g: int| 0 <= g < count && g != place ==> (#[trigger] after[g]).count == before[g].count,
        0 <= place < count ==> after[place].count == before[place].count + 1,
    ensures
        total_of(after, count) == total_of(before, count) + (if 0 <= place < count {
            1int
        } else {
            0int
        }),
    decreases count,
{
    if count > 0 {
        total_of_changed(before, after, place, count - 1);
    }
}

fn find_group(groups: &Vec<DiagnosticGroupSummaryRecord>, diagnostic: &DiagnosticCandidate) -> (result: Option<usize>)
    ensures
        match result {
            Some(place) => place < groups.len() && belongs_to(diagnostic@, groups@[place as int]),
            None => !has_group(groups@, diagnostic@),
        },
{
    let mut i: usize = 0;
    while i < groups.len()
        invariant
            i <= groups.len(),
            forall|g: int| 0 <= g < i ==> !belongs_to(diagnostic@, #[trigger] groups@[g]),
        decreases groups.len() - i,
    {
        if same(diagnostic.severity.as_str(), groups[i].severity.as_str()) && same(
            diagnostic.code.as_str(),
            groups[i].code.as_str(),
        ) && same_option(&diagnostic.adapter, &groups[i].adapter) {
            return Some(i);
        }
        i = i + 1;
    }
    None
}

fn copy_option(value: &Option<String>) -> (result: Option<String>)
    ensures
        opt_text(result) == opt_text(*value),
{
    match value {
        Some(value) => Some(value.clone()),
        None => None,
    }
}

/// The groups of diagnostics.
fn group(diagnostics: &Vec<DiagnosticCandidate>) -> (result: Vec<DiagnosticGroupSummaryRecord>)
    ensures
        are_groups(views(diagnostics@), diagnostics@.len() as int, result@),
{
    let ghost all = views(diagnostics@);
    let mut groups: Vec<DiagnosticGroupSummaryRecord> = Vec::new();
    let mut i: usize = 0;
    while i < diagnostics.len()
        invariant
            i <= diagnostics.len(),
            all == views(diagnostics@),
            are_groups(all, i as int, groups@),
        decreases diagnostics.len() - i,
    {
        let ghost before = groups@;
        let diagnostic = &diagnostics[i];
        assert(all[i as int] == diagnostic@);
        match find_group(&groups, diagnostic) {
            Some(place) => {
                proof {
                    crate::order::count_of_is_bounded(i as int, in_group(all, before[place as int]));
                    assert(groups@[place as int].count == count_of(i as int, in_group(all, before[place as int])));
                }
                let count: u64 = groups[place].count;
                groups[place].count = count + 1;
                proof {
                    let after = groups@;
                    total_of_changed(before, after, place as int, before.len() as int);
                    assert forall|g: int| 0 <= g < after.len() implies (#[trigger] after[g]).count == count_of(
                        i as int + 1,
                        in_group(all, after[g]),
                    ) by {
                        group_is_counted(all, i as int, before[g], after[g]);
                        if g != place {
                            assert(after[g] == before[g]);
                            if belongs_to(all[i as int], before[g]) {
                                if g < place {
                                    assert(!same_group(before[g], before[place as int]));
                                } else {
                                    assert(!same_group(before[place as int], before[g]));
                                }
                            }
                        }
                    }
                    assert forall|g: int, h: int| 0 <= g < h < after.len() implies !same_group(
                        #[trigger] after[g],
                        #[trigger] after[h],
                    ) by {
                        assert(!same_group(before[g], before[h]));
                    }
                    assert forall|k: int| 0 <= k < i + 1 implies has_group(after, #[trigger] all[k]) by {
                        if k < i {
                            assert(has_group(before, all[k]));
                            let g = choose|g: int| 0 <= g < before.len() && belongs_to(all[k], #[trigger] before[g]);
                            assert(belongs_to(all[k], after[g]));
                        } else {
                            assert(belongs_to(all[k], after[place as int]));
                        }
                    }
                }
            },
            None => {
                groups.push(
                    DiagnosticGroupSummaryRecord {
                        severity: diagnostic.severity.clone(),
                        code: diagnostic.code.clone(),
                        adapter: copy_option(&diagnostic.adapter),
                        count: 1,
                    },
                );
                proof {
                    let after = groups@;
                    let n = before.len() as int;
                    total_of_changed(before, after, -1, n);
                    assert(belongs_to(all[i as int], after[n]));
                    assert forall|k: int| 0 <= k < i implies !#[trigger] in_group(all, after[n])(k) by {
                        if belongs_to(all[k], after[n]) {
                            assert(has_group(before, all[k]));
                            let g = choose|g: int| 0 <= g < before.len() && belongs_to(all[k], #[trigger] before[g]);
                            assert(belongs_to(all[i as int], before[g]));
                        }
                    }
                    count_of_nothing(i as int, in_group(all, after[n]));
                    assert forall|g: int| 0 <= g < after.len() implies (#[trigger] after[g]).count == count_of(
                        i as int + 1,
                        in_group(all, after[g]),
                    ) by {
                        if g < n {
                            assert(after[g] == before[g]);
                            assert(!belongs_to(all[i as int], before[g]));
                        }
                    }
                    assert forall|g: int, h: int| 0 <= g < h < after.len() implies !same_group(
                        #[trigger] after[g],
                        #[trigger] after[h],
                    ) by {
                        if h < n {
                            assert(!same_group(before[g], before[h]));
                        } else if same_group(after[g], after[h]) {
                            assert(belongs_to(all[i as int], before[g]));
                        }
                    }
                    assert forall|k: int| 0 <= k < i + 1 implies has_group(after, #[trigger] all[k]) by {
                        if k < i {
                            assert(has_group(before, all[k]));
                            let g = choose|g: int| 0 <= g < before.len() && belongs_to(all[k], #[trigger] before[g]);
                            assert(belongs_to(all[k], after[g]));
                        }
                    }
                }
            },
        }
        i = i + 1;
    }
    groups
}

proof fn group_is_counted(
    diagnostics: Seq<DiagnosticCandidateModel>,
    count: int,
    a: DiagnosticGroupSummaryRecord,
    b: DiagnosticGroupSummaryRecord,
)
    requires
        same_group(a, b),
    ensures
        count_of(count, in_group(diagnostics, a)) == count_of(count, in_group(diagnostics, b)),
    decreases count,
{
    if count > 0 {
        group_is_counted(diagnostics, count - 1, a, b);
    }
}

// ---------------------------------------------------------------------------------------
// The summary
// ---------------------------------------------------------------------------------------

/// Whether a group is shown with its texts cut.
pub open spec fn is_shown_group(group: DiagnosticGroupSummaryRecord, shown: DiagnosticGroupSummaryRecord) -> bool {
    &&& is_bounded_start(group.severity@, DOCTOR_SUMMARY_MAX_KEY_BYTES as int, shown.severity@)
    &&& is_bounded_start(group.code@, DOCTOR_SUMMARY_MAX_KEY_BYTES as int, shown.code@)
    &&& is_bounded_option(opt_text(group.adapter), DOCTOR_SUMMARY_MAX_KEY_BYTES as int, opt_text(shown.adapter))
    &&& shown.count == group.count
}

/// Whether a diagnostic is shown with its texts cut.
pub open spec fn is_shown_sample(diagnostic: DiagnosticCandidate, shown: DiagnosticSampleSummaryRecord) -> bool {
    &&& is_bounded_start(diagnostic.id@, DOCTOR_SUMMARY_MAX_KEY_BYTES as int, shown.id@)
    &&& is_bounded_start(diagnostic.severity@, DOCTOR_SUMMARY_MAX_KEY_BYTES as int, shown.severity@)
    &&& is_bounded_start(diagnostic.code@, DOCTOR_SUMMARY_MAX_KEY_BYTES as int, shown.code@)
    &&& is_bounded_start(diagnostic.message@, DOCTOR_SUMMARY_MAX_TEXT_BYTES as int, shown.message@)
    &&& is_bounded_option(opt_text(diagnostic.path), DOCTOR_SUMMARY_MAX_TEXT_BYTES as int, opt_text(shown.path))
    &&& is_bounded_option(opt_text(diagnostic.adapter), DOCTOR_SUMMARY_MAX_KEY_BYTES as int, opt_text(shown.adapter))
}

/// Whether a summary shows the first of groups and of samples, and counts the rest.
pub open spec fn shows(
    total: int,
    groups: Seq<DiagnosticGroupSummaryRecord>,
    samples: Seq<DiagnosticCandidate>,
    summary: DiagnosticSummaryRecord,
) -> bool {
    let shown = least(groups.len() as int, DOCTOR_SUMMARY_MAX_DIAGNOSTIC_GROUPS as int);
    &&& summary.total == total
    &&& summary.groups@.len() == shown
    &&& forall|i: int| 0 <= i < shown ==> is_shown_group(groups[i], #[trigger] summary.groups@[i])
    &&& summary.omitted_groups == groups.len() - shown
    &&& summary.omitted_diagnostics == difference_or_zero(total as u64, total_of(groups, shown) as nat)
    &&& summary.samples@.len() == least(samples.len() as int, DOCTOR_SUMMARY_MAX_DIAGNOSTIC_SAMPLES as int)
    &&& forall|i: int|
        0 <= i < summary.samples@.len() ==> is_shown_sample(samples[i], #[trigger] summary.samples@[i])
}

/// Whether a summary is that of effective diagnostics: their groups, the largest first, and
/// their samples, the first first.
pub open spec fn summarizes(
    effective: Seq<DiagnosticCandidate>,
    groups: Seq<DiagnosticGroupSummaryRecord>,
    sorted_groups: Seq<DiagnosticGroupSummaryRecord>,
    samples: Seq<DiagnosticCandidate>,
    summary: DiagnosticSummaryRecord,
) -> bool {
    &&& are_groups(views(effective), effective.len() as int, groups)
    &&& is_ranked_sort(groups, groups, sorted_groups)
    &&& is_ranked_sort(effective, effective, samples)
    &&& shows(effective.len() as int, sorted_groups, samples, summary)
}

fn bounded_option(value: &Option<String>, most: usize) -> (result: Option<String>)
    ensures
        is_bounded_option(opt_text(*value), most as int, opt_text(result)),
{
    match value {
        Some(value) => Some(bounded_summary_text(value.as_str(), most)),
        None => None,
    }
}

fn shown_group(group: &DiagnosticGroupSummaryRecord) -> (result: DiagnosticGroupSummaryRecord)
    ensures
        is_shown_group(*group, result),
{
    DiagnosticGroupSummaryRecord {
        severity: bounded_summary_text(group.severity.as_str(), DOCTOR_SUMMARY_MAX_KEY_BYTES),
        code: bounded_summary_text(group.code.as_str(), DOCTOR_SUMMARY_MAX_KEY_BYTES),
        adapter: bounded_option(&group.adapter, DOCTOR_SUMMARY_MAX_KEY_BYTES),
        count: group.count,
    }
}

fn shown_sample(diagnostic: &DiagnosticCandidate) -> (result: DiagnosticSampleSummaryRecord)
    ensures
        is_shown_sample(*diagnostic, result),
{
    DiagnosticSampleSummaryRecord {
        id: bounded_summary_text(diagnostic.id.as_str(), DOCTOR_SUMMARY_MAX_KEY_BYTES),
        severity: bounded_summary_text(diagnostic.severity.as_str(), DOCTOR_SUMMARY_MAX_KEY_BYTES),
        code: bounded_summary_text(diagnostic.code.as_str(), DOCTOR_SUMMARY_MAX_KEY_BYTES),
        message: bounded_summary_text(diagnostic.message.as_str(), DOCTOR_SUMMARY_MAX_TEXT_BYTES),
        path: bounded_option(&diagnostic.path, DOCTOR_SUMMARY_MAX_TEXT_BYTES),
        adapter: bounded_option(&diagnostic.adapter, DOCTOR_SUMMARY_MAX_KEY_BYTES),
    }
}

fn show(
    total: u64,
    groups: &Vec<DiagnosticGroupSummaryRecord>,
    samples: &Vec<DiagnosticCandidate>,
) -> (result: DiagnosticSummaryRecord)
    ensures
        shows(total as int, groups@, samples@, result),
{
    let shown: usize = if groups.len() < DOCTOR_SUMMARY_MAX_DIAGNOSTIC_GROUPS {
        groups.len()
    } else {
        DOCTOR_SUMMARY_MAX_DIAGNOSTIC_GROUPS
    };
    let mut shown_groups: Vec<DiagnosticGroupSummaryRecord> = Vec::new();
    let mut retained: u128 = 0;
    let mut i: usize = 0;
    while i < shown
        invariant
            i <= shown,
            shown <= groups.len(),
            shown <= DOCTOR_SUMMARY_MAX_DIAGNOSTIC_GROUPS,
            shown_groups.len() == i,
            forall|k: int| 0 <= k < i ==> is_shown_group(groups@[k], #[trigger] shown_groups@[k]),
            retained == total_of(groups@, i as int),
            retained <= i * u64::MAX,
        decreases shown - i,
    {
        shown_groups.push(shown_group(&groups[i]));
        retained = retained + groups[i].count as u128;
        i = i + 1;
    }
    let count: usize = if samples.len() < DOCTOR_SUMMARY_MAX_DIAGNOSTIC_SAMPLES {
        samples.len()
    } else {
        DOCTOR_SUMMARY_MAX_DIAGNOSTIC_SAMPLES
    };
    let mut shown_samples: Vec<DiagnosticSampleSummaryRecord> = Vec::new();
    let mut i: usize = 0;
    while i < count
        invariant
            i <= count,
            count <= samples.len(),
            shown_samples.len() == i,
            forall|k: int| 0 <= k < i ==> is_shown_sample(samples@[k], #[trigger] shown_samples@[k]),
        decreases count - i,
    {
        shown_samples.push(shown_sample(&samples[i]));
        i = i + 1;
    }
    let omitted: u64 = if (total as u128) < retained {
        0
    } else {
        (total as u128 - retained) as u64
    };
    DiagnosticSummaryRecord {
        total,
        groups: shown_groups,
        omitted_groups: (groups.len() - shown) as u64,
        omitted_diagnostics: omitted,
        samples: shown_samples,
    }
}

/// Whether a summary gives diagnostics in bounded form, each once, with the least value of
/// each column.
pub open spec fn is_diagnostic_summary(candidates: Seq<DiagnosticCandidate>, summary: DiagnosticSummaryRecord) -> bool {
    exists|
        effective: Seq<DiagnosticCandidate>,
        groups: Seq<DiagnosticGroupSummaryRecord>,
        sorted_groups: Seq<DiagnosticGroupSummaryRecord>,
        samples: Seq<DiagnosticCandidate>,
    |
        are_lowest::<DiagnosticCandidate>(views(candidates), views(effective)) && #[trigger] summarizes(
            effective,
            groups,
            sorted_groups,
            samples,
            summary,
        )
}

/// The diagnostics of a scan attempt in bounded form. `candidates` are the diagnostics of
/// the scan and of what lies over it; one that is there more than once counts once, with
/// the least value of each column.
pub fn diagnostic_summary(candidates: Vec<DiagnosticCandidate>) -> (result: DiagnosticSummaryRecord)
    ensures
        is_diagnostic_summary(candidates@, result),
{
    let effective = lowest_by_id(candidates);
    let total: u64 = effective.len() as u64;
    let groups = group(&effective);
    let ghost effective_rows = effective@;
    let ghost unsorted = groups@;
    let sorted_groups = sort_ranked(groups);
    let samples = sort_ranked(effective);
    let result = show(total, &sorted_groups, &samples);
    assert(summarizes(effective_rows, unsorted, sorted_groups@, samples@, result));
    result
}

// ---------------------------------------------------------------------------------------
// Laws
// ---------------------------------------------------------------------------------------

/// What the diagnostics of a group share.
pub open spec fn kind_of_group(group: DiagnosticGroupSummaryRecord) -> (Seq<char>, Seq<char>, Option<Seq<char>>) {
    (group.severity@, group.code@, opt_text(group.adapter))
}

/// What a diagnostic shares with those of its group.
pub open spec fn kind_of(diagnostic: DiagnosticCandidateModel) -> (Seq<char>, Seq<char>, Option<Seq<char>>) {
    (diagnostic.severity, diagnostic.code, diagnostic.adapter)
}

spec fn group_kinds(groups: Seq<DiagnosticGroupSummaryRecord>) -> Seq<(Seq<char>, Seq<char>, Option<Seq<char>>)> {
    Seq::new(groups.len(), |g: int| kind_of_group(groups[g]))
}

proof fn groups_have_the_kinds_that_there_are(
    diagnostics: Seq<DiagnosticCandidateModel>,
    groups: Seq<DiagnosticGroupSummaryRecord>,
)
    requires
        are_groups(diagnostics, diagnostics.len() as int, groups),
    ensures
        group_kinds(groups).no_duplicates(),
        forall|kind: (Seq<char>, Seq<char>, Option<Seq<char>>)| #[trigger]
            group_kinds(groups).contains(kind) <==> exists|i: int|
                0 <= i < diagnostics.len() && kind_of(#[trigger] diagnostics[i]) == kind,
{
    let kinds = group_kinds(groups);
    assert forall|g: int, h: int| 0 <= g < kinds.len() && 0 <= h < kinds.len() && g != h implies kinds[g]
        != kinds[h] by {
        if g < h {
            assert(!same_group(groups[g], groups[h]));
        } else {
            assert(!same_group(groups[h], groups[g]));
        }
    }
    assert forall|kind: (Seq<char>, Seq<char>, Option<Seq<char>>)| #[trigger] kinds.contains(kind) implies exists|i: int|
        0 <= i < diagnostics.len() && kind_of(#[trigger] diagnostics[i]) == kind by {
        let g = choose|g: int| 0 <= g < kinds.len() && kinds[g] == kind;
        let keep = in_group(diagnostics, groups[g]);
        if forall|i: int| 0 <= i < diagnostics.len() ==> !#[trigger] keep(i) {
            count_of_nothing(diagnostics.len() as int, keep);
            assert(groups[g].count > 0);
        }
        let i = choose|i: int| 0 <= i < diagnostics.len() && #[trigger] keep(i);
        assert(kind_of(diagnostics[i]) == kind);
    }
    assert forall|kind: (Seq<char>, Seq<char>, Option<Seq<char>>)|
        (exists|i: int| 0 <= i < diagnostics.len() && kind_of(#[trigger] diagnostics[i]) == kind) implies #[trigger]
        kinds.contains(kind) by {
        let i = choose|i: int| 0 <= i < diagnostics.len() && kind_of(#[trigger] diagnostics[i]) == kind;
        assert(has_group(groups, diagnostics[i]));
        let g = choose|g: int| 0 <= g < groups.len() && belongs_to(diagnostics[i], #[trigger] groups[g]);
        assert(kinds[g] == kind);
    }
}

/// Which groups diagnostics have is determined: any two lists of them are equally long, and a
/// group of the one stands in the other with the same number of diagnostics.
pub proof fn groups_are_determined(
    diagnostics: Seq<DiagnosticCandidateModel>,
    a: Seq<DiagnosticGroupSummaryRecord>,
    b: Seq<DiagnosticGroupSummaryRecord>,
)
    requires
        are_groups(diagnostics, diagnostics.len() as int, a),
        are_groups(diagnostics, diagnostics.len() as int, b),
    ensures
        a.len() == b.len(),
        forall|g: int|
            0 <= g < a.len() ==> exists|h: int|
                0 <= h < b.len() && same_group(#[trigger] a[g], #[trigger] b[h]) && a[g].count == b[h].count,
{
    groups_have_the_kinds_that_there_are(diagnostics, a);
    groups_have_the_kinds_that_there_are(diagnostics, b);
    let a_kinds = group_kinds(a);
    let b_kinds = group_kinds(b);
    same_items_are_as_many(a_kinds, b_kinds);
    assert forall|g: int| 0 <= g < a.len() implies exists|h: int|
        0 <= h < b.len() && same_group(#[trigger] a[g], #[trigger] b[h]) && a[g].count == b[h].count by {
        assert(a_kinds[g] == kind_of_group(a[g]));
        assert(a_kinds.contains(a_kinds[g]));
        assert(b_kinds.contains(a_kinds[g]));
        let h = choose|h: int| 0 <= h < b_kinds.len() && b_kinds[h] == a_kinds[g];
        assert(same_group(a[g], b[h]));
        assert(in_group(diagnostics, a[g]) =~= in_group(diagnostics, b[h]));
        assert(a[g].count == b[h].count);
    }
}

/// Two summaries of the same diagnostics count the same: the diagnostics, the groups that are
/// shown, and the groups that are left out.
pub proof fn summaries_count_the_same(
    candidates: Seq<DiagnosticCandidate>,
    a: DiagnosticSummaryRecord,
    b: DiagnosticSummaryRecord,
)
    requires
        is_diagnostic_summary(candidates, a),
        is_diagnostic_summary(candidates, b),
    ensures
        a.total == b.total,
        a.groups@.len() == b.groups@.len(),
        a.omitted_groups == b.omitted_groups,
        a.samples@.len() == b.samples@.len(),
{
    let (a_rows, a_groups, a_sorted, a_samples) = summarized(candidates, a);
    let (b_rows, b_groups, b_sorted, b_samples) = summarized(candidates, b);
    lowest_rows_are_determined::<DiagnosticCandidate>(views(candidates), views(a_rows), views(b_rows));
    assert(views(a_rows).len() == a_rows.len() && views(b_rows).len() == b_rows.len());
    groups_are_determined(views(a_rows), a_groups, b_groups);
}

proof fn summarized(candidates: Seq<DiagnosticCandidate>, summary: DiagnosticSummaryRecord) -> (parts: (
    Seq<DiagnosticCandidate>,
    Seq<DiagnosticGroupSummaryRecord>,
    Seq<DiagnosticGroupSummaryRecord>,
    Seq<DiagnosticCandidate>,
))
    requires
        is_diagnostic_summary(candidates, summary),
    ensures
        are_lowest::<DiagnosticCandidate>(views(candidates), views(parts.0)),
        summarizes(parts.0, parts.1, parts.2, parts.3, summary),
        parts.2.len() == parts.1.len(),
        parts.3.len() == parts.0.len(),
        forall|i: int| 0 <= i < parts.2.len() ==> parts.1.contains(#[trigger] parts.2[i]),
{
    let (effective, groups, sorted_groups, samples) = choose|
        effective: Seq<DiagnosticCandidate>,
        groups: Seq<DiagnosticGroupSummaryRecord>,
        sorted_groups: Seq<DiagnosticGroupSummaryRecord>,
        samples: Seq<DiagnosticCandidate>,
    |
        are_lowest::<DiagnosticCandidate>(views(candidates), views(effective)) && #[trigger] summarizes(
            effective,
            groups,
            sorted_groups,
            samples,
            summary,
        );
    let order = choose|order: Seq<usize>| #[trigger]
        is_rank_order(groups, order) && sorted_groups == Seq::new(order.len(), |i: int| groups[order[i] as int]);
    assert forall|i: int| 0 <= i < sorted_groups.len() implies groups.contains(#[trigger] sorted_groups[i]) by {
        assert(order[i] < groups.len());
        assert(sorted_groups[i] == groups[order[i] as int]);
    }
    (effective, groups, sorted_groups, samples)
}

proof fn groups_hold_one_each(groups: Seq<DiagnosticGroupSummaryRecord>, count: int)
    requires
        0 <= count <= groups.len(),
        forall|g: int| 0 <= g < groups.len() ==> (#[trigger] groups[g]).count > 0,
    ensures
        total_of(groups, count) >= count,
        total_of(groups, count) == count ==> forall|g: int| 0 <= g < count ==> (#[trigger] groups[g]).count == 1,
    decreases count,
{
    if count > 0 {
        groups_hold_one_each(groups, count - 1);
        assert(groups[count - 1].count > 0);
    }
}

proof fn ones_are_counted(groups: Seq<DiagnosticGroupSummaryRecord>, count: int)
    requires
        0 <= count <= groups.len(),
        forall|g: int| 0 <= g < groups.len() ==> (#[trigger] groups[g]).count == 1,
    ensures
        total_of(groups, count) == count,
    decreases count,
{
    if count > 0 {
        ones_are_counted(groups, count - 1);
        assert(groups[count - 1].count == 1);
    }
}

/// Diagnostics with identities of their own and of kinds of their own are a group each: as many
/// groups are shown as fit, with one diagnostic each, and the rest are counted, as groups and as
/// diagnostics.
pub proof fn diagnostics_of_their_own_kinds_are_groups_of_one(
    candidates: Seq<DiagnosticCandidate>,
    summary: DiagnosticSummaryRecord,
)
    requires
        is_diagnostic_summary(candidates, summary),
        forall|i: int, j: int|
            0 <= i < j < candidates.len() ==> (#[trigger] candidates[i])@.id != (#[trigger] candidates[j])@.id,
        forall|i: int, j: int|
            0 <= i < j < candidates.len() ==> kind_of((#[trigger] candidates[i])@) != kind_of(
                (#[trigger] candidates[j])@,
            ),
    ensures
        ({
            let count = candidates.len() as int;
            let shown = least(count, DOCTOR_SUMMARY_MAX_DIAGNOSTIC_GROUPS as int);
            &&& summary.total == count
            &&& summary.groups@.len() == shown
            &&& forall|g: int| 0 <= g < shown ==> (#[trigger] summary.groups@[g]).count == 1
            &&& summary.omitted_groups == count - shown
            &&& summary.omitted_diagnostics == count - shown
            &&& summary.samples@.len() == least(count, DOCTOR_SUMMARY_MAX_DIAGNOSTIC_SAMPLES as int)
        }),
{
    let rows = views(candidates);
    let (effective, groups, sorted_groups, samples) = summarized(candidates, summary);
    let kept = views(effective);
    let ids = row_ids::<DiagnosticCandidate>(rows);
    let kept_ids = row_ids::<DiagnosticCandidate>(kept);
    assert forall|i: int, j: int| 0 <= i < ids.len() && 0 <= j < ids.len() && i != j implies ids[i]
        != ids[j] by {
        assert(candidates[i]@.id != candidates[j]@.id);
    }
    assert forall|i: int, j: int| 0 <= i < kept_ids.len() && 0 <= j < kept_ids.len() && i != j implies kept_ids[i]
        != kept_ids[j] by {
        text_lt_irreflexive(kept_ids[i]);
        if i < j {
            assert(text_lt(kept_ids[i], kept_ids[j]));
        } else {
            assert(text_lt(kept_ids[j], kept_ids[i]));
        }
    }
    same_items_are_as_many(kept_ids, ids);
    assert(kept.len() == rows.len());
    assert forall|x: int| 0 <= x < kept.len() implies rows.contains(#[trigger] kept[x]) by {
        assert(kept_ids[x] == kept[x].id);
        assert(kept_ids.contains(kept_ids[x]));
        assert(ids.contains(kept_ids[x]));
        let place = choose|p: int| 0 <= p < ids.len() && ids[p] == kept_ids[x];
        assert forall|i: int| 0 <= i < rows.len() && i != place implies DiagnosticCandidate::identity(#[trigger] rows[i])
            != DiagnosticCandidate::identity(rows[place]) by {
            assert(ids[i] != ids[place]);
        }
        only_rows_are_lowest::<DiagnosticCandidate>(rows, place, rows.len() as int);
        assert(kept[x] == rows[place]);
    }
    let kinds = Seq::new(kept.len(), |i: int| kind_of(kept[i]));
    assert forall|x: int, y: int| 0 <= x < kinds.len() && 0 <= y < kinds.len() && x != y implies kinds[x]
        != kinds[y] by {
        let p = choose|p: int| 0 <= p < rows.len() && rows[p] == kept[x];
        let q = choose|q: int| 0 <= q < rows.len() && rows[q] == kept[y];
        assert(kept_ids[x] != kept_ids[y]);
        assert(p != q);
        assert(rows[p] == candidates[p]@ && rows[q] == candidates[q]@);
    }
    groups_have_the_kinds_that_there_are(kept, groups);
    let found = group_kinds(groups);
    assert forall|kind: (Seq<char>, Seq<char>, Option<Seq<char>>)| #[trigger] found.contains(kind)
        <==> kinds.contains(kind) by {
        if found.contains(kind) {
            let i = choose|i: int| 0 <= i < kept.len() && kind_of(#[trigger] kept[i]) == kind;
            assert(kinds[i] == kind);
        }
        if kinds.contains(kind) {
            let i = choose|i: int| 0 <= i < kinds.len() && kinds[i] == kind;
            assert(kind_of(kept[i]) == kind);
        }
    }
    same_items_are_as_many(found, kinds);
    assert(groups.len() == kept.len());
    groups_hold_one_each(groups, groups.len() as int);
    assert forall|g: int| 0 <= g < sorted_groups.len() implies (#[trigger] sorted_groups[g]).count == 1 by {
        let h = choose|h: int| 0 <= h < groups.len() && groups[h] == sorted_groups[g];
        assert(groups[h].count == 1);
    }
    let shown = least(sorted_groups.len() as int, DOCTOR_SUMMARY_MAX_DIAGNOSTIC_GROUPS as int);
    ones_are_counted(sorted_groups, shown);
    assert forall|g: int| 0 <= g < shown implies (#[trigger] summary.groups@[g]).count == 1 by {
        assert(is_shown_group(sorted_groups[g], summary.groups@[g]));
        assert(sorted_groups[g].count == 1);
    }
}

} // verus!

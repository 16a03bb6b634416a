//! What the summary of a scan counts.

use vstd::prelude::*;

use crate::counting::{kept_is_wanted, same_items_count_alike, sorted_lists_hold_the_items};
use crate::coverage::{is_status, resolved_as};
use crate::diagnostic_summary::{diagnostic_summary, DiagnosticCandidate};
use crate::order::{collect_holds_the_kept_items, is_stable_sort, same_items_are_as_many, views};
use crate::records::{
    AdapterLogRecord, AdapterLogSummaryRecord, CompletedSnapshotRecord, CoverageModel, CoverageRecord,
    DiagnosticSummaryRecord, FileCoverageRecord, FileCoverageSummaryRecord, NodeRecord, ScanAttemptSummaryRecord,
    ScanRecord,
};
use crate::summary::{
    adapter_log_summaries, are_build_layers, are_lowest, build_layers, column_total, deepest_at, discovered,
    each_file, each_skipped_file, effective_package_instance_count, effective_profile_summary,
    effective_site_summary, emitted, file_coverage_summary, is_file_summary, is_log_summary, log_adapters,
    lowest, only_rows_are_lowest, row_ids, skipped, summary_coverage, texts_of, with_builds, with_sessions,
    BuildLayer, IdText, IdTextModel, Lowered, SiteSummary,
};
use crate::summary_rows::{is_package, package_rows, scan_attempt_summary, SummaryRows};
use crate::text::{byte_len, opt_text, text_lt, text_lt_irreflexive, text_lt_total, text_lt_transitive, texts};

verus! {

proof fn rows_apart_amount_to_themselves<T: Lowered>(rows: Seq<T::V>, result: Seq<T::V>)
    requires
        are_lowest::<T>(rows, result),
        forall|i: int, j: int|
            0 <= i < j < rows.len() ==> T::identity(#[trigger] rows[i]) != T::identity(#[trigger] rows[j]),
    ensures
        rows.no_duplicates(),
        result.no_duplicates(),
        forall|x: T::V| #[trigger] result.contains(x) <==> rows.contains(x),
        result.len() == rows.len(),
{
    let all = row_ids::<T>(rows);
    let ids = row_ids::<T>(result);
    assert forall|i: int, j: int| 0 <= i < rows.len() && 0 <= j < rows.len() && i != j implies rows[i] != rows[j] by {
        if i < j {
            assert(T::identity(rows[i]) != T::identity(rows[j]));
        } else {
            assert(T::identity(rows[j]) != T::identity(rows[i]));
        }
    }
    assert forall|i: int, j: int| 0 <= i < result.len() && 0 <= j < result.len() && i != j implies result[i]
        != result[j] by {
        crate::text::text_lt_irreflexive(ids[i]);
        if i < j {
            assert(crate::text::text_lt(ids[i], ids[j]));
        } else {
            assert(crate::text::text_lt(ids[j], ids[i]));
        }
        assert(ids[i] == T::identity(result[i]) && ids[j] == T::identity(result[j]));
    }
    assert forall|x: T::V| #[trigger] result.contains(x) <==> rows.contains(x) by {
        if result.contains(x) {
            let i = choose|i: int| 0 <= i < result.len() && result[i] == x;
            assert(ids[i] == T::identity(x));
            assert(ids.contains(ids[i]));
            assert(all.contains(ids[i]));
            let p = choose|p: int| 0 <= p < all.len() && all[p] == ids[i];
            one_row_is_lowest::<T>(rows, p);
            assert(lowest::<T>(rows, T::identity(result[i]), rows.len() as int) == Some(result[i]));
            assert(rows[p] == x);
        }
        if rows.contains(x) {
            let p = choose|p: int| 0 <= p < rows.len() && rows[p] == x;
            assert(all[p] == T::identity(x));
            assert(all.contains(all[p]));
            assert(ids.contains(all[p]));
            let i = choose|i: int| 0 <= i < ids.len() && ids[i] == all[p];
            one_row_is_lowest::<T>(rows, p);
            assert(lowest::<T>(rows, T::identity(result[i]), rows.len() as int) == Some(result[i]));
            assert(result[i] == x);
        }
    }
    same_items_are_as_many(result, rows);
}

proof fn one_row_is_lowest<T: Lowered>(rows: Seq<T::V>, p: int)
    requires
        0 <= p < rows.len(),
        forall|i: int, j: int|
            0 <= i < j < rows.len() ==> T::identity(#[trigger] rows[i]) != T::identity(#[trigger] rows[j]),
    ensures
        lowest::<T>(rows, T::identity(rows[p]), rows.len() as int) == Some(rows[p]),
{
    assert forall|i: int| 0 <= i < rows.len() && i != p implies T::identity(#[trigger] rows[i]) != T::identity(
        rows[p],
    ) by {
        if i < p {
            assert(T::identity(rows[i]) != T::identity(rows[p]));
        } else {
            assert(T::identity(rows[p]) != T::identity(rows[i]));
        }
    }
    only_rows_are_lowest::<T>(rows, p, rows.len() as int);
}

proof fn rows_with_a_text_are_counted(
    rows: Seq<IdText>,
    lowest: Seq<IdTextModel>,
    text: Seq<char>,
    wanted: spec_fn(IdText) -> bool,
)
    requires
        are_lowest::<IdText>(views(rows), lowest),
        forall|i: int, j: int| 0 <= i < j < rows.len() ==> (#[trigger] rows[i]).id@ != (#[trigger] rows[j]).id@,
        forall|row: IdText| #[trigger] wanted(row) == (row.text@ == text),
    ensures
        resolved_as(texts_of(lowest), text) == rows.filter(wanted).len(),
        lowest.len() == rows.len(),
{
    let models = views(rows);
    assert forall|i: int, j: int| 0 <= i < j < models.len() implies IdText::identity(#[trigger] models[i])
        != IdText::identity(#[trigger] models[j]) by {
        assert(rows[i].id@ != rows[j].id@);
    }
    rows_apart_amount_to_themselves::<IdText>(models, lowest);
    let of = |row: IdTextModel| row.text == text;
    same_items_count_alike(lowest, models, of);
    kept_is_wanted(lowest, of, is_status(texts_of(lowest), text));
    let keep = |i: int| rows[i].text@ == text;
    kept_is_wanted(rows, wanted, keep);
    assert forall|i: int| 0 <= i < models.len() implies #[trigger] keep(i) == of(models[i]) by {
        assert(models[i] == rows[i]@);
    }
    kept_is_wanted(models, of, keep);
}

/// The sites of a summary are counted by their resolutions, each for itself.
pub proof fn summaries_count_the_sites(rows: Vec<IdText>, summary: SiteSummary)
    requires
        call_ensures(effective_site_summary, (rows,), summary),
        forall|i: int, j: int| 0 <= i < j < rows@.len() ==> (#[trigger] rows@[i]).id@ != (#[trigger] rows@[j]).id@,
    ensures
        summary.dependency_sites == rows@.len(),
        summary.resolved == rows@.filter(|row: IdText| row.text@ == "resolved"@).len(),
        summary.candidates == rows@.filter(|row: IdText| row.text@ == "candidates"@).len(),
        summary.external == rows@.filter(|row: IdText| row.text@ == "external"@).len(),
        summary.unresolved == rows@.filter(|row: IdText| row.text@ == "unresolved"@).len(),
{
    let lowest = choose|lowest: Seq<IdTextModel>| #[trigger]
        are_lowest::<IdText>(views(rows@), lowest) && crate::summary::is_site_summary(texts_of(lowest), summary);
    rows_with_a_text_are_counted(rows@, lowest, "resolved"@, |row: IdText| row.text@ == "resolved"@);
    rows_with_a_text_are_counted(rows@, lowest, "candidates"@, |row: IdText| row.text@ == "candidates"@);
    rows_with_a_text_are_counted(rows@, lowest, "external"@, |row: IdText| row.text@ == "external"@);
    rows_with_a_text_are_counted(rows@, lowest, "unresolved"@, |row: IdText| row.text@ == "unresolved"@);
}

/// A site that several layers hold is counted once.
pub proof fn repeated_sites_are_counted_once(rows: Vec<IdText>, summary: SiteSummary)
    requires
        call_ensures(effective_site_summary, (rows,), summary),
    ensures
        summary.dependency_sites == Seq::new(rows@.len(), |i: int| rows@[i].id@).to_set().len(),
{
    let lowest = choose|lowest: Seq<IdTextModel>| #[trigger]
        are_lowest::<IdText>(views(rows@), lowest) && crate::summary::is_site_summary(texts_of(lowest), summary);
    let ids = row_ids::<IdText>(lowest);
    let all = row_ids::<IdText>(views(rows@));
    assert(all =~= Seq::new(rows@.len(), |i: int| rows@[i].id@));
    ascending_lists_are_sets(ids);
    assert(ids.to_set() =~= all.to_set()) by {
        assert forall|x: Seq<char>| ids.to_set().contains(x) <==> all.to_set().contains(x) by {
            assert(ids.contains(x) <==> all.contains(x));
        }
    }
}

proof fn ascending_lists_are_sets(ids: Seq<Seq<char>>)
    requires
        crate::order::ascending(ids),
    ensures
        ids.no_duplicates(),
        ids.to_set().len() == ids.len(),
{
    assert forall|i: int, j: int| 0 <= i < ids.len() && 0 <= j < ids.len() && i != j implies ids[i] != ids[j] by {
        crate::text::text_lt_irreflexive(ids[i]);
        if i < j {
            assert(crate::text::text_lt(ids[i], ids[j]));
        } else {
            assert(crate::text::text_lt(ids[j], ids[i]));
        }
    }
    ids.unique_seq_to_set();
}

/// The profiles of a summary are counted, and by their languages.
pub proof fn summaries_count_the_profiles(
    rows: Vec<IdText>,
    result: (u64, Vec<(String, u64)>),
    language: Seq<char>,
)
    requires
        call_ensures(effective_profile_summary, (rows,), result),
        forall|i: int, j: int| 0 <= i < j < rows@.len() ==> (#[trigger] rows@[i]).id@ != (#[trigger] rows@[j]).id@,
        exists|i: int| 0 <= i < rows@.len() && (#[trigger] rows@[i]).text@ == language,
    ensures
        result.0 == rows@.len(),
        exists|k: int|
            0 <= k < result.1@.len() && (#[trigger] result.1@[k]).0@ == language && result.1@[k].1 == rows@.filter(
                |row: IdText| row.text@ == language,
            ).len(),
{
    let lowest = choose|lowest: Seq<IdTextModel>| #[trigger]
        are_lowest::<IdText>(views(rows@), lowest) && result.0 == lowest.len() && crate::summary::are_counts(
            texts_of(lowest),
            result.1@,
        );
    rows_with_a_text_are_counted(rows@, lowest, language, |row: IdText| row.text@ == language);
    let models = views(rows@);
    assert forall|i: int, j: int| 0 <= i < j < models.len() implies IdText::identity(#[trigger] models[i])
        != IdText::identity(#[trigger] models[j]) by {
        assert(rows@[i].id@ != rows@[j].id@);
    }
    rows_apart_amount_to_themselves::<IdText>(models, lowest);
    let i = choose|i: int| 0 <= i < rows@.len() && (#[trigger] rows@[i]).text@ == language;
    assert(models[i] == rows@[i]@);
    assert(models.contains(models[i]));
    assert(lowest.contains(models[i]));
    let p = choose|p: int| 0 <= p < lowest.len() && lowest[p] == models[i];
    assert(texts_of(lowest)[p] == language);
    let names = Seq::new(result.1@.len(), |k: int| result.1@[k].0@);
    assert(texts_of(lowest).contains(language));
    assert(names.contains(language));
    let k = choose|k: int| 0 <= k < names.len() && names[k] == language;
    assert(result.1@[k].0@ == language);
}

/// Package instances are counted by identity, each once, and are the nodes of that kind.
pub proof fn summaries_count_the_packages(ids: Vec<String>, count: u64, nodes: Seq<NodeRecord>, id: String)
    requires
        call_ensures(effective_package_instance_count, (ids,), count),
    ensures
        count == texts(ids@).to_set().len(),
        package_rows(nodes).contains(id) <==> exists|n: int|
            0 <= n < nodes.len() && (#[trigger] nodes[n]).kind@ == "package_instance"@ && nodes[n].id == id,
{
    let distinct = choose|distinct: Seq<Seq<char>>| #[trigger]
        crate::order::is_sorted_set(distinct, texts(ids@)) && count == distinct.len();
    ascending_lists_are_sets(distinct);
    assert(distinct.to_set() =~= texts(ids@).to_set()) by {
        assert forall|x: Seq<char>| distinct.to_set().contains(x) <==> texts(ids@).to_set().contains(x) by {
            assert(distinct.contains(x) <==> texts(ids@).contains(x));
        }
    }
    let keep = is_package(nodes);
    let item = |i: int| nodes[i].id;
    collect_holds_the_kept_items(nodes.len() as int, keep, item, id);
    if exists|i: int| 0 <= i < nodes.len() && #[trigger] keep(i) && item(i) == id {
        let i = choose|i: int| 0 <= i < nodes.len() && #[trigger] keep(i) && item(i) == id;
        assert(nodes[i].kind@ == "package_instance"@ && nodes[i].id == id);
    }
    if exists|n: int|
        0 <= n < nodes.len() && (#[trigger] nodes[n]).kind@ == "package_instance"@ && nodes[n].id == id {
        let n = choose|n: int|
            0 <= n < nodes.len() && (#[trigger] nodes[n]).kind@ == "package_instance"@ && nodes[n].id == id;
        assert(keep(n) && item(n) == id);
    }
}

proof fn column_is_a_sum(
    rows: Seq<FileCoverageRecord>,
    adapter: Seq<char>,
    count: int,
    column: spec_fn(FileCoverageRecord) -> nat,
    of: spec_fn(FileCoverageRecord) -> int,
)
    requires
        0 <= count <= rows.len(),
        forall|row: FileCoverageRecord| #[trigger]
            of(row) == if row.adapter@ == adapter {
                column(row) as int
            } else {
                0
            },
    ensures
        column_total(rows, adapter, count, column) == rows.take(count).map_values(of).fold_left(
            0int,
            |sum: int, part: int| sum + part,
        ),
    decreases count,
{
    let plus = |sum: int, part: int| sum + part;
    reveal_with_fuel(Seq::fold_left, 2);
    if count > 0 {
        column_is_a_sum(rows, adapter, count - 1, column, of);
        assert(rows.take(count).map_values(of).drop_last() =~= rows.take(count - 1).map_values(of));
        assert(rows.take(count).map_values(of).last() == of(rows[count - 1]));
    }
}

proof fn column_is_a_count(
    rows: Seq<FileCoverageRecord>,
    adapter: Seq<char>,
    count: int,
    column: spec_fn(FileCoverageRecord) -> nat,
    wanted: spec_fn(FileCoverageRecord) -> bool,
)
    requires
        0 <= count <= rows.len(),
        forall|row: FileCoverageRecord| #[trigger]
            wanted(row) ==> row.adapter@ == adapter && column(row) == 1,
        forall|row: FileCoverageRecord|
            !(#[trigger] wanted(row)) && row.adapter@ == adapter ==> column(row) == 0,
    ensures
        column_total(rows, adapter, count, column) == rows.take(count).filter(wanted).len(),
    decreases count,
{
    reveal(Seq::filter);
    if count > 0 {
        column_is_a_count(rows, adapter, count - 1, column, wanted);
        assert(rows.take(count).drop_last() =~= rows.take(count - 1));
        assert(rows.take(count).last() == rows[count - 1]);
        assert(wanted(rows[count - 1]) ==> column(rows[count - 1]) == 1);
    }
}

/// Each adapter with a file has one summary of its files: how many there are, how many were
/// skipped, and how many sites they discovered, emitted and skipped.
pub proof fn file_summaries_count_the_files(
    rows: &Vec<FileCoverageRecord>,
    summaries: Vec<FileCoverageSummaryRecord>,
    i: int,
    adapter: Seq<char>,
)
    requires
        call_ensures(file_coverage_summary, (rows,), Ok(summaries)),
    ensures
        (exists|k: int| 0 <= k < summaries@.len() && (#[trigger] summaries@[k]).adapter@ == adapter) <==> exists|r: int|
            0 <= r < rows@.len() && (#[trigger] rows@[r]).adapter@ == adapter,
        0 <= i < summaries@.len() ==> {
            let summary = summaries@[i];
            let own = summary.adapter@;
            &&& summary.files == rows@.filter(|row: FileCoverageRecord| row.adapter@ == own).len()
            &&& summary.skipped_files == rows@.filter(
                |row: FileCoverageRecord| row.adapter@ == own && row.skipped,
            ).len()
            &&& summary.discovered_sites == rows@.map_values(
                |row: FileCoverageRecord|
                    if row.adapter@ == own {
                        row.discovered_sites as int
                    } else {
                        0
                    },
            ).fold_left(0int, |sum: int, part: int| sum + part)
            &&& summary.emitted_sites == rows@.map_values(
                |row: FileCoverageRecord|
                    if row.adapter@ == own {
                        row.emitted_sites as int
                    } else {
                        0
                    },
            ).fold_left(0int, |sum: int, part: int| sum + part)
            &&& summary.skipped_sites == rows@.map_values(
                |row: FileCoverageRecord|
                    if row.adapter@ == own {
                        row.skipped_sites as int
                    } else {
                        0
                    },
            ).fold_left(0int, |sum: int, part: int| sum + part)
        },
{
    let names = crate::summary::summary_adapters(summaries@);
    let all = crate::summary::file_adapters(rows@);
    assert(names.contains(adapter) <==> all.contains(adapter));
    if exists|k: int| 0 <= k < summaries@.len() && (#[trigger] summaries@[k]).adapter@ == adapter {
        let k = choose|k: int| 0 <= k < summaries@.len() && (#[trigger] summaries@[k]).adapter@ == adapter;
        assert(names[k] == adapter);
        let r = choose|r: int| 0 <= r < all.len() && all[r] == adapter;
        assert(rows@[r].adapter@ == adapter);
    }
    if exists|r: int| 0 <= r < rows@.len() && (#[trigger] rows@[r]).adapter@ == adapter {
        let r = choose|r: int| 0 <= r < rows@.len() && (#[trigger] rows@[r]).adapter@ == adapter;
        assert(all[r] == adapter);
        let k = choose|k: int| 0 <= k < names.len() && names[k] == adapter;
        assert(summaries@[k].adapter@ == adapter);
    }
    if 0 <= i < summaries@.len() {
        assert(is_file_summary(rows@, summaries@[i]));
        let own = summaries@[i].adapter@;
        let count = rows@.len() as int;
        assert(rows@.take(count) =~= rows@);
        column_is_a_count(rows@, own, count, each_file(), |row: FileCoverageRecord| row.adapter@ == own);
        column_is_a_count(
            rows@,
            own,
            count,
            each_skipped_file(),
            |row: FileCoverageRecord| row.adapter@ == own && row.skipped,
        );
        column_is_a_sum(
            rows@,
            own,
            count,
            discovered(),
            |row: FileCoverageRecord|
                if row.adapter@ == own {
                    row.discovered_sites as int
                } else {
                    0
                },
        );
        column_is_a_sum(
            rows@,
            own,
            count,
            emitted(),
            |row: FileCoverageRecord|
                if row.adapter@ == own {
                    row.emitted_sites as int
                } else {
                    0
                },
        );
        column_is_a_sum(
            rows@,
            own,
            count,
            skipped(),
            |row: FileCoverageRecord|
                if row.adapter@ == own {
                    row.skipped_sites as int
                } else {
                    0
                },
        );
    }
}

/// Every log has a summary under its adapter, which says how many bytes it holds and whether it was
/// cut; there is no other.
pub proof fn log_summaries_measure_the_logs(
    logs: Vec<AdapterLogRecord>,
    summaries: Vec<AdapterLogSummaryRecord>,
    i: int,
    k: int,
)
    requires
        call_ensures(adapter_log_summaries, (logs,), summaries),
        logs@.len() <= usize::MAX,
    ensures
        summaries@.len() == logs@.len(),
        0 <= i < logs@.len() ==> exists|s: int|
            0 <= s < summaries@.len() && (#[trigger] summaries@[s]).adapter@ == logs@[i].adapter@
                && summaries@[s].stderr_bytes == byte_len(logs@[i].stderr@) && summaries@[s].truncated
                == logs@[i].truncated,
        0 <= k < summaries@.len() ==> exists|l: int|
            0 <= l < logs@.len() && (#[trigger] logs@[l]).adapter@ == summaries@[k].adapter@
                && summaries@[k].stderr_bytes == byte_len(logs@[l].stderr@) && summaries@[k].truncated
                == logs@[l].truncated,
{
    let sorted = choose|sorted: Seq<AdapterLogRecord>|
        {
            &&& #[trigger] is_stable_sort(logs@, log_adapters(logs@), sorted)
            &&& summaries@.len() == sorted.len()
            &&& forall|i: int| 0 <= i < sorted.len() ==> is_log_summary(sorted[i], #[trigger] summaries@[i])
        };
    sorted_lists_hold_the_items(logs@, log_adapters(logs@), sorted);
    if 0 <= i < logs@.len() {
        assert(logs@.contains(logs@[i]));
        assert(sorted.contains(logs@[i]));
        let s = choose|s: int| 0 <= s < sorted.len() && sorted[s] == logs@[i];
        assert(is_log_summary(sorted[s], summaries@[s]));
    }
    if 0 <= k < summaries@.len() {
        assert(is_log_summary(sorted[k], summaries@[k]));
        assert(sorted.contains(sorted[k]));
        assert(logs@.contains(sorted[k]));
        let l = choose|l: int| 0 <= l < logs@.len() && logs@[l] == sorted[k];
        assert(logs@[l].adapter@ == summaries@[k].adapter@);
    }
}

proof fn builds_add_up(start: CoverageModel, builds: Seq<CoverageRecord>, count: int)
    requires
        0 <= count <= builds.len(),
    ensures
        ({
            let after = with_builds(start, builds, count);
            &&& after.files_discovered == start.files_discovered
            &&& after.files_analyzed == start.files_analyzed
            &&& after.files_skipped == start.files_skipped
            &&& after.project_code_executed <==> start.project_code_executed || exists|b: int|
                0 <= b < count && (#[trigger] builds[b]).project_code_executed
        }),
    decreases count,
{
    if count > 0 {
        builds_add_up(start, builds, count - 1);
        if builds[count - 1].project_code_executed {
            assert(builds[count - 1].project_code_executed);
        }
    }
}

proof fn sessions_add_up(start: CoverageModel, sessions: Seq<CoverageRecord>, count: int)
    requires
        0 <= count <= sessions.len(),
    ensures
        ({
            let after = with_sessions(start, sessions, count);
            &&& after.files_discovered == start.files_discovered
            &&& after.files_analyzed == start.files_analyzed
            &&& after.files_skipped == start.files_skipped
            &&& after.project_code_executed <==> start.project_code_executed || exists|s: int|
                0 <= s < count && (#[trigger] sessions[s]).project_code_executed
        }),
    decreases count,
{
    if count > 0 {
        sessions_add_up(start, sessions, count - 1);
        if sessions[count - 1].project_code_executed {
            assert(sessions[count - 1].project_code_executed);
        }
    }
}

/// The coverage of a summary counts the profiles and the sites that the summary counts, and the
/// files that were stored; project code was executed where the scan, a build or a session did.
pub proof fn summary_coverage_counts_what_is_summarized(
    stored: Option<CoverageRecord>,
    scan_executed: bool,
    builds: &Vec<CoverageRecord>,
    sessions: &Vec<CoverageRecord>,
    profiles: u64,
    sites: SiteSummary,
    result: CoverageRecord,
)
    requires
        call_ensures(summary_coverage, (stored, scan_executed, builds, sessions, profiles, sites), result),
    ensures
        result.profiles == profiles,
        result.dependency_sites == sites.dependency_sites,
        result.resolved == sites.resolved,
        result.candidates == sites.candidates,
        result.external == sites.external,
        result.unresolved == sites.unresolved,
        stored is Some ==> result.files_discovered == stored->0.files_discovered && result.files_analyzed
            == stored->0.files_analyzed && result.files_skipped == stored->0.files_skipped,
        stored is None ==> result.files_discovered == 0 && result.files_analyzed == 0 && result.files_skipped == 0,
        result.project_code_executed <==> scan_executed || (exists|b: int|
            0 <= b < builds@.len() && (#[trigger] builds@[b]).project_code_executed) || (exists|s: int|
            0 <= s < sessions@.len() && (#[trigger] sessions@[s]).project_code_executed),
{
    let start = CoverageModel {
        project_code_executed: scan_executed,
        ..crate::summary::stored_or_unavailable(stored)
    };
    builds_add_up(start, builds@, builds@.len() as int);
    let built = with_builds(start, builds@, builds@.len() as int);
    sessions_add_up(built, sessions@, sessions@.len() as int);
}

/// Each build of a chain is a layer once, at its deepest place.
pub proof fn builds_are_layers_at_their_deepest_place(
    chain: &Vec<CompletedSnapshotRecord>,
    layers: Vec<BuildLayer>,
    depth: int,
)
    requires
        call_ensures(build_layers, (chain,), layers),
        chain@.len() <= u64::MAX,
        chain@.len() <= usize::MAX,
        0 <= depth < chain@.len(),
    ensures
        (exists|l: int|
            0 <= l < layers@.len() && (#[trigger] layers@[l]).depth == depth && Some(layers@[l].build_attempt_id@)
                == opt_text(chain@[depth].build_attempt_id)) <==> chain@[depth].build_attempt_id is Some && forall|
            i: int,
        |
            depth < i < chain@.len() ==> opt_text((#[trigger] chain@[i]).build_attempt_id) != opt_text(
                chain@[depth].build_attempt_id,
            ),
{
    let listed = choose|listed: Seq<BuildLayer>|
        are_build_layers(chain@, listed) && #[trigger] crate::sort::is_ranked_sort(listed, listed, layers@);
    let keep = deepest_at(chain@);
    let at = |i: int| i;
    let count = chain@.len() as int;
    let depths = crate::order::collect(count, keep, at);
    crate::order::selections_are_counted(count, keep, at);
    crate::order::count_of_is_bounded(count, keep);
    crate::snapshot_laws::ranked_lists_hold_the_items(listed, listed, layers@);
    collect_holds_the_kept_items(count, keep, at, depth);
    if exists|l: int|
        0 <= l < layers@.len() && (#[trigger] layers@[l]).depth == depth && Some(layers@[l].build_attempt_id@)
            == opt_text(chain@[depth].build_attempt_id) {
        let l = choose|l: int|
            0 <= l < layers@.len() && (#[trigger] layers@[l]).depth == depth && Some(layers@[l].build_attempt_id@)
                == opt_text(chain@[depth].build_attempt_id);
        assert(layers@.contains(layers@[l]));
        assert(listed.contains(layers@[l]));
        let p = choose|p: int| 0 <= p < listed.len() && listed[p] == layers@[l];
        assert(listed[p].depth == depths[p]);
        assert(depths.contains(depths[p]));
        let i = choose|i: int| 0 <= i < count && #[trigger] keep(i) && at(i) == depth;
        assert(i == depth);
    }
    if chain@[depth].build_attempt_id is Some && forall|i: int|
        depth < i < chain@.len() ==> opt_text((#[trigger] chain@[i]).build_attempt_id) != opt_text(
            chain@[depth].build_attempt_id,
        ) {
        assert(keep(depth) && at(depth) == depth);
        let p = choose|p: int| 0 <= p < depths.len() && depths[p] == depth;
        assert(listed[p].depth == depth);
        assert(listed.contains(listed[p]));
        assert(layers@.contains(listed[p]));
        let l = choose|l: int| 0 <= l < layers@.len() && layers@[l] == listed[p];
        assert(layers@[l].depth == depth);
    }
}

/// The summary of an attempt is of its scan, whose execution of project code is that of the
/// coverage, and counts the profiles in the coverage too.
pub proof fn attempts_are_summarized_by_their_scan(
    scan: ScanRecord,
    stored: Option<CoverageRecord>,
    rows: SummaryRows,
    files: &Vec<FileCoverageRecord>,
    logs: Vec<AdapterLogRecord>,
    summary: ScanAttemptSummaryRecord,
)
    requires
        call_ensures(scan_attempt_summary, (scan, stored, rows, files, logs), Ok(summary)),
    ensures
        summary.scan.id == scan.id,
        summary.scan.root == scan.root,
        summary.scan.status == scan.status,
        summary.scan.strict == scan.strict,
        summary.scan.started_at == scan.started_at,
        summary.scan.completed_at == scan.completed_at,
        summary.scan.error == scan.error,
        summary.scan.project_code_executed == summary.coverage.project_code_executed,
        summary.coverage.profiles == summary.profile_count,
        scan.project_code_executed ==> summary.coverage.project_code_executed,
        summary.package_instance_count == texts(rows.packages@).to_set().len(),
{
    let sites = choose|sites: SiteSummary| #[trigger]
        crate::summary::is_effective_site_summary(rows.sites@, sites) && summary.coverage@
            == crate::summary::summary_coverage_of(
            stored,
            scan.project_code_executed,
            rows.build_coverages@,
            rows.session_coverages@,
            summary.profile_count,
            sites,
        );
    let start = CoverageModel {
        project_code_executed: scan.project_code_executed,
        ..crate::summary::stored_or_unavailable(stored)
    };
    let builds = rows.build_coverages@;
    let sessions = rows.session_coverages@;
    builds_add_up(start, builds, builds.len() as int);
    let built = with_builds(start, builds, builds.len() as int);
    sessions_add_up(built, sessions, sessions.len() as int);
    let distinct = choose|distinct: Seq<Seq<char>>| #[trigger]
        crate::order::is_sorted_set(distinct, texts(rows.packages@)) && summary.package_instance_count
            == distinct.len();
    ascending_lists_are_sets(distinct);
    assert(distinct.to_set() =~= texts(rows.packages@).to_set()) by {
        assert forall|x: Seq<char>| distinct.to_set().contains(x) <==> texts(
            rows.packages@,
        ).to_set().contains(x) by {
            assert(distinct.contains(x) <==> texts(rows.packages@).contains(x));
        }
    }
}

/// Diagnostics are counted by identity, each once. No more groups and samples are shown than a
/// summary has room for, and what is not shown is counted.
pub proof fn diagnostics_are_counted_once(candidates: Vec<DiagnosticCandidate>, summary: DiagnosticSummaryRecord)
    requires
        call_ensures(diagnostic_summary, (candidates,), summary),
        candidates@.len() <= u64::MAX,
    ensures
        summary.total == Seq::new(candidates@.len(), |i: int| candidates@[i].id@).to_set().len(),
        summary.groups@.len() <= 64,
        summary.samples@.len() <= 5,
        summary.total <= 5 ==> summary.samples@.len() == summary.total,
        summary.total > 5 ==> summary.samples@.len() == 5,
        summary.groups@.len() < 64 ==> summary.omitted_groups == 0,
{
    let (effective, groups, sorted_groups, samples) = choose|
        effective: Seq<DiagnosticCandidate>,
        groups: Seq<crate::records::DiagnosticGroupSummaryRecord>,
        sorted_groups: Seq<crate::records::DiagnosticGroupSummaryRecord>,
        samples: Seq<DiagnosticCandidate>,
    |
        are_lowest::<DiagnosticCandidate>(views(candidates@), views(effective))
            && #[trigger] crate::diagnostic_summary::summarizes(effective, groups, sorted_groups, samples, summary);
    let ids = row_ids::<DiagnosticCandidate>(views(effective));
    let all = row_ids::<DiagnosticCandidate>(views(candidates@));
    assert(all =~= Seq::new(candidates@.len(), |i: int| candidates@[i].id@));
    ascending_lists_are_sets(ids);
    assert(ids.to_set() =~= all.to_set()) by {
        assert forall|x: Seq<char>| ids.to_set().contains(x) <==> all.to_set().contains(x) by {
            assert(ids.contains(x) <==> all.contains(x));
        }
    }
    assert(ids.len() == effective.len());
    assert(samples.len() == effective.len());
}

/// A text is shown from its start and cut where it would grow too long; one that fits is shown
/// whole.
pub proof fn long_texts_are_cut(value: &str, most: usize, shown: String)
    requires
        call_ensures(crate::summary::bounded_summary_text, (value, most), shown),
    ensures
        shown@.is_prefix_of(value@),
        byte_len(shown@) <= most,
        byte_len(value@) <= most ==> shown@ == value@,
        shown@.len() < value@.len() ==> byte_len(value@.take(shown@.len() as int + 1)) > most,
{
    if byte_len(value@) <= most {
        crate::summary::short_texts_are_shown_whole(value@, most as int, shown@);
    }
    if shown@.len() < value@.len() {
        assert(value@.take(shown@.len() as int + 1) =~= value@.subrange(0, shown@.len() as int + 1));
    }
}

/// Whether a candidate is a diagnostic as it stands, from a source, at a depth, with a number.
pub open spec fn is_candidate_of(
    candidate: DiagnosticCandidate,
    diagnostic: crate::records::DiagnosticRecord,
    source: int,
    depth: int,
    number: int,
) -> bool {
    &&& candidate.id@ == diagnostic.id@
    &&& candidate.severity@ == diagnostic.severity@
    &&& candidate.code@ == diagnostic.code@
    &&& candidate.message@ == diagnostic.message@
    &&& opt_text(candidate.path) == opt_text(diagnostic.path)
    &&& opt_text(candidate.adapter) == opt_text(diagnostic.adapter)
    &&& candidate.source_rank == source
    &&& candidate.layer_depth == depth
    &&& candidate.ordinal == number
}

/// What a build brings goes into a summary after what is there: its profiles with their languages,
/// its sites with their resolutions, its coverage, and its diagnostics by their places.
pub proof fn builds_are_summarized(
    before: SummaryRows,
    depth: u64,
    delta: crate::records::BuildGraphDelta,
    after: SummaryRows,
    i: int,
)
    requires
        crate::summary_rows::adds_build(before, depth, delta, after),
    ensures
        after.profiles@.len() == before.profiles@.len() + delta.profiles@.len(),
        after.sites@.len() == before.sites@.len() + delta.sites@.len(),
        after.diagnostics@.len() == before.diagnostics@.len() + delta.diagnostics@.len(),
        after.build_coverages@ == before.build_coverages@.push(delta.coverage),
        after.session_coverages@ == before.session_coverages@,
        before.packages@.is_prefix_of(after.packages@),
        0 <= i < before.profiles@.len() ==> after.profiles@[i] == before.profiles@[i],
        0 <= i < before.sites@.len() ==> after.sites@[i] == before.sites@[i],
        0 <= i < before.diagnostics@.len() ==> after.diagnostics@[i] == before.diagnostics@[i],
        0 <= i < delta.profiles@.len() ==> after.profiles@[before.profiles@.len() + i].id == delta.profiles@[i].id
            && after.profiles@[before.profiles@.len() + i].text == delta.profiles@[i].language,
        0 <= i < delta.sites@.len() ==> after.sites@[before.sites@.len() + i].id == delta.sites@[i].id
            && after.sites@[before.sites@.len() + i].text == delta.sites@[i].resolution_status,
        0 <= i < delta.diagnostics@.len() && i <= i64::MAX && depth <= i64::MAX ==> is_candidate_of(
            after.diagnostics@[before.diagnostics@.len() + i],
            delta.diagnostics@[i],
            1,
            depth as int,
            i,
        ),
{
    assert(after.packages@.subrange(0, before.packages@.len() as int) =~= before.packages@);
}

/// What a session brings goes into a summary after what is there: its profile with its language,
/// its sites with their resolutions, its coverage, and its diagnostics by their numbers.
pub proof fn sessions_are_summarized(
    before: SummaryRows,
    delta: crate::runtime_session::RuntimeSessionDelta,
    after: SummaryRows,
    i: int,
)
    requires
        crate::summary_rows::adds_session(before, delta, after),
    ensures
        after.profiles@.len() == before.profiles@.len() + 1,
        after.profiles@.last().id == delta.session.profile.id,
        after.profiles@.last().text == delta.session.profile.language,
        after.sites@.len() == before.sites@.len() + delta.sites@.len(),
        after.diagnostics@.len() == before.diagnostics@.len() + delta.diagnostics@.len(),
        after.build_coverages@ == before.build_coverages@,
        after.session_coverages@ == before.session_coverages@.push(delta.session.coverage),
        before.packages@.is_prefix_of(after.packages@),
        0 <= i < before.profiles@.len() ==> after.profiles@[i] == before.profiles@[i],
        0 <= i < before.sites@.len() ==> after.sites@[i] == before.sites@[i],
        0 <= i < before.diagnostics@.len() ==> after.diagnostics@[i] == before.diagnostics@[i],
        0 <= i < delta.sites@.len() ==> after.sites@[before.sites@.len() + i].id == delta.sites@[i].id
            && after.sites@[before.sites@.len() + i].text == delta.sites@[i].resolution_status,
        0 <= i < delta.diagnostics@.len() ==> is_candidate_of(
            after.diagnostics@[before.diagnostics@.len() + i],
            delta.diagnostics@[i],
            2,
            0,
            delta.diagnostics@[i].ordinal as int,
        ),
{
    assert(after.packages@.subrange(0, before.packages@.len() as int) =~= before.packages@);
}

/// The packages that a build or a session brings go into a summary.
pub proof fn packages_are_summarized(
    before: SummaryRows,
    depth: u64,
    delta: crate::records::BuildGraphDelta,
    after: SummaryRows,
    session: crate::runtime_session::RuntimeSessionDelta,
    later: SummaryRows,
    n: int,
)
    requires
        crate::summary_rows::adds_build(before, depth, delta, after),
        crate::summary_rows::adds_session(after, session, later),
    ensures
        0 <= n < delta.nodes@.len() && delta.nodes@[n].kind@ == "package_instance"@ ==> after.packages@.contains(
            delta.nodes@[n].id,
        ),
        0 <= n < session.nodes@.len() && session.nodes@[n].kind@ == "package_instance"@ ==> later.packages@.contains(
            session.nodes@[n].id,
        ),
{
    if 0 <= n < delta.nodes@.len() && delta.nodes@[n].kind@ == "package_instance"@ {
        let nodes = delta.nodes@;
        let keep = is_package(nodes);
        let item = |i: int| nodes[i].id;
        collect_holds_the_kept_items(nodes.len() as int, keep, item, nodes[n].id);
        assert(keep(n) && item(n) == nodes[n].id);
        let own = package_rows(nodes);
        let i = choose|i: int| 0 <= i < own.len() && own[i] == nodes[n].id;
        assert(after.packages@[before.packages@.len() + i] == nodes[n].id);
    }
    if 0 <= n < session.nodes@.len() && session.nodes@[n].kind@ == "package_instance"@ {
        let nodes = session.nodes@;
        let keep = is_package(nodes);
        let item = |i: int| nodes[i].id;
        collect_holds_the_kept_items(nodes.len() as int, keep, item, nodes[n].id);
        assert(keep(n) && item(n) == nodes[n].id);
        let own = package_rows(nodes);
        let i = choose|i: int| 0 <= i < own.len() && own[i] == nodes[n].id;
        assert(later.packages@[after.packages@.len() + i] == nodes[n].id);
    }
}

/// The sessions of a summary are those of the snapshot at the head of the chain, each once.
pub proof fn summaries_name_the_sessions(chain: &Vec<CompletedSnapshotRecord>, result: Vec<String>, id: Seq<char>)
    requires
        call_ensures(crate::summary_rows::summary_sessions, (chain,), result),
    ensures
        chain@.len() == 0 ==> result@.len() == 0,
        chain@.len() > 0 ==> (texts(result@).contains(id) <==> texts(chain@[0].runtime_session_ids@).contains(id)),
        texts(result@).no_duplicates(),
{
    ascending_lists_are_sets(texts(result@));
    if chain@.len() == 0 && result@.len() > 0 {
        assert(texts(result@).contains(texts(result@)[0]));
        assert(Seq::<Seq<char>>::empty().contains(texts(result@)[0]));
    }
}

/// Where diagnostics are told apart by their identities and their keys are short, each group that
/// is shown counts the diagnostics of its severity, code and adapter.
pub proof fn groups_count_their_diagnostics(
    candidates: Vec<DiagnosticCandidate>,
    summary: DiagnosticSummaryRecord,
    g: int,
)
    requires
        call_ensures(diagnostic_summary, (candidates,), summary),
        candidates@.len() <= usize::MAX,
        forall|i: int, j: int|
            0 <= i < j < candidates@.len() ==> (#[trigger] candidates@[i]).id@ != (#[trigger] candidates@[j]).id@,
        forall|i: int|
            0 <= i < candidates@.len() ==> byte_len((#[trigger] candidates@[i]).severity@) <= 128 && byte_len(
                candidates@[i].code@,
            ) <= 128 && (candidates@[i].adapter matches Some(adapter) ==> byte_len(adapter@) <= 128),
        0 <= g < summary.groups@.len(),
    ensures
        summary.groups@[g].count == candidates@.filter(
            |c: DiagnosticCandidate|
                c.severity@ == summary.groups@[g].severity@ && c.code@ == summary.groups@[g].code@ && opt_text(
                    c.adapter,
                ) == opt_text(summary.groups@[g].adapter),
        ).len(),
        summary.groups@[g].count > 0,
{
    let (effective, groups, sorted_groups, samples) = choose|
        effective: Seq<DiagnosticCandidate>,
        groups: Seq<crate::records::DiagnosticGroupSummaryRecord>,
        sorted_groups: Seq<crate::records::DiagnosticGroupSummaryRecord>,
        samples: Seq<DiagnosticCandidate>,
    |
        are_lowest::<DiagnosticCandidate>(views(candidates@), views(effective))
            && #[trigger] crate::diagnostic_summary::summarizes(effective, groups, sorted_groups, samples, summary);
    let models = views(candidates@);
    let all = views(effective);
    assert forall|i: int, j: int| 0 <= i < j < models.len() implies DiagnosticCandidate::identity(#[trigger] models[i])
        != DiagnosticCandidate::identity(#[trigger] models[j]) by {
        assert(candidates@[i].id@ != candidates@[j].id@);
    }
    rows_apart_amount_to_themselves::<DiagnosticCandidate>(models, all);
    let order = choose|order: Seq<usize>| #[trigger]
        crate::sort::is_rank_order(groups, order) && sorted_groups == Seq::new(
            order.len(),
            |i: int| groups[order[i] as int],
        );
    let at = order[g] as int;
    let group = sorted_groups[g];
    assert(group == groups[at]);
    let shown = summary.groups@[g];
    assert(crate::diagnostic_summary::is_shown_group(group, shown));
    let keep = crate::diagnostic_summary::in_group(all, group);
    let count = all.len() as int;
    assert(groups[at].count > 0);
    if forall|i: int| 0 <= i < count ==> !#[trigger] keep(i) {
        crate::order::count_of_nothing(count, keep);
    }
    let i = choose|i: int| 0 <= i < count && #[trigger] keep(i);
    assert(all.contains(all[i]));
    assert(models.contains(all[i]));
    let c = choose|c: int| 0 <= c < models.len() && models[c] == all[i];
    assert(models[c] == candidates@[c]@);
    crate::summary::short_texts_are_shown_whole(group.severity@, 128, shown.severity@);
    crate::summary::short_texts_are_shown_whole(group.code@, 128, shown.code@);
    if group.adapter is Some {
        crate::summary::short_texts_are_shown_whole(group.adapter->0@, 128, shown.adapter->0@);
    }
    let of = |m: crate::diagnostic_summary::DiagnosticCandidateModel|
        m.severity == shown.severity@ && m.code == shown.code@ && m.adapter == opt_text(shown.adapter);
    let wanted = |x: DiagnosticCandidate|
        x.severity@ == shown.severity@ && x.code@ == shown.code@ && opt_text(x.adapter) == opt_text(shown.adapter);
    kept_is_wanted(all, of, keep);
    same_items_count_alike(all, models, of);
    let position = |k: int| wanted(candidates@[k]);
    kept_is_wanted(candidates@, wanted, position);
    assert forall|k: int| 0 <= k < models.len() implies #[trigger] position(k) == of(models[k]) by {
        assert(models[k] == candidates@[k]@);
    }
    kept_is_wanted(models, of, position);
}

/// Larger groups are shown before smaller ones.
pub proof fn groups_are_shown_by_their_size(
    candidates: Vec<DiagnosticCandidate>,
    summary: DiagnosticSummaryRecord,
    g: int,
    h: int,
)
    requires
        call_ensures(diagnostic_summary, (candidates,), summary),
        0 <= g < h < summary.groups@.len(),
    ensures
        summary.groups@[g].count >= summary.groups@[h].count,
{
    let (effective, groups, sorted_groups, samples) = choose|
        effective: Seq<DiagnosticCandidate>,
        groups: Seq<crate::records::DiagnosticGroupSummaryRecord>,
        sorted_groups: Seq<crate::records::DiagnosticGroupSummaryRecord>,
        samples: Seq<DiagnosticCandidate>,
    |
        are_lowest::<DiagnosticCandidate>(views(candidates@), views(effective))
            && #[trigger] crate::diagnostic_summary::summarizes(effective, groups, sorted_groups, samples, summary);
    let order = choose|order: Seq<usize>| #[trigger]
        crate::sort::is_rank_order(groups, order) && sorted_groups == Seq::new(
            order.len(),
            |i: int| groups[order[i] as int],
        );
    assert(crate::sort::goes_before(groups, order[g] as int, order[h] as int));
    assert(crate::diagnostic_summary::is_shown_group(sorted_groups[g], summary.groups@[g]));
    assert(crate::diagnostic_summary::is_shown_group(sorted_groups[h], summary.groups@[h]));
}

/// Where diagnostics are told apart by their identities, a sample that is shown is one of them: what
/// it says begins what the diagnostic says.
pub proof fn samples_are_of_diagnostics(
    candidates: Vec<DiagnosticCandidate>,
    summary: DiagnosticSummaryRecord,
    s: int,
)
    requires
        call_ensures(diagnostic_summary, (candidates,), summary),
        candidates@.len() <= usize::MAX,
        forall|i: int, j: int|
            0 <= i < j < candidates@.len() ==> (#[trigger] candidates@[i]).id@ != (#[trigger] candidates@[j]).id@,
        0 <= s < summary.samples@.len(),
    ensures
        exists|c: int|
            0 <= c < candidates@.len() && summary.samples@[s].id@.is_prefix_of((#[trigger] candidates@[c]).id@)
                && summary.samples@[s].severity@.is_prefix_of(candidates@[c].severity@)
                && summary.samples@[s].code@.is_prefix_of(candidates@[c].code@)
                && summary.samples@[s].message@.is_prefix_of(candidates@[c].message@)
                && (summary.samples@[s].path is Some <==> candidates@[c].path is Some)
                && (summary.samples@[s].adapter is Some <==> candidates@[c].adapter is Some),
        byte_len(summary.samples@[s].id@) <= 128,
        byte_len(summary.samples@[s].message@) <= 240,
{
    let (effective, groups, sorted_groups, samples) = choose|
        effective: Seq<DiagnosticCandidate>,
        groups: Seq<crate::records::DiagnosticGroupSummaryRecord>,
        sorted_groups: Seq<crate::records::DiagnosticGroupSummaryRecord>,
        samples: Seq<DiagnosticCandidate>,
    |
        are_lowest::<DiagnosticCandidate>(views(candidates@), views(effective))
            && #[trigger] crate::diagnostic_summary::summarizes(effective, groups, sorted_groups, samples, summary);
    let models = views(candidates@);
    let all = views(effective);
    assert forall|i: int, j: int| 0 <= i < j < models.len() implies DiagnosticCandidate::identity(#[trigger] models[i])
        != DiagnosticCandidate::identity(#[trigger] models[j]) by {
        assert(candidates@[i].id@ != candidates@[j].id@);
    }
    rows_apart_amount_to_themselves::<DiagnosticCandidate>(models, all);
    assert(all.len() == effective.len());
    let order = choose|order: Seq<usize>| #[trigger]
        crate::sort::is_rank_order(effective, order) && samples == Seq::new(
            order.len(),
            |i: int| effective[order[i] as int],
        );
    let at = order[s] as int;
    let source = samples[s];
    assert(source == effective[at]);
    assert(all[at] == source@);
    assert(all.contains(all[at]));
    assert(models.contains(all[at]));
    let c = choose|c: int| 0 <= c < models.len() && models[c] == all[at];
    assert(models[c] == candidates@[c]@);
    let shown = summary.samples@[s];
    assert(crate::diagnostic_summary::is_shown_sample(source, shown));
    assert(shown.id@.is_prefix_of(candidates@[c].id@));
}

proof fn the_lowest_text_is_lowest(rows: Seq<IdTextModel>, id: Seq<char>, count: int)
    requires
        0 <= count <= rows.len(),
    ensures
        match lowest::<IdText>(rows, id, count) {
            Some(row) => row.id == id && (exists|i: int|
                0 <= i < count && (#[trigger] rows[i]).id == id && rows[i].text == row.text) && (forall|j: int|
                0 <= j < count && (#[trigger] rows[j]).id == id ==> !text_lt(rows[j].text, row.text)),
            None => forall|j: int| 0 <= j < count ==> (#[trigger] rows[j]).id != id,
        },
    decreases count,
{
    if count > 0 {
        the_lowest_text_is_lowest(rows, id, count - 1);
        let earlier = lowest::<IdText>(rows, id, count - 1);
        let last = rows[count - 1];
        text_lt_irreflexive(last.text);
        if last.id == id {
            if let Some(row) = earlier {
                let now = lowest::<IdText>(rows, id, count)->0;
                let i = choose|i: int| 0 <= i < count - 1 && (#[trigger] rows[i]).id == id && rows[i].text == row.text;
                assert(rows[i].id == id);
                text_lt_irreflexive(row.text);
                text_lt_total(row.text, last.text);
                assert forall|j: int| 0 <= j < count && (#[trigger] rows[j]).id == id implies !text_lt(
                    rows[j].text,
                    now.text,
                ) by {
                    if j < count - 1 {
                        assert(!text_lt(rows[j].text, row.text));
                        if text_lt(rows[j].text, now.text) && now.text != row.text {
                            text_lt_transitive(rows[j].text, last.text, row.text);
                        }
                    }
                }
                assert(rows[count - 1].id == id);
            } else {
                assert(rows[count - 1].id == id && rows[count - 1].text == last.text);
            }
        } else if let Some(row) = earlier {
            let i = choose|i: int| 0 <= i < count - 1 && (#[trigger] rows[i]).id == id && rows[i].text == row.text;
            assert(rows[i].id == id);
        }
    }
}

/// Of what several layers say of one identity, the text that stands first is taken.
pub proof fn the_first_text_of_an_identity_is_taken(rows: Vec<IdText>, result: Vec<IdText>, k: int, j: int)
    requires
        call_ensures(crate::summary::lowest_by_id::<IdText>, (rows,), result),
        0 <= k < result@.len(),
    ensures
        exists|i: int|
            0 <= i < rows@.len() && (#[trigger] rows@[i]).id@ == result@[k].id@ && rows@[i].text@ == result@[k].text@,
        0 <= j < rows@.len() && rows@[j].id@ == result@[k].id@ ==> !text_lt(rows@[j].text@, result@[k].text@),
        0 <= j < rows@.len() ==> exists|r: int| 0 <= r < result@.len() && (#[trigger] result@[r]).id@ == rows@[j].id@,
{
    let models = views(rows@);
    let taken = views(result@);
    assert(taken[k] == result@[k]@);
    assert(lowest::<IdText>(models, IdText::identity(taken[k]), models.len() as int) == Some(taken[k]));
    the_lowest_text_is_lowest(models, result@[k].id@, models.len() as int);
    let i = choose|i: int|
        0 <= i < models.len() && (#[trigger] models[i]).id == result@[k].id@ && models[i].text == result@[k].text@;
    assert(models[i] == rows@[i]@);
    assert(rows@[i].id@ == result@[k].id@);
    if 0 <= j < rows@.len() {
        assert(models[j] == rows@[j]@);
        let all = row_ids::<IdText>(models);
        let ids = row_ids::<IdText>(taken);
        assert(all[j] == rows@[j].id@);
        assert(all.contains(all[j]));
        assert(ids.contains(all[j]));
        let r = choose|r: int| 0 <= r < ids.len() && ids[r] == all[j];
        assert(taken[r] == result@[r]@);
        assert(result@[r].id@ == rows@[j].id@);
    }
}

/// The summary of an attempt counts the profiles that its rows name, each once, and each language
/// that they have.
pub proof fn attempts_count_their_profiles(
    scan: ScanRecord,
    stored: Option<CoverageRecord>,
    rows: SummaryRows,
    files: &Vec<FileCoverageRecord>,
    logs: Vec<AdapterLogRecord>,
    summary: ScanAttemptSummaryRecord,
)
    requires
        call_ensures(scan_attempt_summary, (scan, stored, rows, files, logs), Ok(summary)),
    ensures
        summary.profile_count == Seq::new(rows.profiles@.len(), |i: int| rows.profiles@[i].id@).to_set().len(),
        summary.diagnostics.total == Seq::new(
            rows.diagnostics@.len(),
            |i: int| rows.diagnostics@[i].id@,
        ).to_set().len(),
        summary.coverage.dependency_sites == Seq::new(
            rows.sites@.len(),
            |i: int| rows.sites@[i].id@,
        ).to_set().len(),
        summary.adapter_logs@.len() == logs@.len(),
{
    let lowest = choose|lowest: Seq<IdTextModel>| #[trigger]
        are_lowest::<IdText>(views(rows.profiles@), lowest) && summary.profile_count == lowest.len()
            && crate::summary::are_counts(texts_of(lowest), summary.profiles_by_language@);
    lowest_are_each_once(rows.profiles@, lowest);
    let sites = choose|sites: SiteSummary| #[trigger]
        crate::summary::is_effective_site_summary(rows.sites@, sites) && summary.coverage@
            == crate::summary::summary_coverage_of(
            stored,
            scan.project_code_executed,
            rows.build_coverages@,
            rows.session_coverages@,
            summary.profile_count,
            sites,
        );
    let statuses = choose|statuses: Seq<IdTextModel>| #[trigger]
        are_lowest::<IdText>(views(rows.sites@), statuses) && crate::summary::is_site_summary(
            texts_of(statuses),
            sites,
        );
    lowest_are_each_once(rows.sites@, statuses);
    let (effective, groups, sorted_groups, samples) = choose|
        effective: Seq<DiagnosticCandidate>,
        groups: Seq<crate::records::DiagnosticGroupSummaryRecord>,
        sorted_groups: Seq<crate::records::DiagnosticGroupSummaryRecord>,
        samples: Seq<DiagnosticCandidate>,
    |
        are_lowest::<DiagnosticCandidate>(views(rows.diagnostics@), views(effective))
            && #[trigger] crate::diagnostic_summary::summarizes(
            effective,
            groups,
            sorted_groups,
            samples,
            summary.diagnostics,
        );
    let ids = row_ids::<DiagnosticCandidate>(views(effective));
    let all = row_ids::<DiagnosticCandidate>(views(rows.diagnostics@));
    assert(all =~= Seq::new(rows.diagnostics@.len(), |i: int| rows.diagnostics@[i].id@));
    ascending_lists_are_sets(ids);
    assert(ids.to_set() =~= all.to_set()) by {
        assert forall|x: Seq<char>| ids.to_set().contains(x) <==> all.to_set().contains(x) by {
            assert(ids.contains(x) <==> all.contains(x));
        }
    }
    assert(ids.len() == effective.len());
}

proof fn lowest_are_each_once(rows: Seq<IdText>, lowest: Seq<IdTextModel>)
    requires
        are_lowest::<IdText>(views(rows), lowest),
    ensures
        lowest.len() == Seq::new(rows.len(), |i: int| rows[i].id@).to_set().len(),
{
    let ids = row_ids::<IdText>(lowest);
    let all = row_ids::<IdText>(views(rows));
    assert(all =~= Seq::new(rows.len(), |i: int| rows[i].id@));
    ascending_lists_are_sets(ids);
    assert(ids.to_set() =~= all.to_set()) by {
        assert forall|x: Seq<char>| ids.to_set().contains(x) <==> all.to_set().contains(x) by {
            assert(ids.contains(x) <==> all.contains(x));
        }
    }
}

/// Where diagnostics are told apart by their identities and their keys are short, a summary that
/// leaves out no group has one for each of them.
pub proof fn diagnostics_have_their_group(
    candidates: Vec<DiagnosticCandidate>,
    summary: DiagnosticSummaryRecord,
    c: int,
)
    requires
        call_ensures(diagnostic_summary, (candidates,), summary),
        candidates@.len() <= usize::MAX,
        forall|i: int, j: int|
            0 <= i < j < candidates@.len() ==> (#[trigger] candidates@[i]).id@ != (#[trigger] candidates@[j]).id@,
        forall|i: int|
            0 <= i < candidates@.len() ==> byte_len((#[trigger] candidates@[i]).severity@) <= 128 && byte_len(
                candidates@[i].code@,
            ) <= 128 && (candidates@[i].adapter matches Some(adapter) ==> byte_len(adapter@) <= 128),
        summary.omitted_groups == 0,
        0 <= c < candidates@.len(),
    ensures
        exists|g: int|
            0 <= g < summary.groups@.len() && (#[trigger] summary.groups@[g]).severity@ == candidates@[c].severity@
                && summary.groups@[g].code@ == candidates@[c].code@ && opt_text(summary.groups@[g].adapter)
                == opt_text(candidates@[c].adapter),
{
    let (effective, groups, sorted_groups, samples) = choose|
        effective: Seq<DiagnosticCandidate>,
        groups: Seq<crate::records::DiagnosticGroupSummaryRecord>,
        sorted_groups: Seq<crate::records::DiagnosticGroupSummaryRecord>,
        samples: Seq<DiagnosticCandidate>,
    |
        are_lowest::<DiagnosticCandidate>(views(candidates@), views(effective))
            && #[trigger] crate::diagnostic_summary::summarizes(effective, groups, sorted_groups, samples, summary);
    let models = views(candidates@);
    let all = views(effective);
    assert forall|i: int, j: int| 0 <= i < j < models.len() implies DiagnosticCandidate::identity(#[trigger] models[i])
        != DiagnosticCandidate::identity(#[trigger] models[j]) by {
        assert(candidates@[i].id@ != candidates@[j].id@);
    }
    rows_apart_amount_to_themselves::<DiagnosticCandidate>(models, all);
    assert(models[c] == candidates@[c]@);
    assert(models.contains(models[c]));
    assert(all.contains(models[c]));
    let i = choose|i: int| 0 <= i < all.len() && all[i] == models[c];
    assert(crate::diagnostic_summary::has_group(groups, all[i]));
    let h = choose|h: int| 0 <= h < groups.len() && crate::diagnostic_summary::belongs_to(all[i], #[trigger] groups[h]);
    let order = choose|order: Seq<usize>| #[trigger]
        crate::sort::is_rank_order(groups, order) && sorted_groups == Seq::new(
            order.len(),
            |k: int| groups[order[k] as int],
        );
    assert(groups.len() <= usize::MAX);
    assert(order.contains(h as usize));
    let g = choose|g: int| 0 <= g < order.len() && order[g] == h as usize;
    let group = sorted_groups[g];
    assert(group == groups[h]);
    assert(summary.groups@.len() == sorted_groups.len());
    let shown = summary.groups@[g];
    assert(crate::diagnostic_summary::is_shown_group(group, shown));
    crate::summary::short_texts_are_shown_whole(group.severity@, 128, shown.severity@);
    crate::summary::short_texts_are_shown_whole(group.code@, 128, shown.code@);
    if group.adapter is Some {
        crate::summary::short_texts_are_shown_whole(group.adapter->0@, 128, shown.adapter->0@);
    }
}

} // verus!

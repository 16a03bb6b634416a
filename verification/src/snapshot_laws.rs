//! What names, selectors, ends of scans, collections and recoveries do to snapshots and attempts.

use vstd::prelude::*;

use crate::order::{collect_holds_the_kept_items, first_kept, first_kept_is_first};
use crate::records::{CompletedSnapshotRecord, ValidatedScan};
use crate::snapshots::{
    attempt_at, audit_is_garbage, backfill_current, build_at, build_completed, build_is_garbage,
    build_is_kept, build_snapshot_source, check_created_snapshot, check_finish_request, check_name_free,
    check_name_target, check_promotable, check_source_kind, check_still_validated, completed_builds,
    completed_scans, ensure_scan_staging, finish_scan_plan, is_collection, is_interrupted, kept_audits,
    kept_bases, load_choice, page_bounds, promotes_over, resolve_completed_snapshot_selector, resolve_scan_id,
    run_at, scan_at, scan_completed, scan_is_garbage, scan_snapshot_source, snapshot_record, takes_name,
    validate_snapshot_name, validated_scan, Collection, CollectionRows, DeltaEnd, FinishPlan, LoadChoice,
    ScanState, SnapshotError, SnapshotSource, UnsealedBuild, UnsealedScan, AttemptRow, are_interrupted,
};
use crate::text::{opt_text, texts, upper_char, upper_text};

verus! {

/// Whether two texts differ in no more than the case of letters.
pub open spec fn is_written_as(text: Seq<char>, upper: Seq<char>, lower: Seq<char>) -> bool {
    text.len() == upper.len() && forall|i: int|
        0 <= i < text.len() ==> #[trigger] text[i] == upper[i] || text[i] == lower[i]
}

proof fn reserved_words_are_found(name: Seq<char>)
    ensures
        is_written_as(name, "CURRENT"@, "current"@) ==> upper_text(name) == "CURRENT"@,
        is_written_as(name, "LATEST"@, "latest"@) ==> upper_text(name) == "LATEST"@,
{
    reveal_strlit("CURRENT");
    reveal_strlit("current");
    reveal_strlit("LATEST");
    reveal_strlit("latest");
    if is_written_as(name, "CURRENT"@, "current"@) {
        assert forall|i: int| 0 <= i < 7 implies upper_char(#[trigger] name[i]) == "CURRENT"@[i] by {
            assert(i == 0 || i == 1 || i == 2 || i == 3 || i == 4 || i == 5 || i == 6);
        }
        assert(upper_text(name) =~= "CURRENT"@);
    }
    if is_written_as(name, "LATEST"@, "latest"@) {
        assert forall|i: int| 0 <= i < 6 implies upper_char(#[trigger] name[i]) == "LATEST"@[i] by {
            assert(i == 0 || i == 1 || i == 2 || i == 3 || i == 4 || i == 5);
        }
        assert(upper_text(name) =~= "LATEST"@);
    }
}

/// A name is accepted only where it begins with a letter or a digit, goes on with letters, digits,
/// dots, underscores and hyphens, and is neither "current" nor "latest" in any case of letters.
pub proof fn accepted_names_are_plain(name: &str, result: Result<(), SnapshotError>)
    requires
        call_ensures(validate_snapshot_name, (name,), result),
        result is Ok,
    ensures
        name@.len() > 0,
        crate::text::byte_len(name@) <= 64,
        ('a' <= name@[0] <= 'z') || ('A' <= name@[0] <= 'Z') || ('0' <= name@[0] <= '9'),
        forall|i: int|
            0 <= i < name@.len() ==> ('a' <= #[trigger] name@[i] <= 'z') || ('A' <= name@[i] <= 'Z') || ('0' <= name@[i]
                <= '9') || name@[i] == '.' || name@[i] == '_' || name@[i] == '-',
        !is_written_as(name@, "CURRENT"@, "current"@),
        !is_written_as(name@, "LATEST"@, "latest"@),
{
    reserved_words_are_found(name@);
}

/// An empty name, one that is too long, one that is reserved and one with a character that no name
/// has are each refused for what is wrong with them.
pub proof fn refused_names_are_told_why(name: &str, result: Result<(), SnapshotError>)
    requires
        call_ensures(validate_snapshot_name, (name,), result),
    ensures
        result == Err::<(), _>(SnapshotError::NameEmpty) <==> name@.len() == 0,
        result == Err::<(), _>(SnapshotError::NameTooLong) <==> name@.len() > 0 && crate::text::byte_len(name@) > 64,
        is_written_as(name@, "CURRENT"@, "current"@) && vstd::utf8::is_ascii_chars(name@) && crate::text::byte_len(
            name@,
        ) <= 64 ==> result == Err::<(), _>(SnapshotError::NameReserved),
        is_written_as(name@, "LATEST"@, "latest"@) && vstd::utf8::is_ascii_chars(name@) && crate::text::byte_len(name@)
            <= 64 ==> result == Err::<(), _>(SnapshotError::NameReserved),
{
    reserved_words_are_found(name@);
    reveal_strlit("CURRENT");
    reveal_strlit("LATEST");
}

/// A name can be given exactly to a completed snapshot whose integrity is valid.
pub proof fn names_are_given_to_valid_snapshots(
    snapshot: Option<&CompletedSnapshotRecord>,
    integrity_valid: bool,
    result: Result<(), SnapshotError>,
)
    requires
        call_ensures(check_name_target, (snapshot, integrity_valid), result),
    ensures
        result is Ok <==> snapshot is Some && snapshot->0.status@ == "completed"@ && integrity_valid,
        result == Err::<(), _>(SnapshotError::NotFound) <==> snapshot is None,
        result == Err::<(), _>(SnapshotError::NotValid) <==> snapshot is Some && snapshot->0.status@ == "completed"@
            && !integrity_valid,
{
}

/// A name is free exactly where no name differs from it in no more than the case of letters;
/// otherwise the first such name takes it.
pub proof fn names_are_free_whatever_their_case(names: &Vec<String>, name: &str, result: Result<(), SnapshotError>)
    requires
        call_ensures(check_name_free, (names, name), result),
    ensures
        result is Ok <==> forall|i: int|
            0 <= i < names@.len() ==> upper_text((#[trigger] names@[i])@) != upper_text(name@),
        result matches Err(error) ==> error matches SnapshotError::NameTaken { at } && at < names@.len() && upper_text(
            names@[at as int]@,
        ) == upper_text(name@),
{
    let keep = takes_name(names@, name@);
    first_kept_is_first(names@.len() as int, keep);
    if let Some(i) = first_kept(names@.len() as int, keep) {
        assert(keep(i));
        assert(upper_text(names@[i]@) == upper_text(name@));
    } else {
        assert forall|i: int| 0 <= i < names@.len() implies upper_text((#[trigger] names@[i])@) != upper_text(
            name@,
        ) by {
            assert(!keep(i));
        }
    }
}

/// The word for the current snapshot selects it in any case of letters, whatever else has the
/// word for its identity or name.
pub proof fn the_current_snapshot_is_selected(
    selector: &str,
    current: Option<&str>,
    by_id: Option<&str>,
    by_name: Option<&str>,
    result: Result<String, SnapshotError>,
)
    requires
        call_ensures(resolve_completed_snapshot_selector, (selector, current, by_id, by_name), result),
        is_written_as(selector@, "CURRENT"@, "current"@),
    ensures
        current matches Some(id) ==> result is Ok && result->Ok_0@ == id@,
        current is None ==> result == Err::<String, _>(SnapshotError::NoCurrentSnapshot),
{
    reserved_words_are_found(selector@);
    reveal_strlit("CURRENT");
    reveal_strlit("current");
    assert(selector@[0] == 'C' || selector@[0] == 'c');
    assert(!crate::text::is_space_char(selector@[0]));
}

/// What a selector that is not reserved selects is the snapshot with the identity or with the name,
/// or both where they are one; nothing is selected where they are two or none.
pub proof fn selectors_find_identities_and_names(
    selector: &str,
    current: Option<&str>,
    by_id: Option<&str>,
    by_name: Option<&str>,
    result: Result<String, SnapshotError>,
)
    requires
        call_ensures(resolve_completed_snapshot_selector, (selector, current, by_id, by_name), result),
        upper_text(selector@) != "CURRENT"@,
        upper_text(selector@) != "LATEST"@,
        exists|i: int| 0 <= i < selector@.len() && !crate::text::is_space_char(#[trigger] selector@[i]),
    ensures
        by_id is None && by_name is None ==> result == Err::<String, _>(SnapshotError::SelectorNotFound),
        by_id is Some && by_name is None ==> result is Ok && result->Ok_0@ == by_id->0@,
        by_id is None && by_name is Some ==> result is Ok && result->Ok_0@ == by_name->0@,
        by_id is Some && by_name is Some && by_id->0@ == by_name->0@ ==> result is Ok && result->Ok_0@ == by_id->0@,
        by_id is Some && by_name is Some && by_id->0@ != by_name->0@ ==> result == Err::<String, _>(
            SnapshotError::SelectorAmbiguous,
        ),
{
}

/// Snapshots come from scans, builds and runtime sessions.
pub proof fn snapshots_have_three_kinds_of_source(kind: &str, result: Result<(), SnapshotError>)
    requires
        call_ensures(check_source_kind, (kind,), result),
    ensures
        result is Ok <==> kind@ == "scan"@ || kind@ == "build"@ || kind@ == "runtime"@,
{
}

/// The bounds of a page are those that were asked for.
pub proof fn page_bounds_are_those_asked_for(
    offset: usize,
    limit: usize,
    result: Result<(i64, i64), SnapshotError>,
)
    requires
        call_ensures(page_bounds, (offset, limit), result),
    ensures
        result matches Ok((first, count)) ==> first == offset && count == limit && limit > 0,
        result is Ok <==> 0 < limit <= 0x7fff_ffff_ffff_ffff && offset <= 0x7fff_ffff_ffff_ffff,
        limit == 0 <==> result == Err::<(i64, i64), _>(SnapshotError::PageEmpty),
{
}

/// A stored snapshot is accepted for a source only where it has the parent, the revision, the
/// profiles, the import and the sessions of the source and is completed.
pub proof fn created_snapshots_are_those_of_their_source(
    stored: &CompletedSnapshotRecord,
    source: &SnapshotSource,
    profile_ids: &Vec<String>,
    result: Result<(), SnapshotError>,
)
    requires
        call_ensures(check_created_snapshot, (Some(stored), source, profile_ids), result),
    ensures
        result is Ok <==> {
            &&& opt_text(stored.parent_snapshot_id) == opt_text(source.parent_snapshot_id)
            &&& opt_text(stored.source_revision) == opt_text(source.source_revision)
            &&& opt_text(stored.runtime_import_id) == opt_text(source.runtime_import_id)
            &&& texts(stored.runtime_session_ids@) == texts(source.runtime_session_ids@)
            &&& texts(stored.profile_ids@) == texts(profile_ids@)
            &&& stored.status@ == "completed"@
        },
{
}

/// The record of a snapshot holds what its source holds, under the identity of the snapshot, and
/// is completed.
pub proof fn records_hold_their_source(
    source: &SnapshotSource,
    snapshot_id: &str,
    profile_ids: &Vec<String>,
    record: CompletedSnapshotRecord,
)
    requires
        call_ensures(snapshot_record, (source, snapshot_id, profile_ids), record),
    ensures
        record.id@ == snapshot_id@,
        record.source_kind@ == source.source_kind@,
        record.source_attempt_id@ == source.source_attempt_id@,
        record.scan_id@ == source.scan_id@,
        opt_text(record.build_attempt_id) == opt_text(source.build_attempt_id),
        opt_text(record.runtime_import_id) == opt_text(source.runtime_import_id),
        texts(record.runtime_session_ids@) == texts(source.runtime_session_ids@),
        opt_text(record.parent_snapshot_id) == opt_text(source.parent_snapshot_id),
        opt_text(record.source_revision) == opt_text(source.source_revision),
        texts(record.profile_ids@) == texts(profile_ids@),
        record.status@ == "completed"@,
        record.created_at@ == source.created_at@,
{
}

/// Only a completed snapshot can be promoted.
pub proof fn only_completed_snapshots_are_promoted(status: Option<&str>, result: Result<(), SnapshotError>)
    requires
        call_ensures(check_promotable, (status,), result),
    ensures
        result is Ok <==> status is Some && status->0@ == "completed"@,
        result == Err::<(), _>(SnapshotError::NotFound) <==> status is None,
{
}

/// A promotion takes the place of the snapshot that it was made for, and of no other.
pub proof fn promotions_take_the_expected_place(current: Option<&str>, expected: Option<&str>, result: bool)
    requires
        call_ensures(promotes_over, (current, expected), result),
    ensures
        current is None && expected is None ==> result,
        current is Some && expected is Some ==> (result <==> current->0@ == expected->0@),
        current is Some && expected is None ==> !result,
        current is None && expected is Some ==> !result,
{
}

/// A scan ends in one of six ways, and only a completed one is promoted.
pub proof fn scans_end_in_six_ways(status: &str, promote: bool, result: Result<(), SnapshotError>)
    requires
        call_ensures(check_finish_request, (status, promote), result),
    ensures
        ({
            let known = status@ == "completed"@ || status@ == "partial"@ || status@ == "failed"@ || status@
                == "cancelled"@ || status@ == "policy_failed"@ || status@ == "security_failed"@;
            &&& result is Ok <==> known && (promote ==> status@ == "completed"@)
            &&& result == Err::<(), _>(SnapshotError::StatusInvalid) <==> !known
        }),
{
}

/// Only a scan that is staging can change.
pub proof fn only_staging_scans_change(status: Option<&str>, result: Result<(), SnapshotError>)
    requires
        call_ensures(ensure_scan_staging, (status,), result),
    ensures
        result is Ok <==> status is Some && status->0@ == "staging"@,
        result == Err::<(), _>(SnapshotError::ScanNotStarted) <==> status is None,
{
}

/// A scan is finished exactly where it is staging, has no delta left to apply where it completes,
/// has not changed since it was validated, and executed no project code where it is promoted.
pub proof fn scans_are_finished_as_they_were_validated(
    state: &ScanState,
    status: &str,
    promote: bool,
    validated_mutation_count: Option<i64>,
    result: Result<FinishPlan, SnapshotError>,
)
    requires
        call_ensures(finish_scan_plan, (Some(state), status, promote, validated_mutation_count), result),
    ensures
        result is Ok <==> {
            &&& state.status@ == "staging"@
            &&& status@ == "completed"@ ==> state.unapplied_deltas == 0
            &&& validated_mutation_count is Some ==> validated_mutation_count->0 == state.mutation_count
            &&& promote ==> !state.project_code_executed
        },
        result matches Err(SnapshotError::DeltasNotApplied { count }) ==> count == state.unapplied_deltas,
        state.status@ != "staging"@ ==> result == Err::<FinishPlan, _>(SnapshotError::ScanImmutable),
{
}

/// A completed scan becomes a snapshot and keeps its deltas and its staging; a cancelled scan
/// cancels its deltas and keeps its staging for the acknowledgement; every other end fails the
/// deltas and releases the staging.
pub proof fn ends_of_scans_decide_their_deltas(
    state: Option<&ScanState>,
    status: &str,
    promote: bool,
    validated_mutation_count: Option<i64>,
    result: Result<FinishPlan, SnapshotError>,
)
    requires
        call_ensures(finish_scan_plan, (state, status, promote, validated_mutation_count), result),
        result is Ok,
    ensures
        result->Ok_0.create_snapshot <==> status@ == "completed"@,
        status@ == "completed"@ ==> result->Ok_0.delta_end is None && !result->Ok_0.release_staging,
        status@ == "cancelled"@ ==> result->Ok_0.delta_end == Some(DeltaEnd::Cancelled)
            && !result->Ok_0.release_staging,
        status@ != "completed"@ && status@ != "cancelled"@ ==> result->Ok_0.delta_end == Some(DeltaEnd::Failed)
            && result->Ok_0.release_staging,
{
    reveal_strlit("completed");
    reveal_strlit("cancelled");
    assert("completed"@[1] == 'o' && "cancelled"@[1] == 'a');
}

/// A validation is of the changes that the scan had, and stands as long as the scan is staging and
/// has had no other.
pub proof fn validations_stand_until_a_change(
    scan_id: &str,
    before: &ScanState,
    validated: ValidatedScan,
    after: &ScanState,
    result: Result<(), SnapshotError>,
)
    requires
        call_ensures(validated_scan, (scan_id, Some(before)), Ok(validated)),
        call_ensures(check_still_validated, (&validated, Some(after)), result),
    ensures
        validated.scan_id@ == scan_id@,
        before.status@ == "staging"@,
        result is Ok <==> after.status@ == "staging"@ && after.mutation_count == before.mutation_count,
{
}

/// A scan that is asked for is found where it exists; where none is asked for, the latest attempt
/// or the latest success is.
pub proof fn scans_are_found(
    requested: Option<&str>,
    requested_exists: bool,
    latest_attempt: bool,
    latest_attempt_id: Option<&str>,
    latest_successful_id: Option<&str>,
    result: Result<String, SnapshotError>,
)
    requires
        call_ensures(
            resolve_scan_id,
            (requested, requested_exists, latest_attempt, latest_attempt_id, latest_successful_id),
            result,
        ),
    ensures
        requested is Some && requested_exists ==> result is Ok && result->Ok_0@ == requested->0@,
        requested is Some && !requested_exists ==> result == Err::<String, _>(SnapshotError::ScanNotFound),
        requested is None && latest_attempt && latest_attempt_id is Some ==> result is Ok && result->Ok_0@
            == latest_attempt_id->0@,
        requested is None && !latest_attempt && latest_successful_id is Some ==> result is Ok && result->Ok_0@
            == latest_successful_id->0@,
        requested is None && latest_attempt && latest_attempt_id is None ==> result == Err::<String, _>(
            SnapshotError::NoMatchingScan,
        ),
        requested is None && !latest_attempt && latest_successful_id is None ==> result == Err::<String, _>(
            SnapshotError::NoMatchingScan,
        ),
{
}

/// What is loaded under an identity is the snapshot with it, or else the snapshot that a completed
/// scan selects, or else the rows of the scan.
pub proof fn loads_prefer_snapshots(
    is_snapshot: bool,
    scan_status: Option<&str>,
    selection: Option<String>,
    result: LoadChoice,
)
    requires
        call_ensures(load_choice, (is_snapshot, scan_status, selection), result),
    ensures
        result == LoadChoice::Snapshot <==> is_snapshot,
        !is_snapshot && scan_status is Some && scan_status->0@ == "completed"@ && selection is Some ==> result
            == LoadChoice::Selected(selection->0),
        !is_snapshot && (scan_status is None || scan_status->0@ != "completed"@ || selection is None) ==> result
            == LoadChoice::Scan,
{
}

/// Whether a build is still needed: it is staging, a snapshot comes from it, or it is current.
pub open spec fn build_is_needed(rows: CollectionRows, b: int) -> bool {
    rows.builds@[b].status@ == "staging"@ || texts(rows.build_sources@).contains(rows.builds@[b].id@) || texts(
        rows.current_builds@,
    ).contains(rows.builds@[b].id@)
}

/// A collection deletes exactly the builds that are not staging, that no snapshot comes from and
/// that are not current.
pub proof fn collections_delete_unneeded_builds(rows: CollectionRows, collection: Collection, id: Seq<char>)
    requires
        is_collection(rows, collection),
    ensures
        texts(collection.builds@).contains(id) <==> exists|b: int|
            0 <= b < rows.builds@.len() && (#[trigger] rows.builds@[b]).id@ == id && !build_is_needed(rows, b),
{
    let keep = build_is_garbage(rows);
    let count = rows.builds@.len() as int;
    collect_holds_the_kept_items(count, keep, build_at(rows), id);
    if exists|i: int| 0 <= i < count && #[trigger] keep(i) && build_at(rows)(i) == id {
        let i = choose|i: int| 0 <= i < count && #[trigger] keep(i) && build_at(rows)(i) == id;
        assert(rows.builds@[i].id@ == id && !build_is_needed(rows, i));
    }
    if exists|b: int| 0 <= b < count && (#[trigger] rows.builds@[b]).id@ == id && !build_is_needed(rows, b) {
        let b = choose|b: int| 0 <= b < count && (#[trigger] rows.builds@[b]).id@ == id && !build_is_needed(rows, b);
        assert(keep(b) && build_at(rows)(b) == id);
    }
}

proof fn needed_builds_keep_their_scans(rows: CollectionRows, id: Seq<char>)
    ensures
        kept_bases(rows).contains(id) <==> exists|b: int|
            0 <= b < rows.builds@.len() && (#[trigger] rows.builds@[b]).base_scan_id@ == id && build_is_needed(rows, b),
        kept_audits(rows).contains(id) <==> exists|b: int|
            0 <= b < rows.builds@.len() && (#[trigger] rows.builds@[b]).audit_run_id@ == id && build_is_needed(rows, b),
{
    let keep = build_is_kept(rows);
    let count = rows.builds@.len() as int;
    let base = crate::snapshots::base_at(rows);
    let audit = crate::snapshots::audit_at(rows);
    collect_holds_the_kept_items(count, keep, base, id);
    collect_holds_the_kept_items(count, keep, audit, id);
    if exists|i: int| 0 <= i < count && #[trigger] keep(i) && base(i) == id {
        let i = choose|i: int| 0 <= i < count && #[trigger] keep(i) && base(i) == id;
        assert(rows.builds@[i].base_scan_id@ == id && build_is_needed(rows, i));
    }
    if exists|i: int| 0 <= i < count && #[trigger] keep(i) && audit(i) == id {
        let i = choose|i: int| 0 <= i < count && #[trigger] keep(i) && audit(i) == id;
        assert(rows.builds@[i].audit_run_id@ == id && build_is_needed(rows, i));
    }
    if exists|b: int| 0 <= b < count && (#[trigger] rows.builds@[b]).base_scan_id@ == id && build_is_needed(rows, b) {
        let b = choose|b: int|
            0 <= b < count && (#[trigger] rows.builds@[b]).base_scan_id@ == id && build_is_needed(rows, b);
        assert(keep(b) && base(b) == id);
    }
    if exists|b: int| 0 <= b < count && (#[trigger] rows.builds@[b]).audit_run_id@ == id && build_is_needed(rows, b) {
        let b = choose|b: int|
            0 <= b < count && (#[trigger] rows.builds@[b]).audit_run_id@ == id && build_is_needed(rows, b);
        assert(keep(b) && audit(b) == id);
    }
}

/// A collection deletes exactly the audits of no build that is needed, and exactly the scans that
/// are not staging, that no snapshot comes from, that are not current, that no operation owns and
/// on which no build that is needed rests.
pub proof fn collections_delete_unneeded_scans_and_audits(
    rows: CollectionRows,
    collection: Collection,
    id: Seq<char>,
)
    requires
        is_collection(rows, collection),
    ensures
        texts(collection.audits@).contains(id) <==> texts(rows.audits@).contains(id) && !(exists|b: int|
            0 <= b < rows.builds@.len() && (#[trigger] rows.builds@[b]).audit_run_id@ == id && build_is_needed(
                rows,
                b,
            )),
        texts(collection.scans@).contains(id) <==> (exists|s: int|
            0 <= s < rows.scans@.len() && (#[trigger] rows.scans@[s]).id@ == id && rows.scans@[s].status@
                != "staging"@) && !texts(rows.scan_sources@).contains(id) && !texts(rows.current_scans@).contains(id)
            && !texts(rows.owned_scans@).contains(id) && !(exists|b: int|
            0 <= b < rows.builds@.len() && (#[trigger] rows.builds@[b]).base_scan_id@ == id && build_is_needed(
                rows,
                b,
            )),
{
    needed_builds_keep_their_scans(rows, id);
    let scans = scan_is_garbage(rows);
    let audits = audit_is_garbage(rows);
    let n = rows.scans@.len() as int;
    let m = rows.audits@.len() as int;
    collect_holds_the_kept_items(n, scans, scan_at(rows), id);
    collect_holds_the_kept_items(m, audits, run_at(rows), id);
    if exists|i: int| 0 <= i < n && #[trigger] scans(i) && scan_at(rows)(i) == id {
        let i = choose|i: int| 0 <= i < n && #[trigger] scans(i) && scan_at(rows)(i) == id;
        assert(rows.scans@[i].id@ == id);
    }
    if exists|i: int| 0 <= i < m && #[trigger] audits(i) && run_at(rows)(i) == id {
        let i = choose|i: int| 0 <= i < m && #[trigger] audits(i) && run_at(rows)(i) == id;
        assert(texts(rows.audits@)[i] == id);
    }
    if texts(rows.audits@).contains(id) && !kept_audits(rows).contains(id) {
        let i = choose|i: int| 0 <= i < texts(rows.audits@).len() && texts(rows.audits@)[i] == id;
        assert(audits(i) && run_at(rows)(i) == id);
    }
    if (exists|s: int| 0 <= s < n && (#[trigger] rows.scans@[s]).id@ == id && rows.scans@[s].status@ != "staging"@)
        && !texts(rows.scan_sources@).contains(id) && !texts(rows.current_scans@).contains(id) && !texts(
        rows.owned_scans@,
    ).contains(id) && !kept_bases(rows).contains(id) {
        let s = choose|s: int|
            0 <= s < n && (#[trigger] rows.scans@[s]).id@ == id && rows.scans@[s].status@ != "staging"@;
        assert(scans(s) && scan_at(rows)(s) == id);
    }
}

/// A recovery names exactly the attempts of its root that are staging.
pub proof fn interrupted_attempts_are_recovered(
    rows: Seq<AttemptRow>,
    root: Seq<char>,
    ids: Seq<String>,
    id: Seq<char>,
)
    requires
        are_interrupted(rows, root, ids),
        rows.len() <= usize::MAX,
    ensures
        texts(ids).contains(id) <==> exists|i: int|
            0 <= i < rows.len() && (#[trigger] rows[i]).id@ == id && rows[i].root@ == root && rows[i].status@
                == "staging"@,
{
    let keep = is_interrupted(rows, root);
    let count = rows.len() as int;
    let found = crate::order::collect(count, keep, attempt_at(rows));
    collect_holds_the_kept_items(count, keep, attempt_at(rows), id);
    crate::order::selections_are_counted(count, keep, attempt_at(rows));
    crate::order::count_of_is_bounded(count, keep);
    let starts = crate::order::collect(count, keep, crate::snapshots::start_at(rows));
    let places = choose|places: Seq<crate::snapshots::AttemptPlace>|
        {
            &&& places.len() == found.len()
            &&& forall|i: int|
                0 <= i < places.len() ==> (#[trigger] places[i]).id@ == found[i] && places[i].started_at@ == starts[i]
            &&& #[trigger] crate::sort::is_ranked_sort(found, places, texts(ids))
        };
    ranked_lists_hold_the_items(found, places, texts(ids));
    if exists|i: int| 0 <= i < count && #[trigger] keep(i) && attempt_at(rows)(i) == id {
        let i = choose|i: int| 0 <= i < count && #[trigger] keep(i) && attempt_at(rows)(i) == id;
        assert(rows[i].id@ == id);
    }
    if exists|i: int|
        0 <= i < rows.len() && (#[trigger] rows[i]).id@ == id && rows[i].root@ == root && rows[i].status@
            == "staging"@ {
        let i = choose|i: int|
            0 <= i < rows.len() && (#[trigger] rows[i]).id@ == id && rows[i].root@ == root && rows[i].status@
                == "staging"@;
        assert(keep(i) && attempt_at(rows)(i) == id);
    }
}

/// A list in the order of its ranks holds what the list holds.
pub proof fn ranked_lists_hold_the_items<K: crate::sort::Ranked, T>(items: Seq<T>, keys: Seq<K>, sorted: Seq<T>)
    requires
        crate::sort::is_ranked_sort(items, keys, sorted),
        keys.len() == items.len(),
        items.len() <= usize::MAX,
    ensures
        sorted.len() == items.len(),
        forall|x: T| #[trigger] sorted.contains(x) <==> items.contains(x),
{
    let order = choose|order: Seq<usize>| #[trigger]
        crate::sort::is_rank_order(keys, order) && sorted == Seq::new(order.len(), |i: int| items[order[i] as int]);
    assert forall|x: T| #[trigger] sorted.contains(x) <==> items.contains(x) by {
        if sorted.contains(x) {
            let i = choose|i: int| 0 <= i < sorted.len() && sorted[i] == x;
            assert(items[order[i] as int] == x);
        }
        if items.contains(x) {
            let p = choose|p: int| 0 <= p < items.len() && items[p] == x;
            assert(order.contains(p as usize));
            let i = choose|i: int| 0 <= i < order.len() && order[i] == p as usize;
            assert(sorted[i] == x);
        }
    }
}

/// A snapshot of a scan comes from the scan alone and was made when the scan ended, or began where
/// its end is not known.
pub proof fn scan_snapshots_come_from_their_scan(scan: UnsealedScan, source: SnapshotSource)
    requires
        call_ensures(scan_snapshot_source, (scan,), source),
    ensures
        source.source_kind@ == "scan"@,
        source.source_attempt_id@ == scan.id@,
        source.scan_id@ == scan.id@,
        source.build_attempt_id is None,
        source.runtime_import_id is None,
        source.runtime_session_ids@.len() == 0,
        opt_text(source.parent_snapshot_id) == opt_text(scan.parent_snapshot_id),
        opt_text(source.source_revision) == opt_text(scan.source_revision),
        scan.completed_at is Some ==> source.created_at@ == scan.completed_at->0@,
        scan.completed_at is None ==> source.created_at@ == scan.started_at@,
{
}

/// A snapshot of a build comes from the build on its base: its parent is the snapshot of the base,
/// without which there is none.
pub proof fn build_snapshots_come_from_their_build(
    build: UnsealedBuild,
    base_snapshot_id: Option<&str>,
    source_revision: Option<String>,
    result: Result<SnapshotSource, SnapshotError>,
)
    requires
        call_ensures(build_snapshot_source, (build, base_snapshot_id, source_revision), result),
    ensures
        base_snapshot_id is None ==> result == Err::<SnapshotSource, _>(SnapshotError::NoBaseSnapshot),
        base_snapshot_id is Some ==> result is Ok && {
            let source = result->Ok_0;
            &&& source.source_kind@ == "build"@
            &&& source.source_attempt_id@ == build.id@
            &&& source.scan_id@ == build.base_scan_id@
            &&& source.build_attempt_id is Some && source.build_attempt_id->0@ == build.id@
            &&& source.runtime_import_id is None
            &&& source.runtime_session_ids@.len() == 0
            &&& source.parent_snapshot_id is Some && source.parent_snapshot_id->0@ == base_snapshot_id->0@
            &&& opt_text(source.source_revision) == opt_text(source_revision)
            &&& build.completed_at is Some ==> source.created_at@ == build.completed_at->0@
            &&& build.completed_at is None ==> source.created_at@ == build.started_at@
        },
{
}

/// Only completed scans, and only completed builds with a delta, become snapshots.
pub proof fn completed_attempts_become_snapshots(scans: Seq<UnsealedScan>, builds: Seq<UnsealedBuild>)
    ensures
        forall|scan: UnsealedScan| #[trigger]
            completed_scans(scans).contains(scan) <==> scans.contains(scan) && scan.status@ == "completed"@,
        forall|build: UnsealedBuild| #[trigger]
            completed_builds(builds).contains(build) <==> builds.contains(build) && build.status@ == "completed"@
                && build.has_delta,
{
    assert forall|scan: UnsealedScan| #[trigger] completed_scans(scans).contains(scan) <==> scans.contains(scan)
        && scan.status@ == "completed"@ by {
        let keep = scan_completed(scans);
        let item = |i: int| scans[i];
        collect_holds_the_kept_items(scans.len() as int, keep, item, scan);
        if scans.contains(scan) && scan.status@ == "completed"@ {
            let i = choose|i: int| 0 <= i < scans.len() && scans[i] == scan;
            assert(keep(i) && item(i) == scan);
        }
    }
    assert forall|build: UnsealedBuild| #[trigger] completed_builds(builds).contains(build) <==> builds.contains(build)
        && build.status@ == "completed"@ && build.has_delta by {
        let keep = build_completed(builds);
        let item = |i: int| builds[i];
        collect_holds_the_kept_items(builds.len() as int, keep, item, build);
        if builds.contains(build) && build.status@ == "completed"@ && build.has_delta {
            let i = choose|i: int| 0 <= i < builds.len() && builds[i] == build;
            assert(keep(i) && item(i) == build);
        }
    }
}

/// What was current stays current: the build where there is one on a current scan, or else the
/// scan.
pub proof fn what_was_current_stays_current(
    current_scan_id: Option<&str>,
    current_build_id: Option<&str>,
    result: Option<(&'static str, &str)>,
)
    requires
        call_ensures(backfill_current, (current_scan_id, current_build_id), result),
    ensures
        current_scan_id is None <==> result is None,
        current_scan_id is Some && current_build_id is None ==> (result->0).0@ == "scan"@ && (result->0).1@
            == current_scan_id->0@,
        current_scan_id is Some && current_build_id is Some ==> (result->0).0@ == "build"@ && (result->0).1@
            == current_build_id->0@,
{
}

} // verus!

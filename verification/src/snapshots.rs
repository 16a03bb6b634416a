//! Completed snapshots: their names and selectors, their creation and promotion, the end of
//! a scan, and what is collected, recovered or filled in later.

use vstd::prelude::*;

use crate::operations::opt_str;
use crate::order::{
    collect, first_kept, first_kept_remains, is_sorted_set, is_stable_sort, sorted_set, stable_sort, TextIndex,
};
use crate::profile_matrix::profile_ids_of;
use crate::records::{
    CompletedScanSnapshot, CompletedSnapshotDetails, CompletedSnapshotRecord, CoverageRecord, DiagnosticRecord,
    GarbageCollectionReport, InterruptedAttemptRecovery, ProfileRecord, ValidatedScan, ValidatedScanSummary,
};
use crate::sort::{is_ranked_sort, ranked_sort, Ranked};
use crate::text::{
    byte_len, characters, copy_texts, is_blank, is_space_char, less, opt_text, same, same_characters, same_texts, text_lt,
    text_lt_irreflexive, text_lt_total, text_lt_transitive, texts, upper_characters, upper_text,
};

verus! {

/// Why an operation on snapshots was refused.
#[derive(Debug, Clone, Copy, PartialEq, Eq, Structural)]
pub enum SnapshotError {
    NameEmpty,
    NameTooLong,
    NameNotAscii,
    NameReserved,
    NameLikeIdentity,
    NameCharacters,
    /// The name is taken already; `at` is the name that takes it.
    NameTaken { at: usize },
    NotFound,
    NotCompleted,
    NotValid,
    SelectorEmpty,
    SelectorReserved,
    SelectorAmbiguous,
    SelectorNotFound,
    NoCurrentSnapshot,
    SourceKindInvalid,
    PageEmpty,
    PageTooLarge,
    NotVisible,
    Collision,
    StatusInvalid,
    PromotionNotCompleted,
    ScanNotStarted,
    ScanImmutable,
    DeltasNotApplied { count: i64 },
    ScanChanged,
    ProjectCodeExecuted,
    NoSnapshotCreated,
    ChangedAfterValidation,
    NoFinalCoverage,
    ScanNotFound,
    NoMatchingScan,
    NoBaseSnapshot,
}

// ---------------------------------------------------------------------------------------
// Names
// ---------------------------------------------------------------------------------------

/// Whether a character is an ASCII letter or digit.
pub open spec fn is_alphanumeric(c: char) -> bool {
    ('a' <= c && c <= 'z') || ('A' <= c && c <= 'Z') || ('0' <= c && c <= '9')
}

/// Whether a character may stand in a name behind its first.
pub open spec fn is_name_char(c: char) -> bool {
    is_alphanumeric(c) || c == '.' || c == '_' || c == '-'
}

/// Whether the characters of a name are those of a name.
pub open spec fn is_name(name: Seq<char>) -> bool {
    &&& name.len() > 0
    &&& is_alphanumeric(name[0])
    &&& forall|i: int| 1 <= i < name.len() ==> is_name_char(#[trigger] name[i])
}

/// Whether a text starts like the identity of a snapshot, in whatever case.
pub open spec fn is_like_identity(name: Seq<char>) -> bool {
    name.len() >= 9 && upper_text(name).subrange(0, 9) == "SNAPSHOT:"@
}

/// Why a text cannot name a snapshot; nothing where it can.
pub open spec fn name_error(name: Seq<char>) -> Option<SnapshotError> {
    if name.len() == 0 {
        Some(SnapshotError::NameEmpty)
    } else if byte_len(name) > 64 {
        Some(SnapshotError::NameTooLong)
    } else if !vstd::utf8::is_ascii_chars(name) {
        Some(SnapshotError::NameNotAscii)
    } else if upper_text(name) == "CURRENT"@ || upper_text(name) == "LATEST"@ {
        Some(SnapshotError::NameReserved)
    } else if is_like_identity(name) {
        Some(SnapshotError::NameLikeIdentity)
    } else if !is_name(name) {
        Some(SnapshotError::NameCharacters)
    } else {
        None
    }
}

fn alphanumeric(c: char) -> (result: bool)
    ensures
        result == is_alphanumeric(c),
{
    ('a' <= c && c <= 'z') || ('A' <= c && c <= 'Z') || ('0' <= c && c <= '9')
}

/// Whether a text is another in upper case.
fn is_upper(value: &str, expected: &str) -> (result: bool)
    ensures
        result == (upper_text(value@) == expected@),
{
    let upper = upper_characters(value);
    let expected = characters(expected);
    if upper.len() != expected.len() {
        return false;
    }
    let result = same_characters(&upper, &expected, expected.len());
    assert(upper@.subrange(0, upper@.len() as int) =~= upper@);
    result
}

fn looks_like_identity(name: &str) -> (result: bool)
    ensures
        result == is_like_identity(name@),
{
    let upper = upper_characters(name);
    let prefix = characters("SNAPSHOT:");
    proof {
        reveal_strlit("SNAPSHOT:");
    }
    assert(prefix@.len() == 9);
    if upper.len() < 9 {
        return false;
    }
    same_characters(&upper, &prefix, 9)
}

fn has_name_characters(name: &str) -> (result: bool)
    requires
        name@.len() > 0,
    ensures
        result == is_name(name@),
{
    let chars = characters(name);
    if !alphanumeric(chars[0]) {
        return false;
    }
    let mut i: usize = 1;
    while i < chars.len()
        invariant
            1 <= i <= chars.len(),
            chars@ == name@,
            forall|k: int| 1 <= k < i ==> is_name_char(#[trigger] name@[k]),
        decreases chars.len() - i,
    {
        let c: char = chars[i];
        if !(alphanumeric(c) || c == '.' || c == '_' || c == '-') {
            assert(!is_name_char(name@[i as int]));
            return false;
        }
        i = i + 1;
    }
    true
}

/// Whether a text can name a snapshot.
pub fn validate_snapshot_name(name: &str) -> (result: Result<(), SnapshotError>)
    ensures
        result == match name_error(name@) {
            Some(error) => Err::<(), _>(error),
            None => Ok(()),
        },
{
    if name.is_empty() {
        return Err(SnapshotError::NameEmpty);
    }
    if name.as_bytes().len() > 64 {
        return Err(SnapshotError::NameTooLong);
    }
    if !name.is_ascii() {
        return Err(SnapshotError::NameNotAscii);
    }
    if is_upper(name, "CURRENT") || is_upper(name, "LATEST") {
        return Err(SnapshotError::NameReserved);
    }
    if looks_like_identity(name) {
        return Err(SnapshotError::NameLikeIdentity);
    }
    if !has_name_characters(name) {
        return Err(SnapshotError::NameCharacters);
    }
    Ok(())
}

/// Whether a snapshot can be given a name: it is there, completed and valid.
pub fn check_name_target(
    snapshot: Option<&CompletedSnapshotRecord>,
    integrity_valid: bool,
) -> (result: Result<(), SnapshotError>)
    ensures
        result == match snapshot {
            None => Err::<(), _>(SnapshotError::NotFound),
            Some(snapshot) => if snapshot.status@ != "completed"@ {
                Err(SnapshotError::NotCompleted)
            } else if !integrity_valid {
                Err(SnapshotError::NotValid)
            } else {
                Ok(())
            },
        },
{
    match snapshot {
        None => Err(SnapshotError::NotFound),
        Some(snapshot) => if !same(snapshot.status.as_str(), "completed") {
            Err(SnapshotError::NotCompleted)
        } else if !integrity_valid {
            Err(SnapshotError::NotValid)
        } else {
            Ok(())
        },
    }
}

/// Whether a name is another, in whatever case.
pub open spec fn takes_name(names: Seq<String>, name: Seq<char>) -> spec_fn(int) -> bool {
    |i: int| upper_text(names[i]@) == upper_text(name)
}

/// Whether a name is free: names that differ in case only are the same.
pub fn check_name_free(names: &Vec<String>, name: &str) -> (result: Result<(), SnapshotError>)
    ensures
        match first_kept(names@.len() as int, takes_name(names@, name@)) {
            Some(i) => result matches Err(SnapshotError::NameTaken { at }) && at == i,
            None => result is Ok,
        },
{
    let upper = upper_characters(name);
    let ghost keep = takes_name(names@, name@);
    let mut i: usize = 0;
    while i < names.len()
        invariant
            i <= names.len(),
            upper@ == upper_text(name@),
            keep == takes_name(names@, name@),
            first_kept(i as int, keep) is None,
        decreases names.len() - i,
    {
        let other = upper_characters(names[i].as_str());
        let taken: bool = if other.len() != upper.len() {
            false
        } else {
            same_characters(&other, &upper, upper.len())
        };
        assert(other@.subrange(0, other@.len() as int) =~= other@);
        assert(taken == keep(i as int));
        if taken {
            proof {
                first_kept_remains(i as int + 1, names@.len() as int, keep);
            }
            return Err(SnapshotError::NameTaken { at: i });
        }
        i = i + 1;
    }
    Ok(())
}

/// Whether a text consists of white space only.
pub open spec fn is_space_text(value: Seq<char>) -> bool {
    forall|i: int| 0 <= i < value.len() ==> is_space_char(#[trigger] value[i])
}

/// The snapshot that a selector names, or why it names none: `current` is the current
/// snapshot, `latest` is reserved, and anything else is an identity or a name. A text that
/// is the identity of one snapshot and the name of another is ambiguous.
pub open spec fn selected(
    selector: Seq<char>,
    current: Option<Seq<char>>,
    by_id: Option<Seq<char>>,
    by_name: Option<Seq<char>>,
) -> Result<Seq<char>, SnapshotError> {
    if is_space_text(selector) {
        Err(SnapshotError::SelectorEmpty)
    } else if upper_text(selector) == "CURRENT"@ {
        match current {
            Some(id) => Ok(id),
            None => Err(SnapshotError::NoCurrentSnapshot),
        }
    } else if upper_text(selector) == "LATEST"@ {
        Err(SnapshotError::SelectorReserved)
    } else {
        match (by_id, by_name) {
            (Some(id), Some(named)) => if id != named {
                Err(SnapshotError::SelectorAmbiguous)
            } else {
                Ok(id)
            },
            (Some(id), None) => Ok(id),
            (None, Some(named)) => Ok(named),
            (None, None) => Err(SnapshotError::SelectorNotFound),
        }
    }
}

/// The snapshot that a selector names.
pub fn resolve_completed_snapshot_selector(
    selector: &str,
    current: Option<&str>,
    by_id: Option<&str>,
    by_name: Option<&str>,
) -> (result: Result<String, SnapshotError>)
    ensures
        match selected(selector@, opt_str(current), opt_str(by_id), opt_str(by_name)) {
            Ok(id) => result matches Ok(found) && found@ == id,
            Err(error) => result == Err::<String, _>(error),
        },
{
    if is_blank(selector) {
        return Err(SnapshotError::SelectorEmpty);
    }
    if is_upper(selector, "CURRENT") {
        return match current {
            Some(id) => Ok(String::from_str(id)),
            None => Err(SnapshotError::NoCurrentSnapshot),
        };
    }
    if is_upper(selector, "LATEST") {
        return Err(SnapshotError::SelectorReserved);
    }
    match (by_id, by_name) {
        (Some(id), Some(named)) => if !same(id, named) {
            Err(SnapshotError::SelectorAmbiguous)
        } else {
            Ok(String::from_str(id))
        },
        (Some(id), None) => Ok(String::from_str(id)),
        (None, Some(named)) => Ok(String::from_str(named)),
        (None, None) => Err(SnapshotError::SelectorNotFound),
    }
}

/// Whether a snapshot can have a source of a kind.
pub open spec fn is_source_kind(kind: Seq<char>) -> bool {
    kind == "scan"@ || kind == "build"@ || kind == "runtime"@
}

/// Whether a snapshot can have a source of a kind.
pub fn check_source_kind(kind: &str) -> (result: Result<(), SnapshotError>)
    ensures
        result == if is_source_kind(kind@) {
            Ok::<(), SnapshotError>(())
        } else {
            Err(SnapshotError::SourceKindInvalid)
        },
{
    if same(kind, "scan") || same(kind, "build") || same(kind, "runtime") {
        Ok(())
    } else {
        Err(SnapshotError::SourceKindInvalid)
    }
}

/// The bounds of a page as the store counts them; a page of nothing, or one that it cannot
/// count, is refused.
pub fn page_bounds(offset: usize, limit: usize) -> (result: Result<(i64, i64), SnapshotError>)
    ensures
        result == if limit == 0 {
            Err::<(i64, i64), _>(SnapshotError::PageEmpty)
        } else if offset > i64::MAX || limit > i64::MAX {
            Err(SnapshotError::PageTooLarge)
        } else {
            Ok((offset as i64, limit as i64))
        },
{
    if limit == 0 {
        Err(SnapshotError::PageEmpty)
    } else if offset as u128 > i64::MAX as u128 || limit as u128 > i64::MAX as u128 {
        Err(SnapshotError::PageTooLarge)
    } else {
        Ok((offset as i64, limit as i64))
    }
}

/// A snapshot with its names in order and its coverage with levels and reasons each once,
/// ascending.
pub fn snapshot_details(
    snapshot: CompletedSnapshotRecord,
    names: Vec<String>,
    coverage: CoverageRecord,
) -> (result: CompletedSnapshotDetails)
    ensures
        result.snapshot == snapshot,
        is_stable_sort(names@, texts(names@), result.names@),
        is_sorted_set(texts(result.coverage.completeness@), texts(coverage.completeness@)),
        is_sorted_set(texts(result.coverage.reasons@), texts(coverage.reasons@)),
        result.coverage == (CoverageRecord {
            completeness: result.coverage.completeness,
            reasons: result.coverage.reasons,
            ..coverage
        }),
{
    let keys = copy_texts(&names);
    let mut coverage = coverage;
    coverage.completeness = sorted_set(coverage.completeness);
    coverage.reasons = sorted_set(coverage.reasons);
    CompletedSnapshotDetails { snapshot, names: stable_sort(names, &keys), coverage }
}

// ---------------------------------------------------------------------------------------
// Identity, creation and promotion
// ---------------------------------------------------------------------------------------

/// The identities of profiles, each once, ascending.
pub fn profile_set(profiles: &Vec<ProfileRecord>) -> (result: Vec<String>)
    ensures
        is_sorted_set(texts(result@), profile_ids_of(profiles@)),
{
    let mut ids: Vec<String> = Vec::new();
    let mut i: usize = 0;
    while i < profiles.len()
        invariant
            i <= profiles.len(),
            ids.len() == i,
            forall|k: int| 0 <= k < i ==> (#[trigger] ids@[k])@ == profiles@[k].id@,
        decreases profiles.len() - i,
    {
        ids.push(profiles[i].id.clone());
        i = i + 1;
    }
    assert(texts(ids@) =~= profile_ids_of(profiles@));
    sorted_set(ids)
}

/// What a snapshot is created from.
#[derive(Debug, Clone)]
pub struct SnapshotSource {
    pub source_kind: String,
    pub source_attempt_id: String,
    pub scan_id: String,
    pub build_attempt_id: Option<String>,
    pub runtime_import_id: Option<String>,
    pub runtime_session_ids: Vec<String>,
    pub parent_snapshot_id: Option<String>,
    pub source_revision: Option<String>,
    pub created_at: String,
}

/// Whether a stored snapshot is the one that a source makes.
pub open spec fn is_made_from(
    stored: CompletedSnapshotRecord,
    source: SnapshotSource,
    profile_ids: Seq<Seq<char>>,
) -> bool {
    &&& opt_text(stored.parent_snapshot_id) == opt_text(source.parent_snapshot_id)
    &&& opt_text(stored.source_revision) == opt_text(source.source_revision)
    &&& texts(stored.profile_ids@) == profile_ids
    &&& opt_text(stored.runtime_import_id) == opt_text(source.runtime_import_id)
    &&& texts(stored.runtime_session_ids@) == texts(source.runtime_session_ids@)
    &&& stored.status@ == "completed"@
}

/// Whether a record is that of the snapshot that a source makes, under an identity.
pub open spec fn is_record_of(
    source: SnapshotSource,
    snapshot_id: Seq<char>,
    profile_ids: Seq<Seq<char>>,
    record: CompletedSnapshotRecord,
) -> bool {
    &&& record.id@ == snapshot_id
    &&& record.source_kind@ == source.source_kind@
    &&& record.source_attempt_id@ == source.source_attempt_id@
    &&& record.scan_id@ == source.scan_id@
    &&& opt_text(record.build_attempt_id) == opt_text(source.build_attempt_id)
    &&& opt_text(record.runtime_import_id) == opt_text(source.runtime_import_id)
    &&& texts(record.runtime_session_ids@) == texts(source.runtime_session_ids@)
    &&& opt_text(record.parent_snapshot_id) == opt_text(source.parent_snapshot_id)
    &&& opt_text(record.source_revision) == opt_text(source.source_revision)
    &&& texts(record.profile_ids@) == profile_ids
    &&& record.status@ == "completed"@
    &&& record.created_at@ == source.created_at@
}

/// The record of the snapshot that a source makes.
pub fn snapshot_record(source: &SnapshotSource, snapshot_id: &str, profile_ids: &Vec<String>) -> (result:
    CompletedSnapshotRecord)
    ensures
        is_record_of(*source, snapshot_id@, texts(profile_ids@), result),
{
    CompletedSnapshotRecord {
        id: String::from_str(snapshot_id),
        source_kind: source.source_kind.clone(),
        source_attempt_id: source.source_attempt_id.clone(),
        scan_id: source.scan_id.clone(),
        build_attempt_id: source.build_attempt_id.clone(),
        runtime_import_id: source.runtime_import_id.clone(),
        runtime_session_ids: copy_texts(&source.runtime_session_ids),
        parent_snapshot_id: source.parent_snapshot_id.clone(),
        source_revision: source.source_revision.clone(),
        profile_ids: copy_texts(profile_ids),
        status: String::from_str("completed"),
        created_at: source.created_at.clone(),
    }
}

/// Whether the snapshot that is stored under the identity of a source's content is the one
/// that the source makes.
pub fn check_created_snapshot(
    stored: Option<&CompletedSnapshotRecord>,
    source: &SnapshotSource,
    profile_ids: &Vec<String>,
) -> (result: Result<(), SnapshotError>)
    ensures
        result == match stored {
            None => Err::<(), _>(SnapshotError::NotVisible),
            Some(stored) => if is_made_from(*stored, *source, texts(profile_ids@)) {
                Ok(())
            } else {
                Err(SnapshotError::Collision)
            },
        },
{
    match stored {
        None => Err(SnapshotError::NotVisible),
        Some(stored) => if crate::text::same_option(&stored.parent_snapshot_id, &source.parent_snapshot_id)
            && crate::text::same_option(&stored.source_revision, &source.source_revision) && same_texts(
            &stored.profile_ids,
            profile_ids,
        ) && crate::text::same_option(&stored.runtime_import_id, &source.runtime_import_id) && same_texts(
            &stored.runtime_session_ids,
            &source.runtime_session_ids,
        ) && same(stored.status.as_str(), "completed") {
            Ok(())
        } else {
            Err(SnapshotError::Collision)
        },
    }
}

/// Whether a snapshot can become the current one.
pub fn check_promotable(status: Option<&str>) -> (result: Result<(), SnapshotError>)
    ensures
        result == match status {
            None => Err::<(), _>(SnapshotError::NotFound),
            Some(status) => if status@ == "completed"@ {
                Ok(())
            } else {
                Err(SnapshotError::NotCompleted)
            },
        },
{
    match status {
        None => Err(SnapshotError::NotFound),
        Some(status) => if same(status, "completed") {
            Ok(())
        } else {
            Err(SnapshotError::NotCompleted)
        },
    }
}

/// Whether a snapshot becomes the current one: only where the current one is still the
/// parent that it was made on, or where there is none and it was made on none.
pub fn promotes_over(current: Option<&str>, expected_parent: Option<&str>) -> (result: bool)
    ensures
        result == (opt_str(current) == opt_str(expected_parent)),
{
    match (current, expected_parent) {
        (Some(current), Some(parent)) => same(current, parent),
        (None, None) => true,
        _ => false,
    }
}

// ---------------------------------------------------------------------------------------
// The end of a scan
// ---------------------------------------------------------------------------------------

/// Whether a scan can end so.
pub open spec fn is_scan_end(status: Seq<char>) -> bool {
    status == "completed"@ || status == "partial"@ || status == "failed"@ || status == "cancelled"@ || status
        == "policy_failed"@ || status == "security_failed"@
}

/// Whether a scan may be asked to end so: in a terminal status, and promoted only where it
/// completes.
pub fn check_finish_request(status: &str, promote: bool) -> (result: Result<(), SnapshotError>)
    ensures
        result == if !is_scan_end(status@) {
            Err::<(), _>(SnapshotError::StatusInvalid)
        } else if promote && status@ != "completed"@ {
            Err(SnapshotError::PromotionNotCompleted)
        } else {
            Ok(())
        },
{
    if !(same(status, "completed") || same(status, "partial") || same(status, "failed") || same(status, "cancelled")
        || same(status, "policy_failed") || same(status, "security_failed")) {
        Err(SnapshotError::StatusInvalid)
    } else if promote && !same(status, "completed") {
        Err(SnapshotError::PromotionNotCompleted)
    } else {
        Ok(())
    }
}

/// Whether rows may still be written to a scan.
pub fn ensure_scan_staging(status: Option<&str>) -> (result: Result<(), SnapshotError>)
    ensures
        result == match status {
            None => Err::<(), _>(SnapshotError::ScanNotStarted),
            Some(status) => if status@ == "staging"@ {
                Ok(())
            } else {
                Err(SnapshotError::ScanImmutable)
            },
        },
{
    match status {
        None => Err(SnapshotError::ScanNotStarted),
        Some(status) => if same(status, "staging") {
            Ok(())
        } else {
            Err(SnapshotError::ScanImmutable)
        },
    }
}

/// The state of a scan that is to end.
#[derive(Debug, Clone)]
pub struct ScanState {
    pub status: String,
    pub mutation_count: i64,
    pub project_code_executed: bool,
    pub unapplied_deltas: i64,
}

/// What becomes of the staged deltas of a scan that does not complete.
#[derive(Debug, Clone, Copy, PartialEq, Eq, Structural)]
pub enum DeltaEnd {
    Cancelled,
    Failed,
}

/// What the end of a scan does.
#[derive(Debug, Clone, Copy, PartialEq, Eq, Structural)]
pub struct FinishPlan {
    /// A snapshot is created.
    pub create_snapshot: bool,
    /// The status that staged deltas get.
    pub delta_end: Option<DeltaEnd>,
    /// The ownership of the scan's staging is released.
    pub release_staging: bool,
}

/// Why a scan cannot end so; nothing where it can.
pub open spec fn finish_error(
    state: Option<ScanState>,
    status: Seq<char>,
    promote: bool,
    validated_mutation_count: Option<i64>,
) -> Option<SnapshotError> {
    match state {
        None => Some(SnapshotError::ScanNotStarted),
        Some(state) => if state.status@ != "staging"@ {
            Some(SnapshotError::ScanImmutable)
        } else if status == "completed"@ && state.unapplied_deltas != 0 {
            Some(SnapshotError::DeltasNotApplied { count: state.unapplied_deltas })
        } else if validated_mutation_count is Some && validated_mutation_count != Some(state.mutation_count) {
            Some(SnapshotError::ScanChanged)
        } else if promote && state.project_code_executed {
            Some(SnapshotError::ProjectCodeExecuted)
        } else {
            None
        },
    }
}

/// What the end of a scan does.
pub open spec fn finish_plan_of(status: Seq<char>) -> FinishPlan {
    FinishPlan {
        create_snapshot: status == "completed"@,
        delta_end: if status == "completed"@ {
            None
        } else if status == "cancelled"@ {
            Some(DeltaEnd::Cancelled)
        } else {
            Some(DeltaEnd::Failed)
        },
        release_staging: !(status == "completed"@ || status == "cancelled"@),
    }
}

/// What the end of a scan does, or why it cannot end so: it is staging, all of its deltas
/// were applied where it completes, nothing was written since it was validated, and it
/// executed no project code where it is promoted.
pub fn finish_scan_plan(
    state: Option<&ScanState>,
    status: &str,
    promote: bool,
    validated_mutation_count: Option<i64>,
) -> (result: Result<FinishPlan, SnapshotError>)
    ensures
        result == match finish_error(
            match state {
                Some(state) => Some(*state),
                None => None,
            },
            status@,
            promote,
            validated_mutation_count,
        ) {
            Some(error) => Err::<FinishPlan, _>(error),
            None => Ok(finish_plan_of(status@)),
        },
{
    let state = match state {
        Some(state) => state,
        None => {
            return Err(SnapshotError::ScanNotStarted);
        },
    };
    if !same(state.status.as_str(), "staging") {
        return Err(SnapshotError::ScanImmutable);
    }
    let completed = same(status, "completed");
    if completed && state.unapplied_deltas != 0 {
        return Err(SnapshotError::DeltasNotApplied { count: state.unapplied_deltas });
    }
    if let Some(validated) = validated_mutation_count {
        if validated != state.mutation_count {
            return Err(SnapshotError::ScanChanged);
        }
    }
    if promote && state.project_code_executed {
        return Err(SnapshotError::ProjectCodeExecuted);
    }
    let cancelled = same(status, "cancelled");
    let delta_end: Option<DeltaEnd> = if completed {
        None
    } else if cancelled {
        Some(DeltaEnd::Cancelled)
    } else {
        Some(DeltaEnd::Failed)
    };
    Ok(FinishPlan { create_snapshot: completed, delta_end, release_staging: !(completed || cancelled) })
}

/// The proof that a scan was validated at its mutation count.
pub fn validated_scan(scan_id: &str, state: Option<&ScanState>) -> (result: Result<ValidatedScan, SnapshotError>)
    ensures
        match state {
            None => result == Err::<ValidatedScan, _>(SnapshotError::ScanNotStarted),
            Some(state) => if state.status@ != "staging"@ {
                result == Err::<ValidatedScan, _>(SnapshotError::ScanImmutable)
            } else {
                result matches Ok(validated) && validated.scan_id@ == scan_id@ && validated.mutation_count
                    == state.mutation_count
            },
        },
{
    match state {
        None => Err(SnapshotError::ScanNotStarted),
        Some(state) => if !same(state.status.as_str(), "staging") {
            Err(SnapshotError::ScanImmutable)
        } else {
            Ok(ValidatedScan { scan_id: String::from_str(scan_id), mutation_count: state.mutation_count })
        },
    }
}

/// The snapshot that a validated scan made.
pub fn completed_scan(validation: ValidatedScan, snapshot_id: Option<String>) -> (result: Result<
    CompletedScanSnapshot,
    SnapshotError,
>)
    ensures
        match snapshot_id {
            Some(snapshot_id) => result matches Ok(completed) && completed.scan_id == validation.scan_id
                && completed.snapshot_id == snapshot_id,
            None => result == Err::<CompletedScanSnapshot, _>(SnapshotError::NoSnapshotCreated),
        },
{
    match snapshot_id {
        Some(snapshot_id) => Ok(CompletedScanSnapshot { scan_id: validation.scan_id, snapshot_id }),
        None => Err(SnapshotError::NoSnapshotCreated),
    }
}

/// The summary of a validated scan, which has its final coverage.
pub fn validated_summary(coverage: Option<CoverageRecord>, diagnostics: Vec<DiagnosticRecord>) -> (result: Result<
    ValidatedScanSummary,
    SnapshotError,
>)
    ensures
        match coverage {
            Some(coverage) => result matches Ok(summary) && summary.coverage == coverage && summary.diagnostics
                == diagnostics,
            None => result == Err::<ValidatedScanSummary, _>(SnapshotError::NoFinalCoverage),
        },
{
    match coverage {
        Some(coverage) => Ok(ValidatedScanSummary { coverage, diagnostics }),
        None => Err(SnapshotError::NoFinalCoverage),
    }
}

/// Whether a scan is still as it was validated.
pub fn check_still_validated(validation: &ValidatedScan, state: Option<&ScanState>) -> (result: Result<
    (),
    SnapshotError,
>)
    ensures
        result == match state {
            None => Err::<(), _>(SnapshotError::ScanNotStarted),
            Some(state) => if state.status@ != "staging"@ || state.mutation_count != validation.mutation_count {
                Err(SnapshotError::ChangedAfterValidation)
            } else {
                Ok(())
            },
        },
{
    match state {
        None => Err(SnapshotError::ScanNotStarted),
        Some(state) => if !same(state.status.as_str(), "staging") || state.mutation_count
            != validation.mutation_count {
            Err(SnapshotError::ChangedAfterValidation)
        } else {
            Ok(())
        },
    }
}

/// The scan that is meant: the one asked for where there is one with its identity, else
/// the latest attempt or the latest success.
pub fn resolve_scan_id(
    requested: Option<&str>,
    requested_exists: bool,
    latest_attempt: bool,
    latest_attempt_id: Option<&str>,
    latest_successful_id: Option<&str>,
) -> (result: Result<String, SnapshotError>)
    ensures
        match opt_str(requested) {
            Some(id) => if requested_exists {
                result matches Ok(found) && found@ == id
            } else {
                result == Err::<String, _>(SnapshotError::ScanNotFound)
            },
            None => match (if latest_attempt {
                opt_str(latest_attempt_id)
            } else {
                opt_str(latest_successful_id)
            }) {
                Some(id) => result matches Ok(found) && found@ == id,
                None => result == Err::<String, _>(SnapshotError::NoMatchingScan),
            },
        },
{
    match requested {
        Some(id) => if requested_exists {
            Ok(String::from_str(id))
        } else {
            Err(SnapshotError::ScanNotFound)
        },
        None => {
            let id: Option<&str> = if latest_attempt {
                latest_attempt_id
            } else {
                latest_successful_id
            };
            match id {
                Some(id) => Ok(String::from_str(id)),
                None => Err(SnapshotError::NoMatchingScan),
            }
        },
    }
}

/// What is loaded for an identity.
#[derive(Debug, Clone, PartialEq, Eq)]
pub enum LoadChoice {
    /// The completed snapshot with the identity.
    Snapshot,
    /// The completed snapshot that a completed scan selects.
    Selected(String),
    /// The rows of the scan, with its promoted build where it has one.
    Scan,
}

/// What is loaded for an identity: a completed snapshot, the one that a completed scan
/// selects, or the rows of the scan.
pub fn load_choice(is_snapshot: bool, scan_status: Option<&str>, selection: Option<String>) -> (result: LoadChoice)
    ensures
        if is_snapshot {
            result == LoadChoice::Snapshot
        } else {
            match (opt_str(scan_status), selection) {
                (Some(status), Some(id)) => if status == "completed"@ {
                    result == LoadChoice::Selected(id)
                } else {
                    result == LoadChoice::Scan
                },
                _ => result == LoadChoice::Scan,
            }
        },
{
    if is_snapshot {
        return LoadChoice::Snapshot;
    }
    match (scan_status, selection) {
        (Some(status), Some(id)) => if same(status, "completed") {
            LoadChoice::Selected(id)
        } else {
            LoadChoice::Scan
        },
        _ => LoadChoice::Scan,
    }
}

// ---------------------------------------------------------------------------------------
// Collection
// ---------------------------------------------------------------------------------------

/// A scan attempt as the collection sees it.
#[derive(Debug, Clone)]
pub struct ScanAttemptRow {
    pub id: String,
    pub status: String,
}

/// A build attempt as the collection sees it.
#[derive(Debug, Clone)]
pub struct BuildAttemptRow {
    pub id: String,
    pub status: String,
    pub base_scan_id: String,
    pub audit_run_id: String,
}

/// What the collection looks at.
#[derive(Debug, Clone)]
pub struct CollectionRows {
    pub scans: Vec<ScanAttemptRow>,
    pub builds: Vec<BuildAttemptRow>,
    pub audits: Vec<String>,
    /// The scans that snapshots come from.
    pub scan_sources: Vec<String>,
    /// The builds that snapshots come from.
    pub build_sources: Vec<String>,
    /// The current scans.
    pub current_scans: Vec<String>,
    /// The current builds.
    pub current_builds: Vec<String>,
    /// The scans that an operation owns. An operation owns its scan until the end of the scan
    /// is acknowledged, and its record of that goes where the scan goes.
    pub owned_scans: Vec<String>,
}

/// Which builds are collected: those that ended without a snapshot and are not current.
pub open spec fn build_is_garbage(rows: CollectionRows) -> spec_fn(int) -> bool {
    |i: int|
        {
            let build = rows.builds@[i];
            build.status@ != "staging"@ && !texts(rows.build_sources@).contains(build.id@) && !texts(
                rows.current_builds@,
            ).contains(build.id@)
        }
}

/// Which builds are kept.
pub open spec fn build_is_kept(rows: CollectionRows) -> spec_fn(int) -> bool {
    |i: int| !build_is_garbage(rows)(i)
}

/// The audit of a build.
pub open spec fn audit_at(rows: CollectionRows) -> spec_fn(int) -> Seq<char> {
    |i: int| rows.builds@[i].audit_run_id@
}

/// The base scan of a build.
pub open spec fn base_at(rows: CollectionRows) -> spec_fn(int) -> Seq<char> {
    |i: int| rows.builds@[i].base_scan_id@
}

/// The identity of a build.
pub open spec fn build_at(rows: CollectionRows) -> spec_fn(int) -> Seq<char> {
    |i: int| rows.builds@[i].id@
}

/// The identity of a scan.
pub open spec fn scan_at(rows: CollectionRows) -> spec_fn(int) -> Seq<char> {
    |i: int| rows.scans@[i].id@
}

/// The identity of an audit.
pub open spec fn run_at(rows: CollectionRows) -> spec_fn(int) -> Seq<char> {
    |i: int| rows.audits@[i]@
}

/// The audits of the builds that are kept.
pub open spec fn kept_audits(rows: CollectionRows) -> Seq<Seq<char>> {
    collect(rows.builds@.len() as int, build_is_kept(rows), audit_at(rows))
}

/// The base scans of the builds that are kept.
pub open spec fn kept_bases(rows: CollectionRows) -> Seq<Seq<char>> {
    collect(rows.builds@.len() as int, build_is_kept(rows), base_at(rows))
}

/// Which audits are collected: those of no build that is kept.
pub open spec fn audit_is_garbage(rows: CollectionRows) -> spec_fn(int) -> bool {
    |i: int| !kept_audits(rows).contains(rows.audits@[i]@)
}

/// Which scans are collected: those that ended without a snapshot, are not current, are not
/// the base of a build that is kept and are owned by no operation.
pub open spec fn scan_is_garbage(rows: CollectionRows) -> spec_fn(int) -> bool {
    |i: int|
        {
            let scan = rows.scans@[i];
            scan.status@ != "staging"@ && !texts(rows.scan_sources@).contains(scan.id@) && !kept_bases(
                rows,
            ).contains(scan.id@) && !texts(rows.current_scans@).contains(scan.id@) && !texts(
                rows.owned_scans@,
            ).contains(scan.id@)
        }
}

/// What a collection deletes.
#[derive(Debug, Clone)]
pub struct Collection {
    pub builds: Vec<String>,
    pub audits: Vec<String>,
    pub scans: Vec<String>,
}

/// Whether a collection deletes exactly the garbage.
pub open spec fn is_collection(rows: CollectionRows, collection: Collection) -> bool {
    &&& texts(collection.builds@) == collect(rows.builds@.len() as int, build_is_garbage(rows), build_at(rows))
    &&& texts(collection.audits@) == collect(rows.audits@.len() as int, audit_is_garbage(rows), run_at(rows))
    &&& texts(collection.scans@) == collect(rows.scans@.len() as int, scan_is_garbage(rows), scan_at(rows))
}

/// What a collection of attempts that nothing refers to deletes.
pub fn garbage_collect_unreferenced_attempts(rows: &CollectionRows) -> (result: Collection)
    ensures
        is_collection(*rows, result),
{
    let build_sources = TextIndex::new(copy_texts(&rows.build_sources));
    let current_builds = TextIndex::new(copy_texts(&rows.current_builds));
    let scan_sources = TextIndex::new(copy_texts(&rows.scan_sources));
    let current_scans = TextIndex::new(copy_texts(&rows.current_scans));
    let owned_scans = TextIndex::new(copy_texts(&rows.owned_scans));
    let mut builds: Vec<String> = Vec::new();
    let mut audits_kept: Vec<String> = Vec::new();
    let mut bases_kept: Vec<String> = Vec::new();
    let ghost count = rows.builds@.len() as int;
    let mut i: usize = 0;
    assert(texts(builds@) =~= Seq::empty());
    while i < rows.builds.len()
        invariant
            i <= rows.builds.len(),
            build_sources.keys() == texts(rows.build_sources@),
            current_builds.keys() == texts(rows.current_builds@),
            texts(builds@) == collect(i as int, build_is_garbage(*rows), build_at(*rows)),
            texts(audits_kept@) == collect(i as int, build_is_kept(*rows), audit_at(*rows)),
            texts(bases_kept@) == collect(i as int, build_is_kept(*rows), base_at(*rows)),
        decreases rows.builds.len() - i,
    {
        let build = &rows.builds[i];
        let garbage = !same(build.status.as_str(), "staging") && !build_sources.contains(build.id.as_str())
            && !current_builds.contains(build.id.as_str());
        assert(garbage == build_is_garbage(*rows)(i as int));
        assert(build_is_kept(*rows)(i as int) == !garbage);
        if garbage {
            let ghost earlier = texts(builds@);
            builds.push(build.id.clone());
            assert(texts(builds@) =~= earlier.push(build.id@));
        } else {
            let ghost earlier = texts(audits_kept@);
            audits_kept.push(build.audit_run_id.clone());
            assert(texts(audits_kept@) =~= earlier.push(build.audit_run_id@));
            let ghost earlier = texts(bases_kept@);
            bases_kept.push(build.base_scan_id.clone());
            assert(texts(bases_kept@) =~= earlier.push(build.base_scan_id@));
        }
        i = i + 1;
    }
    let audit_index = TextIndex::new(audits_kept);
    let base_index = TextIndex::new(bases_kept);
    let mut audits: Vec<String> = Vec::new();
    let mut i: usize = 0;
    assert(texts(audits@) =~= Seq::empty());
    while i < rows.audits.len()
        invariant
            i <= rows.audits.len(),
            audit_index.keys() == kept_audits(*rows),
            texts(audits@) == collect(i as int, audit_is_garbage(*rows), run_at(*rows)),
        decreases rows.audits.len() - i,
    {
        if !audit_index.contains(rows.audits[i].as_str()) {
            let ghost earlier = texts(audits@);
            audits.push(rows.audits[i].clone());
            assert(texts(audits@) =~= earlier.push(rows.audits@[i as int]@));
        }
        i = i + 1;
    }
    let mut scans: Vec<String> = Vec::new();
    let mut i: usize = 0;
    assert(texts(scans@) =~= Seq::empty());
    while i < rows.scans.len()
        invariant
            i <= rows.scans.len(),
            scan_sources.keys() == texts(rows.scan_sources@),
            current_scans.keys() == texts(rows.current_scans@),
            owned_scans.keys() == texts(rows.owned_scans@),
            base_index.keys() == kept_bases(*rows),
            texts(scans@) == collect(i as int, scan_is_garbage(*rows), scan_at(*rows)),
        decreases rows.scans.len() - i,
    {
        let scan = &rows.scans[i];
        if !same(scan.status.as_str(), "staging") && !scan_sources.contains(scan.id.as_str()) && !base_index.contains(
            scan.id.as_str(),
        ) && !current_scans.contains(scan.id.as_str()) && !owned_scans.contains(scan.id.as_str()) {
            let ghost earlier = texts(scans@);
            scans.push(scan.id.clone());
            assert(texts(scans@) =~= earlier.push(scan.id@));
        }
        i = i + 1;
    }
    Collection { builds, audits, scans }
}

/// How many rows a collection deleted.
pub fn collection_report(collection: &Collection) -> (result: GarbageCollectionReport)
    ensures
        result.scan_attempts_deleted == collection.scans@.len(),
        result.build_attempts_deleted == collection.builds@.len(),
        result.build_audits_deleted == collection.audits@.len(),
{
    GarbageCollectionReport {
        scan_attempts_deleted: collection.scans.len() as u64,
        build_attempts_deleted: collection.builds.len() as u64,
        build_audits_deleted: collection.audits.len() as u64,
    }
}

// ---------------------------------------------------------------------------------------
// Recovery and completion of older stores
// ---------------------------------------------------------------------------------------

/// An attempt as its recovery sees it.
#[derive(Debug, Clone)]
pub struct AttemptRow {
    pub id: String,
    pub root: String,
    pub status: String,
    pub started_at: String,
}

/// The place of an attempt: by its start, then by its identity.
#[derive(Debug, Clone, PartialEq, Eq)]
pub struct AttemptPlace {
    pub started_at: String,
    pub id: String,
}

impl Ranked for AttemptPlace {
    open spec fn before(a: AttemptPlace, b: AttemptPlace) -> bool {
        text_lt(a.started_at@, b.started_at@) || (a.started_at@ == b.started_at@ && text_lt(a.id@, b.id@))
    }

    proof fn before_is_irreflexive(a: AttemptPlace) {
        text_lt_irreflexive(a.started_at@);
        text_lt_irreflexive(a.id@);
    }

    proof fn before_is_transitive(a: AttemptPlace, b: AttemptPlace, c: AttemptPlace) {
        if text_lt(a.started_at@, b.started_at@) && text_lt(b.started_at@, c.started_at@) {
            text_lt_transitive(a.started_at@, b.started_at@, c.started_at@);
        }
        if text_lt(a.id@, b.id@) && text_lt(b.id@, c.id@) {
            text_lt_transitive(a.id@, b.id@, c.id@);
        }
    }

    proof fn before_is_weak(a: AttemptPlace, b: AttemptPlace, c: AttemptPlace) {
        text_lt_total(a.started_at@, b.started_at@);
        text_lt_total(a.id@, b.id@);
        if text_lt(b.started_at@, a.started_at@) && text_lt(a.started_at@, c.started_at@) {
            text_lt_transitive(b.started_at@, a.started_at@, c.started_at@);
        }
        if text_lt(b.id@, a.id@) && text_lt(a.id@, c.id@) {
            text_lt_transitive(b.id@, a.id@, c.id@);
        }
    }

    fn is_before(a: &AttemptPlace, b: &AttemptPlace) -> (result: bool) {
        less(a.started_at.as_str(), b.started_at.as_str()) || (a.started_at == b.started_at && less(
            a.id.as_str(),
            b.id.as_str(),
        ))
    }
}

/// Which attempts were interrupted: those of a root that are still staging.
pub open spec fn is_interrupted(rows: Seq<AttemptRow>, root: Seq<char>) -> spec_fn(int) -> bool {
    |i: int| rows[i].root@ == root && rows[i].status@ == "staging"@
}

/// The identity of an attempt.
pub open spec fn attempt_at(rows: Seq<AttemptRow>) -> spec_fn(int) -> Seq<char> {
    |i: int| rows[i].id@
}

/// The start of an attempt.
pub open spec fn start_at(rows: Seq<AttemptRow>) -> spec_fn(int) -> Seq<char> {
    |i: int| rows[i].started_at@
}

/// Whether ids are those of the interrupted attempts of a root, by start and identity.
pub open spec fn are_interrupted(rows: Seq<AttemptRow>, root: Seq<char>, ids: Seq<String>) -> bool {
    let found = collect(rows.len() as int, is_interrupted(rows, root), attempt_at(rows));
    let starts = collect(rows.len() as int, is_interrupted(rows, root), start_at(rows));
    exists|places: Seq<AttemptPlace>|
        {
            &&& places.len() == found.len()
            &&& forall|i: int|
                0 <= i < places.len() ==> (#[trigger] places[i]).id@ == found[i] && places[i].started_at@ == starts[i]
            &&& #[trigger] is_ranked_sort(found, places, texts(ids))
        }
}

fn interrupted(rows: &Vec<AttemptRow>, root: &str) -> (result: Vec<String>)
    ensures
        are_interrupted(rows@, root@, result@),
{
    let ghost keep = is_interrupted(rows@, root@);
    let mut ids: Vec<String> = Vec::new();
    let mut places: Vec<AttemptPlace> = Vec::new();
    let ghost mut starts: Seq<Seq<char>> = Seq::empty();
    let mut i: usize = 0;
    assert(texts(ids@) =~= Seq::empty());
    while i < rows.len()
        invariant
            i <= rows.len(),
            keep == is_interrupted(rows@, root@),
            texts(ids@) == collect(i as int, keep, attempt_at(rows@)),
            starts == collect(i as int, keep, start_at(rows@)),
            places.len() == ids.len(),
            starts.len() == ids.len(),
            forall|k: int|
                0 <= k < places.len() ==> (#[trigger] places@[k]).id@ == ids@[k]@ && places@[k].started_at@ == starts[k],
        decreases rows.len() - i,
    {
        if same(rows[i].root.as_str(), root) && same(rows[i].status.as_str(), "staging") {
            let ghost earlier = texts(ids@);
            ids.push(rows[i].id.clone());
            places.push(AttemptPlace { started_at: rows[i].started_at.clone(), id: rows[i].id.clone() });
            proof {
                starts = starts.push(rows@[i as int].started_at@);
                assert(texts(ids@) =~= earlier.push(rows@[i as int].id@));
            }
        }
        i = i + 1;
    }
    let ghost source = ids@;
    let sorted = ranked_sort(ids, &places);
    proof {
        let order = choose|order: Seq<usize>| #[trigger]
            crate::sort::is_rank_order(places@, order) && sorted@ == Seq::new(
                order.len(),
                |i: int| source[order[i] as int],
            );
        assert(texts(sorted@) =~= Seq::new(order.len(), |i: int| texts(source)[order[i] as int]));
        assert(is_ranked_sort(texts(source), places@, texts(sorted@)));
    }
    sorted
}

/// The attempts of a root that were left staging, in the order in which they started. The
/// root of a build is that of its base scan.
pub fn recover_interrupted_attempts(scans: &Vec<AttemptRow>, builds: &Vec<AttemptRow>, root: &str) -> (result:
    InterruptedAttemptRecovery)
    ensures
        are_interrupted(scans@, root@, result.scan_attempt_ids@),
        are_interrupted(builds@, root@, result.build_attempt_ids@),
{
    InterruptedAttemptRecovery {
        scan_attempt_ids: interrupted(scans, root),
        build_attempt_ids: interrupted(builds, root),
    }
}

/// A scan as the completion of an older store sees it.
#[derive(Debug, Clone)]
pub struct UnsealedScan {
    pub id: String,
    pub status: String,
    pub started_at: String,
    pub completed_at: Option<String>,
    pub parent_snapshot_id: Option<String>,
    pub source_revision: Option<String>,
}

/// A build as the completion of an older store sees it.
#[derive(Debug, Clone)]
pub struct UnsealedBuild {
    pub id: String,
    pub status: String,
    pub has_delta: bool,
    pub base_scan_id: String,
    pub started_at: String,
    pub completed_at: Option<String>,
}

/// When an attempt ended; when it started, where that is not known.
pub open spec fn ended_at(completed_at: Option<String>, started_at: String) -> Seq<char> {
    match completed_at {
        Some(completed_at) => completed_at@,
        None => started_at@,
    }
}

/// Whether a source makes the snapshot of a scan.
pub open spec fn is_scan_source(scan: UnsealedScan, source: SnapshotSource) -> bool {
    &&& source.source_kind@ == "scan"@
    &&& source.source_attempt_id@ == scan.id@
    &&& source.scan_id@ == scan.id@
    &&& source.build_attempt_id is None
    &&& source.runtime_import_id is None
    &&& source.runtime_session_ids@.len() == 0
    &&& source.parent_snapshot_id == scan.parent_snapshot_id
    &&& source.source_revision == scan.source_revision
    &&& source.created_at@ == ended_at(scan.completed_at, scan.started_at)
}

/// Whether a source makes the snapshot of a build on that of its base scan.
pub open spec fn is_build_source(
    build: UnsealedBuild,
    base_snapshot_id: Seq<char>,
    source_revision: Option<String>,
    source: SnapshotSource,
) -> bool {
    &&& source.source_kind@ == "build"@
    &&& source.source_attempt_id@ == build.id@
    &&& source.scan_id@ == build.base_scan_id@
    &&& opt_text(source.build_attempt_id) == Some(build.id@)
    &&& source.runtime_import_id is None
    &&& source.runtime_session_ids@.len() == 0
    &&& opt_text(source.parent_snapshot_id) == Some(base_snapshot_id)
    &&& source.source_revision == source_revision
    &&& source.created_at@ == ended_at(build.completed_at, build.started_at)
}

/// Which scans completed.
pub open spec fn scan_completed(scans: Seq<UnsealedScan>) -> spec_fn(int) -> bool {
    |i: int| scans[i].status@ == "completed"@
}

/// Which builds completed with a delta.
pub open spec fn build_completed(builds: Seq<UnsealedBuild>) -> spec_fn(int) -> bool {
    |i: int| builds[i].status@ == "completed"@ && builds[i].has_delta
}

/// The scans that completed, as they stand.
pub open spec fn completed_scans(scans: Seq<UnsealedScan>) -> Seq<UnsealedScan> {
    collect(scans.len() as int, scan_completed(scans), |i: int| scans[i])
}

/// The builds that completed with a delta, as they stand.
pub open spec fn completed_builds(builds: Seq<UnsealedBuild>) -> Seq<UnsealedBuild> {
    collect(builds.len() as int, build_completed(builds), |i: int| builds[i])
}

/// The starts of scans.
pub open spec fn scan_starts(scans: Seq<UnsealedScan>) -> Seq<Seq<char>> {
    Seq::new(scans.len(), |i: int| scans[i].started_at@)
}

/// The starts of builds.
pub open spec fn build_starts(builds: Seq<UnsealedBuild>) -> Seq<Seq<char>> {
    Seq::new(builds.len(), |i: int| builds[i].started_at@)
}

/// The source of the snapshot of a scan.
pub fn scan_snapshot_source(scan: UnsealedScan) -> (result: SnapshotSource)
    ensures
        is_scan_source(scan, result),
{
    let created_at: String = match scan.completed_at {
        Some(completed_at) => completed_at,
        None => scan.started_at,
    };
    SnapshotSource {
        source_kind: String::from_str("scan"),
        source_attempt_id: scan.id.clone(),
        scan_id: scan.id,
        build_attempt_id: None,
        runtime_import_id: None,
        runtime_session_ids: Vec::new(),
        parent_snapshot_id: scan.parent_snapshot_id,
        source_revision: scan.source_revision,
        created_at,
    }
}

/// Whether sources make the snapshots of the completed scans, in the order in which the
/// scans started, ties as they stand.
pub open spec fn are_scan_sources(scans: Seq<UnsealedScan>, sources: Seq<SnapshotSource>) -> bool {
    let completed = completed_scans(scans);
    exists|sorted: Seq<UnsealedScan>|
        {
            &&& #[trigger] is_stable_sort(completed, scan_starts(completed), sorted)
            &&& sources.len() == sorted.len()
            &&& forall|i: int| 0 <= i < sorted.len() ==> is_scan_source(sorted[i], #[trigger] sources[i])
        }
}

/// The sources of the snapshots that the completed scans of an older store lack, in the
/// order in which the scans started. `scans` stand in the order in which they were stored.
pub fn backfill_scans(scans: Vec<UnsealedScan>) -> (result: Vec<SnapshotSource>)
    ensures
        are_scan_sources(scans@, result@),
{
    let ghost all = scans@;
    let mut completed: Vec<UnsealedScan> = Vec::new();
    let mut keys: Vec<String> = Vec::new();
    for scan in it: scans
        invariant
            it.seq() == all,
            completed@ == collect(it.index() as int, scan_completed(all), |i: int| all[i]),
            keys.len() == completed.len(),
            forall|k: int| 0 <= k < keys.len() ==> (#[trigger] keys@[k])@ == completed@[k].started_at@,
    {
        assert(scan == all[it.index() as int]);
        if same(scan.status.as_str(), "completed") {
            keys.push(scan.started_at.clone());
            completed.push(scan);
        }
    }
    assert(completed@ == completed_scans(all));
    assert(texts(keys@) =~= scan_starts(completed@));
    let ghost kept = completed@;
    let sorted = stable_sort(completed, &keys);
    let ghost source = sorted@;
    let mut result: Vec<SnapshotSource> = Vec::new();
    for scan in it: sorted
        invariant
            it.seq() == source,
            result.len() == it.index(),
            forall|k: int| 0 <= k < result.len() ==> is_scan_source(source[k], #[trigger] result@[k]),
    {
        assert(scan == source[it.index() as int]);
        result.push(scan_snapshot_source(scan));
    }
    assert(is_stable_sort(kept, scan_starts(kept), source));
    result
}

/// The completed builds of an older store that lack a snapshot, in the order in which they
/// started. `builds` stand in the order in which they were stored.
pub fn backfill_builds(builds: Vec<UnsealedBuild>) -> (result: Vec<UnsealedBuild>)
    ensures
        is_stable_sort(completed_builds(builds@), build_starts(completed_builds(builds@)), result@),
{
    let ghost all = builds@;
    let mut completed: Vec<UnsealedBuild> = Vec::new();
    let mut keys: Vec<String> = Vec::new();
    for build in it: builds
        invariant
            it.seq() == all,
            completed@ == collect(it.index() as int, build_completed(all), |i: int| all[i]),
            keys.len() == completed.len(),
            forall|k: int| 0 <= k < keys.len() ==> (#[trigger] keys@[k])@ == completed@[k].started_at@,
    {
        assert(build == all[it.index() as int]);
        if same(build.status.as_str(), "completed") && build.has_delta {
            keys.push(build.started_at.clone());
            completed.push(build);
        }
    }
    assert(completed@ == completed_builds(all));
    assert(texts(keys@) =~= build_starts(completed@));
    stable_sort(completed, &keys)
}

/// The source of the snapshot of a build on the snapshot of its base scan, which is there.
pub fn build_snapshot_source(
    build: UnsealedBuild,
    base_snapshot_id: Option<&str>,
    source_revision: Option<String>,
) -> (result: Result<SnapshotSource, SnapshotError>)
    ensures
        match base_snapshot_id {
            None => result == Err::<SnapshotSource, _>(SnapshotError::NoBaseSnapshot),
            Some(base) => result matches Ok(source) && is_build_source(build, base@, source_revision, source),
        },
{
    let base_snapshot_id = match base_snapshot_id {
        Some(base_snapshot_id) => base_snapshot_id,
        None => {
            return Err(SnapshotError::NoBaseSnapshot);
        },
    };
    let created_at: String = match build.completed_at {
        Some(completed_at) => completed_at,
        None => build.started_at,
    };
    Ok(
        SnapshotSource {
            source_kind: String::from_str("build"),
            source_attempt_id: build.id.clone(),
            scan_id: build.base_scan_id,
            build_attempt_id: Some(build.id),
            runtime_import_id: None,
            runtime_session_ids: Vec::new(),
            parent_snapshot_id: Some(String::from_str(base_snapshot_id)),
            source_revision,
            created_at,
        },
    )
}

/// The source whose snapshot becomes the current one: the current build of the current
/// scan, else the scan itself; none where there is no current scan.
pub fn backfill_current<'a>(current_scan_id: Option<&'a str>, current_build_id: Option<&'a str>) -> (result: Option<
    (&'static str, &'a str),
>)
    ensures
        match (current_scan_id, current_build_id) {
            (None, _) => result is None,
            (Some(scan_id), None) => result matches Some((kind, id)) && kind@ == "scan"@ && id@ == scan_id@,
            (Some(_), Some(build_id)) => result matches Some((kind, id)) && kind@ == "build"@ && id@ == build_id@,
        },
{
    match (current_scan_id, current_build_id) {
        (None, _) => None,
        (Some(scan_id), None) => Some(("scan", scan_id)),
        (Some(_), Some(build_id)) => Some(("build", build_id)),
    }
}

// ---------------------------------------------------------------------------------------
// Laws
// ---------------------------------------------------------------------------------------

/// A name that a snapshot can have is never taken for a reserved selector, nor for an
/// identity.
pub proof fn names_are_unambiguous(name: Seq<char>, id: Seq<char>)
    requires
        name_error(name) is None,
        is_like_identity(id),
    ensures
        upper_text(name) != "CURRENT"@,
        upper_text(name) != "LATEST"@,
        name != id,
{
}

/// A name that a snapshot can have selects that snapshot, as long as no snapshot has the
/// name as its identity.
pub proof fn names_select_their_snapshot(
    name: Seq<char>,
    snapshot_id: Seq<char>,
    current: Option<Seq<char>>,
)
    requires
        name_error(name) is None,
    ensures
        selected(name, current, None, Some(snapshot_id)) == Ok::<_, SnapshotError>(snapshot_id),
{
    assert(!is_space_char(name[0]));
}

/// A collection never deletes a scan that is staging, that a snapshot comes from, that is
/// current, that an operation owns, or on which a build that is kept rests.
pub proof fn collection_keeps_referenced_scans(rows: CollectionRows, collection: Collection, i: int)
    requires
        is_collection(rows, collection),
        0 <= i < rows.scans@.len(),
        rows.scans@[i].status@ == "staging"@ || texts(rows.scan_sources@).contains(rows.scans@[i].id@) || texts(
            rows.current_scans@,
        ).contains(rows.scans@[i].id@) || texts(rows.owned_scans@).contains(rows.scans@[i].id@) || kept_bases(
            rows,
        ).contains(rows.scans@[i].id@),
        forall|j: int|
            0 <= j < rows.scans@.len() && j != i ==> (#[trigger] rows.scans@[j]).id@ != rows.scans@[i].id@,
    ensures
        !texts(collection.scans@).contains(rows.scans@[i].id@),
{
    let keep = scan_is_garbage(rows);
    let id = rows.scans@[i].id@;
    crate::order::collect_holds_the_kept_items(rows.scans@.len() as int, keep, scan_at(rows), id);
    if texts(collection.scans@).contains(id) {
        let j = choose|j: int| 0 <= j < rows.scans@.len() && #[trigger] keep(j) && scan_at(rows)(j) == id;
        assert(rows.scans@[j].id@ == id);
    }
}

/// A collection never deletes a build that is staging, that a snapshot comes from, or that is
/// current; nor the audit of a build that it keeps.
pub proof fn collection_keeps_referenced_builds(rows: CollectionRows, collection: Collection, i: int)
    requires
        is_collection(rows, collection),
        0 <= i < rows.builds@.len(),
        rows.builds@[i].status@ == "staging"@ || texts(rows.build_sources@).contains(rows.builds@[i].id@) || texts(
            rows.current_builds@,
        ).contains(rows.builds@[i].id@),
        forall|j: int|
            0 <= j < rows.builds@.len() && j != i ==> (#[trigger] rows.builds@[j]).id@ != rows.builds@[i].id@,
    ensures
        !texts(collection.builds@).contains(rows.builds@[i].id@),
        !texts(collection.audits@).contains(rows.builds@[i].audit_run_id@),
        !texts(collection.scans@).contains(rows.builds@[i].base_scan_id@),
{
    let count = rows.builds@.len() as int;
    let keep = build_is_garbage(rows);
    let id = rows.builds@[i].id@;
    crate::order::collect_holds_the_kept_items(count, keep, build_at(rows), id);
    if texts(collection.builds@).contains(id) {
        let j = choose|j: int| 0 <= j < count && #[trigger] keep(j) && build_at(rows)(j) == id;
        assert(rows.builds@[j].id@ == id);
    }
    let audit = rows.builds@[i].audit_run_id@;
    assert(build_is_kept(rows)(i));
    assert(audit_at(rows)(i) == audit);
    crate::order::collect_holds_the_kept_items(count, build_is_kept(rows), audit_at(rows), audit);
    let runs = rows.audits@.len() as int;
    crate::order::collect_holds_the_kept_items(runs, audit_is_garbage(rows), run_at(rows), audit);
    if texts(collection.audits@).contains(audit) {
        let j = choose|j: int| 0 <= j < runs && #[trigger] audit_is_garbage(rows)(j) && run_at(rows)(j) == audit;
        assert(rows.audits@[j]@ == audit);
    }
    let base = rows.builds@[i].base_scan_id@;
    assert(base_at(rows)(i) == base);
    crate::order::collect_holds_the_kept_items(count, build_is_kept(rows), base_at(rows), base);
    let scans = rows.scans@.len() as int;
    crate::order::collect_holds_the_kept_items(scans, scan_is_garbage(rows), scan_at(rows), base);
    if texts(collection.scans@).contains(base) {
        let j = choose|j: int| 0 <= j < scans && #[trigger] scan_is_garbage(rows)(j) && scan_at(rows)(j) == base;
        assert(rows.scans@[j].id@ == base);
    }
}

/// A collection never deletes a scan that an operation owns, so that the proof that a scan was
/// cancelled for an operation stays until it is acknowledged.
pub proof fn collection_keeps_cancellation_proofs(rows: CollectionRows, collection: Collection, scan_id: Seq<char>)
    requires
        is_collection(rows, collection),
        texts(rows.owned_scans@).contains(scan_id),
    ensures
        !texts(collection.scans@).contains(scan_id),
{
    let count = rows.scans@.len() as int;
    crate::order::collect_holds_the_kept_items(count, scan_is_garbage(rows), scan_at(rows), scan_id);
    if texts(collection.scans@).contains(scan_id) {
        let j = choose|j: int| 0 <= j < count && #[trigger] scan_is_garbage(rows)(j) && scan_at(rows)(j) == scan_id;
        assert(rows.scans@[j].id@ == scan_id);
    }
}

/// A scan that is promoted executed no project code and was not written to since it was
/// validated.
pub proof fn promoted_scans_are_safe(state: ScanState, validated_mutation_count: Option<i64>)
    requires
        finish_error(Some(state), "completed"@, true, validated_mutation_count) is None,
    ensures
        !state.project_code_executed,
        state.unapplied_deltas == 0,
        validated_mutation_count is Some ==> validated_mutation_count == Some(state.mutation_count),
{
}

/// The record of the snapshot that a source makes is accepted as such when it is read back.
pub proof fn recorded_snapshots_are_accepted(
    source: SnapshotSource,
    snapshot_id: Seq<char>,
    profile_ids: Seq<Seq<char>>,
    record: CompletedSnapshotRecord,
)
    requires
        is_record_of(source, snapshot_id, profile_ids, record),
    ensures
        is_made_from(record, source, profile_ids),
{
}

} // verus!

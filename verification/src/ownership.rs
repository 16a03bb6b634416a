//! The rows that record which operations own staged runtime imports and staged scans:
//! whether they are sound, and how they are made for work that predates them.

use vstd::prelude::*;
use vstd::utf8::{encode_utf8, encode_utf8_decode_utf8, valid_utf8};

use crate::digest::sha256_digest;
use crate::operations::{
    is_legacy_candidate, legacy_candidate_name, legacy_owner_input, legacy_owner_name, legacy_runtime_import_owner_id,
    legacy_scan_operation_candidate_id, opt_bytes, starts_with, zero_digest, OperationError,
    LEGACY_RUNTIME_IMPORT_OWNER_PREFIX,
};
use crate::order::{
    count_of, first_failure, first_failure_remains,
};
use crate::records::{LegacyRuntimeImportCandidate, LegacyScanOperationCandidate, ScanOperationRecoveryBinding};
use crate::staging::{staging_row_failure, validate_staging_row};
use crate::text::{byte_len, decode_text, opt_text, same, same_option};

verus! {

/// Why the recorded ownership is refused.
#[derive(Debug, Clone, Copy, PartialEq, Eq, Structural)]
pub enum OwnershipError {
    /// A staged runtime import that predates ownership is inconsistent.
    LegacyImportInconsistent,
    /// A scan that predates ownership is inconsistent.
    LegacyScanInconsistent,
    /// A completed scan that predates ownership has no snapshot.
    LegacyScanWithoutSnapshot,
    /// There are owners of runtime imports but no runtime imports.
    OwnersWithoutImports,
    /// Owners are unsound, or staged imports have none.
    ImportRowsInconsistent { invalid: u64, unowned: u64 },
    /// The identity of an import or of its owner is no text.
    NotText,
    /// The owner of an import that predates ownership is not the one of that import.
    ImportIdentityInconsistent,
    /// There are staged scans but no complete tables of scans.
    StagingWithoutScans,
    /// Rows of staged scans are unsound.
    StagingRowsInconsistent { count: u64 },
}

// ---------------------------------------------------------------------------------------
// Work that predates ownership
// ---------------------------------------------------------------------------------------

/// A staged runtime import of a store that predates ownership.
#[derive(Debug, Clone)]
pub struct LegacyImportRow {
    pub id: String,
    pub created_at: String,
    pub has_result: bool,
}

/// Why a staged runtime import cannot be taken over; nothing where it can.
pub open spec fn legacy_import_failure(rows: Seq<LegacyImportRow>) -> spec_fn(int) -> Option<OwnershipError> {
    |i: int|
        if !(1 <= byte_len(rows[i].id@) <= 512) || rows[i].created_at@.len() == 0 || rows[i].has_result {
            Some(OwnershipError::LegacyImportInconsistent)
        } else {
            None
        }
}

/// Whether candidates stand for staged runtime imports.
pub open spec fn are_import_candidates(
    rows: Seq<LegacyImportRow>,
    candidates: Seq<LegacyRuntimeImportCandidate>,
) -> bool {
    &&& candidates.len() == rows.len()
    &&& forall|i: int|
        0 <= i < rows.len() ==> (#[trigger] candidates[i]).import_id == rows[i].id && candidates[i].created_at
            == rows[i].created_at
}

/// The staged runtime imports that an ownership is recorded for, or why one cannot be
/// taken over.
pub fn authenticate_legacy_runtime_import_candidates(rows: Vec<LegacyImportRow>) -> (result: Result<
    Vec<LegacyRuntimeImportCandidate>,
    OwnershipError,
>)
    ensures
        match first_failure(rows@.len() as int, legacy_import_failure(rows@)) {
            Some(error) => result matches Err(found) && found == error,
            None => result matches Ok(candidates) && are_import_candidates(rows@, candidates@),
        },
{
    let ghost all = rows@;
    let ghost failure = legacy_import_failure(all);
    let mut candidates: Vec<LegacyRuntimeImportCandidate> = Vec::new();
    for row in it: rows
        invariant
            it.seq() == all,
            all == rows@,
            failure == legacy_import_failure(all),
            first_failure(it.index() as int, failure) is None,
            candidates.len() == it.index(),
            forall|k: int|
                0 <= k < candidates.len() ==> (#[trigger] candidates@[k]).import_id == all[k].id
                    && candidates@[k].created_at == all[k].created_at,
    {
        assert(row == all[it.index() as int]);
        let length: usize = row.id.as_str().as_bytes().len();
        if length == 0 || length > 512 || row.created_at.as_str().is_empty() || row.has_result {
            proof {
                assert(failure(it.index() as int) is Some);
                first_failure_remains(it.index() as int + 1, all.len() as int, failure);
            }
            return Err(OwnershipError::LegacyImportInconsistent);
        }
        assert(failure(it.index() as int) is None);
        candidates.push(LegacyRuntimeImportCandidate { import_id: row.id, created_at: row.created_at });
    }
    Ok(candidates)
}

/// The owner that is recorded for a staged runtime import.
#[derive(Debug, Clone)]
pub struct NewImportOwner {
    pub import_id: String,
    pub operation_id: String,
    pub created_at: String,
}

/// Whether an owner is the one recorded for a candidate.
pub open spec fn is_owner_of(candidate: LegacyRuntimeImportCandidate, owner: NewImportOwner) -> bool {
    &&& owner.import_id@ == candidate.import_id@
    &&& owner.operation_id@ == legacy_owner_name(sha256_digest(legacy_owner_input(candidate.import_id@)))
    &&& owner.created_at@ == candidate.created_at@
}

/// The owner that is recorded for a staged runtime import that predates ownership.
pub fn legacy_import_owner(candidate: LegacyRuntimeImportCandidate) -> (result: NewImportOwner)
    ensures
        is_owner_of(candidate, result),
{
    let operation_id = legacy_runtime_import_owner_id(candidate.import_id.as_str());
    NewImportOwner { import_id: candidate.import_id, operation_id, created_at: candidate.created_at }
}

/// A staging or completed scan of a store that predates ownership, with the snapshot that
/// it became.
#[derive(Debug, Clone)]
pub struct LegacyScanRow {
    pub id: String,
    pub status: String,
    pub strict: i64,
    pub parent_snapshot_id: Option<String>,
    pub mutation_count: i64,
    pub started_at: String,
    pub snapshot_id: Option<String>,
}

/// Why a scan cannot be taken over; nothing where it can.
pub open spec fn legacy_scan_failure(rows: Seq<LegacyScanRow>) -> spec_fn(int) -> Option<OwnershipError> {
    |i: int|
        {
            let row = rows[i];
            if !(1 <= byte_len(row.id@) <= 512) || (row.strict != 0 && row.strict != 1) || row.started_at@.len() == 0
                || (row.status@ == "completed"@ && row.mutation_count < 0) {
                Some(OwnershipError::LegacyScanInconsistent)
            } else if row.status@ == "completed"@ && row.snapshot_id is None {
                Some(OwnershipError::LegacyScanWithoutSnapshot)
            } else {
                None
            }
        }
}

/// Whether a candidate stands for a scan: a completed one with its mutation count and its
/// snapshot, a staging one without.
pub open spec fn is_scan_candidate(row: LegacyScanRow, candidate: LegacyScanOperationCandidate) -> bool {
    &&& candidate.scan_id == row.id
    &&& candidate.strict == (row.strict != 0)
    &&& candidate.parent_snapshot_id == row.parent_snapshot_id
    &&& candidate.started_at == row.started_at
    &&& if row.status@ == "completed"@ {
        candidate.validated_mutation_count == Some(row.mutation_count) && candidate.prospective_snapshot_id
            == row.snapshot_id
    } else {
        candidate.validated_mutation_count is None && candidate.prospective_snapshot_id is None
    }
}

/// The scans that a sentinel is recorded for, or why one cannot be taken over. `rows` are
/// the staging and the completed scans.
pub fn authenticate_legacy_scan_operation_candidates(rows: Vec<LegacyScanRow>) -> (result: Result<
    Vec<LegacyScanOperationCandidate>,
    OwnershipError,
>)
    ensures
        match first_failure(rows@.len() as int, legacy_scan_failure(rows@)) {
            Some(error) => result matches Err(found) && found == error,
            None => result matches Ok(candidates) && candidates@.len() == rows@.len() && forall|i: int|
                0 <= i < rows@.len() ==> is_scan_candidate(rows@[i], #[trigger] candidates@[i]),
        },
{
    let ghost all = rows@;
    let ghost failure = legacy_scan_failure(all);
    let mut candidates: Vec<LegacyScanOperationCandidate> = Vec::new();
    for row in it: rows
        invariant
            it.seq() == all,
            all == rows@,
            failure == legacy_scan_failure(all),
            first_failure(it.index() as int, failure) is None,
            candidates.len() == it.index(),
            forall|k: int| 0 <= k < candidates.len() ==> is_scan_candidate(all[k], #[trigger] candidates@[k]),
    {
        let ghost at = it.index() as int;
        assert(row == all[at]);
        let completed = same(row.status.as_str(), "completed");
        let length: usize = row.id.as_str().as_bytes().len();
        if length == 0 || length > 512 || (row.strict != 0 && row.strict != 1) || row.started_at.as_str().is_empty()
            || (completed && row.mutation_count < 0) {
            proof {
                assert(failure(at) == Some(OwnershipError::LegacyScanInconsistent));
                first_failure_remains(at + 1, all.len() as int, failure);
            }
            return Err(OwnershipError::LegacyScanInconsistent);
        }
        if completed && row.snapshot_id.is_none() {
            proof {
                assert(failure(at) == Some(OwnershipError::LegacyScanWithoutSnapshot));
                first_failure_remains(at + 1, all.len() as int, failure);
            }
            return Err(OwnershipError::LegacyScanWithoutSnapshot);
        }
        assert(failure(at) is None);
        let validated_mutation_count: Option<i64> = if completed {
            Some(row.mutation_count)
        } else {
            None
        };
        let prospective_snapshot_id: Option<String> = if completed {
            row.snapshot_id
        } else {
            None
        };
        candidates.push(
            LegacyScanOperationCandidate {
                scan_id: row.id,
                strict: row.strict != 0,
                parent_snapshot_id: row.parent_snapshot_id,
                validated_mutation_count,
                prospective_snapshot_id,
                started_at: row.started_at,
            },
        );
    }
    Ok(candidates)
}

/// A row of staged scans that is to be recorded.
#[derive(Debug, Clone)]
pub struct NewStagingRow {
    pub operation_id: String,
    pub scan_id: String,
    pub repository_binding_digest: Vec<u8>,
    pub configuration_digest: Vec<u8>,
    pub strict: bool,
    pub cache_enabled: bool,
    pub base_snapshot_id: Option<String>,
    pub validated_mutation_count: Option<i64>,
    pub prospective_snapshot_id: Option<String>,
    pub result_digest: Option<Vec<u8>>,
    pub decision_authorization_digest: Option<Vec<u8>>,
    pub created_at: String,
}

/// Whether a row is the sentinel of a scan that predates ownership: under a reserved
/// identity and without any authority.
pub open spec fn is_sentinel(candidate: LegacyScanOperationCandidate, row: NewStagingRow) -> bool {
    &&& row.operation_id@ == legacy_candidate_name(sha256_digest(encode_utf8(candidate.scan_id@)))
    &&& row.scan_id@ == candidate.scan_id@
    &&& row.repository_binding_digest@ == zero_digest()
    &&& row.configuration_digest@ == zero_digest()
    &&& row.strict == candidate.strict
    &&& !row.cache_enabled
    &&& row.base_snapshot_id == candidate.parent_snapshot_id
    &&& row.validated_mutation_count == candidate.validated_mutation_count
    &&& row.prospective_snapshot_id == candidate.prospective_snapshot_id
    &&& row.result_digest is None
    &&& opt_bytes(row.decision_authorization_digest) == Some(zero_digest())
    &&& row.created_at@ == candidate.started_at@
}

fn zero_bytes() -> (result: Vec<u8>)
    ensures
        result@ == zero_digest(),
{
    let mut result: Vec<u8> = Vec::new();
    let mut i: usize = 0;
    while i < 32
        invariant
            i <= 32,
            result.len() == i,
            forall|k: int| 0 <= k < i ==> result@[k] == 0u8,
        decreases 32 - i,
    {
        result.push(0u8);
        i = i + 1;
    }
    assert(result@ =~= zero_digest());
    result
}

/// The sentinel that is recorded for a scan that predates ownership.
pub fn legacy_sentinel(candidate: LegacyScanOperationCandidate) -> (result: NewStagingRow)
    ensures
        is_sentinel(candidate, result),
{
    let operation_id = legacy_scan_operation_candidate_id(candidate.scan_id.as_str());
    NewStagingRow {
        operation_id,
        scan_id: candidate.scan_id,
        repository_binding_digest: zero_bytes(),
        configuration_digest: zero_bytes(),
        strict: candidate.strict,
        cache_enabled: false,
        base_snapshot_id: candidate.parent_snapshot_id,
        validated_mutation_count: candidate.validated_mutation_count,
        prospective_snapshot_id: candidate.prospective_snapshot_id,
        result_digest: None,
        decision_authorization_digest: Some(zero_bytes()),
        created_at: candidate.started_at,
    }
}

// ---------------------------------------------------------------------------------------
// Owners of runtime imports
// ---------------------------------------------------------------------------------------

/// One owner as it is stored, with the import that it names. Texts are there as bytes, and
/// only where the store holds a text.
#[derive(Debug, Clone)]
pub struct StoredImportOwner {
    pub import_id: Option<Vec<u8>>,
    pub operation_id: Option<Vec<u8>>,
    pub created_at: Option<Vec<u8>>,
    pub import: Option<StoredImport>,
}

/// An import as it is stored.
#[derive(Debug, Clone)]
pub struct StoredImport {
    pub id: Vec<u8>,
    pub status: String,
    pub has_result: bool,
}

/// Whether a stored text is there and has between one and so many bytes.
pub open spec fn is_bounded(value: Option<Vec<u8>>, most: int) -> bool {
    match value {
        Some(bytes) => 1 <= bytes@.len() <= most,
        None => false,
    }
}

/// Whether a stored text is there and is not empty. To the store a text ends before its first
/// zero character.
pub open spec fn is_filled(value: Option<Vec<u8>>) -> bool {
    match value {
        Some(bytes) => bytes@.len() > 0 && bytes@[0] != 0,
        None => false,
    }
}

/// Whether an import is staged and has no result.
pub open spec fn is_open_import(import: StoredImport) -> bool {
    import.status@ == "staging"@ && !import.has_result
}

/// Whether an owner is sound: its identities are bounded texts, it knows when it was made,
/// and the import that it names is staged.
pub open spec fn owner_is_sound(owner: StoredImportOwner) -> bool {
    &&& is_bounded(owner.import_id, 512)
    &&& is_bounded(owner.operation_id, 512)
    &&& is_filled(owner.created_at)
    &&& owner.import matches Some(import)
    &&& is_open_import(import)
}

/// Which owners are unsound.
pub open spec fn owner_is_unsound(owners: Seq<StoredImportOwner>) -> spec_fn(int) -> bool {
    |i: int| !owner_is_sound(owners[i])
}

/// Whether some owner names an import.
pub open spec fn has_owner(owners: Seq<StoredImportOwner>, id: Seq<u8>) -> bool {
    exists|i: int| 0 <= i < owners.len() && opt_bytes((#[trigger] owners[i]).import_id) == Some(id)
}

/// Which imports are staged and have no owner.
pub open spec fn is_unowned(owners: Seq<StoredImportOwner>, imports: Seq<StoredImport>) -> spec_fn(int) -> bool {
    |i: int| is_open_import(imports[i]) && !has_owner(owners, imports[i].id@)
}

/// What an identity of an owner amounts to: both identities are texts, and an owner in the
/// reserved namespace is the one of its import.
pub open spec fn owner_identity_failure(owners: Seq<StoredImportOwner>) -> spec_fn(int) -> Option<OwnershipError> {
    |i: int|
        match (owners[i].import_id, owners[i].operation_id) {
            (Some(import_id), Some(operation_id)) => if !valid_utf8(import_id@) || !valid_utf8(operation_id@) {
                Some(OwnershipError::NotText)
            } else {
                let import = vstd::utf8::decode_utf8(import_id@);
                let operation = vstd::utf8::decode_utf8(operation_id@);
                if LEGACY_RUNTIME_IMPORT_OWNER_PREFIX@.is_prefix_of(operation) && operation != legacy_owner_name(
                    sha256_digest(legacy_owner_input(import)),
                ) {
                    Some(OwnershipError::ImportIdentityInconsistent)
                } else {
                    None
                }
            },
            _ => Some(OwnershipError::NotText),
        }
}

/// Why the owners of runtime imports are refused; nothing where they are sound.
pub open spec fn import_owners_error(
    owners: Seq<StoredImportOwner>,
    imports: Option<Seq<StoredImport>>,
) -> Option<OwnershipError> {
    match imports {
        None => if owners.len() != 0 {
            Some(OwnershipError::OwnersWithoutImports)
        } else {
            None
        },
        Some(imports) => {
            let invalid = count_of(owners.len() as int, owner_is_unsound(owners));
            let unowned = count_of(imports.len() as int, is_unowned(owners, imports));
            if invalid != 0 || unowned != 0 {
                Some(OwnershipError::ImportRowsInconsistent { invalid: invalid as u64, unowned: unowned as u64 })
            } else {
                first_failure(owners.len() as int, owner_identity_failure(owners))
            }
        },
    }
}

fn bounded(value: &Option<Vec<u8>>) -> (result: bool)
    ensures
        result == is_bounded(*value, 512),
{
    match value {
        Some(bytes) => 1 <= bytes.len() && bytes.len() <= 512,
        None => false,
    }
}

fn filled(value: &Option<Vec<u8>>) -> (result: bool)
    ensures
        result == is_filled(*value),
{
    match value {
        Some(bytes) => bytes.len() > 0 && bytes[0] != 0,
        None => false,
    }
}

fn sound_owner(owner: &StoredImportOwner) -> (result: bool)
    ensures
        result == owner_is_sound(*owner),
{
    if !bounded(&owner.import_id) || !bounded(&owner.operation_id) {
        return false;
    }
    let made = filled(&owner.created_at);
    match &owner.import {
        Some(import) => made && same(import.status.as_str(), "staging") && !import.has_result,
        None => false,
    }
}

fn some_owner(owners: &Vec<StoredImportOwner>, id: &Vec<u8>) -> (result: bool)
    ensures
        result == has_owner(owners@, id@),
{
    let mut i: usize = 0;
    while i < owners.len()
        invariant
            i <= owners.len(),
            forall|k: int| 0 <= k < i ==> opt_bytes((#[trigger] owners@[k]).import_id) != Some(id@),
        decreases owners.len() - i,
    {
        match &owners[i].import_id {
            Some(import_id) => {
                if crate::digest::same_bytes(import_id.as_slice(), id.as_slice()) {
                    assert(opt_bytes(owners@[i as int].import_id) == Some(id@));
                    return true;
                }
            },
            None => {},
        }
        i = i + 1;
    }
    false
}

fn check_owner_identity(import_id: &Vec<u8>, operation_id: &Vec<u8>) -> (result: Option<OwnershipError>)
    ensures
        result == if !valid_utf8(import_id@) || !valid_utf8(operation_id@) {
            Some(OwnershipError::NotText)
        } else {
            let import = vstd::utf8::decode_utf8(import_id@);
            let operation = vstd::utf8::decode_utf8(operation_id@);
            if LEGACY_RUNTIME_IMPORT_OWNER_PREFIX@.is_prefix_of(operation) && operation != legacy_owner_name(
                sha256_digest(legacy_owner_input(import)),
            ) {
                Some(OwnershipError::ImportIdentityInconsistent)
            } else {
                None
            }
        },
{
    let import = match decode_text(import_id.clone()) {
        Some(import) => import,
        None => {
            return Some(OwnershipError::NotText);
        },
    };
    let operation = match decode_text(operation_id.clone()) {
        Some(operation) => operation,
        None => {
            return Some(OwnershipError::NotText);
        },
    };
    proof {
        encode_utf8_decode_utf8(import@);
        encode_utf8_decode_utf8(operation@);
        vstd::utf8::encode_utf8_valid_utf8(import@);
        vstd::utf8::encode_utf8_valid_utf8(operation@);
    }
    if starts_with(operation.as_str(), LEGACY_RUNTIME_IMPORT_OWNER_PREFIX) {
        let expected = legacy_runtime_import_owner_id(import.as_str());
        if !same(operation.as_str(), expected.as_str()) {
            return Some(OwnershipError::ImportIdentityInconsistent);
        }
    }
    None
}

/// Whether the owners of runtime imports are sound: each of them is, each staged import
/// has one, and those in the reserved namespace are the ones of their imports. Without a
/// table of imports there are no owners.
pub fn validate_runtime_import_owners(
    owners: &Vec<StoredImportOwner>,
    imports: Option<&Vec<StoredImport>>,
) -> (result: Result<(), OwnershipError>)
    ensures
        result == match import_owners_error(
            owners@,
            match imports {
                Some(imports) => Some(imports@),
                None => None,
            },
        ) {
            Some(error) => Err::<(), _>(error),
            None => Ok(()),
        },
{
    let stored = match imports {
        Some(stored) => stored,
        None => {
            if owners.len() != 0 {
                return Err(OwnershipError::OwnersWithoutImports);
            }
            return Ok(());
        },
    };
    let ghost unsound = owner_is_unsound(owners@);
    let mut invalid: u64 = 0;
    let mut i: usize = 0;
    while i < owners.len()
        invariant
            i <= owners.len(),
            unsound == owner_is_unsound(owners@),
            invalid == count_of(i as int, unsound),
            invalid <= i,
        decreases owners.len() - i,
    {
        let sound = sound_owner(&owners[i]);
        assert(unsound(i as int) == !sound);
        if !sound {
            invalid = invalid + 1;
        }
        i = i + 1;
    }
    let ghost lacking = is_unowned(owners@, stored@);
    let mut unowned: u64 = 0;
    let mut i: usize = 0;
    while i < stored.len()
        invariant
            i <= stored.len(),
            lacking == is_unowned(owners@, stored@),
            unowned == count_of(i as int, lacking),
            unowned <= i,
        decreases stored.len() - i,
    {
        let lacks: bool = same(stored[i].status.as_str(), "staging") && !stored[i].has_result && !some_owner(
            owners,
            &stored[i].id,
        );
        assert(lacking(i as int) == lacks);
        if lacks {
            unowned = unowned + 1;
        }
        i = i + 1;
    }
    if invalid != 0 || unowned != 0 {
        return Err(OwnershipError::ImportRowsInconsistent { invalid, unowned });
    }
    let ghost failure = owner_identity_failure(owners@);
    let mut i: usize = 0;
    while i < owners.len()
        invariant
            i <= owners.len(),
            failure == owner_identity_failure(owners@),
            first_failure(i as int, failure) is None,
            imports == Some(stored),
            count_of(owners@.len() as int, owner_is_unsound(owners@)) == 0,
            count_of(stored@.len() as int, is_unowned(owners@, stored@)) == 0,
        decreases owners.len() - i,
    {
        let found: Option<OwnershipError> = match (&owners[i].import_id, &owners[i].operation_id) {
            (Some(import_id), Some(operation_id)) => check_owner_identity(import_id, operation_id),
            _ => Some(OwnershipError::NotText),
        };
        assert(found == failure(i as int));
        if let Some(error) = found {
            proof {
                first_failure_remains(i as int + 1, owners@.len() as int, failure);
            }
            return Err(error);
        }
        i = i + 1;
    }
    Ok(())
}

// ---------------------------------------------------------------------------------------
// Staged scans
// ---------------------------------------------------------------------------------------

/// What a column of bytes holds.
#[derive(Debug, Clone)]
pub enum StoredBytes {
    Null,
    Bytes(Vec<u8>),
    Other,
}

/// The scan of a staged row, as it is stored.
#[derive(Debug, Clone)]
pub struct StoredScan {
    pub status: String,
    pub strict: i64,
    pub parent_snapshot_id: Option<String>,
    pub mutation_count: i64,
}

/// One row of staged scans as it is stored, with the scan that it names. Texts are there
/// as bytes, and only where the store holds a text.
#[derive(Debug, Clone)]
pub struct StoredStagingRow {
    pub operation_id: Option<Vec<u8>>,
    pub scan_id: Option<Vec<u8>>,
    pub repository_binding_digest: StoredBytes,
    pub configuration_digest: StoredBytes,
    pub strict: i64,
    pub cache_enabled: i64,
    pub base_snapshot_id: Option<String>,
    pub validated_mutation_count: Option<i64>,
    pub prospective_snapshot_id: Option<String>,
    pub result_digest: StoredBytes,
    pub decision_authorization_digest: StoredBytes,
    pub created_at: Option<Vec<u8>>,
    pub scan: Option<StoredScan>,
}

/// Whether a column holds a digest.
pub open spec fn is_digest(value: StoredBytes) -> bool {
    value matches StoredBytes::Bytes(bytes) && bytes@.len() == 32
}

/// Whether a number is a flag.
pub open spec fn is_flag(value: i64) -> bool {
    value == 0 || value == 1
}

/// Whether a staged scan can have the status.
pub open spec fn is_owned_status(status: Seq<char>) -> bool {
    status == "staging"@ || status == "completed"@ || status == "cancelled"@
}

/// Whether a row agrees with its scan: it has the scan's strictness and parent, and where
/// it is sealed, the scan's mutation count and a snapshot; where not, neither a snapshot
/// nor a result.
pub open spec fn agrees_with_scan(row: StoredStagingRow, scan: StoredScan) -> bool {
    &&& is_owned_status(scan.status@)
    &&& row.strict == scan.strict
    &&& opt_text(row.base_snapshot_id) == opt_text(scan.parent_snapshot_id)
    &&& match row.validated_mutation_count {
        None => row.prospective_snapshot_id is None && row.result_digest == StoredBytes::Null,
        Some(count) => count >= 0 && count == scan.mutation_count && row.prospective_snapshot_id is Some,
    }
}

/// Whether a row of staged scans is sound.
pub open spec fn staging_is_sound(row: StoredStagingRow) -> bool {
    &&& is_bounded(row.operation_id, 512)
    &&& is_bounded(row.scan_id, 512)
    &&& is_digest(row.repository_binding_digest)
    &&& is_digest(row.configuration_digest)
    &&& is_flag(row.strict)
    &&& is_flag(row.cache_enabled)
    &&& row.result_digest == StoredBytes::Null || is_digest(row.result_digest)
    &&& row.decision_authorization_digest == StoredBytes::Null || is_digest(row.decision_authorization_digest)
    &&& is_filled(row.created_at)
    &&& row.scan matches Some(scan)
    &&& agrees_with_scan(row, scan)
}

/// Which rows of staged scans are unsound.
pub open spec fn staging_is_unsound(rows: Seq<StoredStagingRow>) -> spec_fn(int) -> bool {
    |i: int| !staging_is_sound(rows[i])
}

fn holds_digest(value: &StoredBytes) -> (result: bool)
    ensures
        result == is_digest(*value),
{
    match value {
        StoredBytes::Bytes(bytes) => bytes.len() == 32,
        _ => false,
    }
}

fn holds_nothing(value: &StoredBytes) -> (result: bool)
    ensures
        result == (*value == StoredBytes::Null),
{
    match value {
        StoredBytes::Null => true,
        _ => false,
    }
}

fn sound_staging(row: &StoredStagingRow) -> (result: bool)
    ensures
        result == staging_is_sound(*row),
{
    if !bounded(&row.operation_id) || !bounded(&row.scan_id) || !holds_digest(&row.repository_binding_digest)
        || !holds_digest(&row.configuration_digest) {
        return false;
    }
    if (row.strict != 0 && row.strict != 1) || (row.cache_enabled != 0 && row.cache_enabled != 1) {
        return false;
    }
    if !(holds_nothing(&row.result_digest) || holds_digest(&row.result_digest)) || !(holds_nothing(
        &row.decision_authorization_digest,
    ) || holds_digest(&row.decision_authorization_digest)) {
        return false;
    }
    let made = filled(&row.created_at);
    let scan = match &row.scan {
        Some(scan) => scan,
        None => {
            return false;
        },
    };
    let status = scan.status.as_str();
    let sealed_right: bool = match row.validated_mutation_count {
        None => row.prospective_snapshot_id.is_none() && holds_nothing(&row.result_digest),
        Some(count) => count >= 0 && count == scan.mutation_count && row.prospective_snapshot_id.is_some(),
    };
    made && (same(status, "staging") || same(status, "completed") || same(status, "cancelled")) && row.strict
        == scan.strict && same_option(&row.base_snapshot_id, &scan.parent_snapshot_id) && sealed_right
}

/// Whether the rows of staged scans are sound. Without complete tables of scans there are
/// none.
pub fn validate_scan_operation_staging_rows(rows: &Vec<StoredStagingRow>, parent_schema_is_complete: bool) -> (result:
    Result<(), OwnershipError>)
    ensures
        result == if !parent_schema_is_complete {
            if rows@.len() != 0 {
                Err::<(), _>(OwnershipError::StagingWithoutScans)
            } else {
                Ok(())
            }
        } else {
            let invalid = count_of(rows@.len() as int, staging_is_unsound(rows@));
            if invalid != 0 {
                Err(OwnershipError::StagingRowsInconsistent { count: invalid as u64 })
            } else {
                Ok(())
            }
        },
{
    if !parent_schema_is_complete {
        if rows.len() != 0 {
            return Err(OwnershipError::StagingWithoutScans);
        }
        return Ok(());
    }
    let ghost unsound = staging_is_unsound(rows@);
    let mut invalid: u64 = 0;
    let mut i: usize = 0;
    while i < rows.len()
        invariant
            i <= rows.len(),
            unsound == staging_is_unsound(rows@),
            invalid == count_of(i as int, unsound),
            invalid <= i,
        decreases rows.len() - i,
    {
        let sound = sound_staging(&rows[i]);
        assert(unsound(i as int) == !sound);
        if !sound {
            invalid = invalid + 1;
        }
        i = i + 1;
    }
    if invalid != 0 {
        Err(OwnershipError::StagingRowsInconsistent { count: invalid })
    } else {
        Ok(())
    }
}

/// Why a row of staged scans is inconsistent.
pub open spec fn binding_failure(
    bindings: Seq<ScanOperationRecoveryBinding>,
    sources: Seq<Option<String>>,
) -> spec_fn(int) -> Option<OperationError> {
    |i: int| staging_row_failure(bindings[i], opt_text(sources[i]))
}

/// Whether every row of staged scans is a consistent owner or sentinel. `sources` are the
/// snapshots that the scans became.
pub fn validate_scan_operation_bindings(
    bindings: &Vec<ScanOperationRecoveryBinding>,
    sources: &Vec<Option<String>>,
) -> (result: Result<(), OperationError>)
    requires
        bindings.len() == sources.len(),
    ensures
        result == match first_failure(bindings@.len() as int, binding_failure(bindings@, sources@)) {
            Some(error) => Err::<(), _>(error),
            None => Ok(()),
        },
{
    let ghost failure = binding_failure(bindings@, sources@);
    let mut i: usize = 0;
    while i < bindings.len()
        invariant
            i <= bindings.len(),
            bindings.len() == sources.len(),
            failure == binding_failure(bindings@, sources@),
            first_failure(i as int, failure) is None,
        decreases bindings.len() - i,
    {
        match validate_staging_row(&bindings[i], &sources[i]) {
            Ok(_) => {
                assert(failure(i as int) is None);
            },
            Err(error) => {
                proof {
                    assert(failure(i as int) == Some(error));
                    first_failure_remains(i as int + 1, bindings@.len() as int, failure);
                }
                return Err(error);
            },
        }
        i = i + 1;
    }
    Ok(())
}

// ---------------------------------------------------------------------------------------
// Laws
// ---------------------------------------------------------------------------------------

/// The owner that is recorded for an import that predates ownership has a sound identity:
/// the identities that a migration writes pass the check that follows it.
pub proof fn recorded_owners_are_sound(
    candidate: LegacyRuntimeImportCandidate,
    owner: NewImportOwner,
    stored: StoredImportOwner,
)
    requires
        is_owner_of(candidate, owner),
        opt_bytes(stored.import_id) == Some(encode_utf8(owner.import_id@)),
        opt_bytes(stored.operation_id) == Some(encode_utf8(owner.operation_id@)),
    ensures
        owner_identity_failure(seq![stored])(0) is None,
{
    encode_utf8_decode_utf8(owner.import_id@);
    encode_utf8_decode_utf8(owner.operation_id@);
    vstd::utf8::encode_utf8_valid_utf8(owner.import_id@);
    vstd::utf8::encode_utf8_valid_utf8(owner.operation_id@);
}

/// The sentinel that is recorded for a scan that predates ownership is the exact sentinel
/// of that scan: what a migration writes passes the check that follows it.
pub proof fn recorded_sentinels_are_consistent(
    row: LegacyScanRow,
    candidate: LegacyScanOperationCandidate,
    sentinel: NewStagingRow,
    binding: ScanOperationRecoveryBinding,
)
    requires
        row.status@ == "staging"@ || row.status@ == "completed"@,
        legacy_scan_failure(seq![row])(0) is None,
        is_scan_candidate(row, candidate),
        is_sentinel(candidate, sentinel),
        binding.operation_id@ == sentinel.operation_id@,
        binding.scan_id@ == sentinel.scan_id@,
        binding.repository_binding_digest@ == sentinel.repository_binding_digest@,
        binding.configuration_digest@ == sentinel.configuration_digest@,
        binding.strict == sentinel.strict,
        binding.cache_enabled == sentinel.cache_enabled,
        binding.base_snapshot_id == sentinel.base_snapshot_id,
        binding.validated_mutation_count == sentinel.validated_mutation_count,
        binding.prospective_snapshot_id == sentinel.prospective_snapshot_id,
        binding.result_digest is None,
        binding.decision_authorization_digest == sentinel.decision_authorization_digest,
        binding.status@ == row.status@,
        binding.scan_strict == (row.strict != 0),
        binding.parent_snapshot_id == row.parent_snapshot_id,
        binding.mutation_count == row.mutation_count,
    ensures
        is_legacy_candidate(binding),
{
    reveal_strlit("staging");
    reveal_strlit("completed");
    if row.status@ == "staging"@ {
        assert(row.status@.len() != "completed"@.len());
    }
}

} // verus!

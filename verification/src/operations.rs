//! Scans that a service operation owns: their identities, the digest that authorizes
//! their completion, and the decisions on their staging rows.

use vstd::prelude::*;
use vstd::utf8::encode_utf8;

use crate::digest::{
    frame, frames, hex, hex_text, is_hex, is_hex_text, push_be64, push_bytes, push_frame, same_bytes, sha256,
    sha256_digest, two_complement, unsigned_bits,
};
use crate::records::{ScanCompletionRecoveryIdentity, ScanOperationRecoveryBinding};
use crate::text::{after_prefix, opt_text, same, same_option};

verus! {

/// The most operations that one page of pending cancellations holds.
pub const MAX_PENDING_CANCELLED_SCAN_OPERATIONS: usize = 64;

/// The namespace of owners recorded for runtime imports that predate ownership. It is
/// not an operation identity.
pub const LEGACY_RUNTIME_IMPORT_OWNER_PREFIX: &'static str = "__depgraph_reserved_legacy_runtime_import_owner__:";

/// The namespace of owners recorded for scans that predate ownership. Such a row asserts
/// no ownership: it carries zeroed authority and is either adopted from a validated
/// completion decision or cancelled.
pub const LEGACY_SCAN_OPERATION_CANDIDATE_PREFIX: &'static str = "__depgraph_reserved_legacy_scan_operation_candidate__:";

/// Why an operation on scan staging was refused.
#[derive(Debug, Clone, Copy, PartialEq, Eq, Structural)]
pub enum OperationError {
    EmptySourceRevision,
    InvalidOperationIdentity,
    LegacyStagingUnreconciled,
    AbandonedAttemptMismatch,
    AttemptNotReplaceable,
    SealInvalid,
    SealMismatch,
    MissingBinding,
    OwnershipInconsistent,
    ResultWithoutMutationCount,
    ResultWithoutSnapshot,
    ResultMismatch,
    LegacyCandidateInconsistent,
    LegacyCandidateIdentityMismatch,
    LegacyCandidateWithoutMutationCount,
    LegacyCandidateWithoutSnapshot,
    LegacyCandidateNotPromotable,
    LegacyCandidateSnapshotMismatch,
    RecoveryMismatch,
    StagingChangedAfterBinding,
    ProspectiveSnapshotMismatch,
    UnexpectedCompletedSnapshot,
    PromotionNotApplied,
    CompletedWithoutSnapshotSource,
    CompletedSnapshotMismatch,
    NotPromotable,
    ScanWithoutOwner,
    OwnerChangedDuringCancellation,
    AlreadyTerminal,
    OperationIdTooLong,
    OperationIdNotUtf8,
    NotCancelled,
    CompletedNotSealed,
}

// ---------------------------------------------------------------------------------------
// Identities
// ---------------------------------------------------------------------------------------

/// Whether a scan identity is that of an attempt by the owner with the given digest:
/// the owner's digest followed by a nonce of 32 hexadecimal digits.
pub open spec fn is_attempt_of(scan_id: Seq<char>, owner_digest: Seq<u8>) -> bool {
    exists|nonce: Seq<char>| #[trigger]
        is_hex_text(nonce, 32) && scan_id == "scan-attempt:"@ + hex_text(owner_digest) + ":"@ + nonce
}

/// Whether a scan belongs to an operation: an attempt of it or, where that is allowed, a
/// scan that bears its very name.
pub open spec fn is_bound_to_operation(
    scan_id: Seq<char>,
    operation_id: Seq<char>,
    allow_legacy_identity: bool,
) -> bool {
    ||| allow_legacy_identity && scan_id == operation_id
    ||| is_attempt_of(scan_id, sha256_digest(encode_utf8(operation_id)))
}

/// Whether a scan identity is that of an attempt by the owner with the given digest.
pub fn scan_attempt_has_owner(scan_id: &str, owner_digest: &[u8]) -> (result: bool)
    ensures
        result == is_attempt_of(scan_id@, owner_digest@),
{
    let mut prefix: String = String::from_str("scan-attempt:");
    let digest_text = hex(owner_digest);
    prefix.append(digest_text.as_str());
    prefix.append(":");
    match after_prefix(scan_id, prefix.as_str()) {
        Some(nonce) => {
            let result = is_hex(nonce, 32);
            proof {
                if result {
                    assert(is_hex_text(nonce@, 32));
                } else if is_attempt_of(scan_id@, owner_digest@) {
                    let other = choose|other: Seq<char>| #[trigger]
                        is_hex_text(other, 32) && scan_id@ == "scan-attempt:"@ + hex_text(owner_digest@) + ":"@ + other;
                    assert(other =~= scan_id@.subrange(prefix@.len() as int, scan_id@.len() as int));
                    assert(nonce@ =~= scan_id@.subrange(prefix@.len() as int, scan_id@.len() as int));
                }
            }
            result
        },
        None => {
            proof {
                if is_attempt_of(scan_id@, owner_digest@) {
                    let other = choose|other: Seq<char>| #[trigger]
                        is_hex_text(other, 32) && scan_id@ == "scan-attempt:"@ + hex_text(owner_digest@) + ":"@ + other;
                    assert(prefix@ =~= scan_id@.subrange(0, prefix@.len() as int));
                    assert(prefix@.is_prefix_of(scan_id@));
                }
            }
            false
        },
    }
}

/// Whether a scan belongs to an operation.
pub fn scan_attempt_is_bound_to_operation(
    scan_id: &str,
    operation_id: &str,
    allow_legacy_identity: bool,
) -> (result: bool)
    ensures
        result == is_bound_to_operation(scan_id@, operation_id@, allow_legacy_identity),
{
    if allow_legacy_identity && same(scan_id, operation_id) {
        return true;
    }
    let owner_digest = sha256(operation_id.as_bytes());
    scan_attempt_has_owner(scan_id, owner_digest.as_slice())
}

/// The identity under which a scan that predates ownership is recorded.
pub open spec fn legacy_candidate_name(scan_digest: Seq<u8>) -> Seq<char> {
    LEGACY_SCAN_OPERATION_CANDIDATE_PREFIX@ + hex_text(scan_digest)
}

/// The identity under which a scan with the given digest of its name is recorded.
pub fn legacy_candidate_from_digest(scan_digest: &[u8]) -> (result: String)
    ensures
        result@ == legacy_candidate_name(scan_digest@),
{
    let mut result: String = String::from_str(LEGACY_SCAN_OPERATION_CANDIDATE_PREFIX);
    let text = hex(scan_digest);
    result.append(text.as_str());
    result
}

/// The identity under which a scan that predates ownership is recorded.
pub fn legacy_scan_operation_candidate_id(scan_id: &str) -> (result: String)
    ensures
        result@ == legacy_candidate_name(sha256_digest(encode_utf8(scan_id@))),
{
    let digest = sha256(scan_id.as_bytes());
    legacy_candidate_from_digest(digest.as_slice())
}

/// What is hashed for the owner of a runtime import that predates ownership.
pub open spec fn legacy_owner_input(import_id: Seq<char>) -> Seq<u8> {
    encode_utf8("depgraph-legacy-runtime-import-owner-v1"@) + frame(encode_utf8(import_id))
}

/// The owner recorded for a runtime import, from the digest of what is hashed for it.
pub open spec fn legacy_owner_name(digest: Seq<u8>) -> Seq<char> {
    LEGACY_RUNTIME_IMPORT_OWNER_PREFIX@ + hex_text(digest)
}

/// The owner recorded for a runtime import, from the digest of what is hashed for it.
pub fn legacy_owner_from_digest(digest: &[u8]) -> (result: String)
    ensures
        result@ == legacy_owner_name(digest@),
{
    let mut result: String = String::from_str(LEGACY_RUNTIME_IMPORT_OWNER_PREFIX);
    let text = hex(digest);
    result.append(text.as_str());
    result
}

/// The owner recorded for a runtime import that predates ownership.
pub fn legacy_runtime_import_owner_id(import_id: &str) -> (result: String)
    ensures
        result@ == legacy_owner_name(sha256_digest(legacy_owner_input(import_id@))),
{
    let mut input: Vec<u8> = Vec::new();
    push_bytes(&mut input, "depgraph-legacy-runtime-import-owner-v1".as_bytes());
    push_frame(&mut input, import_id.as_bytes());
    assert(input@ =~= legacy_owner_input(import_id@));
    let digest = sha256(input.as_slice());
    legacy_owner_from_digest(digest.as_slice())
}

// ---------------------------------------------------------------------------------------
// The digest that authorizes a completion
// ---------------------------------------------------------------------------------------

/// Everything that a completion decision binds.
#[verifier::ext_equal]
pub struct CompletionDecision {
    pub operation_id: Seq<char>,
    pub scan_id: Seq<char>,
    pub repository_root: Seq<char>,
    pub repository_binding_digest: Seq<u8>,
    pub configuration_digest: Seq<u8>,
    pub strict: bool,
    pub cache_enabled: bool,
    pub base_snapshot_id: Option<Seq<char>>,
    pub validated_mutation_count: i64,
    pub prospective_snapshot_id: Seq<char>,
    pub result_digest: Seq<u8>,
}

/// A flag as one byte.
pub open spec fn flag_bytes(flag: bool) -> Seq<u8> {
    seq![if flag { 1u8 } else { 0u8 }]
}

/// The parts of a completion decision in the order in which they are hashed. A missing
/// base snapshot counts as an empty one.
pub open spec fn decision_parts(decision: CompletionDecision) -> Seq<Seq<u8>> {
    seq![
        encode_utf8(decision.operation_id),
        encode_utf8(decision.scan_id),
        encode_utf8(decision.repository_root),
        decision.repository_binding_digest,
        decision.configuration_digest,
        flag_bytes(decision.strict),
        flag_bytes(decision.cache_enabled),
        encode_utf8(
            match decision.base_snapshot_id {
                Some(id) => id,
                None => Seq::empty(),
            },
        ),
        crate::digest::be64(two_complement(decision.validated_mutation_count)),
        encode_utf8(decision.prospective_snapshot_id),
        decision.result_digest,
    ]
}

/// What is hashed for a completion decision.
pub open spec fn decision_input(decision: CompletionDecision) -> Seq<u8> {
    encode_utf8("depgraph:scan-operation-completion-decision:v1\0"@) + frames(decision_parts(decision))
}

/// The digest that authorizes a completion decision.
pub open spec fn decision_digest(decision: CompletionDecision) -> Seq<u8> {
    sha256_digest(decision_input(decision))
}

proof fn frames_push(parts: Seq<Seq<u8>>, part: Seq<u8>)
    ensures
        frames(parts.push(part)) == frames(parts) + frame(part),
{
    assert(parts.push(part).drop_last() =~= parts);
}

proof fn frames_prefix_step(parts: Seq<Seq<u8>>, i: int)
    requires
        0 <= i < parts.len(),
    ensures
        frames(parts.subrange(0, i + 1)) == frames(parts.subrange(0, i)) + frame(parts[i]),
{
    frames_push(parts.subrange(0, i), parts[i]);
    assert(parts.subrange(0, i).push(parts[i]) =~= parts.subrange(0, i + 1));
}

fn flag_byte(flag: bool) -> (result: Vec<u8>)
    ensures
        result@ == flag_bytes(flag),
{
    let mut result: Vec<u8> = Vec::new();
    result.push(if flag { 1 } else { 0 });
    assert(result@ =~= flag_bytes(flag));
    result
}

fn push_part(
    input: &mut Vec<u8>,
    value: &[u8],
    Ghost(head): Ghost<Seq<u8>>,
    Ghost(parts): Ghost<Seq<Seq<u8>>>,
    Ghost(i): Ghost<int>,
)
    requires
        0 <= i < parts.len(),
        value@ == parts[i],
        old(input)@ == head + frames(parts.subrange(0, i)),
    ensures
        final(input)@ == head + frames(parts.subrange(0, i + 1)),
{
    push_frame(input, value);
    proof {
        frames_prefix_step(parts, i);
        assert(input@ =~= head + frames(parts.subrange(0, i + 1)));
    }
}

/// What is hashed for a completion decision.
pub fn scan_decision_authorization_input(
    operation_id: &str,
    scan_id: &str,
    repository_root: &str,
    repository_binding_digest: &[u8],
    configuration_digest: &[u8],
    strict: bool,
    cache_enabled: bool,
    base_snapshot_id: Option<&str>,
    validated_mutation_count: i64,
    prospective_snapshot_id: &str,
    result_digest: &[u8],
) -> (result: Vec<u8>)
    ensures
        result@ == decision_input(
            decision_of(
                operation_id@,
                scan_id@,
                repository_root@,
                repository_binding_digest@,
                configuration_digest@,
                strict,
                cache_enabled,
                opt_str(base_snapshot_id),
                validated_mutation_count,
                prospective_snapshot_id@,
                result_digest@,
            ),
        ),
{
    let ghost decision = decision_of(
        operation_id@,
        scan_id@,
        repository_root@,
        repository_binding_digest@,
        configuration_digest@,
        strict,
        cache_enabled,
        opt_str(base_snapshot_id),
        validated_mutation_count,
        prospective_snapshot_id@,
        result_digest@,
    );
    let ghost parts = decision_parts(decision);
    let mut input: Vec<u8> = Vec::new();
    push_bytes(&mut input, "depgraph:scan-operation-completion-decision:v1\0".as_bytes());
    let ghost head = encode_utf8("depgraph:scan-operation-completion-decision:v1\0"@);
    proof {
        assert(parts.subrange(0, 0) =~= Seq::empty());
        assert(input@ =~= head + frames(parts.subrange(0, 0)));
    }
    push_part(&mut input, operation_id.as_bytes(), Ghost(head), Ghost(parts), Ghost(0));
    push_part(&mut input, scan_id.as_bytes(), Ghost(head), Ghost(parts), Ghost(1));
    push_part(&mut input, repository_root.as_bytes(), Ghost(head), Ghost(parts), Ghost(2));
    push_part(&mut input, repository_binding_digest, Ghost(head), Ghost(parts), Ghost(3));
    push_part(&mut input, configuration_digest, Ghost(head), Ghost(parts), Ghost(4));
    let strict_flag = flag_byte(strict);
    push_part(&mut input, strict_flag.as_slice(), Ghost(head), Ghost(parts), Ghost(5));
    let cache_flag = flag_byte(cache_enabled);
    push_part(&mut input, cache_flag.as_slice(), Ghost(head), Ghost(parts), Ghost(6));
    match base_snapshot_id {
        Some(id) => {
            push_part(&mut input, id.as_bytes(), Ghost(head), Ghost(parts), Ghost(7));
        },
        None => {
            let empty: Vec<u8> = Vec::new();
            assert(empty@ =~= encode_utf8(Seq::<char>::empty()));
            push_part(&mut input, empty.as_slice(), Ghost(head), Ghost(parts), Ghost(7));
        },
    }
    let mut count: Vec<u8> = Vec::new();
    push_be64(&mut count, unsigned_bits(validated_mutation_count));
    assert(count@ =~= crate::digest::be64(two_complement(validated_mutation_count)));
    push_part(&mut input, count.as_slice(), Ghost(head), Ghost(parts), Ghost(8));
    push_part(&mut input, prospective_snapshot_id.as_bytes(), Ghost(head), Ghost(parts), Ghost(9));
    push_part(&mut input, result_digest, Ghost(head), Ghost(parts), Ghost(10));
    assert(parts.subrange(0, 11) =~= parts);
    input
}

/// The contents of an optional string slice.
pub open spec fn opt_str(value: Option<&str>) -> Option<Seq<char>> {
    match value {
        Some(text) => Some(text@),
        None => None,
    }
}

/// A completion decision from its parts.
pub open spec fn decision_of(
    operation_id: Seq<char>,
    scan_id: Seq<char>,
    repository_root: Seq<char>,
    repository_binding_digest: Seq<u8>,
    configuration_digest: Seq<u8>,
    strict: bool,
    cache_enabled: bool,
    base_snapshot_id: Option<Seq<char>>,
    validated_mutation_count: i64,
    prospective_snapshot_id: Seq<char>,
    result_digest: Seq<u8>,
) -> CompletionDecision {
    CompletionDecision {
        operation_id,
        scan_id,
        repository_root,
        repository_binding_digest,
        configuration_digest,
        strict,
        cache_enabled,
        base_snapshot_id,
        validated_mutation_count,
        prospective_snapshot_id,
        result_digest,
    }
}

/// The digest that authorizes a completion decision.
pub fn scan_decision_authorization_digest_from_parts(
    operation_id: &str,
    scan_id: &str,
    repository_root: &str,
    repository_binding_digest: &[u8],
    configuration_digest: &[u8],
    strict: bool,
    cache_enabled: bool,
    base_snapshot_id: Option<&str>,
    validated_mutation_count: i64,
    prospective_snapshot_id: &str,
    result_digest: &[u8],
) -> (result: Vec<u8>)
    ensures
        result@ == decision_digest(
            decision_of(
                operation_id@,
                scan_id@,
                repository_root@,
                repository_binding_digest@,
                configuration_digest@,
                strict,
                cache_enabled,
                opt_str(base_snapshot_id),
                validated_mutation_count,
                prospective_snapshot_id@,
                result_digest@,
            ),
        ),
        result@.len() == 32,
{
    let input = scan_decision_authorization_input(
        operation_id,
        scan_id,
        repository_root,
        repository_binding_digest,
        configuration_digest,
        strict,
        cache_enabled,
        base_snapshot_id,
        validated_mutation_count,
        prospective_snapshot_id,
        result_digest,
    );
    sha256(input.as_slice())
}

// ---------------------------------------------------------------------------------------
// Staging rows
// ---------------------------------------------------------------------------------------

/// 32 zero bytes: the authority of a row that asserts none.
pub open spec fn zero_digest() -> Seq<u8> {
    Seq::new(32, |i: int| 0u8)
}

/// The contents of optional bytes.
pub open spec fn opt_bytes(value: Option<Vec<u8>>) -> Option<Seq<u8>> {
    match value {
        Some(bytes) => Some(bytes@),
        None => None,
    }
}

fn is_zero_digest(value: &[u8]) -> (result: bool)
    ensures
        result == (value@ == zero_digest()),
{
    if value.len() != 32 {
        return false;
    }
    let mut i: usize = 0;
    while i < value.len()
        invariant
            i <= value.len(),
            value.len() == 32,
            forall|k: int| 0 <= k < i ==> value@[k] == 0,
        decreases value.len() - i,
    {
        if value[i] != 0 {
            assert(zero_digest()[i as int] == 0);
            return false;
        }
        i = i + 1;
    }
    assert(value@ =~= zero_digest());
    true
}

pub(crate) fn opt_bytes_are(value: &Option<Vec<u8>>, expected: &[u8]) -> (result: bool)
    ensures
        result == (opt_bytes(*value) == Some(expected@)),
{
    match value {
        Some(bytes) => same_bytes(bytes.as_slice(), expected),
        None => false,
    }
}

pub(crate) fn opt_text_is(value: &Option<String>, expected: &str) -> (result: bool)
    ensures
        result == (opt_text(*value) == Some(expected@)),
{
    match value {
        Some(text) => same(text.as_str(), expected),
        None => false,
    }
}

pub(crate) fn as_opt_str(value: &Option<String>) -> (result: Option<&str>)
    ensures
        opt_str(result) == opt_text(*value),
{
    match value {
        Some(text) => Some(text.as_str()),
        None => None,
    }
}

pub(crate) fn starts_with(value: &str, prefix: &str) -> (result: bool)
    ensures
        result == prefix@.is_prefix_of(value@),
{
    match after_prefix(value, prefix) {
        Some(rest) => {
            assert(value@.subrange(0, prefix@.len() as int) =~= prefix@);
            true
        },
        None => false,
    }
}

/// The completion decision that a staging row records.
pub open spec fn recorded_decision(
    binding: ScanOperationRecoveryBinding,
    mutation_count: i64,
    snapshot_id: Seq<char>,
    result_digest: Seq<u8>,
) -> CompletionDecision {
    decision_of(
        binding.operation_id@,
        binding.scan_id@,
        binding.root@,
        binding.repository_binding_digest@,
        binding.configuration_digest@,
        binding.strict,
        binding.cache_enabled,
        opt_text(binding.base_snapshot_id),
        mutation_count,
        snapshot_id,
        result_digest,
    )
}

/// Whether a row carries the digest that authorizes the decision it records.
pub open spec fn is_authorized(binding: ScanOperationRecoveryBinding) -> bool {
    match (
        opt_bytes(binding.decision_authorization_digest),
        binding.validated_mutation_count,
        opt_text(binding.prospective_snapshot_id),
        opt_bytes(binding.result_digest),
    ) {
        (Some(digest), Some(count), Some(snapshot_id), Some(result_digest)) => {
            &&& digest != zero_digest()
            &&& digest == decision_digest(recorded_decision(binding, count, snapshot_id, result_digest))
        },
        _ => false,
    }
}

/// Whether a row is a consistent assertion of ownership: a native attempt that is not
/// decided yet or an authorized decision, with the authority and the parent of its scan.
pub open spec fn is_consistent_owner(binding: ScanOperationRecoveryBinding) -> bool {
    &&& (binding.decision_authorization_digest is None && is_bound_to_operation(
        binding.scan_id@,
        binding.operation_id@,
        true,
    )) || is_authorized(binding)
    &&& !LEGACY_SCAN_OPERATION_CANDIDATE_PREFIX@.is_prefix_of(binding.operation_id@)
    &&& binding.repository_binding_digest@.len() == 32
    &&& binding.configuration_digest@.len() == 32
    &&& binding.strict == binding.scan_strict
    &&& opt_text(binding.base_snapshot_id) == opt_text(binding.parent_snapshot_id)
}

/// Whether a row is the exact sentinel of a scan that predates ownership.
pub open spec fn is_legacy_candidate(binding: ScanOperationRecoveryBinding) -> bool {
    &&& binding.operation_id@ == legacy_candidate_name(sha256_digest(encode_utf8(binding.scan_id@)))
    &&& binding.repository_binding_digest@ == zero_digest()
    &&& binding.configuration_digest@ == zero_digest()
    &&& opt_bytes(binding.decision_authorization_digest) == Some(zero_digest())
    &&& !binding.cache_enabled
    &&& binding.strict == binding.scan_strict
    &&& opt_text(binding.base_snapshot_id) == opt_text(binding.parent_snapshot_id)
    &&& binding.result_digest is None
    &&& {
        ||| binding.status@ == "staging"@ && binding.validated_mutation_count is None
            && binding.prospective_snapshot_id is None
        ||| binding.status@ == "completed"@ && binding.validated_mutation_count == Some(binding.mutation_count)
            && binding.prospective_snapshot_id is Some
    }
}

/// Whether a row proves exactly the completion that a recovery asks for.
pub open spec fn proves_recovery(
    binding: ScanOperationRecoveryBinding,
    identity: ScanCompletionRecoveryIdentity,
) -> bool {
    &&& is_consistent_owner(binding)
    &&& binding.operation_id@ == identity.operation_id@
    &&& binding.scan_id@ == identity.scan_id@
    &&& binding.repository_binding_digest@ == identity.repository_binding_digest@
    &&& binding.decision_authorization_digest is Some
    &&& opt_bytes(binding.decision_authorization_digest) != Some(zero_digest())
    &&& binding.strict == identity.strict
    &&& binding.scan_strict == identity.strict
    &&& binding.cache_enabled == identity.cache_enabled
    &&& binding.validated_mutation_count == Some(binding.mutation_count)
    &&& opt_text(binding.prospective_snapshot_id) == Some(identity.snapshot_id@)
    &&& opt_bytes(binding.result_digest) == Some(identity.result_digest@)
    &&& binding.root@ == identity.repository_root@
}

/// Accepts a row exactly where it is a consistent assertion of ownership.
pub fn validate_internal_scan_operation_binding(binding: &ScanOperationRecoveryBinding) -> (result: Result<
    (),
    OperationError,
>)
    ensures
        result is Ok <==> is_consistent_owner(*binding),
        result is Err ==> result == Err::<(), _>(OperationError::OwnershipInconsistent),
{
    let owned: bool = match &binding.decision_authorization_digest {
        None => scan_attempt_is_bound_to_operation(
            binding.scan_id.as_str(),
            binding.operation_id.as_str(),
            true,
        ),
        Some(digest) => match (
            &binding.validated_mutation_count,
            &binding.prospective_snapshot_id,
            &binding.result_digest,
        ) {
            (Some(count), Some(snapshot_id), Some(result_digest)) => {
                if is_zero_digest(digest.as_slice()) {
                    false
                } else {
                    let expected = scan_decision_authorization_digest_from_parts(
                        binding.operation_id.as_str(),
                        binding.scan_id.as_str(),
                        binding.root.as_str(),
                        binding.repository_binding_digest.as_slice(),
                        binding.configuration_digest.as_slice(),
                        binding.strict,
                        binding.cache_enabled,
                        as_opt_str(&binding.base_snapshot_id),
                        *count,
                        snapshot_id.as_str(),
                        result_digest.as_slice(),
                    );
                    same_bytes(digest.as_slice(), expected.as_slice())
                }
            },
            _ => false,
        },
    };
    if !owned || starts_with(binding.operation_id.as_str(), LEGACY_SCAN_OPERATION_CANDIDATE_PREFIX)
        || binding.repository_binding_digest.len() != 32 || binding.configuration_digest.len() != 32
        || binding.strict != binding.scan_strict || !same_option(
        &binding.base_snapshot_id,
        &binding.parent_snapshot_id,
    ) {
        return Err(OperationError::OwnershipInconsistent);
    }
    Ok(())
}

/// Accepts a row exactly where it is the sentinel of a scan that predates ownership.
pub fn validate_legacy_scan_operation_candidate(binding: &ScanOperationRecoveryBinding) -> (result: Result<
    (),
    OperationError,
>)
    ensures
        result is Ok <==> is_legacy_candidate(*binding),
        result is Err ==> result == Err::<(), _>(OperationError::LegacyCandidateInconsistent),
{
    let candidate_id = legacy_scan_operation_candidate_id(binding.scan_id.as_str());
    let exact_authority: bool = match &binding.decision_authorization_digest {
        Some(digest) => is_zero_digest(digest.as_slice()),
        None => false,
    };
    proof {
        reveal_strlit("staging");
        reveal_strlit("completed");
        assert("staging"@.len() != "completed"@.len());
    }
    let exact_state: bool = if same(binding.status.as_str(), "staging") {
        binding.validated_mutation_count.is_none() && binding.prospective_snapshot_id.is_none()
    } else if same(binding.status.as_str(), "completed") {
        match binding.validated_mutation_count {
            Some(count) => count == binding.mutation_count && binding.prospective_snapshot_id.is_some(),
            None => false,
        }
    } else {
        false
    };
    if binding.operation_id != candidate_id || !is_zero_digest(binding.repository_binding_digest.as_slice())
        || !is_zero_digest(binding.configuration_digest.as_slice()) || !exact_authority || binding.cache_enabled
        || binding.strict != binding.scan_strict || !same_option(
        &binding.base_snapshot_id,
        &binding.parent_snapshot_id,
    ) || binding.result_digest.is_some() || !exact_state {
        return Err(OperationError::LegacyCandidateInconsistent);
    }
    Ok(())
}

/// Accepts a row exactly where it proves the completion that a recovery asks for.
pub fn validate_scan_operation_recovery_binding(
    binding: &ScanOperationRecoveryBinding,
    identity: &ScanCompletionRecoveryIdentity<'_>,
) -> (result: Result<(), OperationError>)
    ensures
        result is Ok <==> proves_recovery(*binding, *identity),
        result == Err::<(), _>(OperationError::OwnershipInconsistent) <==> !is_consistent_owner(*binding),
        result == Err::<(), _>(OperationError::RecoveryMismatch) <==> is_consistent_owner(*binding)
            && !proves_recovery(*binding, *identity),
{
    match validate_internal_scan_operation_binding(binding) {
        Ok(_) => {},
        Err(error) => {
            return Err(error);
        },
    }
    let authorized: bool = match &binding.decision_authorization_digest {
        Some(digest) => !is_zero_digest(digest.as_slice()),
        None => false,
    };
    let sealed: bool = match binding.validated_mutation_count {
        Some(count) => count == binding.mutation_count,
        None => false,
    };
    if !same(binding.operation_id.as_str(), identity.operation_id) || !same(
        binding.scan_id.as_str(),
        identity.scan_id,
    ) || !same_bytes(
        binding.repository_binding_digest.as_slice(),
        identity.repository_binding_digest.as_slice(),
    ) || !authorized || binding.strict != identity.strict || binding.scan_strict != identity.strict
        || binding.cache_enabled != identity.cache_enabled || !sealed || !opt_text_is(
        &binding.prospective_snapshot_id,
        identity.snapshot_id,
    ) || !opt_bytes_are(&binding.result_digest, identity.result_digest.as_slice()) || !same(
        binding.root.as_str(),
        identity.repository_root,
    ) {
        return Err(OperationError::RecoveryMismatch);
    }
    Ok(())
}

} // verus!

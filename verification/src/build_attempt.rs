//! Build observations: their audits, their attempts and what they may add to a graph.

use vstd::prelude::*;

use crate::digest::{is_hex_text, is_sha256_hex};
use crate::json::{Json, JsonModel};
use crate::order::views;
use crate::records::{BuildAttemptRecord, CompletedSnapshotRecord};
use crate::snapshots::SnapshotSource;
use crate::text::{
    characters, characters_hold, copy_texts, holds_part, is_blank, is_space_char, opt_text, same, texts,
    upper_characters, upper_text,
};

verus! {

// ---------------------------------------------------------------------------------------
// Audits
// ---------------------------------------------------------------------------------------

/// A field of a build audit.
#[derive(Debug, Clone, Copy, PartialEq, Eq, Structural)]
pub enum AuditField {
    RunId,
    Outcome,
    StartedAt,
    FinishedAt,
    CommandPlanDigest,
    ToolchainExecutableDigest,
    EnvironmentKeySetDigest,
    ValidatedOutputDigest,
    Adapter,
    AdapterVersion,
    ProfileId,
}

/// The name of an audit field.
pub open spec fn audit_field_name(field: AuditField) -> Seq<char> {
    match field {
        AuditField::RunId => "run_id"@,
        AuditField::Outcome => "outcome"@,
        AuditField::StartedAt => "started_at"@,
        AuditField::FinishedAt => "finished_at"@,
        AuditField::CommandPlanDigest => "command_plan_digest"@,
        AuditField::ToolchainExecutableDigest => "toolchain_executable_digest"@,
        AuditField::EnvironmentKeySetDigest => "environment_key_set_digest"@,
        AuditField::ValidatedOutputDigest => "validated_output_digest"@,
        AuditField::Adapter => "adapter"@,
        AuditField::AdapterVersion => "adapter_version"@,
        AuditField::ProfileId => "profile_id"@,
    }
}

impl AuditField {
    /// The name of the field.
    pub fn name(self) -> (result: &'static str)
        ensures
            result@ == audit_field_name(self),
    {
        match self {
            AuditField::RunId => "run_id",
            AuditField::Outcome => "outcome",
            AuditField::StartedAt => "started_at",
            AuditField::FinishedAt => "finished_at",
            AuditField::CommandPlanDigest => "command_plan_digest",
            AuditField::ToolchainExecutableDigest => "toolchain_executable_digest",
            AuditField::EnvironmentKeySetDigest => "environment_key_set_digest",
            AuditField::ValidatedOutputDigest => "validated_output_digest",
            AuditField::Adapter => "adapter",
            AuditField::AdapterVersion => "adapter_version",
            AuditField::ProfileId => "profile_id",
        }
    }
}

/// Why a build observation is refused. Profiles, nodes, sites, edges and evidence are
/// given by their position in the delta.
#[derive(Debug, Clone, Copy, PartialEq, Eq, Structural)]
pub enum BuildError {
    AuditNotObject,
    AuditFieldMissing { field: AuditField },
    AuditRunIdBlank,
    AuditOutcomeInvalid,
    EnvironmentKeysNotArray,
    EnvironmentKeyNotText,
    EnvironmentKeySecret,
    OutputDigestMissing,
    DigestInvalid { field: AuditField },
    AuditNotSaved,
    AuditDiffers,
    BaseScanNotFound,
    BaseScanNotCompleted,
    BaseSnapshotMissing,
    BaseSnapshotNotSafe,
    BaseSnapshotInvalid,
    AttemptNotFound,
    AttemptImmutable,
    AuditMissing,
    AttemptNotCompleted,
    AttemptWithoutOutputDigest,
    EvidenceProducer { evidence: usize },
    EvidenceProperty { evidence: usize, field: AuditField },
    NoFinalCoverage,
    ProfileNotAudited,
    ProfilePhase,
    ProfileWithoutParent,
    ProfileParentMissing,
    ProfileWithoutInput,
    ProfileContract,
    ProfileConflict,
    NodeOverwrites { node: usize },
    NodeWithoutProvenance { node: usize },
    NodeUnauthorized { node: usize },
    SiteOverwrites { site: usize },
    SiteUnauthorized { site: usize },
    EdgeOverwrites { edge: usize },
    EdgeUnauthorized { edge: usize },
    SiteConflicts { site: usize },
    EdgeConflicts { edge: usize },
    EdgeMissingFromLayer { edge: usize },
    StatusInvalid,
    PromotionNotCompleted,
    DeltaMissing,
    CompletionWithoutAudit,
    StatusDiffersFromAudit,
    BaseScanWithoutSnapshot,
}

/// The parts of names that hold secrets.
pub open spec fn secret_parts() -> Seq<Seq<char>> {
    seq![
        "TOKEN"@,
        "SECRET"@,
        "PASSWORD"@,
        "PASSWD"@,
        "API_KEY"@,
        "PRIVATE_KEY"@,
        "CREDENTIAL"@,
        "AUTH"@,
        "COOKIE"@,
        "SESSION"@,
    ]
}

/// Whether a name looks like that of a secret, whatever the case of its letters.
pub open spec fn is_secret_name(key: Seq<char>) -> bool {
    exists|i: int| 0 <= i < secret_parts().len() && holds_part(upper_text(key), #[trigger] secret_parts()[i])
}

fn upper_holds(upper: &Vec<char>, part: &str) -> (result: bool)
    ensures
        result == holds_part(upper@, part@),
{
    let part = characters(part);
    characters_hold(upper, &part)
}

/// Whether a name looks like that of a secret.
pub fn is_secret_like_key(key: &str) -> (result: bool)
    ensures
        result == is_secret_name(key@),
{
    let upper = upper_characters(key);
    let token = upper_holds(&upper, "TOKEN");
    let secret = upper_holds(&upper, "SECRET");
    let password = upper_holds(&upper, "PASSWORD");
    let passwd = upper_holds(&upper, "PASSWD");
    let api_key = upper_holds(&upper, "API_KEY");
    let private_key = upper_holds(&upper, "PRIVATE_KEY");
    let credential = upper_holds(&upper, "CREDENTIAL");
    let auth = upper_holds(&upper, "AUTH");
    let cookie = upper_holds(&upper, "COOKIE");
    let session = upper_holds(&upper, "SESSION");
    let result = token || secret || password || passwd || api_key || private_key || credential || auth || cookie
        || session;
    proof {
        let parts = secret_parts();
        assert(parts[0] == "TOKEN"@ && parts[1] == "SECRET"@ && parts[2] == "PASSWORD"@ && parts[3] == "PASSWD"@);
        assert(parts[4] == "API_KEY"@ && parts[5] == "PRIVATE_KEY"@ && parts[6] == "CREDENTIAL"@);
        assert(parts[7] == "AUTH"@ && parts[8] == "COOKIE"@ && parts[9] == "SESSION"@);
    }
    result
}

/// Whether an audit outcome is one of the five.
pub open spec fn is_audit_outcome(outcome: Seq<char>) -> bool {
    outcome == "completed"@ || outcome == "failed"@ || outcome == "timed_out"@ || outcome == "cancelled"@ || outcome
        == "security_failed"@
}

/// The text of an audit field.
pub open spec fn audit_text(audit: JsonModel, field: AuditField) -> Option<Seq<char>> {
    audit.text_field(audit_field_name(field))
}

/// What is wrong with an environment key.
pub open spec fn key_error(key: JsonModel) -> Option<BuildError> {
    match key {
        JsonModel::Text(text) => if is_secret_name(text) {
            Some(BuildError::EnvironmentKeySecret)
        } else {
            None
        },
        _ => Some(BuildError::EnvironmentKeyNotText),
    }
}

/// What is wrong with the first faulty of the first `count` environment keys.
pub open spec fn first_key_error(keys: Seq<JsonModel>, count: int) -> Option<BuildError>
    decreases count,
{
    if count <= 0 {
        None
    } else {
        match first_key_error(keys, count - 1) {
            Some(error) => Some(error),
            None => key_error(keys[count - 1]),
        }
    }
}

proof fn first_key_error_remains(keys: Seq<JsonModel>, a: int, b: int)
    requires
        a <= b,
        first_key_error(keys, a) is Some,
    ensures
        first_key_error(keys, b) == first_key_error(keys, a),
    decreases b - a,
{
    if a < b {
        first_key_error_remains(keys, a, b - 1);
    }
}

/// Whether a text holds nothing but white space.
pub open spec fn is_blank_text(value: Seq<char>) -> bool {
    forall|i: int| 0 <= i < value.len() ==> is_space_char(#[trigger] value[i])
}

/// Why an audit is not stored; nothing where it is.
pub open spec fn audit_error(audit: JsonModel) -> Option<BuildError> {
    if audit !is Object {
        Some(BuildError::AuditNotObject)
    } else if audit_text(audit, AuditField::RunId) is None {
        Some(BuildError::AuditFieldMissing { field: AuditField::RunId })
    } else if audit_text(audit, AuditField::Outcome) is None {
        Some(BuildError::AuditFieldMissing { field: AuditField::Outcome })
    } else if audit_text(audit, AuditField::StartedAt) is None {
        Some(BuildError::AuditFieldMissing { field: AuditField::StartedAt })
    } else if audit_text(audit, AuditField::FinishedAt) is None {
        Some(BuildError::AuditFieldMissing { field: AuditField::FinishedAt })
    } else if is_blank_text(audit_text(audit, AuditField::RunId)->0) {
        Some(BuildError::AuditRunIdBlank)
    } else if !is_audit_outcome(audit_text(audit, AuditField::Outcome)->0) {
        Some(BuildError::AuditOutcomeInvalid)
    } else {
        match audit.field("environment_keys"@) {
            Some(JsonModel::Array(keys)) => first_key_error(keys, keys.len() as int),
            _ => Some(BuildError::EnvironmentKeysNotArray),
        }
    }
}

fn check_environment_keys(keys: &Vec<Json>) -> (result: Option<BuildError>)
    ensures
        result == first_key_error(views(keys@), keys@.len() as int),
{
    let ghost models = views(keys@);
    let mut i: usize = 0;
    while i < keys.len()
        invariant
            i <= keys.len(),
            models == views(keys@),
            first_key_error(models, i as int) is None,
        decreases keys.len() - i,
    {
        assert(models[i as int] == keys@[i as int]@);
        let error: Option<BuildError> = match keys[i].as_str() {
            None => Some(BuildError::EnvironmentKeyNotText),
            Some(key) => if is_secret_like_key(key) {
                Some(BuildError::EnvironmentKeySecret)
            } else {
                None
            },
        };
        assert(error == key_error(models[i as int]));
        if error.is_some() {
            proof {
                first_key_error_remains(models, i + 1, keys@.len() as int);
            }
            return error;
        }
        i = i + 1;
    }
    None
}

/// Accepts exactly the audits that may be stored.
pub fn check_build_audit(audit: &Json) -> (result: Result<(), BuildError>)
    ensures
        match result {
            Ok(_) => audit_error(audit@) is None,
            Err(error) => audit_error(audit@) == Some(error),
        },
{
    if !audit.is_object() {
        return Err(BuildError::AuditNotObject);
    }
    let run_id = match audit.get_str("run_id") {
        Some(run_id) => run_id,
        None => {
            return Err(BuildError::AuditFieldMissing { field: AuditField::RunId });
        },
    };
    let outcome = match audit.get_str("outcome") {
        Some(outcome) => outcome,
        None => {
            return Err(BuildError::AuditFieldMissing { field: AuditField::Outcome });
        },
    };
    if audit.get_str("started_at").is_none() {
        return Err(BuildError::AuditFieldMissing { field: AuditField::StartedAt });
    }
    if audit.get_str("finished_at").is_none() {
        return Err(BuildError::AuditFieldMissing { field: AuditField::FinishedAt });
    }
    if is_blank(run_id) {
        return Err(BuildError::AuditRunIdBlank);
    }
    if !(same(outcome, "completed") || same(outcome, "failed") || same(outcome, "timed_out") || same(
        outcome,
        "cancelled",
    ) || same(outcome, "security_failed")) {
        return Err(BuildError::AuditOutcomeInvalid);
    }
    match audit.get("environment_keys") {
        Some(Json::Array(keys)) => {
            proof {
                let field = audit@.field("environment_keys"@)->0;
                assert(field->Array_0 =~= views(keys@));
            }
            match check_environment_keys(keys) {
                Some(error) => Err(error),
                None => Ok(()),
            }
        },
        _ => Err(BuildError::EnvironmentKeysNotArray),
    }
}

// ---------------------------------------------------------------------------------------
// Attempts
// ---------------------------------------------------------------------------------------

/// The validated output that an audit names; an empty name is none.
pub open spec fn output_digest_of(audit: JsonModel) -> Option<Seq<char>> {
    match audit_text(audit, AuditField::ValidatedOutputDigest) {
        Some(digest) => if digest.len() > 0 {
            Some(digest)
        } else {
            None
        },
        None => None,
    }
}

/// What is wrong with the digests of an audit that an attempt starts from.
pub open spec fn attempt_audit_error(audit: JsonModel) -> Option<BuildError> {
    let output = output_digest_of(audit);
    if audit_text(audit, AuditField::RunId) is None {
        Some(BuildError::AuditFieldMissing { field: AuditField::RunId })
    } else if audit_text(audit, AuditField::Outcome) is None {
        Some(BuildError::AuditFieldMissing { field: AuditField::Outcome })
    } else if audit_text(audit, AuditField::Outcome)->0 == "completed"@ && output is None {
        Some(BuildError::OutputDigestMissing)
    } else if audit_text(audit, AuditField::CommandPlanDigest) is None {
        Some(BuildError::AuditFieldMissing { field: AuditField::CommandPlanDigest })
    } else if audit_text(audit, AuditField::ToolchainExecutableDigest) is None {
        Some(BuildError::AuditFieldMissing { field: AuditField::ToolchainExecutableDigest })
    } else if audit_text(audit, AuditField::EnvironmentKeySetDigest) is None {
        Some(BuildError::AuditFieldMissing { field: AuditField::EnvironmentKeySetDigest })
    } else if !is_hex_text(audit_text(audit, AuditField::CommandPlanDigest)->0, 64) {
        Some(BuildError::DigestInvalid { field: AuditField::CommandPlanDigest })
    } else if !is_hex_text(audit_text(audit, AuditField::ToolchainExecutableDigest)->0, 64) {
        Some(BuildError::DigestInvalid { field: AuditField::ToolchainExecutableDigest })
    } else if !is_hex_text(audit_text(audit, AuditField::EnvironmentKeySetDigest)->0, 64) {
        Some(BuildError::DigestInvalid { field: AuditField::EnvironmentKeySetDigest })
    } else if output matches Some(digest) && !is_hex_text(digest, 64) {
        Some(BuildError::DigestInvalid { field: AuditField::ValidatedOutputDigest })
    } else {
        None
    }
}

/// Checks the digests of an audit that an attempt starts from.
pub fn check_attempt_audit(audit: &Json) -> (result: Result<(), BuildError>)
    ensures
        match result {
            Ok(_) => attempt_audit_error(audit@) is None,
            Err(error) => attempt_audit_error(audit@) == Some(error),
        },
{
    if audit.get_str("run_id").is_none() {
        return Err(BuildError::AuditFieldMissing { field: AuditField::RunId });
    }
    let outcome = match audit.get_str("outcome") {
        Some(outcome) => outcome,
        None => {
            return Err(BuildError::AuditFieldMissing { field: AuditField::Outcome });
        },
    };
    let output: Option<&str> = match audit.get_str("validated_output_digest") {
        Some(digest) => if digest.is_empty() {
            None
        } else {
            Some(digest)
        },
        None => None,
    };
    if same(outcome, "completed") && output.is_none() {
        return Err(BuildError::OutputDigestMissing);
    }
    let command_plan = match audit.get_str("command_plan_digest") {
        Some(digest) => digest,
        None => {
            return Err(BuildError::AuditFieldMissing { field: AuditField::CommandPlanDigest });
        },
    };
    let toolchain = match audit.get_str("toolchain_executable_digest") {
        Some(digest) => digest,
        None => {
            return Err(BuildError::AuditFieldMissing { field: AuditField::ToolchainExecutableDigest });
        },
    };
    let environment = match audit.get_str("environment_key_set_digest") {
        Some(digest) => digest,
        None => {
            return Err(BuildError::AuditFieldMissing { field: AuditField::EnvironmentKeySetDigest });
        },
    };
    if !is_sha256_hex(command_plan) {
        return Err(BuildError::DigestInvalid { field: AuditField::CommandPlanDigest });
    }
    if !is_sha256_hex(toolchain) {
        return Err(BuildError::DigestInvalid { field: AuditField::ToolchainExecutableDigest });
    }
    if !is_sha256_hex(environment) {
        return Err(BuildError::DigestInvalid { field: AuditField::EnvironmentKeySetDigest });
    }
    if let Some(digest) = output {
        if !is_sha256_hex(digest) {
            return Err(BuildError::DigestInvalid { field: AuditField::ValidatedOutputDigest });
        }
    }
    Ok(())
}

/// What the store knows when an attempt starts: the audit saved under the run, the
/// status of the base scan, and the snapshots of the base scan.
#[derive(Debug)]
pub struct AttemptBase {
    pub saved_audit: Option<Json>,
    pub scan_status: Option<String>,
    /// The snapshot that the caller asks for.
    pub requested_snapshot_id: Option<String>,
    /// The snapshot that the base scan became.
    pub safe_snapshot_id: Option<String>,
    /// Whether the requested snapshot passed its integrity check.
    pub requested_snapshot_is_valid: bool,
    /// The latest completed snapshot of the base scan.
    pub latest_snapshot_id: Option<String>,
}

/// The snapshot on which an attempt builds, or why there is none: the requested one
/// where it is that of the scan itself and intact, else the latest of the scan.
pub open spec fn base_snapshot_of(base: AttemptBase) -> Result<Seq<char>, BuildError> {
    match opt_text(base.requested_snapshot_id) {
        Some(requested) => match opt_text(base.safe_snapshot_id) {
            None => Err(BuildError::BaseSnapshotMissing),
            Some(safe) => if safe != requested {
                Err(BuildError::BaseSnapshotNotSafe)
            } else if !base.requested_snapshot_is_valid {
                Err(BuildError::BaseSnapshotInvalid)
            } else {
                Ok(requested)
            },
        },
        None => match opt_text(base.latest_snapshot_id) {
            Some(latest) => Ok(latest),
            None => Err(BuildError::BaseSnapshotMissing),
        },
    }
}

/// Why an attempt does not start; nothing where it does.
pub open spec fn attempt_error(audit: JsonModel, base: AttemptBase) -> Option<BuildError> {
    if attempt_audit_error(audit) is Some {
        attempt_audit_error(audit)
    } else if base.saved_audit is None {
        Some(BuildError::AuditNotSaved)
    } else if base.saved_audit->0@.value() != audit.value() {
        Some(BuildError::AuditDiffers)
    } else if base.scan_status is None {
        Some(BuildError::BaseScanNotFound)
    } else if base.scan_status->0@ != "completed"@ {
        Some(BuildError::BaseScanNotCompleted)
    } else if base_snapshot_of(base) is Err {
        Some(base_snapshot_of(base)->Err_0)
    } else if audit_text(audit, AuditField::Adapter) is None {
        Some(BuildError::AuditFieldMissing { field: AuditField::Adapter })
    } else if audit_text(audit, AuditField::AdapterVersion) is None {
        Some(BuildError::AuditFieldMissing { field: AuditField::AdapterVersion })
    } else if audit_text(audit, AuditField::ProfileId) is None {
        Some(BuildError::AuditFieldMissing { field: AuditField::ProfileId })
    } else if audit_text(audit, AuditField::StartedAt) is None {
        Some(BuildError::AuditFieldMissing { field: AuditField::StartedAt })
    } else {
        None
    }
}

/// Whether an attempt is the one that starts from an audit on a base.
pub open spec fn is_started_attempt(
    attempt: BuildAttemptRecord,
    audit: JsonModel,
    base_scan_id: Seq<char>,
    base: AttemptBase,
) -> bool {
    &&& Some(attempt.id@) == audit_text(audit, AuditField::RunId)
    &&& attempt.base_scan_id@ == base_scan_id
    &&& opt_text(attempt.base_snapshot_id) == Some(base_snapshot_of(base)->Ok_0)
    &&& Some(attempt.audit_run_id@) == audit_text(audit, AuditField::RunId)
    &&& attempt.status@ == "staging"@
    &&& Some(attempt.observer@) == audit_text(audit, AuditField::Adapter)
    &&& Some(attempt.observer_version@) == audit_text(audit, AuditField::AdapterVersion)
    &&& Some(attempt.profile_id@) == audit_text(audit, AuditField::ProfileId)
    &&& Some(attempt.command_plan_digest@) == audit_text(audit, AuditField::CommandPlanDigest)
    &&& Some(attempt.toolchain_executable_digest@) == audit_text(audit, AuditField::ToolchainExecutableDigest)
    &&& Some(attempt.environment_key_set_digest@) == audit_text(audit, AuditField::EnvironmentKeySetDigest)
    &&& opt_text(attempt.validated_output_digest) == output_digest_of(audit)
    &&& Some(attempt.started_at@) == audit_text(audit, AuditField::StartedAt)
    &&& attempt.completed_at is None
    &&& attempt.error is None
}

fn base_snapshot(base: &AttemptBase) -> (result: Result<String, BuildError>)
    ensures
        match (result, base_snapshot_of(*base)) {
            (Ok(id), Ok(expected)) => id@ == expected,
            (Err(error), Err(expected)) => error == expected,
            _ => false,
        },
{
    match &base.requested_snapshot_id {
        Some(requested) => match &base.safe_snapshot_id {
            None => Err(BuildError::BaseSnapshotMissing),
            Some(safe) => if *safe != *requested {
                Err(BuildError::BaseSnapshotNotSafe)
            } else if !base.requested_snapshot_is_valid {
                Err(BuildError::BaseSnapshotInvalid)
            } else {
                Ok(requested.clone())
            },
        },
        None => match &base.latest_snapshot_id {
            Some(latest) => Ok(latest.clone()),
            None => Err(BuildError::BaseSnapshotMissing),
        },
    }
}

fn required_audit_text(audit: &Json, field: AuditField) -> (result: Result<String, BuildError>)
    ensures
        match result {
            Ok(text) => audit_text(audit@, field) == Some(text@),
            Err(error) => audit_text(audit@, field) is None && error == (BuildError::AuditFieldMissing { field }),
        },
{
    match audit.get_str(field.name()) {
        Some(text) => Ok(String::from_str(text)),
        None => Err(BuildError::AuditFieldMissing { field }),
    }
}

/// The attempt that starts from an audit on a base, or why it does not start.
pub fn start_build_attempt(
    base_scan_id: &str,
    audit: &Json,
    base: &AttemptBase,
) -> (result: Result<BuildAttemptRecord, BuildError>)
    ensures
        match result {
            Ok(attempt) => attempt_error(audit@, *base) is None && is_started_attempt(
                attempt,
                audit@,
                base_scan_id@,
                *base,
            ),
            Err(error) => attempt_error(audit@, *base) == Some(error),
        },
{
    match check_attempt_audit(audit) {
        Ok(_) => {},
        Err(error) => {
            return Err(error);
        },
    }
    match &base.saved_audit {
        None => {
            return Err(BuildError::AuditNotSaved);
        },
        Some(saved) => {
            if !saved.same_value(audit) {
                return Err(BuildError::AuditDiffers);
            }
        },
    }
    match &base.scan_status {
        None => {
            return Err(BuildError::BaseScanNotFound);
        },
        Some(status) => {
            if !same(status.as_str(), "completed") {
                return Err(BuildError::BaseScanNotCompleted);
            }
        },
    }
    let snapshot_id = match base_snapshot(base) {
        Ok(id) => id,
        Err(error) => {
            return Err(error);
        },
    };
    let observer = match required_audit_text(audit, AuditField::Adapter) {
        Ok(text) => text,
        Err(error) => {
            return Err(error);
        },
    };
    let observer_version = match required_audit_text(audit, AuditField::AdapterVersion) {
        Ok(text) => text,
        Err(error) => {
            return Err(error);
        },
    };
    let profile_id = match required_audit_text(audit, AuditField::ProfileId) {
        Ok(text) => text,
        Err(error) => {
            return Err(error);
        },
    };
    let started_at = match required_audit_text(audit, AuditField::StartedAt) {
        Ok(text) => text,
        Err(error) => {
            return Err(error);
        },
    };
    let run_id = match required_audit_text(audit, AuditField::RunId) {
        Ok(text) => text,
        Err(error) => {
            return Err(error);
        },
    };
    let command_plan_digest = match required_audit_text(audit, AuditField::CommandPlanDigest) {
        Ok(text) => text,
        Err(error) => {
            return Err(error);
        },
    };
    let toolchain_executable_digest = match required_audit_text(audit, AuditField::ToolchainExecutableDigest) {
        Ok(text) => text,
        Err(error) => {
            return Err(error);
        },
    };
    let environment_key_set_digest = match required_audit_text(audit, AuditField::EnvironmentKeySetDigest) {
        Ok(text) => text,
        Err(error) => {
            return Err(error);
        },
    };
    let validated_output_digest: Option<String> = match audit.get_str("validated_output_digest") {
        Some(digest) => if digest.is_empty() {
            None
        } else {
            Some(String::from_str(digest))
        },
        None => None,
    };
    Ok(
        BuildAttemptRecord {
            id: run_id.clone(),
            base_scan_id: String::from_str(base_scan_id),
            base_snapshot_id: Some(snapshot_id),
            audit_run_id: run_id,
            status: String::from_str("staging"),
            observer,
            observer_version,
            profile_id,
            command_plan_digest,
            toolchain_executable_digest,
            environment_key_set_digest,
            validated_output_digest,
            started_at,
            completed_at: None,
            error: None,
        },
    )
}

/// Whether a build attempt may end with a status.
pub open spec fn is_attempt_end(status: Seq<char>) -> bool {
    status == "completed"@ || status == "partial"@ || status == "failed"@ || status == "timed_out"@ || status
        == "cancelled"@ || status == "security_failed"@
}

/// What the store knows of a build attempt that ends.
#[derive(Debug)]
pub struct AttemptState {
    pub status: String,
    pub has_delta: bool,
    pub audit_outcome: String,
}

/// Decides whether a build attempt may end with a status: the status is terminal, only a
/// completed attempt is promoted, the attempt is staging, a completed attempt has a delta
/// and a completed audit, and any other audit decides the status.
pub fn check_attempt_end(
    status: &str,
    promote: bool,
    state: Option<&AttemptState>,
) -> (result: Result<(), BuildError>)
    ensures
        result == if !is_attempt_end(status@) {
            Err::<(), _>(BuildError::StatusInvalid)
        } else if promote && status@ != "completed"@ {
            Err(BuildError::PromotionNotCompleted)
        } else {
            match state {
                None => Err(BuildError::AttemptNotFound),
                Some(state) => if state.status@ != "staging"@ {
                    Err(BuildError::AttemptImmutable)
                } else if status@ == "completed"@ && !state.has_delta {
                    Err(BuildError::DeltaMissing)
                } else if status@ == "completed"@ && state.audit_outcome@ != "completed"@ {
                    Err(BuildError::CompletionWithoutAudit)
                } else if state.audit_outcome@ != "completed"@ && status@ != state.audit_outcome@ {
                    Err(BuildError::StatusDiffersFromAudit)
                } else {
                    Ok(())
                },
            }
        },
{
    if !(same(status, "completed") || same(status, "partial") || same(status, "failed") || same(status, "timed_out")
        || same(status, "cancelled") || same(status, "security_failed")) {
        return Err(BuildError::StatusInvalid);
    }
    let completed = same(status, "completed");
    if promote && !completed {
        return Err(BuildError::PromotionNotCompleted);
    }
    match state {
        None => Err(BuildError::AttemptNotFound),
        Some(state) => {
            if !same(state.status.as_str(), "staging") {
                return Err(BuildError::AttemptImmutable);
            }
            if completed && !state.has_delta {
                return Err(BuildError::DeltaMissing);
            }
            let audited = same(state.audit_outcome.as_str(), "completed");
            if completed && !audited {
                return Err(BuildError::CompletionWithoutAudit);
            }
            if !audited && !same(status, state.audit_outcome.as_str()) {
                return Err(BuildError::StatusDiffersFromAudit);
            }
            Ok(())
        },
    }
}

/// Whether a source makes the snapshot of a completed build over a parent.
pub open spec fn is_finished_build_source(
    attempt: BuildAttemptRecord,
    parent: CompletedSnapshotRecord,
    runtime_session_ids: Seq<Seq<char>>,
    completed_at: Seq<char>,
    source: SnapshotSource,
) -> bool {
    &&& source.source_kind@ == "build"@
    &&& source.source_attempt_id@ == attempt.id@
    &&& source.scan_id@ == attempt.base_scan_id@
    &&& opt_text(source.build_attempt_id) == Some(attempt.id@)
    &&& source.runtime_import_id is None
    &&& texts(source.runtime_session_ids@) == runtime_session_ids
    &&& opt_text(source.parent_snapshot_id) == Some(parent.id@)
    &&& opt_text(source.source_revision) == opt_text(parent.source_revision)
    &&& source.created_at@ == completed_at
}

/// The source of the snapshot of a build that completed: over the latest snapshot of its scan
/// where that holds runtime sessions, which it then keeps, else over the base of the attempt.
/// `latest` and `base` are the records of these two, where they are there.
pub fn finished_build_source(
    attempt: &BuildAttemptRecord,
    latest: Option<&CompletedSnapshotRecord>,
    base: Option<&CompletedSnapshotRecord>,
    completed_at: String,
) -> (result: Result<SnapshotSource, BuildError>)
    ensures
        if attempt.base_snapshot_id is None {
            result == Err::<SnapshotSource, _>(BuildError::BaseSnapshotMissing)
        } else {
            match latest {
                None => result == Err::<SnapshotSource, _>(BuildError::BaseScanWithoutSnapshot),
                Some(latest) => if latest.runtime_session_ids@.len() > 0 {
                    result matches Ok(source) && is_finished_build_source(
                        *attempt,
                        *latest,
                        texts(latest.runtime_session_ids@),
                        completed_at@,
                        source,
                    )
                } else {
                    match base {
                        None => result == Err::<SnapshotSource, _>(BuildError::BaseSnapshotMissing),
                        Some(base) => result matches Ok(source) && is_finished_build_source(
                            *attempt,
                            *base,
                            Seq::empty(),
                            completed_at@,
                            source,
                        ),
                    }
                },
            }
        },
{
    if attempt.base_snapshot_id.is_none() {
        return Err(BuildError::BaseSnapshotMissing);
    }
    let latest = match latest {
        Some(latest) => latest,
        None => {
            return Err(BuildError::BaseScanWithoutSnapshot);
        },
    };
    let parent: &CompletedSnapshotRecord = if latest.runtime_session_ids.len() > 0 {
        latest
    } else {
        match base {
            Some(base) => base,
            None => {
                return Err(BuildError::BaseSnapshotMissing);
            },
        }
    };
    let runtime_session_ids = copy_texts(&latest.runtime_session_ids);
    assert(latest.runtime_session_ids@.len() == 0 ==> texts(runtime_session_ids@) =~= Seq::empty());
    Ok(
        SnapshotSource {
            source_kind: String::from_str("build"),
            source_attempt_id: attempt.id.clone(),
            scan_id: attempt.base_scan_id.clone(),
            build_attempt_id: Some(attempt.id.clone()),
            runtime_import_id: None,
            runtime_session_ids,
            parent_snapshot_id: Some(parent.id.clone()),
            source_revision: parent.source_revision.clone(),
            created_at: completed_at,
        },
    )
}

} // verus!

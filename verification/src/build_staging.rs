//! The delta that a build attempt stages over its base graph.

use vstd::prelude::*;

use crate::build_attempt::BuildError;
use crate::build_union::{
    build_union_error, deduplicate_identical_build_evidence, duplicate_error, evidence_error, is_without_held, repeats,
    validate_build_union, validate_delta_attempt_metadata,
};
use crate::observed::{build_delta_from_protocol, is_delta_of, ObservedBuild};
use crate::operations::opt_str;
use crate::order::first_failure;
use crate::records::{BuildAttemptRecord, BuildGraphDelta, GraphSnapshot};
use crate::text::{opt_text, same};

verus! {

/// What `delta` leaves to stage over `base`: it loses what the base graph holds already.
pub open spec fn is_left_to_stage(base: GraphSnapshot, delta: BuildGraphDelta, left: BuildGraphDelta) -> bool {
    if repeats(base, delta) {
        is_without_held(base, delta, left)
    } else {
        left == delta
    }
}

/// Whether `result` is what staging `delta` for `attempt` comes to. `base` is the base graph of
/// the attempt, `None` where it failed its integrity check.
pub open spec fn is_staging_of(
    delta: BuildGraphDelta,
    attempt: BuildAttemptRecord,
    base: Option<&GraphSnapshot>,
    derived: Seq<String>,
    result: Result<BuildGraphDelta, BuildError>,
) -> bool {
    let digest = opt_text(attempt.validated_output_digest)->0;
    match first_failure(delta.evidence@.len() as int, evidence_error(delta.evidence@, attempt, digest)) {
        Some(error) => result == Err::<BuildGraphDelta, _>(error),
        None => if attempt.base_snapshot_id is None {
            result == Err::<BuildGraphDelta, _>(BuildError::BaseSnapshotMissing)
        } else {
            match base {
                None => result == Err::<BuildGraphDelta, _>(BuildError::BaseSnapshotInvalid),
                Some(base) => match duplicate_error(*base, delta) {
                    Some(error) => result == Err::<BuildGraphDelta, _>(error),
                    None => exists|left: BuildGraphDelta| #[trigger]
                        is_left_to_stage(*base, delta, left) && match build_union_error(
                            *base,
                            derived,
                            left,
                            attempt,
                        ) {
                            Some(error) => result == Err::<BuildGraphDelta, _>(error),
                            None => result == Ok::<_, BuildError>(left),
                        },
                },
            }
        },
    }
}

/// The delta that `build` stages for an attempt. The attempt is staging, its audit is known and
/// completed, and it names its validated output. The evidence is of the attempt. What the base
/// graph holds already is left out, and what remains may be added to it.
pub fn save_build_delta(
    build: &ObservedBuild,
    attempt: Option<&BuildAttemptRecord>,
    audit_outcome: Option<&str>,
    base: Option<&GraphSnapshot>,
    derived: &Vec<String>,
) -> (result: Result<BuildGraphDelta, BuildError>)
    requires
        base is Some ==> derived.len() == base->0.profiles.len(),
    ensures
        match attempt {
            None => result == Err::<BuildGraphDelta, _>(BuildError::AttemptNotFound),
            Some(attempt) => if attempt.status@ != "staging"@ {
                result == Err::<BuildGraphDelta, _>(BuildError::AttemptImmutable)
            } else if build.coverage@.len() == 0 {
                result == Err::<BuildGraphDelta, _>(BuildError::NoFinalCoverage)
            } else if audit_outcome is None {
                result == Err::<BuildGraphDelta, _>(BuildError::AuditMissing)
            } else if opt_str(audit_outcome) != Some("completed"@) || attempt.validated_output_digest is None {
                result == Err::<BuildGraphDelta, _>(BuildError::AttemptNotCompleted)
            } else {
                exists|delta: BuildGraphDelta| #[trigger]
                    is_delta_of(*build, delta) && is_staging_of(delta, *attempt, base, derived@, result)
            },
        },
{
    let attempt = match attempt {
        Some(found) => found,
        None => {
            return Err(BuildError::AttemptNotFound);
        },
    };
    if !same(attempt.status.as_str(), "staging") {
        return Err(BuildError::AttemptImmutable);
    }
    let delta = match build_delta_from_protocol(build) {
        Ok(delta) => delta,
        Err(error) => {
            return Err(error);
        },
    };
    match audit_outcome {
        None => {
            return Err(BuildError::AuditMissing);
        },
        Some(outcome) => {
            if !same(outcome, "completed") || attempt.validated_output_digest.is_none() {
                return Err(BuildError::AttemptNotCompleted);
            }
        },
    }
    if let Err(error) = validate_delta_attempt_metadata(&delta.evidence, attempt) {
        return Err(error);
    }
    if attempt.base_snapshot_id.is_none() {
        return Err(BuildError::BaseSnapshotMissing);
    }
    let base = match base {
        Some(base) => base,
        None => {
            return Err(BuildError::BaseSnapshotInvalid);
        },
    };
    let ghost whole = delta;
    let left = match deduplicate_identical_build_evidence(base, delta) {
        Ok(left) => left,
        Err(error) => {
            return Err(error);
        },
    };
    assert(is_left_to_stage(*base, whole, left));
    if let Err(error) = validate_build_union(base, derived, &left, attempt) {
        return Err(error);
    }
    Ok(left)
}

} // verus!

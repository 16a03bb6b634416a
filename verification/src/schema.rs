//! The schema of the store: how an older store is brought up to date, which stores can be
//! read as they are, and whether the tables of operation ownership have their exact shape.

use vstd::prelude::*;

use crate::order::{collect, first_kept, first_kept_remains};
use crate::text::{characters, is_space, is_space_char, same, texts};

verus! {

/// The version of the schema that this library writes.
pub const STORE_SCHEMA_VERSION: i64 = 17;

/// The size of a page in a new store. Larger pages keep the rows of a graph from taking
/// one page each; an existing store keeps its page size.
pub const STORE_PAGE_SIZE_BYTES: i64 = 16384;

/// The size of the page cache.
pub const STORE_CACHE_SIZE_KIB: i64 = 65536;

/// The table of the operations that own staged runtime imports.
pub const RUNTIME_IMPORT_OPERATION_OWNERS_TABLE_SQL: &'static str =
    "CREATE TABLE runtime_import_operation_owners (
        import_id TEXT NOT NULL
            REFERENCES runtime_imports(id) ON DELETE CASCADE,
        operation_id TEXT NOT NULL UNIQUE
            CHECK (length(operation_id) BETWEEN 1 AND 512),
        created_at TEXT NOT NULL,
        PRIMARY KEY (import_id, operation_id)
     )";

/// The index of the owners of runtime imports.
pub const RUNTIME_IMPORT_OPERATION_OWNERS_INDEX_SQL: &'static str =
    "CREATE INDEX runtime_import_operation_owners_import
        ON runtime_import_operation_owners(import_id, operation_id)";

/// The table of the operations that own staged scans.
pub const SCAN_OPERATION_STAGING_TABLE_SQL: &'static str =
    "CREATE TABLE scan_operation_staging (
        operation_id TEXT PRIMARY KEY
            CHECK (length(operation_id) BETWEEN 1 AND 512),
        scan_id TEXT NOT NULL UNIQUE
            REFERENCES scans(id) ON DELETE CASCADE,
        repository_binding_digest BLOB NOT NULL
            CHECK (typeof(repository_binding_digest)='blob'
                AND length(repository_binding_digest)=32),
        configuration_digest BLOB NOT NULL
            CHECK (typeof(configuration_digest)='blob'
                AND length(configuration_digest)=32),
        strict INTEGER NOT NULL CHECK (strict IN (0, 1)),
        cache_enabled INTEGER NOT NULL CHECK (cache_enabled IN (0, 1)),
        base_snapshot_id TEXT,
        validated_mutation_count INTEGER
            CHECK (validated_mutation_count IS NULL
                OR validated_mutation_count >= 0),
        prospective_snapshot_id TEXT,
        result_digest BLOB
            CHECK (result_digest IS NULL
                OR (typeof(result_digest)='blob' AND length(result_digest)=32)),
        decision_authorization_digest BLOB
            CHECK (decision_authorization_digest IS NULL
                OR (typeof(decision_authorization_digest)='blob'
                    AND length(decision_authorization_digest)=32)),
        created_at TEXT NOT NULL,
        CHECK ((validated_mutation_count IS NULL
                    AND prospective_snapshot_id IS NULL
                    AND result_digest IS NULL)
            OR (validated_mutation_count IS NOT NULL
                    AND prospective_snapshot_id IS NOT NULL))
     )";

/// The index of staged scans.
pub const SCAN_OPERATION_STAGING_SCAN_INDEX_SQL: &'static str =
    "CREATE INDEX scan_operation_staging_scan
        ON scan_operation_staging(scan_id, operation_id)";

/// The index of cancelled operations.
pub const SCAN_OPERATION_STAGING_PENDING_INDEX_SQL: &'static str =
    "CREATE INDEX scan_operation_staging_pending_cancelled
        ON scan_operation_staging(operation_id COLLATE BINARY, scan_id)";

/// Why a store is refused.
#[derive(Debug, Clone, Copy, PartialEq, Eq, Structural)]
pub enum SchemaError {
    /// The store was written by a later version.
    Newer,
    /// The schema cannot be read as it is.
    OutsideRange,
    /// A table or an index is missing.
    ObjectMissing,
    /// A table or an index does not have its exact shape.
    ObjectDiffers,
    /// The named indexes of a table are not the expected ones.
    IndexesDiffer,
    /// The foreign key of a table is not the expected one.
    ForeignKeyDiffers,
    /// An object of a later version is there; `at` is its place among the names.
    ForbiddenObject { at: usize },
    /// Rows refer to rows that are not there.
    ForeignKeyViolations { count: u64 },
}

// ---------------------------------------------------------------------------------------
// Migration
// ---------------------------------------------------------------------------------------

/// One step that brings an older store up to date.
#[derive(Debug, Clone, Copy, PartialEq, Eq, Structural)]
pub enum MigrationStep {
    CreateTables,
    EvidenceKinds,
    SkippedSites,
    EdgeSites,
    ProfileCoverage,
    BuildAudits,
    BuildAttempts,
    CompletedSnapshots,
    SnapshotNames,
    Caches,
    RuntimeSessions,
    IncrementalDeltas,
    ImpactQueryCache,
    CompilerPreciseCache,
    SnapshotSeals,
    /// The ownership of runtime imports and of scans.
    OperationOwnership,
    /// The ownership of scans, where that of runtime imports is there already.
    ScanOwnership,
}

/// The steps in their order.
pub open spec fn step_at(place: int) -> MigrationStep {
    if place == 0 {
        MigrationStep::CreateTables
    } else if place == 1 {
        MigrationStep::EvidenceKinds
    } else if place == 2 {
        MigrationStep::SkippedSites
    } else if place == 3 {
        MigrationStep::EdgeSites
    } else if place == 4 {
        MigrationStep::ProfileCoverage
    } else if place == 5 {
        MigrationStep::BuildAudits
    } else if place == 6 {
        MigrationStep::BuildAttempts
    } else if place == 7 {
        MigrationStep::CompletedSnapshots
    } else if place == 8 {
        MigrationStep::SnapshotNames
    } else if place == 9 {
        MigrationStep::Caches
    } else if place == 10 {
        MigrationStep::RuntimeSessions
    } else if place == 11 {
        MigrationStep::IncrementalDeltas
    } else if place == 12 {
        MigrationStep::ImpactQueryCache
    } else if place == 13 {
        MigrationStep::CompilerPreciseCache
    } else if place == 14 {
        MigrationStep::SnapshotSeals
    } else if place == 15 {
        MigrationStep::OperationOwnership
    } else {
        MigrationStep::ScanOwnership
    }
}

/// The version of the schema after a step.
pub open spec fn version_after(step: MigrationStep) -> int {
    match step {
        MigrationStep::CreateTables => 4,
        MigrationStep::EvidenceKinds => 4,
        MigrationStep::SkippedSites => 4,
        MigrationStep::EdgeSites => 4,
        MigrationStep::ProfileCoverage => 5,
        MigrationStep::BuildAudits => 6,
        MigrationStep::BuildAttempts => 7,
        MigrationStep::CompletedSnapshots => 8,
        MigrationStep::SnapshotNames => 9,
        MigrationStep::Caches => 10,
        MigrationStep::RuntimeSessions => 11,
        MigrationStep::IncrementalDeltas => 12,
        MigrationStep::ImpactQueryCache => 13,
        MigrationStep::CompilerPreciseCache => 14,
        MigrationStep::SnapshotSeals => 15,
        MigrationStep::OperationOwnership => 17,
        MigrationStep::ScanOwnership => 17,
    }
}

/// Whether a store at a version needs a step: each of the first four starts from one
/// version; the others from every version before theirs, except that the ownership of
/// scans alone is left only where that of runtime imports is there.
pub open spec fn is_due(current: i64, step: MigrationStep) -> bool {
    match step {
        MigrationStep::CreateTables => current == 0,
        MigrationStep::EvidenceKinds => current == 1,
        MigrationStep::SkippedSites => current == 2,
        MigrationStep::EdgeSites => current == 3,
        MigrationStep::OperationOwnership => current < 16,
        MigrationStep::ScanOwnership => current == 16,
        _ => current < version_after(step),
    }
}

/// Which steps a store at a version needs.
pub open spec fn due_at(current: i64) -> spec_fn(int) -> bool {
    |i: int| is_due(current, step_at(i))
}

/// The steps that a store at a version needs, in their order.
pub open spec fn due_steps(current: i64) -> Seq<MigrationStep> {
    collect(17, due_at(current), |i: int| step_at(i))
}

impl MigrationStep {
    /// The step at a place.
    pub fn at(place: usize) -> (result: MigrationStep)
        ensures
            result == step_at(place as int),
    {
        match place {
            0 => MigrationStep::CreateTables,
            1 => MigrationStep::EvidenceKinds,
            2 => MigrationStep::SkippedSites,
            3 => MigrationStep::EdgeSites,
            4 => MigrationStep::ProfileCoverage,
            5 => MigrationStep::BuildAudits,
            6 => MigrationStep::BuildAttempts,
            7 => MigrationStep::CompletedSnapshots,
            8 => MigrationStep::SnapshotNames,
            9 => MigrationStep::Caches,
            10 => MigrationStep::RuntimeSessions,
            11 => MigrationStep::IncrementalDeltas,
            12 => MigrationStep::ImpactQueryCache,
            13 => MigrationStep::CompilerPreciseCache,
            14 => MigrationStep::SnapshotSeals,
            15 => MigrationStep::OperationOwnership,
            _ => MigrationStep::ScanOwnership,
        }
    }

    /// The version of the schema after the step.
    pub fn version(self) -> (result: i64)
        ensures
            result == version_after(self),
    {
        match self {
            MigrationStep::CreateTables => 4,
            MigrationStep::EvidenceKinds => 4,
            MigrationStep::SkippedSites => 4,
            MigrationStep::EdgeSites => 4,
            MigrationStep::ProfileCoverage => 5,
            MigrationStep::BuildAudits => 6,
            MigrationStep::BuildAttempts => 7,
            MigrationStep::CompletedSnapshots => 8,
            MigrationStep::SnapshotNames => 9,
            MigrationStep::Caches => 10,
            MigrationStep::RuntimeSessions => 11,
            MigrationStep::IncrementalDeltas => 12,
            MigrationStep::ImpactQueryCache => 13,
            MigrationStep::CompilerPreciseCache => 14,
            MigrationStep::SnapshotSeals => 15,
            MigrationStep::OperationOwnership => 17,
            MigrationStep::ScanOwnership => 17,
        }
    }

    /// Whether a store at a version needs the step.
    pub fn due(self, current: i64) -> (result: bool)
        ensures
            result == is_due(current, self),
    {
        match self {
            MigrationStep::CreateTables => current == 0,
            MigrationStep::EvidenceKinds => current == 1,
            MigrationStep::SkippedSites => current == 2,
            MigrationStep::EdgeSites => current == 3,
            MigrationStep::OperationOwnership => current < 16,
            MigrationStep::ScanOwnership => current == 16,
            _ => current < self.version(),
        }
    }
}

/// What brings a store up to date.
#[derive(Debug, Clone)]
pub struct Migration {
    /// The store is new, and gets its page size.
    pub set_page_size: bool,
    /// The steps, in their order; none where the store is up to date and only has its
    /// ownership checked.
    pub steps: Vec<MigrationStep>,
}

/// What brings a store at a version up to date; a store of a later version is refused.
pub fn migrate(current: i64) -> (result: Result<Migration, SchemaError>)
    ensures
        if current > STORE_SCHEMA_VERSION {
            result matches Err(error) && error == SchemaError::Newer
        } else {
            result matches Ok(migration) && migration.set_page_size == (current == 0) && migration.steps@ == due_steps(
                current,
            )
        },
{
    if current > STORE_SCHEMA_VERSION {
        return Err(SchemaError::Newer);
    }
    let ghost item = |i: int| step_at(i);
    let mut steps: Vec<MigrationStep> = Vec::new();
    let mut place: usize = 0;
    while place < 17
        invariant
            place <= 17,
            item == |i: int| step_at(i),
            steps@ == collect(place as int, due_at(current), item),
        decreases 17 - place,
    {
        let step = MigrationStep::at(place);
        if step.due(current) {
            steps.push(step);
        }
        place = place + 1;
    }
    Ok(Migration { set_page_size: current == 0, steps })
}

// ---------------------------------------------------------------------------------------
// Access
// ---------------------------------------------------------------------------------------

/// Whether a store can be read as it is.
pub fn check_read_only(current: i64, minimum: i64, maximum: i64) -> (result: Result<(), SchemaError>)
    ensures
        result == if minimum <= current <= maximum {
            Ok::<(), SchemaError>(())
        } else {
            Err(SchemaError::OutsideRange)
        },
{
    if minimum <= current && current <= maximum {
        Ok(())
    } else {
        Err(SchemaError::OutsideRange)
    }
}

/// Whether clearing the runtime imports of an operation needs a writable store. Before the
/// owners' table there can be no import that an operation owns; a table that should not be
/// there yet is left to the writable store to refuse.
pub fn runtime_operation_cleanup_requires_writable_store(version: i64, owners_table_exists: bool) -> (result: bool)
    ensures
        result == (version >= 16 || owners_table_exists),
{
    version >= 16 || owners_table_exists
}

/// Whether clearing the scan of an operation needs a writable store: before the table of
/// staged scans, only where there is a scan with the operation's identity.
pub fn scan_operation_cleanup_requires_writable_store(
    version: i64,
    staging_table_exists: bool,
    scans_table_exists: bool,
    scan_exists: bool,
) -> (result: bool)
    ensures
        result == (version >= 17 || staging_table_exists || (scans_table_exists && scan_exists)),
{
    version >= 17 || staging_table_exists || (scans_table_exists && scan_exists)
}

/// Whether reconciling scans that predate ownership needs a writable store: before the
/// table of staged scans, only where a scan is staging.
pub fn legacy_scan_reconciliation_requires_writable_store(
    version: i64,
    staging_table_exists: bool,
    scans_have_status: bool,
    staging_scan_exists: bool,
) -> (result: bool)
    ensures
        result == (version >= 17 || staging_table_exists || (scans_have_status && staging_scan_exists)),
{
    version >= 17 || staging_table_exists || (scans_have_status && staging_scan_exists)
}

/// Whether all rows refer to rows that are there.
pub fn validate_store_foreign_keys(violations: u64) -> (result: Result<(), SchemaError>)
    ensures
        result == if violations == 0 {
            Ok::<(), SchemaError>(())
        } else {
            Err(SchemaError::ForeignKeyViolations { count: violations })
        },
{
    if violations == 0 {
        Ok(())
    } else {
        Err(SchemaError::ForeignKeyViolations { count: violations })
    }
}

// ---------------------------------------------------------------------------------------
// Shape
// ---------------------------------------------------------------------------------------

/// The first `count` characters of a text with white space at its ends dropped and every
/// other run of white space as one space.
pub open spec fn spaced_once(value: Seq<char>, count: int) -> Seq<char>
    decreases count,
{
    if count <= 0 {
        Seq::empty()
    } else {
        let before = spaced_once(value, count - 1);
        let c = value[count - 1];
        if is_space_char(c) {
            before
        } else if before.len() > 0 && is_space_char(value[count - 2]) {
            before.push(' ').push(c)
        } else {
            before.push(c)
        }
    }
}

/// A text with white space at its ends dropped and every other run of white space as one
/// space.
pub open spec fn normalized(value: Seq<char>) -> Seq<char> {
    spaced_once(value, value.len() as int)
}

/// The text of a schema object in its normal form.
pub fn normalized_schema_sql(sql: &str) -> (result: String)
    ensures
        result@ == normalized(sql@),
{
    let chars = characters(sql);
    let mut result: String = String::new();
    let mut started: bool = false;
    let mut i: usize = 0;
    while i < chars.len()
        invariant
            i <= chars.len(),
            chars@ == sql@,
            result@ == spaced_once(sql@, i as int),
            started == (result@.len() > 0),
            started ==> i > 0,
        decreases chars.len() - i,
    {
        let c: char = chars[i];
        if !is_space(c) {
            if started && is_space(chars[i - 1]) {
                result.push(' ');
            }
            result.push(c);
            started = true;
        }
        i = i + 1;
    }
    result
}

fn same_shape(a: &str, b: &str) -> (result: bool)
    ensures
        result == (normalized(a@) == normalized(b@)),
{
    same(normalized_schema_sql(a).as_str(), normalized_schema_sql(b).as_str())
}

/// Whether an object of the schema is there, in its exact shape up to white space.
pub fn validate_schema_object_sql(actual: Option<&str>, expected: &str) -> (result: Result<(), SchemaError>)
    ensures
        result == match actual {
            None => Err::<(), _>(SchemaError::ObjectMissing),
            Some(actual) => if normalized(actual@) == normalized(expected@) {
                Ok(())
            } else {
                Err(SchemaError::ObjectDiffers)
            },
        },
{
    match actual {
        None => Err(SchemaError::ObjectMissing),
        Some(actual) => if same_shape(actual, expected) {
            Ok(())
        } else {
            Err(SchemaError::ObjectDiffers)
        },
    }
}

/// An index with its name.
#[derive(Debug, Clone)]
pub struct NamedIndex {
    pub name: String,
    pub sql: String,
}

/// Whether indexes are the expected ones: the same names with the same shapes, in the same
/// order.
pub open spec fn same_indexes(actual: Seq<NamedIndex>, expected: Seq<NamedIndex>) -> bool {
    &&& actual.len() == expected.len()
    &&& forall|i: int|
        0 <= i < actual.len() ==> (#[trigger] actual[i]).name@ == expected[i].name@ && normalized(actual[i].sql@)
            == normalized(expected[i].sql@)
}

/// Whether the named indexes of a table, in the order of their names, are the expected
/// ones.
pub fn validate_named_table_indexes(actual: &Vec<NamedIndex>, expected: &Vec<NamedIndex>) -> (result: Result<
    (),
    SchemaError,
>)
    ensures
        result == if same_indexes(actual@, expected@) {
            Ok::<(), SchemaError>(())
        } else {
            Err(SchemaError::IndexesDiffer)
        },
{
    if actual.len() != expected.len() {
        return Err(SchemaError::IndexesDiffer);
    }
    let mut i: usize = 0;
    while i < actual.len()
        invariant
            i <= actual.len(),
            actual.len() == expected.len(),
            forall|k: int|
                0 <= k < i ==> (#[trigger] actual@[k]).name@ == expected@[k].name@ && normalized(actual@[k].sql@)
                    == normalized(expected@[k].sql@),
        decreases actual.len() - i,
    {
        if !same(actual[i].name.as_str(), expected[i].name.as_str()) || !same_shape(
            actual[i].sql.as_str(),
            expected[i].sql.as_str(),
        ) {
            assert(actual@[i as int].name@ != expected@[i as int].name@ || normalized(actual@[i as int].sql@)
                != normalized(expected@[i as int].sql@));
            return Err(SchemaError::IndexesDiffer);
        }
        i = i + 1;
    }
    Ok(())
}

/// A foreign key of a table.
#[derive(Debug, Clone)]
pub struct ForeignKeyRow {
    pub parent_table: String,
    pub from: String,
    pub to: String,
    pub on_update: String,
    pub on_delete: String,
    pub match_clause: String,
}

/// Whether a table has one foreign key, the expected one, whose rows go with their parent.
pub fn validate_single_foreign_key(keys: &Vec<ForeignKeyRow>, from: &str, parent_table: &str, to: &str) -> (result:
    Result<(), SchemaError>)
    ensures
        result == if keys@.len() == 1 && keys@[0].parent_table@ == parent_table@ && keys@[0].from@ == from@
            && keys@[0].to@ == to@ && keys@[0].on_update@ == "NO ACTION"@ && keys@[0].on_delete@ == "CASCADE"@
            && keys@[0].match_clause@ == "NONE"@ {
            Ok::<(), SchemaError>(())
        } else {
            Err(SchemaError::ForeignKeyDiffers)
        },
{
    if keys.len() == 1 && same(keys[0].parent_table.as_str(), parent_table) && same(keys[0].from.as_str(), from)
        && same(keys[0].to.as_str(), to) && same(keys[0].on_update.as_str(), "NO ACTION") && same(
        keys[0].on_delete.as_str(),
        "CASCADE",
    ) && same(keys[0].match_clause.as_str(), "NONE") {
        Ok(())
    } else {
        Err(SchemaError::ForeignKeyDiffers)
    }
}

/// The objects that a store before the ownership of scans may not hold yet, in the order in
/// which they are looked for: those of the ownership of runtime imports, where the store stands
/// before that too, then those of the ownership of scans.
pub open spec fn future_objects_of(before_runtime_ownership: bool) -> Seq<Seq<char>> {
    let scan_objects = seq![
        "scan_operation_staging"@,
        "scan_operation_staging_scan"@,
        "scan_operation_staging_pending_cancelled"@,
        "legacy_scan_operation_candidates"@,
    ];
    if before_runtime_ownership {
        seq!["runtime_import_operation_owners"@, "runtime_import_operation_owners_import"@] + scan_objects
    } else {
        scan_objects
    }
}

/// Which of some objects stand among names.
pub open spec fn stands_among(objects: Seq<Seq<char>>, names: Seq<Seq<char>>) -> spec_fn(int) -> bool {
    |k: int| names.contains(objects[k])
}

/// Which names are that of an object.
pub open spec fn is_named(names: Seq<Seq<char>>, object: Seq<char>) -> spec_fn(int) -> bool {
    |i: int| names[i] == object
}

fn future_objects(before_runtime_ownership: bool) -> (result: Vec<&'static str>)
    ensures
        result@.len() == future_objects_of(before_runtime_ownership).len(),
        forall|k: int|
            0 <= k < result@.len() ==> (#[trigger] result@[k])@ == future_objects_of(before_runtime_ownership)[k],
{
    let mut objects: Vec<&'static str> = Vec::new();
    if before_runtime_ownership {
        objects.push("runtime_import_operation_owners");
        objects.push("runtime_import_operation_owners_import");
    }
    objects.push("scan_operation_staging");
    objects.push("scan_operation_staging_scan");
    objects.push("scan_operation_staging_pending_cancelled");
    objects.push("legacy_scan_operation_candidates");
    objects
}

fn find_name(names: &Vec<String>, object: &str) -> (result: Option<usize>)
    ensures
        match result {
            Some(at) => first_kept(names@.len() as int, is_named(texts(names@), object@)) == Some(at as int)
                && texts(names@).contains(object@),
            None => !texts(names@).contains(object@),
        },
{
    let ghost all = texts(names@);
    let ghost keep = is_named(all, object@);
    let mut i: usize = 0;
    while i < names.len()
        invariant
            i <= names.len(),
            all == texts(names@),
            keep == is_named(all, object@),
            first_kept(i as int, keep) is None,
            forall|k: int| 0 <= k < i ==> (#[trigger] all[k]) != object@,
        decreases names.len() - i,
    {
        assert(all[i as int] == names@[i as int]@);
        if same(names[i].as_str(), object) {
            assert(keep(i as int));
            proof {
                first_kept_remains(i as int + 1, names@.len() as int, keep);
            }
            return Some(i);
        }
        i = i + 1;
    }
    None
}

/// Whether a store before the ownership of scans, and perhaps before that of runtime
/// imports, holds no object of theirs. `names` are those of the objects of its schema. Where it
/// holds several, the one that is looked for first is refused.
pub fn ensure_schema_objects_absent(names: &Vec<String>, before_runtime_ownership: bool) -> (result: Result<
    (),
    SchemaError,
>)
    ensures
        ({
            let objects = future_objects_of(before_runtime_ownership);
            match first_kept(objects.len() as int, stands_among(objects, texts(names@))) {
                Some(k) => result matches Err(SchemaError::ForbiddenObject { at }) && first_kept(
                    names@.len() as int,
                    is_named(texts(names@), objects[k]),
                ) == Some(at as int),
                None => result is Ok,
            }
        }),
{
    let ghost wanted = future_objects_of(before_runtime_ownership);
    let ghost keep = stands_among(wanted, texts(names@));
    let objects = future_objects(before_runtime_ownership);
    let mut k: usize = 0;
    while k < objects.len()
        invariant
            k <= objects.len(),
            wanted == future_objects_of(before_runtime_ownership),
            keep == stands_among(wanted, texts(names@)),
            objects@.len() == wanted.len(),
            forall|k: int| 0 <= k < objects@.len() ==> (#[trigger] objects@[k])@ == wanted[k],
            first_kept(k as int, keep) is None,
        decreases objects.len() - k,
    {
        assert(objects@[k as int]@ == wanted[k as int]);
        if let Some(at) = find_name(names, objects[k]) {
            assert(keep(k as int));
            proof {
                first_kept_remains(k as int + 1, wanted.len() as int, keep);
            }
            return Err(SchemaError::ForbiddenObject { at });
        }
        assert(!keep(k as int));
        k = k + 1;
    }
    Ok(())
}

// ---------------------------------------------------------------------------------------
// Laws
// ---------------------------------------------------------------------------------------

/// A store that is up to date needs no step; any older store is brought up to date by its
/// last step.
pub proof fn migrated_stores_are_current(current: i64)
    requires
        current <= STORE_SCHEMA_VERSION,
    ensures
        current == STORE_SCHEMA_VERSION ==> due_steps(current).len() == 0,
        current < STORE_SCHEMA_VERSION ==> due_steps(current).len() > 0 && version_after(due_steps(current).last())
            == STORE_SCHEMA_VERSION,
{
    let keep = due_at(current);
    let item = |i: int| step_at(i);
    if current == STORE_SCHEMA_VERSION {
        assert forall|i: int| 0 <= i < 17 implies !#[trigger] keep(i) by {}
        nothing_kept(17, keep, item);
    } else if current == 16 {
        assert(keep(16));
    } else {
        assert(!keep(16));
        assert(keep(15));
        assert(due_steps(current) == collect(16, keep, item));
    }
}

proof fn nothing_kept(count: int, keep: spec_fn(int) -> bool, item: spec_fn(int) -> MigrationStep)
    requires
        forall|i: int| 0 <= i < count ==> !#[trigger] keep(i),
    ensures
        collect(count, keep, item).len() == 0,
    decreases count,
{
    if count > 0 {
        nothing_kept(count - 1, keep, item);
    }
}

/// Steps never lead back: each leads above the version that the store was at, and above
/// every earlier one.
pub proof fn steps_ascend(current: i64, a: int, b: int)
    requires
        0 <= a < b < 17,
        is_due(current, step_at(a)),
        is_due(current, step_at(b)),
    ensures
        current < version_after(step_at(a)) < version_after(step_at(b)),
{
}

/// Whether a text is in normal form: it starts and ends with no white space, and within it
/// white space is single spaces.
pub open spec fn is_normal(value: Seq<char>) -> bool {
    &&& value.len() > 0 ==> !is_space_char(value[0]) && !is_space_char(value[value.len() - 1])
    &&& forall|i: int|
        0 < i < value.len() && is_space_char(#[trigger] value[i]) ==> value[i] == ' ' && !is_space_char(value[i - 1])
}

proof fn normal_form_is_normal(value: Seq<char>, count: int)
    requires
        0 <= count <= value.len(),
    ensures
        is_normal(spaced_once(value, count)),
    decreases count,
{
    if count > 0 {
        normal_form_is_normal(value, count - 1);
        let before = spaced_once(value, count - 1);
        let c = value[count - 1];
        let after = spaced_once(value, count);
        if !is_space_char(c) {
            assert forall|i: int| 0 < i < after.len() && is_space_char(#[trigger] after[i]) implies after[i] == ' '
                && !is_space_char(after[i - 1]) by {
                if i < before.len() {
                    assert(after[i] == before[i]);
                    assert(after[i - 1] == before[i - 1]);
                }
            }
        }
    }
}

proof fn normal_text_stays(value: Seq<char>, count: int)
    requires
        is_normal(value),
        0 <= count <= value.len(),
    ensures
        spaced_once(value, count) == if count > 0 && is_space_char(value[count - 1]) {
            value.subrange(0, count - 1)
        } else {
            value.subrange(0, count)
        },
    decreases count,
{
    if count > 0 {
        normal_text_stays(value, count - 1);
        let before = spaced_once(value, count - 1);
        let c = value[count - 1];
        if is_space_char(c) {
            assert(count > 1);
            assert(!is_space_char(value[count - 2]));
        } else if count > 1 && is_space_char(value[count - 2]) {
            assert(value[count - 2] == ' ');
            assert(count - 2 > 0);
            assert(before.push(' ').push(c) =~= value.subrange(0, count));
        } else {
            assert(before.push(c) =~= value.subrange(0, count));
        }
    } else {
        assert(value.subrange(0, 0) =~= Seq::empty());
    }
}

/// The normal form of a schema text is normal, and its own normal form.
pub proof fn normalizing_twice_changes_nothing(value: Seq<char>)
    ensures
        is_normal(normalized(value)),
        normalized(normalized(value)) == normalized(value),
{
    normal_form_is_normal(value, value.len() as int);
    let form = normalized(value);
    normal_text_stays(form, form.len() as int);
    assert(form.subrange(0, form.len() as int) =~= form);
    if form.len() > 0 {
        assert(!is_space_char(form[form.len() - 1]));
    }
}

} // verus!

//! Which steps a store takes to the current schema, and when a schema is as expected.

use vstd::prelude::*;

use crate::order::{collect_holds_the_kept_items, first_kept, first_kept_is_first};
use crate::schema::{
    check_read_only, due_at, due_steps, ensure_schema_objects_absent, future_objects_of,
    legacy_scan_reconciliation_requires_writable_store, migrate, normalized,
    runtime_operation_cleanup_requires_writable_store, scan_operation_cleanup_requires_writable_store,
    spaced_once, stands_among, step_at, validate_named_table_indexes, validate_schema_object_sql,
    validate_single_foreign_key, validate_store_foreign_keys, ForeignKeyRow, Migration, MigrationStep,
    NamedIndex, SchemaError,
};
use crate::text::{is_space_char, texts};

verus! {

proof fn step_is_taken(current: i64, step: MigrationStep, place: int)
    requires
        0 <= place < 17,
        step_at(place) == step,
        forall|i: int| 0 <= i < 17 && i != place ==> #[trigger] step_at(i) != step,
    ensures
        due_steps(current).contains(step) <==> due_at(current)(place),
{
    let keep = due_at(current);
    let item = |i: int| step_at(i);
    collect_holds_the_kept_items(17, keep, item, step);
    if exists|i: int| 0 <= i < 17 && #[trigger] keep(i) && item(i) == step {
        let i = choose|i: int| 0 <= i < 17 && #[trigger] keep(i) && item(i) == step;
        assert(step_at(i) == step);
    }
    if keep(place) {
        assert(item(place) == step);
    }
}

/// A store of a later schema is refused. Every other takes exactly the steps that its schema lacks:
/// the tables are created where there is no schema, and each later step is taken by every store of
/// an earlier schema.
pub proof fn stores_take_the_steps_they_lack(current: i64, result: Result<Migration, SchemaError>)
    requires
        call_ensures(migrate, (current,), result),
    ensures
        result is Err <==> current > 17,
        result matches Ok(migration) ==> {
            let steps = migration.steps@;
            &&& migration.set_page_size <==> current == 0
            &&& steps.contains(MigrationStep::CreateTables) <==> current == 0
            &&& steps.contains(MigrationStep::EvidenceKinds) <==> current == 1
            &&& steps.contains(MigrationStep::SkippedSites) <==> current == 2
            &&& steps.contains(MigrationStep::EdgeSites) <==> current == 3
            &&& steps.contains(MigrationStep::ProfileCoverage) <==> current < 5
            &&& steps.contains(MigrationStep::BuildAudits) <==> current < 6
            &&& steps.contains(MigrationStep::BuildAttempts) <==> current < 7
            &&& steps.contains(MigrationStep::CompletedSnapshots) <==> current < 8
            &&& steps.contains(MigrationStep::SnapshotNames) <==> current < 9
            &&& steps.contains(MigrationStep::Caches) <==> current < 10
            &&& steps.contains(MigrationStep::RuntimeSessions) <==> current < 11
            &&& steps.contains(MigrationStep::IncrementalDeltas) <==> current < 12
            &&& steps.contains(MigrationStep::ImpactQueryCache) <==> current < 13
            &&& steps.contains(MigrationStep::CompilerPreciseCache) <==> current < 14
            &&& steps.contains(MigrationStep::SnapshotSeals) <==> current < 15
            &&& steps.contains(MigrationStep::OperationOwnership) <==> current < 16
            &&& steps.contains(MigrationStep::ScanOwnership) <==> current == 16
        },
{
    step_is_taken(current, MigrationStep::CreateTables, 0);
    step_is_taken(current, MigrationStep::EvidenceKinds, 1);
    step_is_taken(current, MigrationStep::SkippedSites, 2);
    step_is_taken(current, MigrationStep::EdgeSites, 3);
    step_is_taken(current, MigrationStep::ProfileCoverage, 4);
    step_is_taken(current, MigrationStep::BuildAudits, 5);
    step_is_taken(current, MigrationStep::BuildAttempts, 6);
    step_is_taken(current, MigrationStep::CompletedSnapshots, 7);
    step_is_taken(current, MigrationStep::SnapshotNames, 8);
    step_is_taken(current, MigrationStep::Caches, 9);
    step_is_taken(current, MigrationStep::RuntimeSessions, 10);
    step_is_taken(current, MigrationStep::IncrementalDeltas, 11);
    step_is_taken(current, MigrationStep::ImpactQueryCache, 12);
    step_is_taken(current, MigrationStep::CompilerPreciseCache, 13);
    step_is_taken(current, MigrationStep::SnapshotSeals, 14);
    step_is_taken(current, MigrationStep::OperationOwnership, 15);
    step_is_taken(current, MigrationStep::ScanOwnership, 16);
}

/// A store is read as it is exactly where its schema lies within the range that is asked for.
pub proof fn readable_schemas_lie_in_their_range(
    current: i64,
    minimum: i64,
    maximum: i64,
    result: Result<(), SchemaError>,
)
    requires
        call_ensures(check_read_only, (current, minimum, maximum), result),
    ensures
        result is Ok <==> minimum <= current && current <= maximum,
{
}

/// What can have been left behind asks for a store that can be written: owners of imports from the
/// schema that has them on, or where their table is there; staged scans from the schema that has
/// them on, where their table is there, or where a scan that may be one is.
pub proof fn cleanups_ask_for_writable_stores(
    version: i64,
    table_exists: bool,
    scans_exist: bool,
    scan_exists: bool,
    a: bool,
    b: bool,
    c: bool,
)
    requires
        call_ensures(runtime_operation_cleanup_requires_writable_store, (version, table_exists), a),
        call_ensures(
            scan_operation_cleanup_requires_writable_store,
            (version, table_exists, scans_exist, scan_exists),
            b,
        ),
        call_ensures(
            legacy_scan_reconciliation_requires_writable_store,
            (version, table_exists, scans_exist, scan_exists),
            c,
        ),
    ensures
        a <==> version >= 16 || table_exists,
        b <==> version >= 17 || table_exists || (scans_exist && scan_exists),
        c <==> version >= 17 || table_exists || (scans_exist && scan_exists),
{
}

/// A store is accepted where no row refers to a row that is not there.
pub proof fn references_are_kept(violations: u64, result: Result<(), SchemaError>)
    requires
        call_ensures(validate_store_foreign_keys, (violations,), result),
    ensures
        result is Ok <==> violations == 0,
        result matches Err(SchemaError::ForeignKeyViolations { count }) ==> count == violations,
{
}

proof fn spacing_keeps_the_characters(value: Seq<char>, count: int)
    requires
        0 <= count <= value.len(),
    ensures
        spaced_once(value, count).filter(|c: char| !is_space_char(c)) == value.take(count).filter(
            |c: char| !is_space_char(c),
        ),
    decreases count,
{
    let wanted = |c: char| !is_space_char(c);
    reveal(Seq::filter);
    if count > 0 {
        spacing_keeps_the_characters(value, count - 1);
        let before = spaced_once(value, count - 1);
        let c = value[count - 1];
        assert(value.take(count).drop_last() =~= value.take(count - 1));
        if !is_space_char(c) {
            if before.len() > 0 && is_space_char(value[count - 2]) {
                let spaced = before.push(' ');
                assert(spaced.drop_last() =~= before);
                assert(is_space_char(' '));
                assert(spaced.filter(wanted) == before.filter(wanted));
                assert(spaced.push(c).drop_last() =~= spaced);
                assert(spaced.push(c).filter(wanted) == spaced.filter(wanted).push(c));
            } else {
                assert(before.push(c).drop_last() =~= before);
            }
        }
    }
}

/// Normalizing a schema changes white space only: every other character stays, in its order. What
/// is left of white space is single spaces between other characters.
pub proof fn normalizing_changes_white_space_only(value: Seq<char>)
    ensures
        normalized(value).filter(|c: char| !is_space_char(c)) == value.filter(|c: char| !is_space_char(c)),
        (forall|i: int| 0 <= i < value.len() ==> !is_space_char(#[trigger] value[i])) ==> normalized(value) == value,
{
    spacing_keeps_the_characters(value, value.len() as int);
    assert(value.take(value.len() as int) =~= value);
    if forall|i: int| 0 <= i < value.len() ==> !is_space_char(#[trigger] value[i]) {
        plain_texts_stay(value, value.len() as int);
    }
}

proof fn plain_texts_stay(value: Seq<char>, count: int)
    requires
        0 <= count <= value.len(),
        forall|i: int| 0 <= i < value.len() ==> !is_space_char(#[trigger] value[i]),
    ensures
        spaced_once(value, count) == value.take(count),
    decreases count,
{
    if count > 0 {
        plain_texts_stay(value, count - 1);
        assert(!is_space_char(value[count - 1]));
        if count > 1 {
            assert(!is_space_char(value[count - 2]));
        }
        assert(value.take(count - 1).push(value[count - 1]) =~= value.take(count));
    } else {
        assert(value.take(0) =~= Seq::empty());
    }
}

/// An object of a schema is as expected where it is there and differs in white space only.
pub proof fn objects_are_as_expected(actual: Option<&str>, expected: &str, result: Result<(), SchemaError>)
    requires
        call_ensures(validate_schema_object_sql, (actual, expected), result),
    ensures
        actual is None <==> result == Err::<(), _>(SchemaError::ObjectMissing),
        actual is Some && actual->0@ == expected@ ==> result is Ok,
        result is Ok ==> actual is Some && actual->0@.filter(|c: char| !is_space_char(c)) == expected@.filter(
            |c: char| !is_space_char(c),
        ),
{
    if actual is Some {
        normalizing_changes_white_space_only(actual->0@);
        normalizing_changes_white_space_only(expected@);
    }
}

/// The indexes of a table are as expected where they are as many, of the same names in the same
/// order, and differ in white space only.
pub proof fn indexes_are_as_expected(
    actual: &Vec<NamedIndex>,
    expected: &Vec<NamedIndex>,
    result: Result<(), SchemaError>,
)
    requires
        call_ensures(validate_named_table_indexes, (actual, expected), result),
    ensures
        result is Ok ==> actual@.len() == expected@.len() && forall|i: int|
            0 <= i < actual@.len() ==> (#[trigger] actual@[i]).name@ == expected@[i].name@ && normalized(
                actual@[i].sql@,
            ) == normalized(expected@[i].sql@),
        actual@ == expected@ ==> result is Ok,
{
}

/// A table has one foreign key, from the column to the parent's column, that leaves updates alone
/// and deletes with the parent.
pub proof fn foreign_keys_delete_with_their_parent(
    keys: &Vec<ForeignKeyRow>,
    from: &str,
    parent_table: &str,
    to: &str,
    result: Result<(), SchemaError>,
)
    requires
        call_ensures(validate_single_foreign_key, (keys, from, parent_table, to), result),
    ensures
        result is Ok <==> {
            &&& keys@.len() == 1
            &&& keys@[0].parent_table@ == parent_table@
            &&& keys@[0].from@ == from@
            &&& keys@[0].to@ == to@
            &&& keys@[0].on_update@ == "NO ACTION"@
            &&& keys@[0].on_delete@ == "CASCADE"@
            &&& keys@[0].match_clause@ == "NONE"@
        },
{
}

/// An earlier schema has no object of a later one: none of staged scans, and before owners of
/// imports none of these.
pub proof fn later_objects_are_absent(
    names: &Vec<String>,
    before_runtime_ownership: bool,
    result: Result<(), SchemaError>,
)
    requires
        call_ensures(ensure_schema_objects_absent, (names, before_runtime_ownership), result),
    ensures
        result is Ok <==> {
            &&& !texts(names@).contains("scan_operation_staging"@)
            &&& !texts(names@).contains("scan_operation_staging_scan"@)
            &&& !texts(names@).contains("scan_operation_staging_pending_cancelled"@)
            &&& !texts(names@).contains("legacy_scan_operation_candidates"@)
            &&& before_runtime_ownership ==> !texts(names@).contains("runtime_import_operation_owners"@) && !texts(
                names@,
            ).contains("runtime_import_operation_owners_import"@)
        },
{
    let objects = future_objects_of(before_runtime_ownership);
    let keep = stands_among(objects, texts(names@));
    first_kept_is_first(objects.len() as int, keep);
    if before_runtime_ownership {
        assert(objects.len() == 6);
        assert(objects[0] == "runtime_import_operation_owners"@);
        assert(objects[1] == "runtime_import_operation_owners_import"@);
        assert(objects[2] == "scan_operation_staging"@);
        assert(objects[3] == "scan_operation_staging_scan"@);
        assert(objects[4] == "scan_operation_staging_pending_cancelled"@);
        assert(objects[5] == "legacy_scan_operation_candidates"@);
        assert(keep(0) == texts(names@).contains(objects[0]));
        assert(keep(1) == texts(names@).contains(objects[1]));
        assert(keep(2) == texts(names@).contains(objects[2]));
        assert(keep(3) == texts(names@).contains(objects[3]));
        assert(keep(4) == texts(names@).contains(objects[4]));
        assert(keep(5) == texts(names@).contains(objects[5]));
    } else {
        assert(objects.len() == 4);
        assert(objects[0] == "scan_operation_staging"@);
        assert(objects[1] == "scan_operation_staging_scan"@);
        assert(objects[2] == "scan_operation_staging_pending_cancelled"@);
        assert(objects[3] == "legacy_scan_operation_candidates"@);
        assert(keep(0) == texts(names@).contains(objects[0]));
        assert(keep(1) == texts(names@).contains(objects[1]));
        assert(keep(2) == texts(names@).contains(objects[2]));
        assert(keep(3) == texts(names@).contains(objects[3]));
    }
    if let Some(k) = first_kept(objects.len() as int, keep) {
        assert(keep(k));
    }
}

} // verus!

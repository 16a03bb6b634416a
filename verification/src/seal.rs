//! The storage seal of a completed snapshot: a digest over every row that the snapshot and
//! its ancestors rest on.

use vstd::prelude::*;
use vstd::utf8::encode_utf8;

use crate::digest::{
    be64, be64_is_injective, be64_len, encoding_is_injective, frame, hex, hex_text, push_be64, push_frame,
    sha256, sha256_digest, two_complement, unsigned_bits,
};
use crate::text::same;

verus! {

/// The version of the seal.
pub const COMPLETED_SNAPSHOT_SEAL_VERSION: i64 = 1;

/// One stored value. Text and binary values are their bytes, a real number its bits.
#[derive(Debug, Clone, PartialEq, Eq)]
pub enum StoredValue {
    Null,
    Integer(i64),
    Real(u64),
    Text(Vec<u8>),
    Blob(Vec<u8>),
}

/// What a stored value holds.
#[verifier::ext_equal]
pub enum ValueModel {
    Null,
    Integer(i64),
    Real(u64),
    Text(Seq<u8>),
    Blob(Seq<u8>),
}

impl View for StoredValue {
    type V = ValueModel;

    open spec fn view(&self) -> ValueModel {
        match *self {
            StoredValue::Null => ValueModel::Null,
            StoredValue::Integer(number) => ValueModel::Integer(number),
            StoredValue::Real(bits) => ValueModel::Real(bits),
            StoredValue::Text(bytes) => ValueModel::Text(bytes@),
            StoredValue::Blob(bytes) => ValueModel::Blob(bytes@),
        }
    }
}

/// The tables under a seal, in the order in which they are hashed.
#[derive(Debug, Clone, Copy, PartialEq, Eq, Structural)]
pub enum SealDomain {
    CompletedSnapshots,
    Scans,
    Profiles,
    ProfileCoverage,
    Nodes,
    Sites,
    Edges,
    Evidence,
    Diagnostics,
    FileCoverage,
    Coverage,
    AdapterLogs,
    IncrementalDeltas,
    BuildAttempts,
    RuntimeSessions,
    RuntimeNodes,
    RuntimeSites,
    RuntimeEdges,
    RuntimeEvidence,
    RuntimeDiagnostics,
}

/// How many tables are under a seal.
pub const SEAL_DOMAINS: usize = 20;

/// The name of a table under a seal.
pub open spec fn domain_name(domain: SealDomain) -> Seq<char> {
    match domain {
        SealDomain::CompletedSnapshots => "completed_snapshots"@,
        SealDomain::Scans => "scans"@,
        SealDomain::Profiles => "profiles"@,
        SealDomain::ProfileCoverage => "profile_coverage"@,
        SealDomain::Nodes => "nodes"@,
        SealDomain::Sites => "sites"@,
        SealDomain::Edges => "edges"@,
        SealDomain::Evidence => "evidence"@,
        SealDomain::Diagnostics => "diagnostics"@,
        SealDomain::FileCoverage => "file_coverage"@,
        SealDomain::Coverage => "coverage"@,
        SealDomain::AdapterLogs => "adapter_logs"@,
        SealDomain::IncrementalDeltas => "incremental_deltas"@,
        SealDomain::BuildAttempts => "build_attempts"@,
        SealDomain::RuntimeSessions => "runtime_sessions"@,
        SealDomain::RuntimeNodes => "runtime_nodes"@,
        SealDomain::RuntimeSites => "runtime_sites"@,
        SealDomain::RuntimeEdges => "runtime_edges"@,
        SealDomain::RuntimeEvidence => "runtime_evidence"@,
        SealDomain::RuntimeDiagnostics => "runtime_diagnostics"@,
    }
}

/// The table at a place of the order.
pub open spec fn domain_at(place: int) -> SealDomain {
    if place <= 0 {
        SealDomain::CompletedSnapshots
    } else if place == 1 {
        SealDomain::Scans
    } else if place == 2 {
        SealDomain::Profiles
    } else if place == 3 {
        SealDomain::ProfileCoverage
    } else if place == 4 {
        SealDomain::Nodes
    } else if place == 5 {
        SealDomain::Sites
    } else if place == 6 {
        SealDomain::Edges
    } else if place == 7 {
        SealDomain::Evidence
    } else if place == 8 {
        SealDomain::Diagnostics
    } else if place == 9 {
        SealDomain::FileCoverage
    } else if place == 10 {
        SealDomain::Coverage
    } else if place == 11 {
        SealDomain::AdapterLogs
    } else if place == 12 {
        SealDomain::IncrementalDeltas
    } else if place == 13 {
        SealDomain::BuildAttempts
    } else if place == 14 {
        SealDomain::RuntimeSessions
    } else if place == 15 {
        SealDomain::RuntimeNodes
    } else if place == 16 {
        SealDomain::RuntimeSites
    } else if place == 17 {
        SealDomain::RuntimeEdges
    } else if place == 18 {
        SealDomain::RuntimeEvidence
    } else {
        SealDomain::RuntimeDiagnostics
    }
}

impl SealDomain {
    /// The name of the table.
    pub fn name(self) -> (result: &'static str)
        ensures
            result@ == domain_name(self),
    {
        match self {
            SealDomain::CompletedSnapshots => "completed_snapshots",
            SealDomain::Scans => "scans",
            SealDomain::Profiles => "profiles",
            SealDomain::ProfileCoverage => "profile_coverage",
            SealDomain::Nodes => "nodes",
            SealDomain::Sites => "sites",
            SealDomain::Edges => "edges",
            SealDomain::Evidence => "evidence",
            SealDomain::Diagnostics => "diagnostics",
            SealDomain::FileCoverage => "file_coverage",
            SealDomain::Coverage => "coverage",
            SealDomain::AdapterLogs => "adapter_logs",
            SealDomain::IncrementalDeltas => "incremental_deltas",
            SealDomain::BuildAttempts => "build_attempts",
            SealDomain::RuntimeSessions => "runtime_sessions",
            SealDomain::RuntimeNodes => "runtime_nodes",
            SealDomain::RuntimeSites => "runtime_sites",
            SealDomain::RuntimeEdges => "runtime_edges",
            SealDomain::RuntimeEvidence => "runtime_evidence",
            SealDomain::RuntimeDiagnostics => "runtime_diagnostics",
        }
    }

    /// The table at a place of the order.
    pub fn at(place: usize) -> (result: SealDomain)
        ensures
            result == domain_at(place as int),
    {
        match place {
            0 => SealDomain::CompletedSnapshots,
            1 => SealDomain::Scans,
            2 => SealDomain::Profiles,
            3 => SealDomain::ProfileCoverage,
            4 => SealDomain::Nodes,
            5 => SealDomain::Sites,
            6 => SealDomain::Edges,
            7 => SealDomain::Evidence,
            8 => SealDomain::Diagnostics,
            9 => SealDomain::FileCoverage,
            10 => SealDomain::Coverage,
            11 => SealDomain::AdapterLogs,
            12 => SealDomain::IncrementalDeltas,
            13 => SealDomain::BuildAttempts,
            14 => SealDomain::RuntimeSessions,
            15 => SealDomain::RuntimeNodes,
            16 => SealDomain::RuntimeSites,
            17 => SealDomain::RuntimeEdges,
            18 => SealDomain::RuntimeEvidence,
            _ => SealDomain::RuntimeDiagnostics,
        }
    }
}

/// The rows of one table.
#[derive(Debug, Clone)]
pub struct SealTable {
    pub columns: usize,
    pub rows: Vec<Vec<StoredValue>>,
}

/// What the rows of one table hold.
pub struct TableModel {
    pub columns: nat,
    pub rows: Seq<Seq<ValueModel>>,
}

impl View for SealTable {
    type V = TableModel;

    open spec fn view(&self) -> TableModel {
        TableModel {
            columns: self.columns as nat,
            rows: Seq::new(
                self.rows@.len(),
                |i: int| Seq::new(self.rows@[i]@.len(), |j: int| self.rows@[i]@[j]@),
            ),
        }
    }
}

/// Whether every row of a table has a value for every column.
pub open spec fn is_rectangular(table: TableModel) -> bool {
    forall|i: int| 0 <= i < table.rows.len() ==> (#[trigger] table.rows[i]).len() == table.columns
}

// ---------------------------------------------------------------------------------------
// Bytes
// ---------------------------------------------------------------------------------------

/// A name behind its length.
pub open spec fn tag(name: Seq<char>) -> Seq<u8> {
    frame(encode_utf8(name))
}

/// A value as it is hashed: its type, then the value.
pub open spec fn value_bytes(value: ValueModel) -> Seq<u8> {
    match value {
        ValueModel::Null => tag("null"@),
        ValueModel::Integer(number) => tag("integer"@) + be64(two_complement(number)),
        ValueModel::Real(bits) => tag("real"@) + be64(bits as int),
        ValueModel::Text(bytes) => tag("text"@) + frame(bytes),
        ValueModel::Blob(bytes) => tag("blob"@) + frame(bytes),
    }
}

/// The values from a place on.
pub open spec fn values_from(values: Seq<ValueModel>, from: int) -> Seq<u8>
    decreases values.len() - from,
{
    if from < 0 || from >= values.len() {
        Seq::empty()
    } else {
        value_bytes(values[from]) + values_from(values, from + 1)
    }
}

/// A row as it is hashed.
pub open spec fn row_bytes(columns: nat, row: Seq<ValueModel>) -> Seq<u8> {
    tag("row"@) + (be64(columns as int) + values_from(row, 0))
}

/// The rows from a place on.
pub open spec fn rows_from(columns: nat, rows: Seq<Seq<ValueModel>>, from: int) -> Seq<u8>
    decreases rows.len() - from,
{
    if from < 0 || from >= rows.len() {
        Seq::empty()
    } else {
        row_bytes(columns, rows[from]) + rows_from(columns, rows, from + 1)
    }
}

/// A table as it is hashed: its name, its rows and their number.
pub open spec fn table_bytes(place: int, table: TableModel) -> Seq<u8> {
    tag(domain_name(domain_at(place))) + (rows_from(table.columns, table.rows, 0) + be64(table.rows.len() as int))
}

/// The tables from a place on.
pub open spec fn tables_from(tables: Seq<TableModel>, from: int) -> Seq<u8>
    decreases tables.len() - from,
{
    if from < 0 || from >= tables.len() {
        Seq::empty()
    } else {
        table_bytes(from, tables[from]) + tables_from(tables, from + 1)
    }
}

/// What tables hold.
pub open spec fn table_models(tables: Seq<SealTable>) -> Seq<TableModel> {
    Seq::new(tables.len(), |i: int| tables[i]@)
}

/// The bytes over which a seal is made.
pub open spec fn seal_bytes(snapshot_id: Seq<char>, tables: Seq<TableModel>) -> Seq<u8> {
    tag("depgraph-completed-snapshot-storage-seal-v1"@) + (tag(snapshot_id) + tables_from(tables, 0))
}

fn push_tag(bytes: &mut Vec<u8>, name: &str)
    ensures
        final(bytes)@ == old(bytes)@ + tag(name@),
{
    push_frame(bytes, name.as_bytes());
}

fn push_value(bytes: &mut Vec<u8>, value: &StoredValue)
    ensures
        final(bytes)@ == old(bytes)@ + value_bytes(value@),
{
    let ghost before = bytes@;
    match value {
        StoredValue::Null => {
            push_tag(bytes, "null");
        },
        StoredValue::Integer(number) => {
            push_tag(bytes, "integer");
            push_be64(bytes, unsigned_bits(*number));
        },
        StoredValue::Real(bits) => {
            push_tag(bytes, "real");
            push_be64(bytes, *bits);
        },
        StoredValue::Text(text) => {
            push_tag(bytes, "text");
            push_frame(bytes, text.as_slice());
        },
        StoredValue::Blob(blob) => {
            push_tag(bytes, "blob");
            push_frame(bytes, blob.as_slice());
        },
    }
    assert(bytes@ =~= before + value_bytes(value@));
}

fn push_row(bytes: &mut Vec<u8>, columns: usize, row: &Vec<StoredValue>)
    ensures
        final(bytes)@ == old(bytes)@ + row_bytes(columns as nat, Seq::new(row@.len(), |j: int| row@[j]@)),
{
    let ghost before = bytes@;
    let ghost values = Seq::new(row@.len(), |j: int| row@[j]@);
    push_tag(bytes, "row");
    push_be64(bytes, columns as u64);
    let ghost start = bytes@;
    let mut i: usize = 0;
    while i < row.len()
        invariant
            i <= row.len(),
            values == Seq::new(row@.len(), |j: int| row@[j]@),
            bytes@ + values_from(values, i as int) == start + values_from(values, 0),
        decreases row.len() - i,
    {
        let ghost earlier = bytes@;
        push_value(bytes, &row[i]);
        assert(values[i as int] == row@[i as int]@);
        assert(bytes@ + values_from(values, i as int + 1) =~= earlier + values_from(values, i as int));
        i = i + 1;
    }
    assert(bytes@ =~= start + values_from(values, 0));
    assert(bytes@ =~= before + row_bytes(columns as nat, values));
}

fn push_table(bytes: &mut Vec<u8>, place: usize, table: &SealTable)
    ensures
        final(bytes)@ == old(bytes)@ + table_bytes(place as int, table@),
{
    let ghost before = bytes@;
    let ghost rows = table@.rows;
    let ghost columns = table@.columns;
    push_tag(bytes, SealDomain::at(place).name());
    let ghost start = bytes@;
    let mut i: usize = 0;
    while i < table.rows.len()
        invariant
            i <= table.rows.len(),
            rows == table@.rows,
            columns == table@.columns,
            bytes@ + rows_from(columns, rows, i as int) == start + rows_from(columns, rows, 0),
        decreases table.rows.len() - i,
    {
        let ghost earlier = bytes@;
        push_row(bytes, table.columns, &table.rows[i]);
        assert(rows[i as int] =~= Seq::new(
            table.rows@[i as int]@.len(),
            |j: int| table.rows@[i as int]@[j]@,
        ));
        assert(bytes@ + rows_from(columns, rows, i as int + 1) =~= earlier + rows_from(columns, rows, i as int));
        i = i + 1;
    }
    assert(bytes@ =~= start + rows_from(columns, rows, 0));
    push_be64(bytes, table.rows.len() as u64);
    assert(bytes@ =~= before + table_bytes(place as int, table@));
}

/// The bytes over which the seal of a snapshot is made.
pub fn seal_input(snapshot_id: &str, tables: &Vec<SealTable>) -> (result: Vec<u8>)
    ensures
        result@ == seal_bytes(snapshot_id@, table_models(tables@)),
{
    let ghost models = table_models(tables@);
    let mut bytes: Vec<u8> = Vec::new();
    push_tag(&mut bytes, "depgraph-completed-snapshot-storage-seal-v1");
    push_tag(&mut bytes, snapshot_id);
    let ghost start = bytes@;
    let mut i: usize = 0;
    while i < tables.len()
        invariant
            i <= tables.len(),
            models == table_models(tables@),
            bytes@ + tables_from(models, i as int) == start + tables_from(models, 0),
        decreases tables.len() - i,
    {
        let ghost earlier = bytes@;
        push_table(&mut bytes, i, &tables[i]);
        assert(models[i as int] == tables@[i as int]@);
        assert(bytes@ + tables_from(models, i as int + 1) =~= earlier + tables_from(models, i as int));
        i = i + 1;
    }
    assert(bytes@ =~= start + tables_from(models, 0));
    assert(bytes@ =~= seal_bytes(snapshot_id@, models));
    bytes
}

/// The seal of a snapshot over the tables in their order.
pub fn completed_snapshot_storage_seal(snapshot_id: &str, tables: &Vec<SealTable>) -> (result: String)
    ensures
        result@ == hex_text(sha256_digest(seal_bytes(snapshot_id@, table_models(tables@)))),
{
    let bytes = seal_input(snapshot_id, tables);
    let digest = sha256(bytes.as_slice());
    hex(digest.as_slice())
}

/// Why a seal does not hold.
#[derive(Debug, Clone, Copy, PartialEq, Eq, Structural)]
pub enum SealError {
    Missing,
    Mismatch,
}

/// Whether a stored seal is the one that the rows have.
pub fn check_seal(stored: Option<&str>, observed: &str) -> (result: Result<(), SealError>)
    ensures
        result == match stored {
            None => Err::<(), _>(SealError::Missing),
            Some(stored) => if stored@ == observed@ {
                Ok(())
            } else {
                Err(SealError::Mismatch)
            },
        },
{
    match stored {
        None => Err(SealError::Missing),
        Some(stored) => if same(stored, observed) {
            Ok(())
        } else {
            Err(SealError::Mismatch)
        },
    }
}

// ---------------------------------------------------------------------------------------
// Laws
// ---------------------------------------------------------------------------------------

/// The greatest number of bytes, values or rows that a seal counts, and one more.
pub open spec fn count_limit() -> int {
    0x1_0000_0000_0000_0000
}

/// Whether a value can be counted.
pub open spec fn is_countable(value: ValueModel) -> bool {
    match value {
        ValueModel::Text(bytes) => bytes.len() < count_limit(),
        ValueModel::Blob(bytes) => bytes.len() < count_limit(),
        _ => true,
    }
}

/// Whether a table can be counted and has a value for every column of every row.
pub open spec fn is_sealable(table: TableModel) -> bool {
    &&& table.columns < count_limit()
    &&& table.rows.len() < count_limit()
    &&& is_rectangular(table)
    &&& forall|i: int, j: int|
        0 <= i < table.rows.len() && 0 <= j < table.rows[i].len() ==> is_countable(#[trigger] table.rows[i][j])
}

proof fn be64_from_front(a: int, b: int, x: Seq<u8>, y: Seq<u8>)
    requires
        0 <= a < count_limit(),
        0 <= b < count_limit(),
        be64(a) + x == be64(b) + y,
    ensures
        a == b,
        x == y,
{
    be64_len(a);
    be64_len(b);
    let all = be64(a) + x;
    assert(all.subrange(0, 8) =~= be64(a));
    assert(all.subrange(0, 8) =~= be64(b));
    be64_is_injective(a, b);
    assert(all.subrange(8, all.len() as int) =~= x);
    assert(all.subrange(8, all.len() as int) =~= y);
}

proof fn frame_from_front(a: Seq<u8>, b: Seq<u8>, x: Seq<u8>, y: Seq<u8>)
    requires
        a.len() < count_limit(),
        b.len() < count_limit(),
        frame(a) + x == frame(b) + y,
    ensures
        a == b,
        x == y,
{
    assert(frame(a) + x =~= be64(a.len() as int) + (a + x));
    assert(frame(b) + y =~= be64(b.len() as int) + (b + y));
    be64_from_front(a.len() as int, b.len() as int, a + x, b + y);
    let all = a + x;
    assert(all.subrange(0, a.len() as int) =~= a);
    assert(all.subrange(0, a.len() as int) =~= b);
    assert(all.subrange(a.len() as int, all.len() as int) =~= x);
    assert(all.subrange(a.len() as int, all.len() as int) =~= y);
}

proof fn short_names()
    ensures
        encode_utf8("null"@).len() == 4,
        encode_utf8("integer"@).len() == 7,
        encode_utf8("real"@).len() == 4,
        encode_utf8("text"@).len() == 4,
        encode_utf8("blob"@).len() == 4,
        encode_utf8("row"@).len() == 3,
        encode_utf8("row"@)[0] != 0,
        "null"@ != "real"@,
        "null"@ != "text"@,
        "null"@ != "blob"@,
        "real"@ != "text"@,
        "real"@ != "blob"@,
        "text"@ != "blob"@,
{
    reveal_strlit("null");
    reveal_strlit("integer");
    reveal_strlit("real");
    reveal_strlit("text");
    reveal_strlit("blob");
    reveal_strlit("row");
    vstd::utf8::is_ascii_chars_encode_utf8("null"@);
    vstd::utf8::is_ascii_chars_encode_utf8("integer"@);
    vstd::utf8::is_ascii_chars_encode_utf8("real"@);
    vstd::utf8::is_ascii_chars_encode_utf8("text"@);
    vstd::utf8::is_ascii_chars_encode_utf8("blob"@);
    vstd::utf8::is_ascii_chars_encode_utf8("row"@);
    assert("row"@[0] as u8 == encode_utf8("row"@)[0]);
    assert("null"@[0] != "real"@[0]);
    assert("null"@[0] != "text"@[0]);
    assert("null"@[0] != "blob"@[0]);
    assert("real"@[0] != "text"@[0]);
    assert("real"@[0] != "blob"@[0]);
    assert("text"@[0] != "blob"@[0]);
}

/// The type of a value as it is hashed.
pub open spec fn tag_name(value: ValueModel) -> Seq<char> {
    match value {
        ValueModel::Null => "null"@,
        ValueModel::Integer(_) => "integer"@,
        ValueModel::Real(_) => "real"@,
        ValueModel::Text(_) => "text"@,
        ValueModel::Blob(_) => "blob"@,
    }
}

/// What follows the type of a value.
pub open spec fn payload(value: ValueModel) -> Seq<u8> {
    match value {
        ValueModel::Null => Seq::empty(),
        ValueModel::Integer(number) => be64(two_complement(number)),
        ValueModel::Real(bits) => be64(bits as int),
        ValueModel::Text(bytes) => frame(bytes),
        ValueModel::Blob(bytes) => frame(bytes),
    }
}

proof fn value_from_front(v: ValueModel, w: ValueModel, x: Seq<u8>, y: Seq<u8>)
    requires
        is_countable(v),
        is_countable(w),
        value_bytes(v) + x == value_bytes(w) + y,
    ensures
        v == w,
        x == y,
{
    short_names();
    assert(value_bytes(v) + x =~= frame(encode_utf8(tag_name(v))) + (payload(v) + x));
    assert(value_bytes(w) + y =~= frame(encode_utf8(tag_name(w))) + (payload(w) + y));
    frame_from_front(encode_utf8(tag_name(v)), encode_utf8(tag_name(w)), payload(v) + x, payload(w) + y);
    encoding_is_injective(tag_name(v), tag_name(w));
    match (v, w) {
        (ValueModel::Integer(a), ValueModel::Integer(b)) => {
            be64_from_front(two_complement(a), two_complement(b), x, y);
        },
        (ValueModel::Real(a), ValueModel::Real(b)) => {
            be64_from_front(a as int, b as int, x, y);
        },
        (ValueModel::Text(a), ValueModel::Text(b)) => {
            frame_from_front(a, b, x, y);
        },
        (ValueModel::Blob(a), ValueModel::Blob(b)) => {
            frame_from_front(a, b, x, y);
        },
        (ValueModel::Null, ValueModel::Null) => {
            assert(payload(v) + x =~= x);
            assert(payload(w) + y =~= y);
        },
        _ => {
            assert(tag_name(v) != tag_name(w)) by {
                short_names();
            }
        },
    }
}

proof fn values_from_front(v: Seq<ValueModel>, w: Seq<ValueModel>, from: int, x: Seq<u8>, y: Seq<u8>)
    requires
        v.len() == w.len(),
        0 <= from <= v.len(),
        forall|j: int| 0 <= j < v.len() ==> is_countable(#[trigger] v[j]),
        forall|j: int| 0 <= j < w.len() ==> is_countable(#[trigger] w[j]),
        values_from(v, from) + x == values_from(w, from) + y,
    ensures
        forall|j: int| from <= j < v.len() ==> #[trigger] v[j] == w[j],
        x == y,
    decreases v.len() - from,
{
    if from < v.len() {
        assert(values_from(v, from) + x =~= value_bytes(v[from]) + (values_from(v, from + 1) + x));
        assert(values_from(w, from) + y =~= value_bytes(w[from]) + (values_from(w, from + 1) + y));
        value_from_front(v[from], w[from], values_from(v, from + 1) + x, values_from(w, from + 1) + y);
        values_from_front(v, w, from + 1, x, y);
    } else {
        assert(values_from(v, from) + x =~= x);
        assert(values_from(w, from) + y =~= y);
    }
}

/// Whether bytes cannot be taken for the middle of a row: they start with a zero.
pub open spec fn starts_low(bytes: Seq<u8>) -> bool {
    bytes.len() == 0 || bytes[0] == 0
}

proof fn row_is_no_count(count: int, x: Seq<u8>, row: Seq<u8>)
    requires
        0 <= count < count_limit(),
        starts_low(x),
    ensures
        be64(count) + x != tag("row"@) + row,
{
    short_names();
    let name = encode_utf8("row"@);
    assert(tag("row"@) + row =~= be64(3) + (name + row));
    if be64(count) + x == be64(3) + (name + row) {
        be64_from_front(count, 3, x, name + row);
        assert((name + row)[0] == name[0]);
    }
}

proof fn row_from_front(
    ca: nat,
    va: Seq<ValueModel>,
    cb: nat,
    vb: Seq<ValueModel>,
    x: Seq<u8>,
    y: Seq<u8>,
)
    requires
        ca < count_limit(),
        cb < count_limit(),
        va.len() == ca,
        vb.len() == cb,
        forall|j: int| 0 <= j < va.len() ==> is_countable(#[trigger] va[j]),
        forall|j: int| 0 <= j < vb.len() ==> is_countable(#[trigger] vb[j]),
        row_bytes(ca, va) + x == row_bytes(cb, vb) + y,
    ensures
        ca == cb,
        va == vb,
        x == y,
{
    short_names();
    let name = encode_utf8("row"@);
    let body_a = be64(ca as int) + (values_from(va, 0) + x);
    let body_b = be64(cb as int) + (values_from(vb, 0) + y);
    assert(row_bytes(ca, va) + x =~= frame(name) + body_a);
    assert(row_bytes(cb, vb) + y =~= frame(name) + body_b);
    frame_from_front(name, name, body_a, body_b);
    be64_from_front(ca as int, cb as int, values_from(va, 0) + x, values_from(vb, 0) + y);
    values_from_front(va, vb, 0, x, y);
    assert(va =~= vb);
}

/// What follows the tag of the row at a place.
spec fn row_rest(table: TableModel, from: int, tail: Seq<u8>) -> Seq<u8> {
    be64(table.columns as int) + values_from(table.rows[from], 0) + rows_from(table.columns, table.rows, from + 1)
        + tail
}

proof fn rows_begin_with_a_row(table: TableModel, from: int, tail: Seq<u8>)
    requires
        0 <= from < table.rows.len(),
    ensures
        rows_from(table.columns, table.rows, from) + tail == row_bytes(table.columns, table.rows[from]) + (rows_from(
            table.columns,
            table.rows,
            from + 1,
        ) + tail),
        rows_from(table.columns, table.rows, from) + tail == tag("row"@) + row_rest(table, from, tail),
{
    let rest = rows_from(table.columns, table.rows, from + 1);
    let row = row_bytes(table.columns, table.rows[from]);
    assert(rows_from(table.columns, table.rows, from) == row + rest);
    assert((row + rest) + tail =~= row + (rest + tail));
    assert((row + rest) + tail =~= tag("row"@) + row_rest(table, from, tail));
}

#[verifier::spinoff_prover]
proof fn rows_from_front(a: TableModel, b: TableModel, from: int, x: Seq<u8>, y: Seq<u8>)
    requires
        is_sealable(a),
        is_sealable(b),
        from > 0 ==> a.columns == b.columns,
        0 <= from <= a.rows.len(),
        from <= b.rows.len(),
        starts_low(x),
        starts_low(y),
        rows_from(a.columns, a.rows, from) + (be64(a.rows.len() as int) + x) == rows_from(b.columns, b.rows, from) + (
        be64(b.rows.len() as int) + y),
    ensures
        a.rows.len() == b.rows.len(),
        from < a.rows.len() ==> a.columns == b.columns,
        forall|i: int| from <= i < a.rows.len() ==> #[trigger] a.rows[i] == b.rows[i],
        x == y,
    decreases a.rows.len() - from,
{
    let tail_a = be64(a.rows.len() as int) + x;
    let tail_b = be64(b.rows.len() as int) + y;
    if from < a.rows.len() && from < b.rows.len() {
        let rest_a = rows_from(a.columns, a.rows, from + 1) + tail_a;
        let rest_b = rows_from(b.columns, b.rows, from + 1) + tail_b;
        rows_begin_with_a_row(a, from, tail_a);
        rows_begin_with_a_row(b, from, tail_b);
        assert forall|j: int| 0 <= j < a.rows[from].len() implies is_countable(#[trigger] a.rows[from][j]) by {}
        assert forall|j: int| 0 <= j < b.rows[from].len() implies is_countable(#[trigger] b.rows[from][j]) by {}
        row_from_front(a.columns, a.rows[from], b.columns, b.rows[from], rest_a, rest_b);
        rows_from_front(a, b, from + 1, x, y);
    } else if from < b.rows.len() {
        assert(rows_from(a.columns, a.rows, from) + tail_a =~= tail_a);
        rows_begin_with_a_row(b, from, tail_b);
        row_is_no_count(a.rows.len() as int, x, row_rest(b, from, tail_b));
    } else if from < a.rows.len() {
        assert(rows_from(b.columns, b.rows, from) + tail_b =~= tail_b);
        rows_begin_with_a_row(a, from, tail_a);
        row_is_no_count(b.rows.len() as int, y, row_rest(a, from, tail_a));
    } else {
        assert(rows_from(a.columns, a.rows, from) + tail_a =~= tail_a);
        assert(rows_from(b.columns, b.rows, from) + tail_b =~= tail_b);
        be64_from_front(a.rows.len() as int, b.rows.len() as int, x, y);
    }
}

proof fn domain_names_are_short(place: int)
    ensures
        encode_utf8(domain_name(domain_at(place))).len() < 256,
{
    reveal_strlit("completed_snapshots");
    reveal_strlit("scans");
    reveal_strlit("profiles");
    reveal_strlit("profile_coverage");
    reveal_strlit("nodes");
    reveal_strlit("sites");
    reveal_strlit("edges");
    reveal_strlit("evidence");
    reveal_strlit("diagnostics");
    reveal_strlit("file_coverage");
    reveal_strlit("coverage");
    reveal_strlit("adapter_logs");
    reveal_strlit("incremental_deltas");
    reveal_strlit("build_attempts");
    reveal_strlit("runtime_sessions");
    reveal_strlit("runtime_nodes");
    reveal_strlit("runtime_sites");
    reveal_strlit("runtime_edges");
    reveal_strlit("runtime_evidence");
    reveal_strlit("runtime_diagnostics");
    let name = domain_name(domain_at(place));
    assert(name.len() < 32);
    assert(vstd::utf8::is_ascii_chars(name));
    vstd::utf8::is_ascii_chars_encode_utf8(name);
}

proof fn tables_start_low(tables: Seq<TableModel>, from: int)
    requires
        0 <= from,
    ensures
        starts_low(tables_from(tables, from)),
{
    if from < tables.len() {
        domain_names_are_short(from);
        let name = encode_utf8(domain_name(domain_at(from)));
        be64_len(name.len() as int);
        reveal(be64);
        assert(be64(name.len() as int)[0] == 0);
        let all = tables_from(tables, from);
        assert(all[0] == be64(name.len() as int)[0]);
    }
}

proof fn tables_from_front(a: Seq<TableModel>, b: Seq<TableModel>, from: int)
    requires
        a.len() == b.len(),
        0 <= from <= a.len(),
        forall|i: int| 0 <= i < a.len() ==> is_sealable(#[trigger] a[i]),
        forall|i: int| 0 <= i < b.len() ==> is_sealable(#[trigger] b[i]),
        tables_from(a, from) == tables_from(b, from),
    ensures
        forall|i: int| from <= i < a.len() ==> (#[trigger] a[i]).rows == b[i].rows,
    decreases a.len() - from,
{
    if from < a.len() {
        let name = encode_utf8(domain_name(domain_at(from)));
        domain_names_are_short(from);
        let rest_a = tables_from(a, from + 1);
        let rest_b = tables_from(b, from + 1);
        let body_a = rows_from(a[from].columns, a[from].rows, 0) + (be64(a[from].rows.len() as int) + rest_a);
        let body_b = rows_from(b[from].columns, b[from].rows, 0) + (be64(b[from].rows.len() as int) + rest_b);
        assert(tables_from(a, from) =~= frame(name) + body_a);
        assert(tables_from(b, from) =~= frame(name) + body_b);
        frame_from_front(name, name, body_a, body_b);
        tables_start_low(a, from + 1);
        tables_start_low(b, from + 1);
        rows_from_front(a[from], b[from], 0, rest_a, rest_b);
        assert(a[from].rows =~= b[from].rows);
        tables_from_front(a, b, from + 1);
    }
}

/// A seal covers every value of every row: where the bytes under two seals are the same,
/// so are the snapshots' identities and all rows of all tables.
pub proof fn seal_bytes_cover_every_row(
    a_id: Seq<char>,
    a: Seq<TableModel>,
    b_id: Seq<char>,
    b: Seq<TableModel>,
)
    requires
        a.len() == b.len(),
        encode_utf8(a_id).len() < count_limit(),
        encode_utf8(b_id).len() < count_limit(),
        forall|i: int| 0 <= i < a.len() ==> is_sealable(#[trigger] a[i]),
        forall|i: int| 0 <= i < b.len() ==> is_sealable(#[trigger] b[i]),
        seal_bytes(a_id, a) == seal_bytes(b_id, b),
    ensures
        a_id == b_id,
        forall|i: int| 0 <= i < a.len() ==> (#[trigger] a[i]).rows == b[i].rows,
{
    let head = tag("depgraph-completed-snapshot-storage-seal-v1"@);
    let all = seal_bytes(a_id, a);
    let x = tag(a_id) + tables_from(a, 0);
    let y = tag(b_id) + tables_from(b, 0);
    assert(all.subrange(head.len() as int, all.len() as int) =~= x);
    assert(all.subrange(head.len() as int, all.len() as int) =~= y);
    frame_from_front(encode_utf8(a_id), encode_utf8(b_id), tables_from(a, 0), tables_from(b, 0));
    encoding_is_injective(a_id, b_id);
    tables_from_front(a, b, 0);
}

} // verus!

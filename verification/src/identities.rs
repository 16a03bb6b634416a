//! The documents from which identities are derived.

use vstd::prelude::*;

use crate::ingest::fields_model;
use crate::json::{Json, JsonModel};
use crate::matrix_refresh::{json_texts, texts_json};
use crate::operations::opt_str;
use crate::profile_matrix::PROFILE_MATRIX_SCHEMA_VERSION;
use crate::text::texts;

verus! {

/// A text, or nothing.
pub open spec fn text_or_null(value: Option<Seq<char>>) -> JsonModel {
    match value {
        Some(text) => JsonModel::Text(text),
        None => JsonModel::Null,
    }
}

/// The document from which the identity of a snapshot is derived. Runtime sessions stand in
/// it, under a schema of their own, only where there are any, so that a snapshot without
/// sessions keeps the identity that it had before there were sessions.
pub open spec fn identity_document(
    parent_snapshot_id: Option<Seq<char>>,
    source_revision: Option<Seq<char>>,
    profile_ids: Seq<Seq<char>>,
    graph: JsonModel,
    runtime_session_ids: Seq<Seq<char>>,
) -> JsonModel {
    let head = seq![
        ("graph"@, graph),
        ("parent_snapshot_id"@, text_or_null(parent_snapshot_id)),
        ("profile_ids"@, json_texts(profile_ids)),
    ];
    let revision = ("source_revision"@, text_or_null(source_revision));
    if runtime_session_ids.len() == 0 {
        JsonModel::Object(head + seq![("schema"@, JsonModel::Text("completed-snapshot-v1"@)), revision])
    } else {
        JsonModel::Object(
            head + seq![
                ("runtime_session_ids"@, json_texts(runtime_session_ids)),
                ("schema"@, JsonModel::Text("completed-snapshot-v2"@)),
                revision,
            ],
        )
    }
}

fn text_json(value: Option<&str>) -> (result: Json)
    ensures
        result@ == text_or_null(opt_str(value)),
{
    match value {
        Some(text) => Json::Text(String::from_str(text)),
        None => Json::Null,
    }
}

fn push_field(fields: &mut Vec<(String, Json)>, name: &str, value: Json)
    ensures
        fields_model(final(fields)@) == fields_model(old(fields)@).push(
            (name@, value@),
        ),
{
    let ghost before = fields_model(fields@);
    fields.push((String::from_str(name), value));
    assert(fields_model(fields@) =~= before.push((name@, value@)));
}

/// The document from which the identity of a snapshot is derived.
pub fn snapshot_identity_document(
    parent_snapshot_id: Option<&str>,
    source_revision: Option<&str>,
    profile_ids: &Vec<String>,
    graph: Json,
    runtime_session_ids: &Vec<String>,
) -> (result: Json)
    ensures
        result@ == identity_document(
            opt_str(parent_snapshot_id),
            opt_str(source_revision),
            texts(profile_ids@),
            graph@,
            texts(runtime_session_ids@),
        ),
{
    let mut fields: Vec<(String, Json)> = Vec::new();
    assert(fields_model(fields@) =~= Seq::empty());
    push_field(&mut fields, "graph", graph);
    push_field(&mut fields, "parent_snapshot_id", text_json(parent_snapshot_id));
    push_field(&mut fields, "profile_ids", texts_json(profile_ids));
    assert(texts(runtime_session_ids@).len() == runtime_session_ids@.len());
    if runtime_session_ids.len() == 0 {
        push_field(&mut fields, "schema", text_json(Some("completed-snapshot-v1")));
    } else {
        push_field(&mut fields, "runtime_session_ids", texts_json(runtime_session_ids));
        push_field(&mut fields, "schema", text_json(Some("completed-snapshot-v2")));
    }
    push_field(&mut fields, "source_revision", text_json(source_revision));
    let ghost expected = identity_document(
        opt_str(parent_snapshot_id),
        opt_str(source_revision),
        texts(profile_ids@),
        graph@,
        texts(runtime_session_ids@),
    );
    assert(fields_model(fields@) =~= expected->Object_0);
    let result = Json::Object(fields);
    assert(result@->Object_0 =~= fields_model(fields@));
    result
}

/// A field that holds a text.
pub open spec fn text_field(name: Seq<char>, value: Seq<char>) -> (Seq<char>, JsonModel) {
    (name, JsonModel::Text(value))
}

fn push_text(fields: &mut Vec<(String, Json)>, name: &str, value: &str)
    ensures
        fields_model(final(fields)@) == fields_model(old(fields)@).push(text_field(name@, value@)),
{
    push_field(fields, name, Json::Text(String::from_str(value)));
}

fn document(fields: Vec<(String, Json)>) -> (result: Json)
    ensures
        result@ == JsonModel::Object(fields_model(fields@)),
{
    let result = Json::Object(fields);
    assert(result@->Object_0 =~= fields_model(fields@));
    result
}

/// The document of the effective input of a profile without a parent.
pub fn effective_input_document(root_profile_id: &str) -> (result: Json)
    ensures
        result@ == JsonModel::Object(
            seq![
                text_field("root_profile_id"@, root_profile_id@),
                text_field("schema_version"@, PROFILE_MATRIX_SCHEMA_VERSION@),
            ],
        ),
{
    let mut fields: Vec<(String, Json)> = Vec::new();
    assert(fields_model(fields@) =~= Seq::empty());
    push_text(&mut fields, "root_profile_id", root_profile_id);
    push_text(&mut fields, "schema_version", PROFILE_MATRIX_SCHEMA_VERSION);
    assert(fields_model(fields@) =~= seq![
        text_field("root_profile_id"@, root_profile_id@),
        text_field("schema_version"@, PROFILE_MATRIX_SCHEMA_VERSION@),
    ]);
    document(fields)
}

/// The document of an effective profile.
pub fn effective_profile_document(effective_input_id: &str) -> (result: Json)
    ensures
        result@ == JsonModel::Object(
            seq![
                text_field("effective_input_id"@, effective_input_id@),
                text_field("schema_version"@, PROFILE_MATRIX_SCHEMA_VERSION@),
            ],
        ),
{
    let mut fields: Vec<(String, Json)> = Vec::new();
    assert(fields_model(fields@) =~= Seq::empty());
    push_text(&mut fields, "effective_input_id", effective_input_id);
    push_text(&mut fields, "schema_version", PROFILE_MATRIX_SCHEMA_VERSION);
    assert(fields_model(fields@) =~= seq![
        text_field("effective_input_id"@, effective_input_id@),
        text_field("schema_version"@, PROFILE_MATRIX_SCHEMA_VERSION@),
    ]);
    document(fields)
}

/// The document of a correlation.
pub fn correlation_document(effective_profile_id: &str, source: &str, kind: &str, specifier: &str) -> (result: Json)
    ensures
        result@ == JsonModel::Object(
            seq![
                text_field("effective_profile_id"@, effective_profile_id@),
                text_field("kind"@, kind@),
                text_field("schema_version"@, PROFILE_MATRIX_SCHEMA_VERSION@),
                text_field("source"@, source@),
                text_field("specifier"@, specifier@),
            ],
        ),
{
    let mut fields: Vec<(String, Json)> = Vec::new();
    assert(fields_model(fields@) =~= Seq::empty());
    push_text(&mut fields, "effective_profile_id", effective_profile_id);
    push_text(&mut fields, "kind", kind);
    push_text(&mut fields, "schema_version", PROFILE_MATRIX_SCHEMA_VERSION);
    push_text(&mut fields, "source", source);
    push_text(&mut fields, "specifier", specifier);
    assert(fields_model(fields@) =~= seq![
        text_field("effective_profile_id"@, effective_profile_id@),
        text_field("kind"@, kind@),
        text_field("schema_version"@, PROFILE_MATRIX_SCHEMA_VERSION@),
        text_field("source"@, source@),
        text_field("specifier"@, specifier@),
    ]);
    document(fields)
}

/// The document of the diagnostic for a profile that differs from its parent in axes that
/// both have.
pub fn axis_conflict_document(profile_id: &str, parent_profile_id: &str, axes: &Vec<String>) -> (result: Json)
    ensures
        result@ == JsonModel::Object(
            seq![
                text_field("code"@, "PROFILE_MATRIX_PROFILE_CONFLICT"@),
                ("fields"@, json_texts(texts(axes@))),
                text_field("parent_profile_id"@, parent_profile_id@),
                text_field("profile_id"@, profile_id@),
            ],
        ),
{
    let mut fields: Vec<(String, Json)> = Vec::new();
    assert(fields_model(fields@) =~= Seq::empty());
    push_text(&mut fields, "code", "PROFILE_MATRIX_PROFILE_CONFLICT");
    push_field(&mut fields, "fields", texts_json(axes));
    push_text(&mut fields, "parent_profile_id", parent_profile_id);
    push_text(&mut fields, "profile_id", profile_id);
    assert(fields_model(fields@) =~= seq![
        text_field("code"@, "PROFILE_MATRIX_PROFILE_CONFLICT"@),
        ("fields"@, json_texts(texts(axes@))),
        text_field("parent_profile_id"@, parent_profile_id@),
        text_field("profile_id"@, profile_id@),
    ]);
    document(fields)
}

/// The document of the diagnostic for a correlation in conflict.
pub fn correlation_conflict_document(correlation_id: &str) -> (result: Json)
    ensures
        result@ == JsonModel::Object(
            seq![text_field("code"@, "BUILD_EVIDENCE_CONFLICT"@), text_field("correlation_id"@, correlation_id@)],
        ),
{
    let mut fields: Vec<(String, Json)> = Vec::new();
    assert(fields_model(fields@) =~= Seq::empty());
    push_text(&mut fields, "code", "BUILD_EVIDENCE_CONFLICT");
    push_text(&mut fields, "correlation_id", correlation_id);
    assert(fields_model(fields@) =~= seq![
        text_field("code"@, "BUILD_EVIDENCE_CONFLICT"@),
        text_field("correlation_id"@, correlation_id@),
    ]);
    document(fields)
}

/// The document of a runtime import.
pub fn runtime_import_document(
    parent_snapshot_id: &str,
    session_id: &str,
    runtime_session_ids: &Vec<String>,
) -> (result: Json)
    ensures
        result@ == JsonModel::Object(
            seq![
                text_field("parent_snapshot_id"@, parent_snapshot_id@),
                ("runtime_session_ids"@, json_texts(texts(runtime_session_ids@))),
                text_field("session_id"@, session_id@),
            ],
        ),
{
    let mut fields: Vec<(String, Json)> = Vec::new();
    assert(fields_model(fields@) =~= Seq::empty());
    push_text(&mut fields, "parent_snapshot_id", parent_snapshot_id);
    push_field(&mut fields, "runtime_session_ids", texts_json(runtime_session_ids));
    push_text(&mut fields, "session_id", session_id);
    assert(fields_model(fields@) =~= seq![
        text_field("parent_snapshot_id"@, parent_snapshot_id@),
        ("runtime_session_ids"@, json_texts(texts(runtime_session_ids@))),
        text_field("session_id"@, session_id@),
    ]);
    document(fields)
}

/// The document of a runtime session.
pub fn runtime_session_document(source_session_id: &str, trace_digest: &str) -> (result: Json)
    ensures
        result@ == JsonModel::Object(
            seq![
                text_field("source_session_id"@, source_session_id@),
                text_field("trace_digest"@, trace_digest@),
            ],
        ),
{
    let mut fields: Vec<(String, Json)> = Vec::new();
    assert(fields_model(fields@) =~= Seq::empty());
    push_text(&mut fields, "source_session_id", source_session_id);
    push_text(&mut fields, "trace_digest", trace_digest);
    assert(fields_model(fields@) =~= seq![
        text_field("source_session_id"@, source_session_id@),
        text_field("trace_digest"@, trace_digest@),
    ]);
    document(fields)
}

/// What a snapshot adds changes its identity document: two snapshots with the same
/// document have the same parent, revision, profiles, graph and sessions.
pub proof fn identity_documents_tell_snapshots_apart(
    parent_a: Option<Seq<char>>,
    revision_a: Option<Seq<char>>,
    profiles_a: Seq<Seq<char>>,
    graph_a: JsonModel,
    sessions_a: Seq<Seq<char>>,
    parent_b: Option<Seq<char>>,
    revision_b: Option<Seq<char>>,
    profiles_b: Seq<Seq<char>>,
    graph_b: JsonModel,
    sessions_b: Seq<Seq<char>>,
)
    requires
        identity_document(parent_a, revision_a, profiles_a, graph_a, sessions_a) == identity_document(
            parent_b,
            revision_b,
            profiles_b,
            graph_b,
            sessions_b,
        ),
    ensures
        parent_a == parent_b,
        revision_a == revision_b,
        profiles_a == profiles_b,
        graph_a == graph_b,
        sessions_a == sessions_b,
{
    let a = identity_document(parent_a, revision_a, profiles_a, graph_a, sessions_a)->Object_0;
    let b = identity_document(parent_b, revision_b, profiles_b, graph_b, sessions_b)->Object_0;
    assert(a[0] == b[0]);
    assert(a[1] == b[1]);
    assert(a[2] == b[2]);
    json_texts_are_told_apart(profiles_a, profiles_b);
    if sessions_a.len() > 0 {
        assert(a.len() == 6);
        assert(b.len() == 6);
        assert(a[3] == b[3]);
        assert(a[5] == b[5]);
        json_texts_are_told_apart(sessions_a, sessions_b);
    } else {
        assert(a.len() == 5);
        assert(b.len() == 5);
        assert(a[4] == b[4]);
        assert(sessions_a =~= sessions_b);
    }
}

proof fn json_texts_are_told_apart(a: Seq<Seq<char>>, b: Seq<Seq<char>>)
    requires
        json_texts(a) == json_texts(b),
    ensures
        a == b,
{
    assert(json_texts(a)->Array_0.len() == a.len());
    assert(json_texts(b)->Array_0.len() == b.len());
    assert forall|i: int| 0 <= i < a.len() implies a[i] == b[i] by {
        assert(json_texts(a)->Array_0[i] == json_texts(b)->Array_0[i]);
    }
    assert(a =~= b);
}

} // verus!

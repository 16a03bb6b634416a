//! Verified core of a dependency-graph store.

pub mod build_attempt;
pub mod build_laws;
pub mod build_staging;
pub mod build_union;
pub mod conditions;
pub mod correlation;
pub mod correlation_laws;
pub mod counting;
pub mod coverage;
pub mod coverage_laws;
pub mod coverage_report;
pub mod diagnostic_summary;
pub mod digest;
pub mod document_laws;
pub mod draft_laws;
pub mod entry_laws;
pub mod facts_laws;
pub mod identities;
pub mod import_laws;
pub mod ingest;
pub mod ingest_laws;
pub mod json;
pub mod json_laws;
pub mod keyed;
pub mod layer_laws;
pub mod layers;
pub mod loading;
pub mod matrix_build;
pub mod matrix_facts;
pub mod matrix_laws;
pub mod matrix_origin;
pub mod matrix_refresh;
pub mod merge_laws;
pub mod node_page;
pub mod observed;
pub mod observed_laws;
pub mod operation_laws;
pub mod operations;
pub mod order;
pub mod ownership;
pub mod page_laws;
pub mod phase_laws;
pub mod profile_matrix;
pub mod projection;
pub mod promotion_laws;
pub mod record_laws;
pub mod records;
pub mod refresh_laws;
pub mod runtime_import;
pub mod runtime_laws;
pub mod runtime_merge;
pub mod runtime_session;
pub mod runtime_union;
pub mod scan_validation;
pub mod schema;
pub mod schema_laws;
pub mod seal;
pub mod snapshot_laws;
pub mod snapshots;
pub mod sort;
pub mod source_laws;
pub mod staging;
pub mod summary;
pub mod summary_laws;
pub mod summary_rows;
pub mod text;
pub mod text_laws;
pub mod validation_laws;
pub mod written;

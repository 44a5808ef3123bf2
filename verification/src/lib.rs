//! Workspace companion service for a TypeScript/JavaScript monorepo.
//!
//! The library maintains an in-memory module dependency graph, computes the
//! set of test files affected by changed source files, ingests test and lint
//! artifacts into a relational store, and answers delta queries over the two
//! most recent completed runs.

use vstd::prelude::*;

mod compute;
mod delta;
mod dirty;
pub mod eslint;
mod fsys;
mod discovery;
mod graph;
mod json;
mod normalize;
mod parser;
mod parsers;
mod paths;
mod resolver;
mod rpc;
mod stable_id;
mod state;
mod store;
mod text;
pub mod vitest;
mod watcher;

pub use compute::compute_affected;
pub use dirty::is_config_file;
pub use dirty::DirtyTracker;
pub use discovery::discover_tests;
pub use discovery::is_test_file;
pub use discovery::test_candidates;
pub use graph::DepGraph;
pub use json::json_decode;
pub use json::Json;
pub use graph::GraphNode;
pub use paths::filter_by_package_scope;
pub use paths::is_ts_js_file;
pub use paths::matches_package_scope;
pub use paths::path_to_relative;
pub use paths::to_relative_strings;
pub use paths::to_relative_strings_vec;
pub use stable_id::compute;
pub use stable_id::hash_bytes_hex;
pub use stable_id::lemma_stable_id_deterministic;

pub use delta::delta_counts;
pub use delta::lemma_delta_set_law;
pub use delta::DeltaResult;
pub use eslint::Finding;
pub use parser::parse_imports_from_str;
pub use resolver::PathResolver;
pub use watcher::WatcherConfig;
pub use parser::ImportKind;
pub use parser::ImportStatement;
pub use parsers::truncate;
pub use rpc::assemble_delta;
pub use rpc::check_artifact_size;
pub use rpc::MAX_ARTIFACT_SIZE;
pub use state::generate_request_id;
pub use state::AffectedResult;
pub use state::AffectedState;
pub use state::GraphUpdate;
pub use rpc::compute_entity_delta;
pub use rpc::get_delta_summary;
pub use rpc::ingest_manifest;
pub use rpc::parse_findings;
pub use rpc::parse_test_failures;
pub use rpc::validate_artifact_path;
pub use rpc::validate_manifest;
pub use rpc::ArtifactKind;
pub use rpc::ArtifactManifest;
pub use rpc::ArtifactPayload;
pub use rpc::ArtifactRef;
pub use rpc::RpcError;
pub use store::begin_tx;
pub use store::commit_tx;
pub use store::complete_run;
pub use store::get_finding_stable_ids_for_run;
pub use store::get_finding_stable_ids_scoped;
pub use store::get_recent_runs;
pub use store::get_stable_ids_for_run;
pub use store::get_test_failure_stable_ids_scoped;
pub use store::init_storage;
pub use store::insert_findings;
pub use store::insert_run;
pub use store::insert_test_failures;
pub use store::open_connection;
pub use store::rollback_tx;
pub use store::FindingRow;
pub use store::RunInfo;
pub use store::StoreError;
pub use store::TestFailureRow;
pub use vitest::TestFailure;
pub use parsers::ParseError;

pub use normalize::lemma_normalize_clean;
pub use normalize::normalize_slashes;
pub use normalize::validate_package_scope;
pub use normalize::PathError;

verus! {

} // verus!

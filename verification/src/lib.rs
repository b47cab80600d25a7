//! An incremental build orchestrator for grammar sources, meant to be driven
//! from a host build script.
//!
//! The library discovers grammar-source files under a configured root,
//! decides per file whether the previously generated artifact is stale, and
//! plans the work a generator must do, file by file and in a fixed order.
//! Every decision — configuration finalization, discovery, path mapping,
//! staleness, fail-fast orchestration — is made here and carries a proved
//! contract; the host shell around the library performs the filesystem
//! reads, the generator invocations and the directive printing.

mod config;
mod driver;
mod features;
mod paths;
mod session;
mod staleness;
mod tree;

pub use config::effective_in_root;
pub use config::finalizes_to;
pub use config::lemma_forced_run_all_regenerated;
pub use config::lemma_second_run_all_skipped;
pub use config::opt_bytes_view;
pub use config::plans_for;
pub use config::process_root;
pub use config::process_root_unconditionally;
pub use config::process_src;
pub use config::Configuration;
pub use config::PlannedFile;
pub use config::PlannedRun;
pub use driver::plan_dir;
pub use driver::plan_file;
pub use driver::rerun_directive_line;
pub use driver::rerun_directive_prefix;
pub use driver::BuildOutcome;
pub use driver::DirRun;
pub use driver::FilePlan;
pub use features::bytes_eq;
pub use features::contains_bytes;
pub use features::derive_features;
pub use features::feature_of;
pub use features::feature_of_var;
pub use features::feature_var_prefix;
pub use features::features_of;
pub use features::is_feature_var;
pub use features::lemma_features_of_exact;
pub use features::lower_dash;
pub use paths::dir_path;
pub use paths::file_path;
pub use paths::generated_ext;
pub use paths::generated_file_name;
pub use paths::generated_name;
pub use paths::grammar_ext;
pub use paths::has_grammar_ext;
pub use paths::input_path;
pub use paths::is_grammar_file_name;
pub use paths::join_dir_path;
pub use paths::join_file_path;
pub use paths::lemma_in_source_tree_mapping;
pub use paths::map_output_path;
pub use paths::DiscoveredFile;
pub use session::BuildEnv;
pub use session::ColorConfig;
pub use session::ConfigError;
pub use session::LogLevel;
pub use session::Session;
pub use staleness::lemma_needs_rebuild_exact;
pub use staleness::needs_rebuild;
pub use staleness::spec_needs_rebuild;
pub use staleness::spec_up_to_date;
pub use staleness::ArtifactStatus;
pub use tree::copy_bytes;
pub use tree::copy_name_list;
pub use tree::discover;
pub use tree::discover_into;
pub use tree::discovered_in_subdirs;
pub use tree::discovered_under;
pub use tree::file_model;
pub use tree::file_models;
pub use tree::grammar_files_at;
pub use tree::lemma_discovered_grammar;
pub use tree::lemma_discovered_no_dup;
pub use tree::lemma_discovered_sound;
pub use tree::lemma_discovery_exact;
pub use tree::lemma_grammar_files_at_shape;
pub use tree::lemma_reaches_discovered;
pub use tree::reaches_grammar_file;
pub use tree::wf_tree;
pub use tree::DirTree;
pub use tree::SubDir;

//! Core data model: the staged configuration's snapshot (`Session`), the
//! environment snapshot it is finalized against, and the error taxonomy.
//!
//! Paths and environment-variable names are carried as byte strings
//! (`Vec<u8>`), the form in which a Unix filesystem and environment hand
//! them over; the host shell around this library converts at its edge.

use vstd::prelude::*;

verus! {

/// How diagnostic output should be colored.
#[derive(Clone, Copy, PartialEq, Eq, Structural, Debug)]
pub enum ColorConfig {
    /// Always emit ANSI colors.
    Yes,
    /// Never emit ANSI colors.
    No,
    /// Emit ANSI colors only when the output is a terminal.
    IfTty,
}

/// How much progress reporting the run emits.
#[derive(Clone, Copy, PartialEq, Eq, Structural, Debug)]
pub enum LogLevel {
    /// Only errors that halt progress.
    Taciturn,
    /// High-level indications of progress.
    Informative,
    /// More than `Informative`, but still not overwhelming.
    Verbose,
    /// Intended for debugging the generator itself.
    Debug,
}

/// A configuration error, raised during finalization before any traversal.
#[derive(Clone, Copy, PartialEq, Eq, Structural, Debug)]
pub enum ConfigError {
    /// `out_dir` was never set and the output-root environment variable is absent.
    MissingOutDir,
    /// The current-directory entry point was called although `in_dir` was
    /// explicitly set to a different directory.
    ContradictoryInDir,
}

/// One run's immutable settings. A `Session` is produced by finalizing a
/// `Configuration` and is only read afterwards.
pub struct Session {
    /// Output coloring choice.
    pub color_config: ColorConfig,
    /// Root searched for grammar sources; `None` means the current directory.
    pub in_dir: Option<Vec<u8>>,
    /// Root under which generated artifacts are written; resolved during
    /// finalization, never `None` by the time a file is processed.
    pub out_dir: Option<Vec<u8>>,
    /// Regenerate every file, bypassing the staleness comparison.
    pub force_build: bool,
    /// Emit one rebuild-watch directive per discovered file.
    pub emit_rerun_directives: bool,
    /// Include comments in generated code.
    pub emit_comments: bool,
    /// Keep formatting whitespace in generated code.
    pub emit_whitespace: bool,
    /// Emit a generation report.
    pub emit_report: bool,
    /// Progress-reporting verbosity.
    pub log_level: LogLevel,
    /// Bound on macro resolution depth handed to the generator.
    pub macro_recursion_limit: u16,
    /// Enabled feature names; `None` means "derive from the environment
    /// during finalization".
    pub features: Option<Vec<Vec<u8>>>,
    /// Deterministic-testing mode for the generator's own test suite.
    pub unit_test: bool,
}

/// A snapshot of the process environment, taken by the caller and handed in
/// as plain values so that finalization itself touches no global state.
pub struct BuildEnv {
    /// The value of the output-root variable, if present.
    pub out_dir: Option<Vec<u8>>,
    /// The names of all environment variables (values are irrelevant:
    /// presence alone enables a feature).
    pub var_names: Vec<Vec<u8>>,
}

impl Session {
    /// The default settings, before any setter has run.
    pub open spec fn spec_default() -> Session {
        Session {
            color_config: ColorConfig::IfTty,
            in_dir: None,
            out_dir: None,
            force_build: false,
            emit_rerun_directives: false,
            emit_comments: false,
            emit_whitespace: true,
            emit_report: false,
            log_level: LogLevel::Informative,
            macro_recursion_limit: 200,
            features: None,
            unit_test: false,
        }
    }

    /// Builds the default settings.
    pub fn new_default() -> (r: Session)
        ensures
            r == Session::spec_default(),
    {
        Session {
            color_config: ColorConfig::IfTty,
            in_dir: None,
            out_dir: None,
            force_build: false,
            emit_rerun_directives: false,
            emit_comments: false,
            emit_whitespace: true,
            emit_report: false,
            log_level: LogLevel::Informative,
            macro_recursion_limit: 200,
            features: None,
            unit_test: false,
        }
    }
}

} // verus!

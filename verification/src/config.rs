//! The caller-facing configuration: staged settings with chaining setters.
//!
//! Each setter consumes the configuration and returns it with exactly one
//! setting changed, so a build script can chain calls. Finalization — run by
//! the processing entry points — resolves the lazy defaults (output root,
//! feature set) against an environment snapshot and yields the `Session`
//! the rest of the run reads.

use vstd::prelude::*;

use crate::driver::plan_dir;
use crate::driver::plan_file;
use crate::driver::FilePlan;
use crate::features::bytes_eq;
use crate::features::derive_features;
use crate::features::features_of;
use crate::paths::file_path;
use crate::paths::generated_name;
use crate::paths::has_grammar_ext;
use crate::paths::DiscoveredFile;
use crate::session::BuildEnv;
use crate::session::ColorConfig;
use crate::session::ConfigError;
use crate::session::LogLevel;
use crate::session::Session;
use crate::staleness::spec_needs_rebuild;
use crate::staleness::ArtifactStatus;
use crate::tree::copy_bytes;
use crate::tree::copy_name_list;
use crate::tree::discover;
use crate::tree::discovered_under;
use crate::tree::file_model;
use crate::tree::file_models;
use crate::tree::lemma_discovered_grammar;
use crate::tree::DirTree;

verus! {

/// Staged, caller-owned settings for one or more runs.
///
/// Obtain one with `Configuration::new`, adjust it with the chaining
/// setters, then hand it to a processing entry point.
pub struct Configuration {
    /// The staged settings; consumed read-only by finalization.
    pub session: Session,
}

impl Configuration {
    /// Creates the default configuration.
    pub fn new() -> (r: Configuration)
        ensures
            r.session == Session::spec_default(),
    {
        Configuration { session: Session::new_default() }
    }

    /// Always use ANSI colors in output, even if output does not appear to be a TTY.
    pub fn always_use_colors(self) -> (r: Configuration)
        ensures
            r.session == (Session { color_config: ColorConfig::Yes, ..self.session }),
    {
        Configuration { session: Session { color_config: ColorConfig::Yes, ..self.session } }
    }

    /// Never use ANSI colors in output, even if output appears to be a TTY.
    pub fn never_use_colors(self) -> (r: Configuration)
        ensures
            r.session == (Session { color_config: ColorConfig::No, ..self.session }),
    {
        Configuration { session: Session { color_config: ColorConfig::No, ..self.session } }
    }

    /// Use ANSI colors in output if output appears to be a TTY, but not
    /// otherwise. This is the default.
    pub fn use_colors_if_tty(self) -> (r: Configuration)
        ensures
            r.session == (Session { color_config: ColorConfig::IfTty, ..self.session }),
    {
        Configuration { session: Session { color_config: ColorConfig::IfTty, ..self.session } }
    }

    /// Specify a custom directory to search for input files.
    ///
    /// The directory is recursively searched for grammar-source files. It
    /// also anchors output placement: paths are taken relative to the input
    /// root before being re-rooted under the output root. By default the
    /// input directory is the current working directory.
    pub fn set_in_dir(self, dir: Vec<u8>) -> (r: Configuration)
        ensures
            r.session == (Session { in_dir: Some(dir), ..self.session }),
    {
        Configuration { session: Session { in_dir: Some(dir), ..self.session } }
    }

    /// Specify a custom directory to use when writing output files.
    ///
    /// By default the output directory is taken from the output-root
    /// environment variable during finalization.
    pub fn set_out_dir(self, dir: Vec<u8>) -> (r: Configuration)
        ensures
            r.session == (Session { out_dir: Some(dir), ..self.session }),
    {
        Configuration { session: Session { out_dir: Some(dir), ..self.session } }
    }

    /// Apply the build tool's directory conventions: input from `src`,
    /// output under the given output root.
    ///
    /// The caller reads the output-root environment variable eagerly, at
    /// configuration time, and hands its value in; that is distinct from the
    /// lazy default applied during finalization when `out_dir` was never set.
    pub fn use_cargo_dir_conventions(self, env_out_dir: Vec<u8>) -> (r: Configuration)
        ensures
            r.session == (Session {
                in_dir: r.session.in_dir,
                out_dir: Some(env_out_dir),
                ..self.session
            }),
            r.session.in_dir is Some,
            (r.session.in_dir->0)@ == seq![115u8, 114u8, 99u8],
    {
        let mut src_dir: Vec<u8> = Vec::new();
        src_dir.push(115u8);
        src_dir.push(114u8);
        src_dir.push(99u8);
        assert(src_dir@ =~= seq![115u8, 114u8, 99u8]);
        self.set_in_dir(src_dir).set_out_dir(env_out_dir)
    }

    /// Write output files into the same directories as the input files.
    ///
    /// Both roots become the current directory, so the mapping changes only
    /// the file extension and leaves every directory component in place.
    pub fn generate_in_source_tree(self) -> (r: Configuration)
        ensures
            r.session == (Session {
                in_dir: r.session.in_dir,
                out_dir: r.session.out_dir,
                ..self.session
            }),
            r.session.in_dir is Some,
            (r.session.in_dir->0)@ == seq![46u8],
            r.session.out_dir is Some,
            (r.session.out_dir->0)@ == seq![46u8],
    {
        let mut dot_in: Vec<u8> = Vec::new();
        dot_in.push(46u8);
        assert(dot_in@ =~= seq![46u8]);
        let mut dot_out: Vec<u8> = Vec::new();
        dot_out.push(46u8);
        assert(dot_out@ =~= seq![46u8]);
        self.set_in_dir(dot_in).set_out_dir(dot_out)
    }

    /// If true, always regenerate, even when the artifact is newer than the
    /// source. Default is false.
    pub fn force_build(self, val: bool) -> (r: Configuration)
        ensures
            r.session == (Session { force_build: val, ..self.session }),
    {
        Configuration { session: Session { force_build: val, ..self.session } }
    }

    /// If true, plan one rebuild-watch directive per discovered file, so the
    /// host build tool reruns this orchestrator when a source changes.
    /// Default is false.
    pub fn emit_rerun_directives(self, val: bool) -> (r: Configuration)
        ensures
            r.session == (Session { emit_rerun_directives: val, ..self.session }),
    {
        Configuration { session: Session { emit_rerun_directives: val, ..self.session } }
    }

    /// If true, emit comments into the generated code. Default is false.
    pub fn emit_comments(self, val: bool) -> (r: Configuration)
        ensures
            r.session == (Session { emit_comments: val, ..self.session }),
    {
        Configuration { session: Session { emit_comments: val, ..self.session } }
    }

    /// If false, shrink the generated code by removing redundant whitespace.
    /// Default is true.
    pub fn emit_whitespace(self, val: bool) -> (r: Configuration)
        ensures
            r.session == (Session { emit_whitespace: val, ..self.session }),
    {
        Configuration { session: Session { emit_whitespace: val, ..self.session } }
    }

    /// If true, emit a report file about the generated code. Default is false.
    pub fn emit_report(self, val: bool) -> (r: Configuration)
        ensures
            r.session == (Session { emit_report: val, ..self.session }),
    {
        Configuration { session: Session { emit_report: val, ..self.session } }
    }

    /// Minimal logs: only errors that halt progress.
    pub fn log_quiet(self) -> (r: Configuration)
        ensures
            r.session == (Session { log_level: LogLevel::Taciturn, ..self.session }),
    {
        Configuration { session: Session { log_level: LogLevel::Taciturn, ..self.session } }
    }

    /// Informative logs: high-level indications of progress (default).
    pub fn log_info(self) -> (r: Configuration)
        ensures
            r.session == (Session { log_level: LogLevel::Informative, ..self.session }),
    {
        Configuration { session: Session { log_level: LogLevel::Informative, ..self.session } }
    }

    /// Verbose logs: more than info, but still not overwhelming.
    pub fn log_verbose(self) -> (r: Configuration)
        ensures
            r.session == (Session { log_level: LogLevel::Verbose, ..self.session }),
    {
        Configuration { session: Session { log_level: LogLevel::Verbose, ..self.session } }
    }

    /// Debug logs: better redirected to a file; intended for debugging the
    /// generator itself.
    pub fn log_debug(self) -> (r: Configuration)
        ensures
            r.session == (Session { log_level: LogLevel::Debug, ..self.session }),
    {
        Configuration { session: Session { log_level: LogLevel::Debug, ..self.session } }
    }

    /// Set the maximum macro recursion depth handed to the generator.
    /// Default is 200.
    pub fn set_macro_recursion_limit(self, val: u16) -> (r: Configuration)
        ensures
            r.session == (Session { macro_recursion_limit: val, ..self.session }),
    {
        Configuration { session: Session { macro_recursion_limit: val, ..self.session } }
    }

    /// Set the feature names used during generation, disabling the
    /// environment-derived default.
    pub fn set_features(self, features: Vec<Vec<u8>>) -> (r: Configuration)
        ensures
            r.session == (Session { features: Some(features), ..self.session }),
    {
        Configuration { session: Session { features: Some(features), ..self.session } }
    }

    /// Enable the deterministic-testing mode used by the generator's own
    /// test suite.
    pub fn unit_test(self) -> (r: Configuration)
        ensures
            r.session == (Session { unit_test: true, ..self.session }),
    {
        Configuration { session: Session { unit_test: true, ..self.session } }
    }

    /// Finalizes the staged settings against an environment snapshot into
    /// one run's session: the output root falls back to the environment's
    /// output-root value, the feature set falls back to the features the
    /// environment announces, and everything else carries over. Fails with
    /// `MissingOutDir` — before anything else happens — exactly when the
    /// output root was never set and the environment offers none.
    pub fn finalize(&self, env: &BuildEnv) -> (r: Result<Session, ConfigError>)
        ensures
            r is Err <==> (self.session.out_dir is None && env.out_dir is None),
            r is Err ==> r->Err_0 == ConfigError::MissingOutDir,
            r is Ok ==> finalizes_to(self.session, *env, r->Ok_0),
    {
        let out_dir: Vec<u8> = match (&self.session.out_dir, &env.out_dir) {
            (Some(d), _) => copy_bytes(d),
            (None, Some(d)) => copy_bytes(d),
            (None, None) => {
                return Err(ConfigError::MissingOutDir);
            },
        };
        let features: Vec<Vec<u8>> = match &self.session.features {
            Some(f) => copy_name_list(f),
            None => derive_features(&env.var_names),
        };
        let in_dir: Option<Vec<u8>> = match &self.session.in_dir {
            Some(d) => Some(copy_bytes(d)),
            None => None,
        };
        Ok(
            Session {
                color_config: self.session.color_config,
                in_dir,
                out_dir: Some(out_dir),
                force_build: self.session.force_build,
                emit_rerun_directives: self.session.emit_rerun_directives,
                emit_comments: self.session.emit_comments,
                emit_whitespace: self.session.emit_whitespace,
                emit_report: self.session.emit_report,
                log_level: self.session.log_level,
                macro_recursion_limit: self.session.macro_recursion_limit,
                features: Some(features),
                unit_test: self.session.unit_test,
            },
        )
    }
}

/// A planned directory-level run: the finalized session, the discovered
/// files in traversal order, and one plan per file. The host executes the
/// plans in order through a `DirRun`.
pub struct PlannedRun {
    /// The finalized settings of this run.
    pub session: Session,
    /// The discovered grammar files, in traversal order.
    pub files: Vec<DiscoveredFile>,
    /// One plan per discovered file, in the same order.
    pub plans: Vec<FilePlan>,
}

/// A planned single-file run: the finalized session and the file's plan.
pub struct PlannedFile {
    /// The finalized settings of this run.
    pub session: Session,
    /// The file's plan.
    pub plan: FilePlan,
}

/// The root a run searches when none is given explicitly: the configured
/// input directory, or the current directory.
pub open spec fn effective_in_root(staged: Session) -> Seq<u8> {
    if staged.in_dir is Some {
        (staged.in_dir->0)@
    } else {
        seq![46u8]
    }
}

/// What a planned run's plans say, file by file: input path below the
/// searched root, output path below the resolved output root with the
/// extension substituted, the staleness decision against the file's
/// artifact status, and the session's directive choice.
pub open spec fn plans_for(
    s: Session,
    in_root: Seq<u8>,
    found: Seq<(Seq<Seq<u8>>, Seq<u8>)>,
    statuses: Seq<ArtifactStatus>,
    plans: Seq<FilePlan>,
) -> bool {
    &&& plans.len() == found.len()
    &&& forall|i: int|
        0 <= i < plans.len() ==> {
            &&& (#[trigger] plans[i]).input_path@ == file_path(in_root, found[i].0, found[i].1)
            &&& plans[i].output_path@ == file_path(
                (s.out_dir->0)@,
                found[i].0,
                generated_name(found[i].1),
            )
            &&& plans[i].regenerate == spec_needs_rebuild(s.force_build, statuses[i])
            &&& plans[i].emit_rerun == s.emit_rerun_directives
        }
}

impl Configuration {
    /// Plans a run over every grammar file under the given root's snapshot:
    /// finalizes the settings, discovers the files, and fixes each file's
    /// paths and staleness decision. `statuses` holds one artifact status
    /// per discovered file, in traversal order.
    pub fn process_dir(
        &self,
        path: &Vec<u8>,
        env: &BuildEnv,
        tree: &DirTree,
        statuses: &Vec<ArtifactStatus>,
    ) -> (r: Result<PlannedRun, ConfigError>)
        requires
            statuses@.len() == discovered_under(*tree, Seq::<Seq<u8>>::empty()).len(),
        ensures
            r is Err <==> (self.session.out_dir is None && env.out_dir is None),
            r is Err ==> r->Err_0 == ConfigError::MissingOutDir,
            r is Ok ==> {
                &&& finalizes_to(self.session, *env, r->Ok_0.session)
                &&& file_models(r->Ok_0.files@) == discovered_under(*tree, Seq::<Seq<u8>>::empty())
                &&& plans_for(
                    r->Ok_0.session,
                    path@,
                    discovered_under(*tree, Seq::<Seq<u8>>::empty()),
                    statuses@,
                    r->Ok_0.plans@,
                )
            },
    {
        let session = match self.finalize(env) {
            Ok(s) => s,
            Err(e) => {
                return Err(e);
            },
        };
        let files = discover(tree);
        let ghost found = discovered_under(*tree, Seq::<Seq<u8>>::empty());
        proof {
            lemma_discovered_grammar(*tree, Seq::<Seq<u8>>::empty());
            assert(file_models(files@).len() == files@.len());
            assert forall|i: int| 0 <= i < files@.len() implies has_grammar_ext(
                #[trigger] files@[i].name@,
            ) by {
                assert(file_models(files@)[i] == found[i]);
                assert(file_models(files@)[i] == file_model(files@[i]));
            }
        }
        let out_root: Vec<u8> = match &session.out_dir {
            Some(d) => copy_bytes(d),
            None => {
                proof {
                    assert(false);
                }
                Vec::new()
            },
        };
        let plans = plan_dir(&session, path, &out_root, &files, statuses);
        proof {
            assert forall|i: int| 0 <= i < plans@.len() implies {
                &&& (#[trigger] plans@[i]).input_path@ == file_path(path@, found[i].0, found[i].1)
                &&& plans@[i].output_path@ == file_path(
                    (session.out_dir->0)@,
                    found[i].0,
                    generated_name(found[i].1),
                )
                &&& plans@[i].regenerate == spec_needs_rebuild(session.force_build, statuses@[i])
                &&& plans@[i].emit_rerun == session.emit_rerun_directives
            } by {
                assert(file_models(files@)[i] == found[i]);
                assert(file_models(files@)[i] == file_model(files@[i]));
            }
        }
        Ok(PlannedRun { session, files, plans })
    }

    /// Plans a run rooted at the configured input directory, or at the
    /// current directory when none was set. The snapshot in `tree` is the
    /// contents of that root.
    pub fn process(&self, env: &BuildEnv, tree: &DirTree, statuses: &Vec<ArtifactStatus>) -> (r:
        Result<PlannedRun, ConfigError>)
        requires
            statuses@.len() == discovered_under(*tree, Seq::<Seq<u8>>::empty()).len(),
        ensures
            r is Err <==> (self.session.out_dir is None && env.out_dir is None),
            r is Err ==> r->Err_0 == ConfigError::MissingOutDir,
            r is Ok ==> {
                &&& finalizes_to(self.session, *env, r->Ok_0.session)
                &&& file_models(r->Ok_0.files@) == discovered_under(*tree, Seq::<Seq<u8>>::empty())
                &&& plans_for(
                    r->Ok_0.session,
                    effective_in_root(self.session),
                    discovered_under(*tree, Seq::<Seq<u8>>::empty()),
                    statuses@,
                    r->Ok_0.plans@,
                )
            },
    {
        let root: Vec<u8> = match &self.session.in_dir {
            Some(d) => copy_bytes(d),
            None => {
                let mut v: Vec<u8> = Vec::new();
                v.push(46u8);
                proof {
                    assert(v@ =~= seq![46u8]);
                }
                v
            },
        };
        self.process_dir(&root, env, tree, statuses)
    }

    /// Plans a run over the current directory — `cwd` is the host's actual
    /// working directory, `tree` its snapshot. Fails with
    /// `ContradictoryInDir`, before anything else happens, when an input
    /// directory was explicitly configured and names a different path:
    /// that combination would silently generate output in the wrong place.
    pub fn process_current_dir(
        &self,
        cwd: &Vec<u8>,
        env: &BuildEnv,
        tree: &DirTree,
        statuses: &Vec<ArtifactStatus>,
    ) -> (r: Result<PlannedRun, ConfigError>)
        requires
            statuses@.len() == discovered_under(*tree, Seq::<Seq<u8>>::empty()).len(),
        ensures
            r is Err <==> ((self.session.in_dir is Some && (self.session.in_dir->0)@ != cwd@) || (
            self.session.out_dir is None && env.out_dir is None)),
            (self.session.in_dir is Some && (self.session.in_dir->0)@ != cwd@) ==> r is Err
                && r->Err_0 == ConfigError::ContradictoryInDir,
            r is Err && !(self.session.in_dir is Some && (self.session.in_dir->0)@ != cwd@)
                ==> r->Err_0 == ConfigError::MissingOutDir,
            r is Ok ==> {
                &&& finalizes_to(self.session, *env, r->Ok_0.session)
                &&& file_models(r->Ok_0.files@) == discovered_under(*tree, Seq::<Seq<u8>>::empty())
                &&& plans_for(
                    r->Ok_0.session,
                    cwd@,
                    discovered_under(*tree, Seq::<Seq<u8>>::empty()),
                    statuses@,
                    r->Ok_0.plans@,
                )
            },
    {
        match &self.session.in_dir {
            Some(d) => {
                if !bytes_eq(d, cwd) {
                    return Err(ConfigError::ContradictoryInDir);
                }
            },
            None => {},
        }
        self.process_dir(cwd, env, tree, statuses)
    }

    /// Plans one grammar file's regeneration: finalizes the settings and
    /// fixes the file's paths and staleness decision. The file is given by
    /// its directory components relative to the configured input root.
    pub fn process_file(&self, env: &BuildEnv, file: &DiscoveredFile, st: &ArtifactStatus) -> (r:
        Result<PlannedFile, ConfigError>)
        requires
            has_grammar_ext(file.name@),
        ensures
            r is Err <==> (self.session.out_dir is None && env.out_dir is None),
            r is Err ==> r->Err_0 == ConfigError::MissingOutDir,
            r is Ok ==> {
                &&& finalizes_to(self.session, *env, r->Ok_0.session)
                &&& r->Ok_0.plan.input_path@ == file_path(
                    effective_in_root(self.session),
                    file.rel_dir.deep_view(),
                    file.name@,
                )
                &&& r->Ok_0.plan.output_path@ == file_path(
                    (r->Ok_0.session.out_dir->0)@,
                    file.rel_dir.deep_view(),
                    generated_name(file.name@),
                )
                &&& r->Ok_0.plan.regenerate == spec_needs_rebuild(self.session.force_build, *st)
                &&& r->Ok_0.plan.emit_rerun == self.session.emit_rerun_directives
            },
    {
        let session = match self.finalize(env) {
            Ok(s) => s,
            Err(e) => {
                return Err(e);
            },
        };
        let root: Vec<u8> = match &self.session.in_dir {
            Some(d) => copy_bytes(d),
            None => {
                let mut v: Vec<u8> = Vec::new();
                v.push(46u8);
                proof {
                    assert(v@ =~= seq![46u8]);
                }
                v
            },
        };
        let out_root: Vec<u8> = match &session.out_dir {
            Some(d) => copy_bytes(d),
            None => {
                proof {
                    assert(false);
                }
                Vec::new()
            },
        };
        let plan = plan_file(&session, &root, &out_root, file, st);
        Ok(PlannedFile { session, plan })
    }
}

/// Plans a run over the current directory with default settings.
///
/// Unless changed, that is typically the root of the crate being built; a
/// project that keeps its sources in `./src` wants `process_src` instead.
pub fn process_root(
    cwd: &Vec<u8>,
    env: &BuildEnv,
    tree: &DirTree,
    statuses: &Vec<ArtifactStatus>,
) -> (r: Result<PlannedRun, ConfigError>)
    requires
        statuses@.len() == discovered_under(*tree, Seq::<Seq<u8>>::empty()).len(),
    ensures
        r is Err <==> env.out_dir is None,
        r is Err ==> r->Err_0 == ConfigError::MissingOutDir,
        r is Ok ==> {
            &&& finalizes_to(Session::spec_default(), *env, r->Ok_0.session)
            &&& file_models(r->Ok_0.files@) == discovered_under(*tree, Seq::<Seq<u8>>::empty())
            &&& plans_for(
                r->Ok_0.session,
                cwd@,
                discovered_under(*tree, Seq::<Seq<u8>>::empty()),
                statuses@,
                r->Ok_0.plans@,
            )
        },
{
    Configuration::new().process_current_dir(cwd, env, tree, statuses)
}

/// Plans a run over `./src` with default settings — the usual layout of a
/// single-crate project.
pub fn process_src(env: &BuildEnv, tree: &DirTree, statuses: &Vec<ArtifactStatus>) -> (r: Result<
    PlannedRun,
    ConfigError,
>)
    requires
        statuses@.len() == discovered_under(*tree, Seq::<Seq<u8>>::empty()).len(),
    ensures
        r is Err <==> env.out_dir is None,
        r is Err ==> r->Err_0 == ConfigError::MissingOutDir,
        r is Ok ==> {
            &&& finalizes_to(
                Session { in_dir: r->Ok_0.session.in_dir, ..Session::spec_default() },
                *env,
                r->Ok_0.session,
            )
            &&& opt_bytes_view(r->Ok_0.session.in_dir) == Some(
                seq![46u8, 47u8, 115u8, 114u8, 99u8],
            )
            &&& file_models(r->Ok_0.files@) == discovered_under(*tree, Seq::<Seq<u8>>::empty())
            &&& plans_for(
                r->Ok_0.session,
                seq![46u8, 47u8, 115u8, 114u8, 99u8],
                discovered_under(*tree, Seq::<Seq<u8>>::empty()),
                statuses@,
                r->Ok_0.plans@,
            )
        },
{
    let mut src_dir: Vec<u8> = Vec::new();
    src_dir.push(46u8);
    src_dir.push(47u8);
    src_dir.push(115u8);
    src_dir.push(114u8);
    src_dir.push(99u8);
    proof {
        assert(src_dir@ =~= seq![46u8, 47u8, 115u8, 114u8, 99u8]);
    }
    Configuration::new().set_in_dir(src_dir).process(env, tree, statuses)
}

/// Plans a forced run over the current directory with default settings:
/// every discovered file is regenerated, whatever the timestamps say.
/// Retained for callers of long standing; new callers should configure a
/// `Configuration` with `force_build` themselves.
pub fn process_root_unconditionally(
    cwd: &Vec<u8>,
    env: &BuildEnv,
    tree: &DirTree,
    statuses: &Vec<ArtifactStatus>,
) -> (r: Result<PlannedRun, ConfigError>)
    requires
        statuses@.len() == discovered_under(*tree, Seq::<Seq<u8>>::empty()).len(),
    ensures
        r is Err <==> env.out_dir is None,
        r is Err ==> r->Err_0 == ConfigError::MissingOutDir,
        r is Ok ==> {
            &&& finalizes_to(
                Session { force_build: true, ..Session::spec_default() },
                *env,
                r->Ok_0.session,
            )
            &&& r->Ok_0.session.force_build
            &&& file_models(r->Ok_0.files@) == discovered_under(*tree, Seq::<Seq<u8>>::empty())
            &&& plans_for(
                r->Ok_0.session,
                cwd@,
                discovered_under(*tree, Seq::<Seq<u8>>::empty()),
                statuses@,
                r->Ok_0.plans@,
            )
            &&& forall|i: int|
                0 <= i < r->Ok_0.plans@.len() ==> (#[trigger] r->Ok_0.plans@[i]).regenerate
        },
{
    Configuration::new().force_build(true).process_current_dir(cwd, env, tree, statuses)
}

/// An optional byte string's mathematical shape.
pub open spec fn opt_bytes_view(o: Option<Vec<u8>>) -> Option<Seq<u8>> {
    match o {
        Some(v) => Some(v@),
        None => None,
    }
}

/// What finalization promises of the session it yields, relative to the
/// staged settings and the environment snapshot it was given.
pub open spec fn finalizes_to(staged: Session, env: BuildEnv, s: Session) -> bool {
    &&& s.color_config == staged.color_config
    &&& opt_bytes_view(s.in_dir) == opt_bytes_view(staged.in_dir)
    &&& s.force_build == staged.force_build
    &&& s.emit_rerun_directives == staged.emit_rerun_directives
    &&& s.emit_comments == staged.emit_comments
    &&& s.emit_whitespace == staged.emit_whitespace
    &&& s.emit_report == staged.emit_report
    &&& s.log_level == staged.log_level
    &&& s.macro_recursion_limit == staged.macro_recursion_limit
    &&& s.unit_test == staged.unit_test
    &&& s.out_dir is Some
    &&& (s.out_dir->0)@ == (if staged.out_dir is Some {
        (staged.out_dir->0)@
    } else {
        (env.out_dir->0)@
    })
    &&& s.features is Some
    &&& (s.features->0).deep_view() == (if staged.features is Some {
        (staged.features->0).deep_view()
    } else {
        features_of(env.var_names.deep_view())
    })
}


/// Idempotence: a run planned with `force_build` off over files whose
/// artifacts are present, readable and not older than their sources — what
/// a successful run leaves behind when no source changes — regenerates
/// nothing; every outcome is a skip.
pub proof fn lemma_second_run_all_skipped(
    s: Session,
    in_root: Seq<u8>,
    found: Seq<(Seq<Seq<u8>>, Seq<u8>)>,
    statuses: Seq<ArtifactStatus>,
    plans: Seq<FilePlan>,
)
    requires
        plans_for(s, in_root, found, statuses, plans),
        statuses.len() == found.len(),
        !s.force_build,
        forall|i: int| 0 <= i < statuses.len() ==> crate::staleness::spec_up_to_date(#[trigger] statuses[i]),
    ensures
        forall|i: int| 0 <= i < plans.len() ==> !(#[trigger] plans[i]).regenerate,
{
}

/// With `force_build` on, a planned run regenerates every discovered file,
/// whatever the artifacts' timestamps say.
pub proof fn lemma_forced_run_all_regenerated(
    s: Session,
    in_root: Seq<u8>,
    found: Seq<(Seq<Seq<u8>>, Seq<u8>)>,
    statuses: Seq<ArtifactStatus>,
    plans: Seq<FilePlan>,
)
    requires
        plans_for(s, in_root, found, statuses, plans),
        statuses.len() == found.len(),
        s.force_build,
    ensures
        forall|i: int| 0 <= i < plans.len() ==> (#[trigger] plans[i]).regenerate,
{
}

} // verus!

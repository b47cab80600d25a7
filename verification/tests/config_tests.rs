use lalrpop::BuildEnv;
use lalrpop::ColorConfig;
use lalrpop::ConfigError;
use lalrpop::Configuration;
use lalrpop::DirTree;
use lalrpop::LogLevel;

fn empty_env() -> BuildEnv {
    BuildEnv { out_dir: None, var_names: Vec::new() }
}

fn empty_tree() -> DirTree {
    DirTree { files: Vec::new(), subdirs: Vec::new() }
}

#[test]
fn defaults_match_documented_values() {
    let cfg = Configuration::new();
    assert_eq!(cfg.session.color_config, ColorConfig::IfTty);
    assert_eq!(cfg.session.in_dir, None);
    assert_eq!(cfg.session.out_dir, None);
    assert!(!cfg.session.force_build);
    assert!(!cfg.session.emit_rerun_directives);
    assert!(!cfg.session.emit_comments);
    assert!(cfg.session.emit_whitespace);
    assert!(!cfg.session.emit_report);
    assert_eq!(cfg.session.log_level, LogLevel::Informative);
    assert_eq!(cfg.session.macro_recursion_limit, 200);
    assert_eq!(cfg.session.features, None);
    assert!(!cfg.session.unit_test);
}

#[test]
fn setters_change_exactly_their_setting() {
    let cfg = Configuration::new().always_use_colors();
    assert_eq!(cfg.session.color_config, ColorConfig::Yes);
    let cfg = cfg.never_use_colors();
    assert_eq!(cfg.session.color_config, ColorConfig::No);
    let cfg = cfg.use_colors_if_tty();
    assert_eq!(cfg.session.color_config, ColorConfig::IfTty);
    let cfg = cfg.force_build(true);
    assert!(cfg.session.force_build);
    let cfg = cfg.emit_rerun_directives(true);
    assert!(cfg.session.emit_rerun_directives);
    let cfg = cfg.emit_comments(true);
    assert!(cfg.session.emit_comments);
    let cfg = cfg.emit_whitespace(false);
    assert!(!cfg.session.emit_whitespace);
    let cfg = cfg.emit_report(true);
    assert!(cfg.session.emit_report);
    let cfg = cfg.log_quiet();
    assert_eq!(cfg.session.log_level, LogLevel::Taciturn);
    let cfg = cfg.log_verbose();
    assert_eq!(cfg.session.log_level, LogLevel::Verbose);
    let cfg = cfg.log_debug();
    assert_eq!(cfg.session.log_level, LogLevel::Debug);
    let cfg = cfg.log_info();
    assert_eq!(cfg.session.log_level, LogLevel::Informative);
    let cfg = cfg.set_macro_recursion_limit(50);
    assert_eq!(cfg.session.macro_recursion_limit, 50);
    let cfg = cfg.unit_test();
    assert!(cfg.session.unit_test);
    let cfg = cfg.set_in_dir(b"grammar".to_vec());
    assert_eq!(cfg.session.in_dir, Some(b"grammar".to_vec()));
    let cfg = cfg.set_out_dir(b"gen".to_vec());
    assert_eq!(cfg.session.out_dir, Some(b"gen".to_vec()));
    let cfg = cfg.set_features(vec![b"alpha".to_vec()]);
    assert_eq!(cfg.session.features, Some(vec![b"alpha".to_vec()]));
    // colors were left at the default along the way
    assert_eq!(cfg.session.color_config, ColorConfig::IfTty);
}

#[test]
fn cargo_dir_conventions_set_src_and_given_out_dir() {
    let cfg = Configuration::new().use_cargo_dir_conventions(b"/tmp/out".to_vec());
    assert_eq!(cfg.session.in_dir, Some(b"src".to_vec()));
    assert_eq!(cfg.session.out_dir, Some(b"/tmp/out".to_vec()));
}

#[test]
fn generate_in_source_tree_sets_both_roots_to_dot() {
    let cfg = Configuration::new().generate_in_source_tree();
    assert_eq!(cfg.session.in_dir, Some(b".".to_vec()));
    assert_eq!(cfg.session.out_dir, Some(b".".to_vec()));
}

#[test]
fn missing_out_dir_fails_every_entry_point() {
    let env = empty_env();
    let tree = empty_tree();
    let no_status = Vec::new();
    let cfg = Configuration::new();
    let r = cfg.process(&env, &tree, &no_status);
    assert!(matches!(r, Err(ConfigError::MissingOutDir)));
    let r = cfg.process_dir(&b"sub".to_vec(), &env, &tree, &no_status);
    assert!(matches!(r, Err(ConfigError::MissingOutDir)));
    let r = cfg.process_current_dir(&b"/work".to_vec(), &env, &tree, &no_status);
    assert!(matches!(r, Err(ConfigError::MissingOutDir)));
    let file = lalrpop::DiscoveredFile { rel_dir: Vec::new(), name: b"g.lalrpop".to_vec() };
    let st = lalrpop::ArtifactStatus {
        artifact_exists: false,
        source_mtime: Some(1),
        artifact_mtime: None,
    };
    let r = cfg.process_file(&env, &file, &st);
    assert!(matches!(r, Err(ConfigError::MissingOutDir)));
    let r = lalrpop::process_root(&b"/work".to_vec(), &env, &tree, &no_status);
    assert!(matches!(r, Err(ConfigError::MissingOutDir)));
    let r = lalrpop::process_src(&env, &tree, &no_status);
    assert!(matches!(r, Err(ConfigError::MissingOutDir)));
    let r = lalrpop::process_root_unconditionally(&b"/work".to_vec(), &env, &tree, &no_status);
    assert!(matches!(r, Err(ConfigError::MissingOutDir)));
}

#[test]
fn env_out_dir_is_the_lazy_default() {
    let env = BuildEnv { out_dir: Some(b"/tmp/out".to_vec()), var_names: Vec::new() };
    let r = Configuration::new().finalize(&env).unwrap();
    assert_eq!(r.out_dir, Some(b"/tmp/out".to_vec()));
    // an explicit out_dir wins over the environment
    let r = Configuration::new().set_out_dir(b"gen".to_vec()).finalize(&env).unwrap();
    assert_eq!(r.out_dir, Some(b"gen".to_vec()));
}

#[test]
fn contradictory_in_dir_fails_before_anything_else() {
    // even the missing out_dir is not reached: the contradiction comes first
    let env = empty_env();
    let tree = empty_tree();
    let no_status = Vec::new();
    let cfg = Configuration::new().set_in_dir(b"/elsewhere".to_vec());
    let r = cfg.process_current_dir(&b"/work".to_vec(), &env, &tree, &no_status);
    assert!(matches!(r, Err(ConfigError::ContradictoryInDir)));
}

#[test]
fn matching_in_dir_passes_the_current_dir_check() {
    let env = BuildEnv { out_dir: Some(b"out".to_vec()), var_names: Vec::new() };
    let tree = empty_tree();
    let no_status = Vec::new();
    let cfg = Configuration::new().set_in_dir(b"/work".to_vec());
    let r = cfg.process_current_dir(&b"/work".to_vec(), &env, &tree, &no_status);
    assert!(r.is_ok());
}

#[test]
fn explicit_features_disable_the_environment_default() {
    let env = BuildEnv {
        out_dir: Some(b"out".to_vec()),
        var_names: vec![b"CARGO_FEATURE_IGNORED".to_vec()],
    };
    let session = Configuration::new()
        .set_features(vec![b"only-this".to_vec()])
        .finalize(&env)
        .unwrap();
    assert_eq!(session.features, Some(vec![b"only-this".to_vec()]));
}

#[test]
fn finalize_keeps_the_staged_settings() {
    let env = BuildEnv { out_dir: Some(b"out".to_vec()), var_names: Vec::new() };
    let session = Configuration::new()
        .never_use_colors()
        .force_build(true)
        .emit_comments(true)
        .set_macro_recursion_limit(7)
        .finalize(&env)
        .unwrap();
    assert_eq!(session.color_config, ColorConfig::No);
    assert!(session.force_build);
    assert!(session.emit_comments);
    assert_eq!(session.macro_recursion_limit, 7);
    assert_eq!(session.features, Some(Vec::new()));
}

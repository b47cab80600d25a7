use lalrpop::needs_rebuild;
use lalrpop::rerun_directive_line;
use lalrpop::ArtifactStatus;
use lalrpop::BuildEnv;
use lalrpop::BuildOutcome;
use lalrpop::Configuration;
use lalrpop::DirRun;
use lalrpop::DirTree;
use lalrpop::SubDir;

fn fresh(src: u64, art: u64) -> ArtifactStatus {
    ArtifactStatus { artifact_exists: true, source_mtime: Some(src), artifact_mtime: Some(art) }
}

#[test]
fn staleness_covers_every_case() {
    // missing artifact: stale
    let st = ArtifactStatus { artifact_exists: false, source_mtime: Some(5), artifact_mtime: None };
    assert!(needs_rebuild(false, &st));
    // unreadable source time: conservatively stale
    let st = ArtifactStatus { artifact_exists: true, source_mtime: None, artifact_mtime: Some(5) };
    assert!(needs_rebuild(false, &st));
    // unreadable artifact time: conservatively stale
    let st = ArtifactStatus { artifact_exists: true, source_mtime: Some(5), artifact_mtime: None };
    assert!(needs_rebuild(false, &st));
    // artifact older than source: stale
    assert!(needs_rebuild(false, &fresh(6, 5)));
    // artifact as old as source: fresh
    assert!(!needs_rebuild(false, &fresh(5, 5)));
    // artifact newer than source: fresh
    assert!(!needs_rebuild(false, &fresh(5, 6)));
    // force_build bypasses the comparison entirely
    assert!(needs_rebuild(true, &fresh(5, 6)));
}

#[test]
fn rerun_directive_has_the_fixed_prefix() {
    let line = rerun_directive_line(&b"a/one.lalrpop".to_vec());
    assert_eq!(line, b"cargo:rerun-if-changed=a/one.lalrpop".to_vec());
}

fn two_file_tree() -> DirTree {
    DirTree {
        files: vec![b"one.lalrpop".to_vec()],
        subdirs: vec![SubDir {
            name: b"b".to_vec(),
            via_symlink: false,
            tree: DirTree { files: vec![b"two.lalrpop".to_vec()], subdirs: Vec::new() },
        }],
    }
}

fn no_artifacts() -> Vec<ArtifactStatus> {
    let missing =
        ArtifactStatus { artifact_exists: false, source_mtime: Some(1), artifact_mtime: None };
    vec![missing, missing]
}

#[test]
fn two_grammar_files_map_under_the_output_root_and_regenerate() {
    let env = BuildEnv { out_dir: None, var_names: Vec::new() };
    let cfg = Configuration::new()
        .set_in_dir(b"a".to_vec())
        .set_out_dir(b"target".to_vec());
    let run = cfg.process(&env, &two_file_tree(), &no_artifacts()).unwrap();
    assert_eq!(run.plans.len(), 2);
    assert_eq!(run.plans[0].input_path, b"a/one.lalrpop".to_vec());
    assert_eq!(run.plans[0].output_path, b"target/one.rs".to_vec());
    assert!(run.plans[0].regenerate);
    assert_eq!(run.plans[1].input_path, b"a/b/two.lalrpop".to_vec());
    assert_eq!(run.plans[1].output_path, b"target/b/two.rs".to_vec());
    assert!(run.plans[1].regenerate);

    // a run where the generator succeeds on both files ends with two
    // regenerated outcomes
    let mut dr = DirRun::new(run.plans);
    assert!(!dr.finished());
    dr.record_compiled(true);
    assert!(!dr.finished());
    dr.record_compiled(true);
    assert!(dr.finished());
    assert_eq!(dr.outcomes, vec![BuildOutcome::Regenerated, BuildOutcome::Regenerated]);
    assert!(!dr.failed);
}

#[test]
fn second_run_over_unchanged_tree_skips_everything() {
    let env = BuildEnv { out_dir: None, var_names: Vec::new() };
    let cfg = Configuration::new()
        .set_in_dir(b"a".to_vec())
        .set_out_dir(b"target".to_vec());
    // artifacts written by the first run: at least as new as the sources
    let statuses = vec![fresh(10, 10), fresh(10, 12)];
    let run = cfg.process(&env, &two_file_tree(), &statuses).unwrap();
    assert!(run.plans.iter().all(|p| !p.regenerate));
    let mut dr = DirRun::new(run.plans);
    dr.record_skip();
    dr.record_skip();
    assert!(dr.finished());
    assert_eq!(dr.outcomes, vec![BuildOutcome::Skipped, BuildOutcome::Skipped]);
}

#[test]
fn force_build_regenerates_despite_fresh_artifacts() {
    let env = BuildEnv { out_dir: None, var_names: Vec::new() };
    let cfg = Configuration::new()
        .set_in_dir(b"a".to_vec())
        .set_out_dir(b"target".to_vec())
        .force_build(true);
    let statuses = vec![fresh(10, 99), fresh(10, 99)];
    let run = cfg.process(&env, &two_file_tree(), &statuses).unwrap();
    assert!(run.plans.iter().all(|p| p.regenerate));
}

#[test]
fn a_failure_finishes_the_run_at_once() {
    let env = BuildEnv { out_dir: None, var_names: Vec::new() };
    let cfg = Configuration::new()
        .set_in_dir(b"a".to_vec())
        .set_out_dir(b"target".to_vec());
    let run = cfg.process(&env, &two_file_tree(), &no_artifacts()).unwrap();
    let mut dr = DirRun::new(run.plans);
    dr.record_compiled(false);
    // the second file is never processed: the run is already finished
    assert!(dr.finished());
    assert!(dr.failed);
    assert_eq!(dr.outcomes, vec![BuildOutcome::Failed]);
}

#[test]
fn rerun_directives_are_planned_for_skipped_files_too() {
    let env = BuildEnv { out_dir: None, var_names: Vec::new() };
    let cfg = Configuration::new()
        .set_in_dir(b"a".to_vec())
        .set_out_dir(b"target".to_vec())
        .emit_rerun_directives(true);
    let statuses = vec![fresh(10, 10), fresh(10, 10)];
    let run = cfg.process(&env, &two_file_tree(), &statuses).unwrap();
    assert!(run.plans.iter().all(|p| p.emit_rerun && !p.regenerate));
}

#[test]
fn process_file_plans_one_file() {
    let env = BuildEnv { out_dir: Some(b"gen".to_vec()), var_names: Vec::new() };
    let cfg = Configuration::new().set_in_dir(b"grammar".to_vec());
    let file = lalrpop::DiscoveredFile {
        rel_dir: vec![b"sub".to_vec()],
        name: b"p.lalrpop".to_vec(),
    };
    let st = ArtifactStatus { artifact_exists: false, source_mtime: Some(1), artifact_mtime: None };
    let planned = cfg.process_file(&env, &file, &st).unwrap();
    assert_eq!(planned.plan.input_path, b"grammar/sub/p.lalrpop".to_vec());
    assert_eq!(planned.plan.output_path, b"gen/sub/p.rs".to_vec());
    assert!(planned.plan.regenerate);
}

#[test]
fn process_src_searches_dot_slash_src() {
    let env = BuildEnv { out_dir: Some(b"gen".to_vec()), var_names: Vec::new() };
    let tree = DirTree { files: vec![b"g.lalrpop".to_vec()], subdirs: Vec::new() };
    let st = ArtifactStatus { artifact_exists: false, source_mtime: Some(1), artifact_mtime: None };
    let run = lalrpop::process_src(&env, &tree, &vec![st]).unwrap();
    assert_eq!(run.plans.len(), 1);
    assert_eq!(run.plans[0].input_path, b"./src/g.lalrpop".to_vec());
    assert_eq!(run.plans[0].output_path, b"gen/g.rs".to_vec());
}

#[test]
fn process_root_unconditionally_forces_every_file() {
    let env = BuildEnv { out_dir: Some(b"gen".to_vec()), var_names: Vec::new() };
    let tree = DirTree { files: vec![b"g.lalrpop".to_vec()], subdirs: Vec::new() };
    let statuses = vec![fresh(1, 99)];
    let run =
        lalrpop::process_root_unconditionally(&b"/work".to_vec(), &env, &tree, &statuses).unwrap();
    assert!(run.session.force_build);
    assert!(run.plans[0].regenerate);
}

#[test]
fn in_source_tree_run_maps_each_file_beside_its_source() {
    let env = BuildEnv { out_dir: None, var_names: Vec::new() };
    let cfg = Configuration::new().generate_in_source_tree();
    let tree = DirTree {
        files: Vec::new(),
        subdirs: vec![SubDir {
            name: b"foo".to_vec(),
            via_symlink: false,
            tree: DirTree { files: vec![b"bar.lalrpop".to_vec()], subdirs: Vec::new() },
        }],
    };
    let st = ArtifactStatus { artifact_exists: false, source_mtime: Some(1), artifact_mtime: None };
    let run = cfg.process(&env, &tree, &vec![st]).unwrap();
    assert_eq!(run.plans[0].input_path, b"./foo/bar.lalrpop".to_vec());
    assert_eq!(run.plans[0].output_path, b"./foo/bar.rs".to_vec());
}

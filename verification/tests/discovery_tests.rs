use lalrpop::derive_features;
use lalrpop::discover;
use lalrpop::feature_of_var;
use lalrpop::generated_file_name;
use lalrpop::is_grammar_file_name;
use lalrpop::join_file_path;
use lalrpop::map_output_path;
use lalrpop::DirTree;
use lalrpop::DiscoveredFile;
use lalrpop::SubDir;

fn leaf(files: Vec<Vec<u8>>) -> DirTree {
    DirTree { files, subdirs: Vec::new() }
}

#[test]
fn grammar_extension_is_recognized() {
    assert!(is_grammar_file_name(&b"parser.lalrpop".to_vec()));
    assert!(is_grammar_file_name(&b"a.b.lalrpop".to_vec()));
    assert!(!is_grammar_file_name(&b"parser.rs".to_vec()));
    assert!(!is_grammar_file_name(&b"lalrpop".to_vec()));
    // a bare extension has no stem and is not a grammar file
    assert!(!is_grammar_file_name(&b".lalrpop".to_vec()));
    assert!(!is_grammar_file_name(&b"parser.LALRPOP".to_vec()));
}

#[test]
fn generated_name_substitutes_the_extension() {
    assert_eq!(generated_file_name(&b"parser.lalrpop".to_vec()), b"parser.rs".to_vec());
    assert_eq!(generated_file_name(&b"a.b.lalrpop".to_vec()), b"a.b.rs".to_vec());
}

#[test]
fn paths_join_root_components_and_name() {
    let p = join_file_path(
        &b"target".to_vec(),
        &vec![b"b".to_vec()],
        &b"two.rs".to_vec(),
    );
    assert_eq!(p, b"target/b/two.rs".to_vec());
    let p = join_file_path(&b".".to_vec(), &Vec::new(), &b"one.lalrpop".to_vec());
    assert_eq!(p, b"./one.lalrpop".to_vec());
}

#[test]
fn in_source_tree_mapping_changes_only_the_extension() {
    let f = DiscoveredFile { rel_dir: vec![b"foo".to_vec()], name: b"bar.lalrpop".to_vec() };
    let out = map_output_path(&b".".to_vec(), &f);
    assert_eq!(out, b"./foo/bar.rs".to_vec());
    let input = join_file_path(&b".".to_vec(), &f.rel_dir, &f.name);
    assert_eq!(input, b"./foo/bar.lalrpop".to_vec());
}

#[test]
fn discovery_finds_nested_grammar_files_in_order() {
    let tree = DirTree {
        files: vec![b"one.lalrpop".to_vec(), b"notes.txt".to_vec()],
        subdirs: vec![SubDir {
            name: b"b".to_vec(),
            via_symlink: false,
            tree: leaf(vec![b"two.lalrpop".to_vec()]),
        }],
    };
    let found = discover(&tree);
    assert_eq!(found.len(), 2);
    assert_eq!(found[0].rel_dir, Vec::<Vec<u8>>::new());
    assert_eq!(found[0].name, b"one.lalrpop".to_vec());
    assert_eq!(found[1].rel_dir, vec![b"b".to_vec()]);
    assert_eq!(found[1].name, b"two.lalrpop".to_vec());
}

#[test]
fn discovery_never_enters_a_symlinked_directory() {
    let tree = DirTree {
        files: Vec::new(),
        subdirs: vec![
            SubDir {
                name: b"linked".to_vec(),
                via_symlink: true,
                tree: leaf(vec![b"hidden.lalrpop".to_vec()]),
            },
            SubDir {
                name: b"real".to_vec(),
                via_symlink: false,
                tree: leaf(vec![b"seen.lalrpop".to_vec()]),
            },
        ],
    };
    let found = discover(&tree);
    assert_eq!(found.len(), 1);
    assert_eq!(found[0].rel_dir, vec![b"real".to_vec()]);
    assert_eq!(found[0].name, b"seen.lalrpop".to_vec());
}

#[test]
fn discovery_of_an_empty_tree_is_empty() {
    let found = discover(&leaf(Vec::new()));
    assert!(found.is_empty());
}

#[test]
fn feature_vars_are_stripped_dashed_and_lowercased() {
    assert_eq!(
        feature_of_var(&b"CARGO_FEATURE_FOO_BAR".to_vec()),
        Some(b"foo-bar".to_vec())
    );
    assert_eq!(feature_of_var(&b"CARGO_FEATURE_BAZ".to_vec()), Some(b"baz".to_vec()));
    assert_eq!(feature_of_var(&b"PATH".to_vec()), None);
    assert_eq!(feature_of_var(&b"CARGO_FEATUR".to_vec()), None);
}

#[test]
fn derived_feature_set_is_exactly_the_announced_features() {
    let vars = vec![
        b"CARGO_FEATURE_FOO_BAR".to_vec(),
        b"PATH".to_vec(),
        b"CARGO_FEATURE_BAZ".to_vec(),
        b"HOME".to_vec(),
    ];
    let features = derive_features(&vars);
    assert_eq!(features, vec![b"foo-bar".to_vec(), b"baz".to_vec()]);
}

#[test]
fn derived_feature_set_lists_a_feature_once() {
    // two variable spellings that announce the same feature
    let vars = vec![b"CARGO_FEATURE_A_B".to_vec(), b"CARGO_FEATURE_A_B".to_vec()];
    let features = derive_features(&vars);
    assert_eq!(features, vec![b"a-b".to_vec()]);
}

#[test]
fn bare_prefix_announces_the_empty_feature() {
    assert_eq!(feature_of_var(&b"CARGO_FEATURE_".to_vec()), Some(b"".to_vec()));
}

#[test]
fn discovery_descends_several_levels_in_entry_order() {
    let deep = DirTree {
        files: vec![b"c.lalrpop".to_vec()],
        subdirs: Vec::new(),
    };
    let mid = DirTree {
        files: vec![b"b.lalrpop".to_vec()],
        subdirs: vec![SubDir { name: b"y".to_vec(), via_symlink: false, tree: deep }],
    };
    let tree = DirTree {
        files: vec![b"a.lalrpop".to_vec()],
        subdirs: vec![SubDir { name: b"x".to_vec(), via_symlink: false, tree: mid }],
    };
    let found = discover(&tree);
    let shapes: Vec<(Vec<Vec<u8>>, Vec<u8>)> =
        found.into_iter().map(|f| (f.rel_dir, f.name)).collect();
    assert_eq!(
        shapes,
        vec![
            (Vec::new(), b"a.lalrpop".to_vec()),
            (vec![b"x".to_vec()], b"b.lalrpop".to_vec()),
            (vec![b"x".to_vec(), b"y".to_vec()], b"c.lalrpop".to_vec()),
        ]
    );
}

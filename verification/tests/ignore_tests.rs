use workspaceos::ignore_rules::{gitignore_queries, IgnoreMatcher};

#[test]
fn tool_directories_are_always_ignored() {
    let m = IgnoreMatcher::new("/w", None);
    assert!(m.is_ignored("/w/.git/config", false));
    assert!(m.is_ignored("/w/.git", true));
    assert!(m.is_ignored("/w/.workspaceos", true));
    assert!(m.is_ignored("/w/.workspaceos/index.db", false));
    assert!(m.is_ignored("/w/node_modules/x/y.js", false));
    assert!(m.is_ignored("/w/target/debug/app", false));
    assert!(!m.is_ignored("/w/src/main.rs", false));
    assert!(!m.is_ignored("/w/.gitignore", false));
}

#[test]
fn gitignore_rules_apply_to_files_and_parent_directories() {
    let m = IgnoreMatcher::new("/w", Some("\u{feff}# comment\n*.log\nbuild/\n!keep.log\n".to_string()));
    assert!(m.is_ignored("/w/app.log", false));
    assert!(m.is_ignored("/w/sub/deep/trace.log", false));
    assert!(!m.is_ignored("/w/keep.log", false));
    assert!(m.is_ignored("/w/build", true));
    assert!(!m.is_ignored("/w/build", false));
    assert!(m.is_ignored("/w/build/out/x.txt", false));
    assert!(!m.is_ignored("/w/src/lib.rs", false));
    // paths outside the root are only checked against the forced rules
    assert!(!m.is_ignored("/other/app.log", false));
}

#[test]
fn a_bom_on_the_first_pattern_is_ignored() {
    let m = IgnoreMatcher::new("/w", Some("\u{feff}*.tmp\n".to_string()));
    assert!(m.is_ignored("/w/a.tmp", false));
}

#[test]
fn the_matcher_is_asked_about_the_path_then_its_parents() {
    assert_eq!(
        gitignore_queries("build/out/x.txt", false),
        vec![
            ("build/out/x.txt".to_string(), false),
            ("build/out".to_string(), true),
            ("build".to_string(), true),
        ]
    );
    assert_eq!(gitignore_queries("a.log", true), vec![("a.log".to_string(), true)]);
    assert_eq!(
        gitignore_queries("./a/b", false),
        vec![("./a/b".to_string(), false), ("./a".to_string(), true)]
    );
}

#[test]
fn a_negated_rule_cannot_reinclude_a_path_below_an_ignored_directory() {
    let m = IgnoreMatcher::new("/w", Some("build/\n!*.txt\n".to_string()));
    assert!(!m.is_ignored("/w/notes.txt", false));
    assert!(m.is_ignored("/w/build/keep.txt", false));
    assert!(m.is_ignored("/w/build/deep/keep.txt", false));
}

#[test]
fn invalid_lines_are_skipped_and_the_rest_apply() {
    let m = IgnoreMatcher::new("/w", Some("[z-a]\n*.log\n".to_string()));
    assert!(m.is_ignored("/w/a.log", false));
    assert!(!m.is_ignored("/w/a.rs", false));
}

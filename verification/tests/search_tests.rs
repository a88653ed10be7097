use workspaceos::index::{FileRecord, SymbolRecord};
use workspaceos::search::{
    filter_files_by_path, filter_symbols_by_name, matching_lines, query_matches, SearchEngine,
};

fn record(id: i64, path: &str) -> FileRecord {
    FileRecord {
        id,
        path: path.to_string(),
        size: 0,
        mtime: 0,
        hash: String::new(),
        language: String::new(),
    }
}

#[test]
fn path_search_is_case_insensitive_substring() {
    let files = vec![record(1, "src/Main.rs"), record(2, "README.md"), record(3, "src/domain/main_loop.rs")];
    let hits = filter_files_by_path(&files, "MAIN");
    let ps: Vec<&str> = hits.iter().map(|f| f.path.as_str()).collect();
    assert_eq!(ps, vec!["src/Main.rs", "src/domain/main_loop.rs"]);
    assert_eq!(filter_files_by_path(&files, "").len(), 3);
    assert!(query_matches("HelloWorld", "owo"));
    assert!(!query_matches("Hello", "xyz"));
}

#[test]
fn symbol_search_filters_by_name() {
    let sym = |n: &str| SymbolRecord {
        id: 0,
        file_id: 1,
        name: n.to_string(),
        kind: "function".to_string(),
        start_line: 1,
        start_column: 0,
        end_line: 1,
        end_column: 1,
    };
    let syms = vec![sym("helper"), sym("main"), sym("HelperTwo")];
    let hits = filter_symbols_by_name(&syms, "help");
    let names: Vec<&str> = hits.iter().map(|s| s.name.as_str()).collect();
    assert_eq!(names, vec!["helper", "HelperTwo"]);
}

#[test]
fn full_text_hits_report_matching_lines() {
    let body = "# WorkspaceOS E2E\nThis is an integration test readme.\n  other line  \n";
    let hits = matching_lines("README.md", body, "Integration TEST");
    assert_eq!(hits.len(), 1);
    assert_eq!(hits[0].path, "README.md");
    assert_eq!(hits[0].line, 2);
    assert_eq!(hits[0].content, "This is an integration test readme.");
    let trimmed = matching_lines("x", "a\n   other line  \r\n", "OTHER");
    assert_eq!(trimmed.len(), 1);
    assert_eq!(trimmed[0].line, 2);
    assert_eq!(trimmed[0].content, "other line");
    assert!(matching_lines("x", "abc", "   ").is_empty());
}

#[test]
fn the_hybrid_entry_point_returns_nothing() {
    assert!(SearchEngine::search("anything").is_empty());
}

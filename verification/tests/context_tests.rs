use workspaceos::context::{ContextEngine, Intent, PackCandidate, ScoreEntry};
use workspaceos::index::{FileRecord, SymbolRecord};
use workspaceos::search::CodeSearchResult;

fn file(id: i64, path: &str) -> FileRecord {
    FileRecord {
        id,
        path: path.to_string(),
        size: 100,
        mtime: 12345,
        hash: "hash123".to_string(),
        language: "rust".to_string(),
    }
}

fn candidate(path: &str, content: Option<&str>, tokens: usize) -> PackCandidate {
    PackCandidate {
        path: path.to_string(),
        score: 50,
        reason: "Direct path match".to_string(),
        content: content.map(|c| c.to_string()),
        tokens,
        truncated_tokens: tokens / 2,
    }
}

#[test]
fn test_intent_detection() {
    assert_eq!(
        ContextEngine::detect_intent("fix the memory leak"),
        Intent::BugFix
    );
    assert_eq!(
        ContextEngine::detect_intent("implement active sessions"),
        Intent::Feature
    );
    assert_eq!(
        ContextEngine::detect_intent("refactor the registry module"),
        Intent::Refactor
    );
    assert_eq!(
        ContextEngine::detect_intent("explain how state machine works"),
        Intent::ExplainCode
    );
}

#[test]
fn intent_is_judged_case_insensitively_with_bug_words_first() {
    assert_eq!(ContextEngine::detect_intent("CRASH on startup"), Intent::BugFix);
    assert_eq!(ContextEngine::detect_intent("add a fix for login"), Intent::BugFix);
    assert_eq!(ContextEngine::detect_intent("Create a New page"), Intent::Feature);
    assert_eq!(ContextEngine::detect_intent("Cleanup the module structure"), Intent::Refactor);
    assert_eq!(ContextEngine::detect_intent(""), Intent::ExplainCode);
}

#[test]
fn test_context_relevance_ranking() {
    // main.rs holds the symbol `main`; the query "main" matches its path and its symbol.
    let files = vec![file(1, "main.rs")];
    let symbols = vec![SymbolRecord {
        id: 1,
        file_id: 1,
        name: "main".to_string(),
        kind: "function".to_string(),
        start_line: 1,
        start_column: 0,
        end_line: 1,
        end_column: 15,
    }];
    let scores = ContextEngine::score_files(&files, &symbols, &Vec::new(), &files, &vec![vec![]]);
    assert_eq!(scores.len(), 1);
    assert_eq!(scores[0].path, "main.rs");
    assert_eq!(scores[0].score, 80);
    assert_eq!(scores[0].reason, "Direct path match");

    let ranked = ContextEngine::rank_by_score(scores);
    let content = "fn main() { println!(\"server starting\"); }";
    let words = ContextEngine::word_count(content);
    assert_eq!(words, 6);
    let cands = vec![PackCandidate {
        path: ranked[0].path.clone(),
        score: ranked[0].score,
        reason: ranked[0].reason.clone(),
        content: Some(content.to_string()),
        tokens: 6,
        truncated_tokens: 6,
    }];
    let profile = ContextEngine::pack_context(Intent::ExplainCode, &cands, 1000);
    assert_eq!(profile.snippets.len(), 1);
    assert_eq!(profile.snippets[0].path, "main.rs");
    assert!(profile.snippets[0].score > 0);
    assert_eq!(profile.total_tokens, 6);
}

#[test]
fn scoring_adds_symbol_text_and_import_boosts() {
    let files = vec![file(1, "src/a.rs"), file(2, "src/b.rs"), file(3, "src/c.rs")];
    let symbols = vec![SymbolRecord {
        id: 9,
        file_id: 2,
        name: "Widget".to_string(),
        kind: "struct".to_string(),
        start_line: 3,
        start_column: 0,
        end_line: 5,
        end_column: 1,
    }];
    let code = vec![
        CodeSearchResult { path: "src/b.rs".to_string(), line: 4, content: "widget here".to_string() },
        CodeSearchResult { path: "src/a.rs".to_string(), line: 1, content: "a widget".to_string() },
    ];
    // src/b.rs imports src/c.rs
    let deps = vec![vec![], vec![3], vec![]];
    let scores = ContextEngine::score_files(&Vec::new(), &symbols, &code, &files, &deps);
    let find = |p: &str| scores.iter().find(|e| e.path == p).unwrap();
    assert_eq!(scores.len(), 3);
    assert_eq!(find("src/b.rs").score, 50);
    assert_eq!(find("src/b.rs").reason, "Contains matching symbol 'Widget'");
    assert_eq!(find("src/a.rs").score, 20);
    assert_eq!(find("src/a.rs").reason, "Contains matching text occurrence: 'a widget'");
    assert_eq!(find("src/c.rs").score, 15);
    assert_eq!(find("src/c.rs").reason, "Imported by relevant file 'src/b.rs'");
}

#[test]
fn ranking_is_descending_and_stable() {
    let e = |p: &str, s: u64| ScoreEntry { path: p.to_string(), score: s, reason: String::new() };
    let ranked = ContextEngine::rank_by_score(vec![e("a", 20), e("b", 50), e("c", 20), e("d", 80)]);
    let order: Vec<&str> = ranked.iter().map(|x| x.path.as_str()).collect();
    assert_eq!(order, vec!["d", "b", "a", "c"]);
}

#[test]
fn packing_stops_at_the_budget() {
    let cands = vec![
        candidate("a", Some("one two"), 40),
        candidate("missing", None, 0),
        candidate("b", Some("three"), 50),
        candidate("c", Some("four"), 10),
    ];
    let profile = ContextEngine::pack_context(Intent::Feature, &cands, 60);
    assert_eq!(profile.intent, Intent::Feature);
    assert_eq!(profile.snippets.len(), 1);
    assert_eq!(profile.snippets[0].path, "a");
    assert!(profile.total_tokens <= 60);
    assert_eq!(profile.total_tokens, 40);
}

#[test]
fn an_oversized_first_file_is_truncated() {
    let body: Vec<String> = (1..=150).map(|i| format!("line {}", i)).collect();
    let content = body.join("\n");
    let cands = vec![candidate("big.rs", Some(&content), 400), candidate("next.rs", Some("x"), 1)];
    let profile = ContextEngine::pack_context(Intent::BugFix, &cands, 100);
    assert_eq!(profile.snippets.len(), 1);
    assert_eq!(profile.snippets[0].reason, "Direct path match (Truncated to fit budget)");
    assert!(profile.snippets[0].content.ends_with("line 100\n... (truncated)"));
    assert!(!profile.snippets[0].content.contains("line 101"));
    assert_eq!(profile.total_tokens, 200);
}

#[test]
fn truncation_keeps_short_files_whole() {
    assert_eq!(ContextEngine::truncate_for_budget("a\nb\n"), "a\nb\n... (truncated)");
    assert_eq!(ContextEngine::truncate_for_budget(""), "\n... (truncated)");
}

#[test]
fn word_count_splits_on_whitespace() {
    assert_eq!(ContextEngine::word_count("  a\tb\n c  "), 3);
    assert_eq!(ContextEngine::word_count(""), 0);
}

use workspaceos::index::{
    compute_hash, dependency_candidates, detect_language, extract_imports, extract_symbols,
    grammar_for, hex_encode, indexes_symbols, outline, resolve_dependency_path, symbol_record,
    unchanged_since_index, walk_skips, FileRecord, Grammar, ParsedSymbol, SyntaxNode,
    symbols_from_nodes, imports_from_nodes,
};

#[test]
fn test_symbol_extraction() {
    // Rust Test
    let rust_code = r#"
            pub struct User {
                name: String,
            }
            fn get_user_name() -> String {
                "name".to_string()
            }
        "#;
    let rust_symbols = extract_symbols("rust", rust_code);
    assert_eq!(rust_symbols.len(), 2);

    let struct_sym = rust_symbols.iter().find(|s| s.kind == "struct").unwrap();
    assert_eq!(struct_sym.name, "User");

    let fn_sym = rust_symbols.iter().find(|s| s.kind == "function").unwrap();
    assert_eq!(fn_sym.name, "get_user_name");

    // TypeScript Test
    let ts_code = r#"
            interface Employee {
                id: number;
            }
            class Manager implements Employee {
                id = 1;
            }
        "#;
    let ts_symbols = extract_symbols("typescript", ts_code);
    assert_eq!(ts_symbols.len(), 2);

    let interface_sym = ts_symbols.iter().find(|s| s.kind == "interface").unwrap();
    assert_eq!(interface_sym.name, "Employee");

    let class_sym = ts_symbols.iter().find(|s| s.kind == "class").unwrap();
    assert_eq!(class_sym.name, "Manager");
}

#[test]
fn symbol_positions_are_one_based_lines() {
    let syms = extract_symbols("rust", "struct Context; fn run() {}");
    assert_eq!(syms.len(), 2);
    assert_eq!(syms[0].name, "Context");
    assert_eq!(syms[0].kind, "struct");
    assert_eq!(syms[0].start_line, 1);
    assert_eq!(syms[0].start_column, 0);
    assert_eq!(syms[1].name, "run");
    assert_eq!(syms[1].kind, "function");
    assert_eq!(syms[1].start_column, 16);
    assert_eq!(syms[1].end_line, 1);
}

#[test]
fn impl_blocks_are_named_by_their_type() {
    let syms = extract_symbols("rust", "struct A;\nimpl A {\n    fn f(&self) {}\n}\n");
    let kinds: Vec<(&str, &str)> = syms.iter().map(|s| (s.kind.as_str(), s.name.as_str())).collect();
    assert_eq!(kinds, vec![("struct", "A"), ("impl", "A"), ("function", "f")]);
    assert_eq!(syms[1].start_line, 2);
    assert_eq!(syms[1].end_line, 4);
}

#[test]
fn unknown_languages_yield_nothing() {
    assert!(extract_symbols("python", "def f(): pass").is_empty());
    assert!(extract_imports("python", "import os").is_empty());
    assert!(outline("markdown", "# title").is_empty());
}

#[test]
fn the_outline_starts_at_the_root() {
    let nodes = outline("rust", "fn a() {}");
    assert!(!nodes.is_empty());
    assert_eq!(nodes[0].kind, "source_file");
    assert_eq!(nodes[0].start_byte, 0);
    assert_eq!(nodes[0].end_byte, 9);
    assert_eq!(nodes[1].kind, "function_item");
    assert_eq!(nodes[1].name_range, Some((3, 4)));
}

#[test]
fn imports_are_extracted_and_cleaned() {
    let rs = extract_imports("rust", "use crate::db;\nuse std::fmt ;\nfn main() {}\n");
    assert_eq!(rs, vec!["crate::db".to_string(), "std::fmt".to_string()]);
    let ts = extract_imports(
        "typescript",
        "import { a } from './util';\nimport b from \"lib/b\";\n",
    );
    assert_eq!(ts, vec!["./util".to_string(), "lib/b".to_string()]);
}

#[test]
fn languages_are_detected_by_extension() {
    assert_eq!(detect_language("src/main.rs"), "rust");
    assert_eq!(detect_language("a/b.ts"), "typescript");
    assert_eq!(detect_language("a/b.tsx"), "tsx");
    assert_eq!(detect_language("a/b.js"), "javascript");
    assert_eq!(detect_language("a/b.jsx"), "javascript");
    assert_eq!(detect_language("README.md"), "md");
    assert_eq!(detect_language("Makefile"), "");
    assert!(indexes_symbols("tsx"));
    assert!(!indexes_symbols("md"));
    assert_eq!(grammar_for("javascript"), Some(Grammar::TypeScript));
    assert_eq!(grammar_for("rust"), Some(Grammar::Rust));
    assert_eq!(grammar_for("go"), None);
}

#[test]
fn content_hash_is_lower_hex_blake3() {
    assert_eq!(
        compute_hash(b""),
        "af1349b9f5f9a1a6a0404dea36dcc9499bcb25c9adc112b7cc9a93cae41f3262"
    );
    assert_eq!(
        compute_hash(b"abc"),
        "6437b3ac38465133ffb63b75273a8db548c558465d79db03fd359c6cd5bd9d85"
    );
    let data = b"fn main() { println!(\"Hello World!\"); }";
    assert_eq!(compute_hash(data), blake3::hash(data).to_hex().to_string());
    assert_ne!(compute_hash(b"a"), compute_hash(b"b"));
}

#[test]
fn unchanged_files_are_skipped() {
    let rec = FileRecord {
        id: 1,
        path: "src/lib.rs".to_string(),
        size: 10,
        mtime: 12,
        hash: "hash123".to_string(),
        language: "rust".to_string(),
    };
    assert!(unchanged_since_index(&Some(rec.duplicate()), "hash123"));
    assert!(!unchanged_since_index(&Some(rec), "other"));
    assert!(!unchanged_since_index(&None, "hash123"));
}

#[test]
fn symbol_records_carry_the_file_id() {
    let sym = ParsedSymbol {
        name: "test_function".to_string(),
        kind: "function".to_string(),
        start_line: 10,
        start_column: 0,
        end_line: 12,
        end_column: 1,
    };
    let rec = symbol_record(7, sym);
    assert_eq!(rec.id, 0);
    assert_eq!(rec.file_id, 7);
    assert_eq!(rec.name, "test_function");
    assert_eq!(rec.start_line, 10);
    assert_eq!(rec.end_line, 12);
}

#[test]
fn relative_imports_try_extensions_then_index_files() {
    let cands = dependency_candidates("/ws", "src/app.ts", "./util");
    let fulls: Vec<&str> = cands.iter().map(|c| c.full_path.as_str()).collect();
    assert_eq!(
        fulls,
        vec![
            "/ws/src/./util.ts",
            "/ws/src/./util.tsx",
            "/ws/src/./util.js",
            "/ws/src/./util.jsx",
            "/ws/src/./util/index.ts",
            "/ws/src/./util/index.tsx",
            "/ws/src/./util/index.js",
            "/ws/src/./util/index.jsx",
        ]
    );
    assert_eq!(cands[0].relative.as_deref(), Some("src/./util.ts"));
    let exists = vec![false, false, false, false, false, true, false, false];
    assert_eq!(resolve_dependency_path(&cands, &exists), Some("src/./util/index.tsx".to_string()));
    assert_eq!(resolve_dependency_path(&cands, &vec![false; 8]), None);
}

#[test]
fn rust_imports_are_module_paths_below_src() {
    let cands = dependency_candidates("/ws", "src/main.rs", "crate::db::pool");
    assert_eq!(cands.len(), 2);
    assert_eq!(cands[0].full_path, "/ws/src/db/pool.rs");
    assert_eq!(cands[0].relative.as_deref(), Some("src/db/pool.rs"));
    assert_eq!(cands[1].relative.as_deref(), Some("src/components/db/pool.rs"));
    assert_eq!(resolve_dependency_path(&cands, &vec![false, true]), Some("src/components/db/pool.rs".to_string()));
}

#[test]
fn the_walk_skips_tool_directories() {
    assert!(walk_skips(".git"));
    assert!(walk_skips("node_modules"));
    assert!(walk_skips("target"));
    assert!(walk_skips(".workspaceos"));
    assert!(!walk_skips("src"));
    assert!(!walk_skips("src/target"));
}

#[test]
fn hex_encoding_is_lower_case_two_digits_per_byte() {
    assert_eq!(hex_encode(&[0x00, 0x0f, 0xa5, 0xff]), "000fa5ff");
    assert_eq!(hex_encode(&[]), "");
}

fn node(kind: &str, start: usize, end: usize, row: usize) -> SyntaxNode {
    SyntaxNode {
        kind: kind.to_string(),
        start_byte: start,
        end_byte: end,
        start_row: row,
        start_column: 0,
        end_row: row,
        end_column: end,
        name_range: None,
        type_range: None,
        source_range: None,
    }
}

#[test]
fn symbols_come_from_declaration_nodes() {
    let code = "struct User {}\nimpl User {}\nfn x() {}";
    let mut s = node("struct_item", 0, 14, 0);
    s.name_range = Some((7, 11));
    let mut i = node("impl_item", 15, 27, 1);
    i.type_range = Some((20, 24));
    let anon = node("function_item", 28, 37, 2);
    let nodes = vec![node("source_file", 0, 37, 0), s, i, anon];
    let syms = symbols_from_nodes(&nodes, code, "rust");
    let got: Vec<(&str, &str, usize)> =
        syms.iter().map(|x| (x.kind.as_str(), x.name.as_str(), x.start_line)).collect();
    // a declaration without a name field yields no symbol (impls fall back to their type)
    assert_eq!(got, vec![("struct", "User", 1), ("impl", "User", 2)]);
    // TypeScript kinds are recognised in any language, Rust kinds only in Rust
    let mut c = node("class_declaration", 0, 14, 0);
    c.name_range = Some((7, 11));
    assert_eq!(symbols_from_nodes(&vec![c], code, "rust").len(), 1);
    let mut r = node("struct_item", 0, 14, 0);
    r.name_range = Some((7, 11));
    assert!(symbols_from_nodes(&vec![r], code, "typescript").is_empty());
}

#[test]
fn imports_come_from_use_and_import_nodes() {
    let code = "use crate::db;\nimport x from './y';";
    let u = node("use_declaration", 0, 14, 0);
    let mut imp = node("import_statement", 15, 35, 1);
    imp.source_range = Some((29, 34));
    let got = imports_from_nodes(&vec![u, imp], code, "rust");
    assert_eq!(got, vec!["crate::db".to_string(), "./y".to_string()]);
}

#[test]
fn extracted_names_and_imports_occur_in_the_code() {
    let code = "mod net;\nenum Mode { A }\ntrait Run { fn go(&self); }\nuse std::io;\n";
    for s in extract_symbols("rust", code) {
        assert!(!s.name.is_empty());
        assert!(code.contains(&s.name));
        assert!(1 <= s.start_line && s.start_line <= s.end_line);
    }
    let kinds: Vec<String> = extract_symbols("rust", code).into_iter().map(|s| s.kind).collect();
    assert_eq!(kinds, vec!["module", "enum", "trait"]);
    for i in extract_imports("rust", code) {
        assert!(code.contains(&i));
    }
    assert_eq!(extract_imports("rust", code), vec!["std::io".to_string()]);
}

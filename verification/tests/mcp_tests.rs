use workspaceos::index::{FileRecord, SymbolRecord};
use workspaceos::mcp::{
    context_budget, context_reply, decide_fs_call, list_dir_reply, method_not_found_message,
    permitted_capabilities, route_method, route_tool, search_code_reply, search_paths_reply,
    search_symbols_reply, server_info, tool_catalog, unknown_tool_reply, view_file_reply,
    write_file_reply, FsDecision, FsTool, McpMethod, McpTool, ToolReply,
};
use workspaceos::search::CodeSearchResult;
use workspaceos::security::Capability;
use workspaceos::workspace::Workspace;

fn ws() -> Workspace {
    Workspace::new("mcp-session-ws".to_string(), "MCP Workspace".to_string(), "/srv/ws".to_string())
}

fn reply(r: &ToolReply) -> (i32, String) {
    match r {
        ToolReply::Success(t) => (0, t.clone()),
        ToolReply::Error(c, m) => (*c, m.clone()),
    }
}

#[test]
fn test_mcp_initialize() {
    assert_eq!(route_method("initialize"), McpMethod::Initialize);
    let info = server_info();
    assert_eq!(info.protocol_version, "2024-11-05");
    assert_eq!(info.name, "WorkspaceOS-MCP");
    assert_eq!(info.version, "0.1.0");
}

#[test]
fn test_mcp_list_tools() {
    assert_eq!(route_method("tools/list"), McpMethod::ToolsList);
    let tools = tool_catalog();
    let names: Vec<&str> = tools.iter().map(|t| t.name.as_str()).collect();
    assert!(names.contains(&"list_dir"));
    assert!(names.contains(&"view_file"));
    assert!(names.contains(&"write_to_file"));
    assert!(names.contains(&"get_context"));
    assert_eq!(
        names,
        vec!["list_dir", "view_file", "write_to_file", "search_paths", "search_symbols", "search_code", "get_context"]
    );
    let write = &tools[2];
    assert_eq!(write.required, vec!["path".to_string(), "content".to_string()]);
    assert_eq!(write.params[1].name, "content");
    assert_eq!(write.params[1].description, "Exact text contents to save");
    let ctx = &tools[6];
    assert_eq!(ctx.params[1].kind, "integer");
    assert_eq!(ctx.required, vec!["query".to_string()]);
}

#[test]
fn methods_and_tools_are_routed_by_name() {
    assert_eq!(route_method("initialized"), McpMethod::Initialized);
    assert_eq!(route_method("tools/call"), McpMethod::ToolsCall);
    assert_eq!(route_method("ping"), McpMethod::NotFound);
    assert_eq!(method_not_found_message("ping"), "Method not found: ping");
    assert_eq!(route_tool("view_file"), McpTool::ViewFile);
    assert_eq!(route_tool("search_code"), McpTool::SearchCode);
    assert_eq!(route_tool("rm_rf"), McpTool::Unknown);
    assert_eq!(reply(&unknown_tool_reply()), (-32601, "Method not found".to_string()));
}

#[test]
fn test_mcp_call_tool_write_and_view() {
    let caps = permitted_capabilities();
    assert_eq!(caps, vec![Capability::FilesystemRead, Capability::FilesystemWrite, Capability::FilesystemDelete]);
    match decide_fs_call(&ws(), FsTool::WriteToFile, &caps, "test.txt", None, None) {
        FsDecision::Proceed { path, audit } => {
            assert_eq!(path, "/srv/ws/test.txt");
            assert_eq!(audit.action, "filesystem.write");
            assert_eq!(audit.details, "write_to_file \"/srv/ws/test.txt\"");
            assert!(audit.success);
        }
        _ => panic!("write should proceed"),
    }
    assert_eq!(reply(&write_file_reply(true)), (0, "File written successfully".to_string()));
    match decide_fs_call(&ws(), FsTool::ViewFile, &caps, "test.txt", Some("/srv/ws".to_string()), Some("/srv/ws/test.txt".to_string())) {
        FsDecision::Proceed { path, audit } => {
            assert_eq!(path, "/srv/ws/test.txt");
            assert_eq!(audit.action, "filesystem.read");
        }
        _ => panic!("view should proceed"),
    }
    let view = view_file_reply(Some("MCP is awesome!".to_string()));
    assert_eq!(reply(&view), (0, "MCP is awesome!".to_string()));
}

#[test]
fn missing_capabilities_and_escapes_are_refused() {
    let read_only = vec![Capability::FilesystemRead];
    match decide_fs_call(&ws(), FsTool::WriteToFile, &read_only, "a.txt", None, None) {
        FsDecision::Denied(r) => assert_eq!(
            reply(&r),
            (-32001, "Permission Denied: write capability not authorized".to_string())
        ),
        _ => panic!("write must be denied"),
    }
    match decide_fs_call(&ws(), FsTool::ListDir, &vec![], ".", None, None) {
        FsDecision::Denied(r) => assert_eq!(
            reply(&r),
            (-32001, "Permission Denied: read capability not authorized".to_string())
        ),
        _ => panic!("list must be denied"),
    }
    match decide_fs_call(&ws(), FsTool::ViewFile, &read_only, "../etc/passwd", None, None) {
        FsDecision::Refused { audit, reply: r } => {
            let msg = "Security Violation: Path traversal escape detected on \"../etc/passwd\"";
            assert_eq!(reply(&r), (-32003, msg.to_string()));
            assert_eq!(audit.details, format!("view_file denied: {}", msg));
            assert!(!audit.success);
            assert_eq!(audit.action, "filesystem.read");
        }
        _ => panic!("escape must be refused"),
    }
}

#[test]
fn file_system_outcomes_become_replies() {
    assert_eq!(
        reply(&list_dir_reply(Some(vec!["a.rs".to_string(), "b".to_string()]))),
        (0, "a.rs\nb".to_string())
    );
    assert_eq!(reply(&list_dir_reply(None)), (-32002, "Failed to read directory".to_string()));
    assert_eq!(reply(&view_file_reply(None)), (-32002, "Failed to read file".to_string()));
    assert_eq!(reply(&write_file_reply(false)), (-32002, "Failed to write file".to_string()));
}

#[test]
fn search_results_become_lines() {
    let f = FileRecord {
        id: 1,
        path: "src/lib.rs".to_string(),
        size: 1,
        mtime: 1,
        hash: String::new(),
        language: "rust".to_string(),
    };
    assert_eq!(reply(&search_paths_reply(Some(vec![f]))), (0, "src/lib.rs".to_string()));
    assert_eq!(reply(&search_paths_reply(None)), (-32002, "Path search failed".to_string()));
    let s = SymbolRecord {
        id: 1,
        file_id: 1,
        name: "run".to_string(),
        kind: "function".to_string(),
        start_line: 42,
        start_column: 0,
        end_line: 50,
        end_column: 1,
    };
    assert_eq!(reply(&search_symbols_reply(Some(vec![s]))), (0, "run (function): line 42".to_string()));
    assert_eq!(reply(&search_symbols_reply(None)), (-32002, "Symbol search failed".to_string()));
    let hits = vec![
        CodeSearchResult { path: "a.rs".to_string(), line: 3, content: "let x = 1;".to_string() },
        CodeSearchResult { path: "b.rs".to_string(), line: 10, content: "x".to_string() },
    ];
    assert_eq!(
        reply(&search_code_reply(Some(hits))),
        (0, "a.rs:L3 -> let x = 1;\nb.rs:L10 -> x".to_string())
    );
    assert_eq!(reply(&search_code_reply(Some(vec![]))), (0, String::new()));
    assert_eq!(reply(&search_code_reply(None)), (-32002, "Code search failed".to_string()));
}

#[test]
fn context_requests_default_to_two_thousand_tokens() {
    assert_eq!(context_budget(None), 2000);
    assert_eq!(context_budget(Some(512)), 512);
    assert_eq!(reply(&context_reply(Ok("{}".to_string()))), (0, "{}".to_string()));
    assert_eq!(reply(&context_reply(Err("boom".to_string()))), (-32002, "boom".to_string()));
}

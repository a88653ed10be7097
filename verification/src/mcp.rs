//! The decisions of the Model Context Protocol server: which method a request names,
//! what the tool catalog holds, whether a tool call may touch the file system, and what
//! each tool answers for the outcome of its work.
use vstd::prelude::*;
use vstd::string::*;
use crate::index::{FileRecord, SymbolRecord};
use crate::search::CodeSearchResult;
use crate::security::{
    containment_outcome, path_debug, Capability, SecurityEvaluator,
};
use crate::text::{decimal, join_strings, join_with, strings_equal, usize_to_decimal};
use crate::workspace::Workspace;

verus! {

broadcast use vstd::string::group_string_axioms;

// ---------------------------------------------------------------------------
// Methods
// ---------------------------------------------------------------------------

/// The JSON-RPC methods the server answers.
#[derive(Clone, Copy, Debug, PartialEq, Eq, Structural)]
pub enum McpMethod {
    Initialize,
    Initialized,
    ToolsList,
    ToolsCall,
    NotFound,
}

/// The method a request's `method` string names.
pub open spec fn method_of(m: Seq<char>) -> McpMethod {
    if m == "initialize"@ {
        McpMethod::Initialize
    } else if m == "initialized"@ {
        McpMethod::Initialized
    } else if m == "tools/list"@ {
        McpMethod::ToolsList
    } else if m == "tools/call"@ {
        McpMethod::ToolsCall
    } else {
        McpMethod::NotFound
    }
}

/// Which method a request names.
pub fn route_method(method: &str) -> (r: McpMethod)
    ensures
        r == method_of(method@),
{
    if strings_equal(method, "initialize") {
        McpMethod::Initialize
    } else if strings_equal(method, "initialized") {
        McpMethod::Initialized
    } else if strings_equal(method, "tools/list") {
        McpMethod::ToolsList
    } else if strings_equal(method, "tools/call") {
        McpMethod::ToolsCall
    } else {
        McpMethod::NotFound
    }
}

/// JSON-RPC code of an unknown method or tool.
pub const METHOD_NOT_FOUND: i32 = -32601;

/// JSON-RPC code of a capability the session does not hold.
pub const PERMISSION_DENIED: i32 = -32001;

/// JSON-RPC code of a failed file-system or search operation.
pub const OPERATION_FAILED: i32 = -32002;

/// JSON-RPC code of a path refused by the containment check.
pub const CONTAINMENT_REFUSED: i32 = -32003;

/// The error message for an unknown method.
pub fn method_not_found_message(method: &str) -> (r: String)
    ensures
        r@ == "Method not found: "@ + method@,
{
    let mut s = String::from_str("Method not found: ");
    s.append(method);
    s
}

/// What `initialize` reports about the server.
pub struct ServerInfo {
    pub protocol_version: String,
    pub name: String,
    pub version: String,
}

/// The protocol version and the server's name and version.
pub fn server_info() -> (r: ServerInfo)
    ensures
        r.protocol_version@ == "2024-11-05"@,
        r.name@ == "WorkspaceOS-MCP"@,
        r.version@ == "0.1.0"@,
{
    ServerInfo {
        protocol_version: String::from_str("2024-11-05"),
        name: String::from_str("WorkspaceOS-MCP"),
        version: String::from_str("0.1.0"),
    }
}

// ---------------------------------------------------------------------------
// Tool catalog
// ---------------------------------------------------------------------------

/// One input parameter of a tool.
pub struct ToolParam {
    pub name: String,
    pub kind: String,
    pub description: String,
}

/// The plain values of a tool parameter.
pub struct ToolParamView {
    pub name: Seq<char>,
    pub kind: Seq<char>,
    pub description: Seq<char>,
}

impl View for ToolParam {
    type V = ToolParamView;

    open spec fn view(&self) -> ToolParamView {
        ToolParamView { name: self.name@, kind: self.kind@, description: self.description@ }
    }
}

/// A tool the server offers, with its input schema.
pub struct ToolSpec {
    pub name: String,
    pub description: String,
    pub params: Vec<ToolParam>,
    pub required: Vec<String>,
}

/// The plain values of a tool.
pub struct ToolSpecView {
    pub name: Seq<char>,
    pub description: Seq<char>,
    pub params: Seq<ToolParamView>,
    pub required: Seq<Seq<char>>,
}

impl View for ToolSpec {
    type V = ToolSpecView;

    open spec fn view(&self) -> ToolSpecView {
        ToolSpecView {
            name: self.name@,
            description: self.description@,
            params: self.params@.map_values(|p: ToolParam| p@),
            required: self.required.deep_view(),
        }
    }
}

/// A parameter from its plain values.
pub open spec fn param_view(name: Seq<char>, kind: Seq<char>, description: Seq<char>) -> ToolParamView {
    ToolParamView { name, kind, description }
}

/// A tool with one required string parameter.
pub open spec fn one_param_tool_view(
    name: Seq<char>,
    description: Seq<char>,
    param: Seq<char>,
    param_description: Seq<char>,
) -> ToolSpecView {
    ToolSpecView {
        name,
        description,
        params: seq![param_view(param, "string"@, param_description)],
        required: seq![param],
    }
}

/// The tools the server lists, in order.
pub open spec fn catalog_spec() -> Seq<ToolSpecView> {
    seq![
        one_param_tool_view(
            "list_dir"@,
            "List the files and directories inside the active workspace"@,
            "path"@,
            "Relative path to list"@,
        ),
        one_param_tool_view(
            "view_file"@,
            "View the text content of a file in the workspace"@,
            "path"@,
            "Relative path to the target file"@,
        ),
        ToolSpecView {
            name: "write_to_file"@,
            description: "Create or overwrite a file with specific contents"@,
            params: seq![
                param_view("path"@, "string"@, "Relative path to write code to"@),
                param_view("content"@, "string"@, "Exact text contents to save"@),
            ],
            required: seq!["path"@, "content"@],
        },
        one_param_tool_view(
            "search_paths"@,
            "Perform fuzzy search on file paths in the repository"@,
            "query"@,
            "Substring of file path to look for"@,
        ),
        one_param_tool_view(
            "search_symbols"@,
            "Search code symbol names (classes, methods, structs) inside files"@,
            "query"@,
            "Symbol name query"@,
        ),
        one_param_tool_view(
            "search_code"@,
            "Search occurrences of text inside file bodies"@,
            "query"@,
            "Text query string"@,
        ),
        ToolSpecView {
            name: "get_context"@,
            description: "Assemble relevance-ranked context profile tailored to query"@,
            params: seq![
                param_view("query"@, "string"@, "User intent query context"@),
                param_view("token_budget"@, "integer"@, "Maximum tokens (default 2000)"@),
            ],
            required: seq!["query"@],
        },
    ]
}

fn make_param(name: &str, kind: &str, description: &str) -> (r: ToolParam)
    ensures
        r@ == param_view(name@, kind@, description@),
{
    ToolParam {
        name: String::from_str(name),
        kind: String::from_str(kind),
        description: String::from_str(description),
    }
}

fn one_param_tool(name: &str, description: &str, param: &str, param_description: &str) -> (r:
    ToolSpec)
    ensures
        r@ == one_param_tool_view(name@, description@, param@, param_description@),
{
    let mut params: Vec<ToolParam> = Vec::new();
    params.push(make_param(param, "string", param_description));
    let mut required: Vec<String> = Vec::new();
    required.push(String::from_str(param));
    let r = ToolSpec {
        name: String::from_str(name),
        description: String::from_str(description),
        params,
        required,
    };
    assert(r@.params =~= seq![param_view(param@, "string"@, param_description@)]);
    assert(r@.required =~= seq![param@]);
    r
}

fn write_to_file_tool() -> (r: ToolSpec)
    ensures
        r@ == catalog_spec()[2],
{
    let mut params: Vec<ToolParam> = Vec::new();
    params.push(make_param("path", "string", "Relative path to write code to"));
    params.push(make_param("content", "string", "Exact text contents to save"));
    let mut required: Vec<String> = Vec::new();
    required.push(String::from_str("path"));
    required.push(String::from_str("content"));
    let r = ToolSpec {
        name: String::from_str("write_to_file"),
        description: String::from_str("Create or overwrite a file with specific contents"),
        params,
        required,
    };
    assert(r@.params =~= catalog_spec()[2].params);
    assert(r@.required =~= catalog_spec()[2].required);
    r
}

fn get_context_tool() -> (r: ToolSpec)
    ensures
        r@ == catalog_spec()[6],
{
    let mut params: Vec<ToolParam> = Vec::new();
    params.push(make_param("query", "string", "User intent query context"));
    params.push(make_param("token_budget", "integer", "Maximum tokens (default 2000)"));
    let mut required: Vec<String> = Vec::new();
    required.push(String::from_str("query"));
    let r = ToolSpec {
        name: String::from_str("get_context"),
        description: String::from_str(
            "Assemble relevance-ranked context profile tailored to query",
        ),
        params,
        required,
    };
    assert(r@.params =~= catalog_spec()[6].params);
    assert(r@.required =~= catalog_spec()[6].required);
    r
}

/// The tools that `tools/list` reports.
pub fn tool_catalog() -> (r: Vec<ToolSpec>)
    ensures
        r@.map_values(|t: ToolSpec| t@) == catalog_spec(),
{
    let mut tools: Vec<ToolSpec> = Vec::new();
    tools.push(
        one_param_tool(
            "list_dir",
            "List the files and directories inside the active workspace",
            "path",
            "Relative path to list",
        ),
    );
    tools.push(
        one_param_tool(
            "view_file",
            "View the text content of a file in the workspace",
            "path",
            "Relative path to the target file",
        ),
    );
    tools.push(write_to_file_tool());
    tools.push(
        one_param_tool(
            "search_paths",
            "Perform fuzzy search on file paths in the repository",
            "query",
            "Substring of file path to look for",
        ),
    );
    tools.push(
        one_param_tool(
            "search_symbols",
            "Search code symbol names (classes, methods, structs) inside files",
            "query",
            "Symbol name query",
        ),
    );
    tools.push(
        one_param_tool(
            "search_code",
            "Search occurrences of text inside file bodies",
            "query",
            "Text query string",
        ),
    );
    tools.push(get_context_tool());
    assert(tools@.map_values(|t: ToolSpec| t@) =~= catalog_spec());
    tools
}

// ---------------------------------------------------------------------------
// Tool calls
// ---------------------------------------------------------------------------

/// The tools a `tools/call` request may name.
#[derive(Clone, Copy, Debug, PartialEq, Eq, Structural)]
pub enum McpTool {
    ListDir,
    ViewFile,
    WriteToFile,
    SearchPaths,
    SearchSymbols,
    SearchCode,
    GetContext,
    Unknown,
}

/// The tool a call's `name` names.
pub open spec fn tool_of(name: Seq<char>) -> McpTool {
    if name == "list_dir"@ {
        McpTool::ListDir
    } else if name == "view_file"@ {
        McpTool::ViewFile
    } else if name == "write_to_file"@ {
        McpTool::WriteToFile
    } else if name == "search_paths"@ {
        McpTool::SearchPaths
    } else if name == "search_symbols"@ {
        McpTool::SearchSymbols
    } else if name == "search_code"@ {
        McpTool::SearchCode
    } else if name == "get_context"@ {
        McpTool::GetContext
    } else {
        McpTool::Unknown
    }
}

/// Which tool a call names.
pub fn route_tool(name: &str) -> (r: McpTool)
    ensures
        r == tool_of(name@),
{
    if strings_equal(name, "list_dir") {
        McpTool::ListDir
    } else if strings_equal(name, "view_file") {
        McpTool::ViewFile
    } else if strings_equal(name, "write_to_file") {
        McpTool::WriteToFile
    } else if strings_equal(name, "search_paths") {
        McpTool::SearchPaths
    } else if strings_equal(name, "search_symbols") {
        McpTool::SearchSymbols
    } else if strings_equal(name, "search_code") {
        McpTool::SearchCode
    } else if strings_equal(name, "get_context") {
        McpTool::GetContext
    } else {
        McpTool::Unknown
    }
}

/// The answer to a tool call: a text result, or a JSON-RPC error.
pub enum ToolReply {
    Success(String),
    Error(i32, String),
}

/// The plain values of a reply.
pub enum ReplyView {
    Success(Seq<char>),
    Error(i32, Seq<char>),
}

impl View for ToolReply {
    type V = ReplyView;

    open spec fn view(&self) -> ReplyView {
        match self {
            ToolReply::Success(t) => ReplyView::Success(t@),
            ToolReply::Error(c, m) => ReplyView::Error(*c, m@),
        }
    }
}

/// The capabilities an MCP session holds.
pub fn permitted_capabilities() -> (r: Vec<Capability>)
    ensures
        r@ == seq![
            Capability::FilesystemRead,
            Capability::FilesystemWrite,
            Capability::FilesystemDelete,
        ],
{
    let mut caps: Vec<Capability> = Vec::new();
    caps.push(Capability::FilesystemRead);
    caps.push(Capability::FilesystemWrite);
    caps.push(Capability::FilesystemDelete);
    assert(caps@ =~= seq![
        Capability::FilesystemRead,
        Capability::FilesystemWrite,
        Capability::FilesystemDelete,
    ]);
    caps
}

/// The tools that touch the file system.
#[derive(Clone, Copy, Debug, PartialEq, Eq, Structural)]
pub enum FsTool {
    ListDir,
    ViewFile,
    WriteToFile,
}

/// The capability a file-system tool needs.
pub open spec fn fs_capability(t: FsTool) -> Capability {
    match t {
        FsTool::WriteToFile => Capability::FilesystemWrite,
        _ => Capability::FilesystemRead,
    }
}

/// The tool's name, as audit entries give it.
pub open spec fn fs_tool_name(t: FsTool) -> Seq<char> {
    match t {
        FsTool::ListDir => "list_dir"@,
        FsTool::ViewFile => "view_file"@,
        FsTool::WriteToFile => "write_to_file"@,
    }
}

/// The audit action of a file-system tool.
pub open spec fn fs_audit_action(t: FsTool) -> Seq<char> {
    match t {
        FsTool::WriteToFile => "filesystem.write"@,
        _ => "filesystem.read"@,
    }
}

/// The refusal of a file-system tool whose capability the session lacks.
pub open spec fn permission_denied_message(t: FsTool) -> Seq<char> {
    match t {
        FsTool::WriteToFile => "Permission Denied: write capability not authorized"@,
        _ => "Permission Denied: read capability not authorized"@,
    }
}

/// An entry for the audit log.
pub struct AuditRecord {
    pub action: String,
    pub details: String,
    pub success: bool,
}

/// What a file-system tool call does before any file is touched.
pub enum FsDecision {
    /// The capability is missing: answer at once, audit nothing.
    Denied(ToolReply),
    /// The path is confined: audit, then work on `path`.
    Proceed { path: String, audit: AuditRecord },
    /// The containment check refused the path: audit, then answer.
    Refused { audit: AuditRecord, reply: ToolReply },
}

/// The plain values of a decision: the reply or the path, and the audit entry
/// (action, details, success).
pub enum FsDecisionView {
    Denied(ReplyView),
    Proceed(Seq<char>, (Seq<char>, Seq<char>, bool)),
    Refused((Seq<char>, Seq<char>, bool), ReplyView),
}

impl View for FsDecision {
    type V = FsDecisionView;

    open spec fn view(&self) -> FsDecisionView {
        match self {
            FsDecision::Denied(r) => FsDecisionView::Denied(r@),
            FsDecision::Proceed { path, audit } => FsDecisionView::Proceed(
                path@,
                (audit.action@, audit.details@, audit.success),
            ),
            FsDecision::Refused { audit, reply } => FsDecisionView::Refused(
                (audit.action@, audit.details@, audit.success),
                reply@,
            ),
        }
    }
}

/// The decision for a file-system tool call on `raw_path`, given what canonicalizing the
/// root and the full path gave.
pub open spec fn fs_decision_spec(
    root: Seq<char>,
    tool: FsTool,
    permitted: Seq<Capability>,
    raw_path: Seq<char>,
    canonical_root: Option<Seq<char>>,
    canonical_full: Option<Seq<char>>,
) -> FsDecisionView {
    if !permitted.contains(fs_capability(tool)) {
        FsDecisionView::Denied(ReplyView::Error(PERMISSION_DENIED, permission_denied_message(tool)))
    } else {
        match containment_outcome(root, raw_path, canonical_root, canonical_full) {
            Ok(p) => FsDecisionView::Proceed(
                p,
                (fs_audit_action(tool), fs_tool_name(tool) + " "@ + path_debug(p), true),
            ),
            Err(e) => FsDecisionView::Refused(
                (fs_audit_action(tool), fs_tool_name(tool) + " denied: "@ + e, false),
                ReplyView::Error(CONTAINMENT_REFUSED, e),
            ),
        }
    }
}

fn fs_tool_label(tool: FsTool) -> (r: &'static str)
    ensures
        r@ == fs_tool_name(tool),
{
    match tool {
        FsTool::ListDir => "list_dir",
        FsTool::ViewFile => "view_file",
        FsTool::WriteToFile => "write_to_file",
    }
}

fn fs_action_label(tool: FsTool) -> (r: &'static str)
    ensures
        r@ == fs_audit_action(tool),
{
    match tool {
        FsTool::WriteToFile => "filesystem.write",
        _ => "filesystem.read",
    }
}

/// Authorizes a file-system tool call and confines its path to the workspace, saying what
/// to audit. `canonical_root` and `canonical_full` are what canonicalizing the workspace
/// root and `SecurityEvaluator::containment_full_path(ws, raw_path)` gave.
pub fn decide_fs_call(
    ws: &Workspace,
    tool: FsTool,
    permitted: &Vec<Capability>,
    raw_path: &str,
    canonical_root: Option<String>,
    canonical_full: Option<String>,
) -> (r: FsDecision)
    ensures
        r@ == fs_decision_spec(
            ws.root@,
            tool,
            permitted@,
            raw_path@,
            canonical_root.deep_view(),
            canonical_full.deep_view(),
        ),
{
    let cap = match tool {
        FsTool::WriteToFile => Capability::FilesystemWrite,
        _ => Capability::FilesystemRead,
    };
    if !SecurityEvaluator::authorize(ws, &cap, permitted.as_slice()) {
        let msg = match tool {
            FsTool::WriteToFile => String::from_str(
                "Permission Denied: write capability not authorized",
            ),
            _ => String::from_str("Permission Denied: read capability not authorized"),
        };
        return FsDecision::Denied(ToolReply::Error(PERMISSION_DENIED, msg));
    }
    let ghost cr = canonical_root.deep_view();
    let ghost cf = canonical_full.deep_view();
    match SecurityEvaluator::enforce_path_containment(ws, raw_path, canonical_root, canonical_full) {
        Ok(p) => {
            let mut details = String::from_str(fs_tool_label(tool));
            details.append(" ");
            let d = crate::security::debug_path(p.as_str());
            details.append(d.as_str());
            let audit = AuditRecord {
                action: String::from_str(fs_action_label(tool)),
                details,
                success: true,
            };
            FsDecision::Proceed { path: p, audit }
        },
        Err(e) => {
            let mut details = String::from_str(fs_tool_label(tool));
            details.append(" denied: ");
            details.append(e.as_str());
            let audit = AuditRecord {
                action: String::from_str(fs_action_label(tool)),
                details,
                success: false,
            };
            FsDecision::Refused { audit, reply: ToolReply::Error(CONTAINMENT_REFUSED, e) }
        },
    }
}

/// The answer of `list_dir`, given the entry names read (`None` where the directory could
/// not be read).
pub fn list_dir_reply(names: Option<Vec<String>>) -> (r: ToolReply)
    ensures
        r@ == match names {
            Some(n) => ReplyView::Success(join_with(n.deep_view(), "\n"@)),
            None => ReplyView::Error(OPERATION_FAILED, "Failed to read directory"@),
        },
{
    match names {
        Some(n) => ToolReply::Success(join_strings(&n, "\n")),
        None => ToolReply::Error(OPERATION_FAILED, String::from_str("Failed to read directory")),
    }
}

/// The answer of `view_file`, given the file's text (`None` where it could not be read).
pub fn view_file_reply(content: Option<String>) -> (r: ToolReply)
    ensures
        r@ == match content {
            Some(c) => ReplyView::Success(c@),
            None => ReplyView::Error(OPERATION_FAILED, "Failed to read file"@),
        },
{
    match content {
        Some(c) => ToolReply::Success(c),
        None => ToolReply::Error(OPERATION_FAILED, String::from_str("Failed to read file")),
    }
}

/// The answer of `write_to_file`, given whether the write succeeded.
pub fn write_file_reply(written: bool) -> (r: ToolReply)
    ensures
        r@ == if written {
            ReplyView::Success("File written successfully"@)
        } else {
            ReplyView::Error(OPERATION_FAILED, "Failed to write file"@)
        },
{
    if written {
        ToolReply::Success(String::from_str("File written successfully"))
    } else {
        ToolReply::Error(OPERATION_FAILED, String::from_str("Failed to write file"))
    }
}

/// The paths of the matched files.
pub open spec fn file_paths(files: Seq<FileRecord>) -> Seq<Seq<char>> {
    files.map_values(|f: FileRecord| f.path@)
}

/// The answer of `search_paths`: the matched paths, one per line.
pub fn search_paths_reply(found: Option<Vec<FileRecord>>) -> (r: ToolReply)
    ensures
        r@ == match found {
            Some(m) => ReplyView::Success(join_with(file_paths(m@), "\n"@)),
            None => ReplyView::Error(OPERATION_FAILED, "Path search failed"@),
        },
{
    match found {
        Some(m) => {
            let mut paths: Vec<String> = Vec::new();
            let mut i: usize = 0;
            while i < m.len()
                invariant
                    i <= m.len(),
                    paths.deep_view() =~= file_paths(m@).take(i as int),
                decreases m.len() - i,
            {
                let ghost pre = paths.deep_view();
                paths.push(m[i].path.clone());
                assert(paths.deep_view() =~= pre.push(m@[i as int].path@));
                assert(file_paths(m@).take(i + 1) =~= file_paths(m@).take(i as int).push(
                    m@[i as int].path@,
                ));
                i = i + 1;
            }
            assert(file_paths(m@).take(m.len() as int) =~= file_paths(m@));
            ToolReply::Success(join_strings(&paths, "\n"))
        },
        None => ToolReply::Error(OPERATION_FAILED, String::from_str("Path search failed")),
    }
}

/// How `search_symbols` shows a symbol: `name (kind): line N`.
pub open spec fn symbol_line(s: SymbolRecord) -> Seq<char> {
    s.name@ + " ("@ + s.kind@ + "): line "@ + decimal(s.start_line as nat)
}

/// The lines of the matched symbols.
pub open spec fn symbol_lines(syms: Seq<SymbolRecord>) -> Seq<Seq<char>> {
    syms.map_values(|s: SymbolRecord| symbol_line(s))
}

/// The answer of `search_symbols`: one line per matched symbol.
pub fn search_symbols_reply(found: Option<Vec<SymbolRecord>>) -> (r: ToolReply)
    ensures
        r@ == match found {
            Some(m) => ReplyView::Success(join_with(symbol_lines(m@), "\n"@)),
            None => ReplyView::Error(OPERATION_FAILED, "Symbol search failed"@),
        },
{
    match found {
        Some(m) => {
            let mut lines: Vec<String> = Vec::new();
            let mut i: usize = 0;
            while i < m.len()
                invariant
                    i <= m.len(),
                    lines.deep_view() =~= symbol_lines(m@).take(i as int),
                decreases m.len() - i,
            {
                let s = &m[i];
                let mut line = s.name.clone();
                line.append(" (");
                line.append(s.kind.as_str());
                line.append("): line ");
                let n = usize_to_decimal(s.start_line);
                line.append(n.as_str());
                let ghost pre = lines.deep_view();
                lines.push(line);
                assert(lines.deep_view() =~= pre.push(symbol_line(m@[i as int])));
                assert(symbol_lines(m@).take(i + 1) =~= symbol_lines(m@).take(i as int).push(
                    symbol_line(m@[i as int]),
                ));
                i = i + 1;
            }
            assert(symbol_lines(m@).take(m.len() as int) =~= symbol_lines(m@));
            ToolReply::Success(join_strings(&lines, "\n"))
        },
        None => ToolReply::Error(OPERATION_FAILED, String::from_str("Symbol search failed")),
    }
}

/// How `search_code` shows a hit: `path:LN -> content`.
pub open spec fn code_line(c: CodeSearchResult) -> Seq<char> {
    c.path@ + ":L"@ + decimal(c.line as nat) + " -> "@ + c.content@
}

/// The lines of the code hits.
pub open spec fn code_lines(hits: Seq<CodeSearchResult>) -> Seq<Seq<char>> {
    hits.map_values(|c: CodeSearchResult| code_line(c))
}

/// The answer of `search_code`: one line per hit.
pub fn search_code_reply(found: Option<Vec<CodeSearchResult>>) -> (r: ToolReply)
    ensures
        r@ == match found {
            Some(m) => ReplyView::Success(join_with(code_lines(m@), "\n"@)),
            None => ReplyView::Error(OPERATION_FAILED, "Code search failed"@),
        },
{
    match found {
        Some(m) => {
            let mut lines: Vec<String> = Vec::new();
            let mut i: usize = 0;
            while i < m.len()
                invariant
                    i <= m.len(),
                    lines.deep_view() =~= code_lines(m@).take(i as int),
                decreases m.len() - i,
            {
                let c = &m[i];
                let mut line = c.path.clone();
                line.append(":L");
                let n = usize_to_decimal(c.line);
                line.append(n.as_str());
                line.append(" -> ");
                line.append(c.content.as_str());
                let ghost pre = lines.deep_view();
                lines.push(line);
                assert(lines.deep_view() =~= pre.push(code_line(m@[i as int])));
                assert(code_lines(m@).take(i + 1) =~= code_lines(m@).take(i as int).push(
                    code_line(m@[i as int]),
                ));
                i = i + 1;
            }
            assert(code_lines(m@).take(m.len() as int) =~= code_lines(m@));
            ToolReply::Success(join_strings(&lines, "\n"))
        },
        None => ToolReply::Error(OPERATION_FAILED, String::from_str("Code search failed")),
    }
}

/// The token budget of `get_context`: the requested one, or 2000.
pub fn context_budget(requested: Option<u64>) -> (r: usize)
    ensures
        r == match requested {
            Some(b) => b as usize,
            None => 2000usize,
        },
{
    match requested {
        Some(b) => b as usize,
        None => 2000,
    }
}

/// The answer of `get_context`, given the rendered profile or the assembly error.
pub fn context_reply(result: Result<String, String>) -> (r: ToolReply)
    ensures
        r@ == match result {
            Ok(t) => ReplyView::Success(t@),
            Err(e) => ReplyView::Error(OPERATION_FAILED, e@),
        },
{
    match result {
        Ok(t) => ToolReply::Success(t),
        Err(e) => ToolReply::Error(OPERATION_FAILED, e),
    }
}

/// The answer to a call of a tool the server does not have.
pub fn unknown_tool_reply() -> (r: ToolReply)
    ensures
        r@ == ReplyView::Error(METHOD_NOT_FOUND, "Method not found"@),
{
    ToolReply::Error(METHOD_NOT_FOUND, String::from_str("Method not found"))
}

/// A file-system tool never works outside the workspace: whenever a call proceeds, its
/// path lies under the (canonical) workspace root, and the audit entry records a success;
/// every refusal is audited as a denial.
pub proof fn law_fs_calls_stay_inside(
    root: Seq<char>,
    tool: FsTool,
    permitted: Seq<Capability>,
    raw_path: Seq<char>,
    canonical_root: Option<Seq<char>>,
    canonical_full: Option<Seq<char>>,
)
    ensures
        fs_decision_spec(root, tool, permitted, raw_path, canonical_root, canonical_full) matches FsDecisionView::Proceed(p, a)
            ==> crate::path::path_starts(
            p,
            match canonical_root {
                Some(c) => c,
                None => root,
            },
        ) && a.2,
        fs_decision_spec(root, tool, permitted, raw_path, canonical_root, canonical_full) matches FsDecisionView::Refused(a, _)
            ==> !a.2,
{
    crate::security::law_containment_result_within_root(
        root,
        raw_path,
        canonical_root,
        canonical_full,
    );
}

/// A call whose capability the session lacks is denied before any path is looked at.
pub proof fn law_missing_capability_denied(
    root: Seq<char>,
    tool: FsTool,
    permitted: Seq<Capability>,
    raw_path: Seq<char>,
    canonical_root: Option<Seq<char>>,
    canonical_full: Option<Seq<char>>,
)
    requires
        !permitted.contains(fs_capability(tool)),
    ensures
        fs_decision_spec(root, tool, permitted, raw_path, canonical_root, canonical_full)
            == FsDecisionView::Denied(
            ReplyView::Error(PERMISSION_DENIED, permission_denied_message(tool)),
        ),
{
}

/// Every tool that `tools/list` advertises is one that `tools/call` serves, each under its
/// own name.
pub proof fn law_listed_tools_are_callable()
    ensures
        catalog_spec().len() == 7,
        tool_of(catalog_spec()[0].name) == McpTool::ListDir,
        tool_of(catalog_spec()[1].name) == McpTool::ViewFile,
        tool_of(catalog_spec()[2].name) == McpTool::WriteToFile,
        tool_of(catalog_spec()[3].name) == McpTool::SearchPaths,
        tool_of(catalog_spec()[4].name) == McpTool::SearchSymbols,
        tool_of(catalog_spec()[5].name) == McpTool::SearchCode,
        tool_of(catalog_spec()[6].name) == McpTool::GetContext,
{
    reveal_strlit("list_dir");
    reveal_strlit("view_file");
    reveal_strlit("write_to_file");
    reveal_strlit("search_paths");
    reveal_strlit("search_symbols");
    reveal_strlit("search_code");
    reveal_strlit("get_context");
    let c = catalog_spec();
    assert(c[1].name == "view_file"@);
    assert(c[1].name.len() != "list_dir"@.len());
    assert(c[2].name == "write_to_file"@);
    assert(c[2].name.len() != "list_dir"@.len());
    assert(c[2].name.len() != "view_file"@.len());
    assert(c[3].name == "search_paths"@);
    assert(c[3].name[0] != "list_dir"@[0] && c[3].name[0] != "view_file"@[0]);
    assert(c[3].name[0] != "write_to_file"@[0]);
    assert(c[4].name == "search_symbols"@);
    assert(c[4].name[0] != "list_dir"@[0] && c[4].name[0] != "view_file"@[0]);
    assert(c[4].name[0] != "write_to_file"@[0]);
    assert(c[4].name.len() != "search_paths"@.len());
    assert(c[5].name == "search_code"@);
    assert(c[5].name[0] != "list_dir"@[0] && c[5].name[0] != "view_file"@[0]);
    assert(c[5].name[0] != "write_to_file"@[0]);
    assert(c[5].name.len() != "search_paths"@.len());
    assert(c[5].name.len() != "search_symbols"@.len());
    assert(c[6].name == "get_context"@);
    assert(c[6].name[0] != "list_dir"@[0] && c[6].name[0] != "view_file"@[0]);
    assert(c[6].name[0] != "write_to_file"@[0] && c[6].name[0] != "search_paths"@[0]);
    assert(c[6].name[0] != "search_symbols"@[0] && c[6].name[0] != "search_code"@[0]);
}

/// A call that holds its capability proceeds exactly when the containment check accepts
/// its path, on the path the check returns, audited as a success under the tool's name;
/// a refused path is answered with the check's message. Listing and viewing need
/// `filesystem.read`, writing needs `filesystem.write`.
pub proof fn law_authorized_calls_follow_containment(
    root: Seq<char>,
    tool: FsTool,
    permitted: Seq<Capability>,
    raw_path: Seq<char>,
    canonical_root: Option<Seq<char>>,
    canonical_full: Option<Seq<char>>,
)
    requires
        permitted.contains(
            match tool {
                FsTool::WriteToFile => Capability::FilesystemWrite,
                _ => Capability::FilesystemRead,
            },
        ),
    ensures
        containment_outcome(root, raw_path, canonical_root, canonical_full) matches Ok(p)
            ==> fs_decision_spec(root, tool, permitted, raw_path, canonical_root, canonical_full)
            == FsDecisionView::Proceed(
            p,
            (
                match tool {
                    FsTool::WriteToFile => "filesystem.write"@,
                    _ => "filesystem.read"@,
                },
                match tool {
                    FsTool::ListDir => "list_dir"@,
                    FsTool::ViewFile => "view_file"@,
                    FsTool::WriteToFile => "write_to_file"@,
                } + " "@ + path_debug(p),
                true,
            ),
        ),
        containment_outcome(root, raw_path, canonical_root, canonical_full) matches Err(e)
            ==> fs_decision_spec(root, tool, permitted, raw_path, canonical_root, canonical_full)
            matches FsDecisionView::Refused(a, ReplyView::Error(code, m)) && code == -32003
            && m == e && !a.2,
{
}

} // verus!

//! The code index: file and symbol records, language detection, content hashing,
//! symbol and import extraction from syntax trees, and dependency resolution.
use vstd::prelude::*;
use vstd::string::*;
use vstd::utf8::{
    decode_utf8, decode_utf8_split, encode_utf8, encode_utf8_decode_utf8, encode_utf8_valid_utf8,
    is_char_boundary, is_char_boundary_iff_not_is_continuation_byte,
    is_char_boundary_start_end_of_seq, valid_utf8_split,
};
use tree_sitter::Tree;
use crate::path::{
    extension_of, forward_slashes, join_path, parent_path, path_extension, path_join,
    path_parent, path_strip_prefix, path_with_extension, strip_prefix_path, with_extension_path,
    to_forward_slashes,
};
use crate::text::{
    chars_of, has_prefix, has_substring, has_suffix, lemma_subrange_in, lemma_substring_trans,
    lemma_trim_in, starts_with_str, string_from_chars, strings_equal, trim,
    trim_chars,
};

verus! {

broadcast use vstd::string::group_string_axioms;

// ---------------------------------------------------------------------------
// Records
// ---------------------------------------------------------------------------

/// An indexed file.
pub struct FileRecord {
    pub id: i64,
    pub path: String,
    pub size: u64,
    pub mtime: u64,
    pub hash: String,
    pub language: String,
}

/// An indexed symbol of a file.
pub struct SymbolRecord {
    pub id: i64,
    pub file_id: i64,
    pub name: String,
    pub kind: String,
    pub start_line: usize,
    pub start_column: usize,
    pub end_line: usize,
    pub end_column: usize,
}

/// A symbol found in source code, before it is stored.
pub struct ParsedSymbol {
    pub name: String,
    pub kind: String,
    pub start_line: usize,
    pub start_column: usize,
    pub end_line: usize,
    pub end_column: usize,
}

/// The plain values of a parsed symbol.
pub struct SymbolView {
    pub name: Seq<char>,
    pub kind: Seq<char>,
    pub start_line: usize,
    pub start_column: usize,
    pub end_line: usize,
    pub end_column: usize,
}

impl View for ParsedSymbol {
    type V = SymbolView;

    open spec fn view(&self) -> SymbolView {
        SymbolView {
            name: self.name@,
            kind: self.kind@,
            start_line: self.start_line,
            start_column: self.start_column,
            end_line: self.end_line,
            end_column: self.end_column,
        }
    }
}

// ---------------------------------------------------------------------------
// Language detection and hashing
// ---------------------------------------------------------------------------

/// The language named by a file's extension.
pub open spec fn language_of(path: Seq<char>) -> Seq<char> {
    match extension_of(path) {
        Some(e) => if e == "rs"@ {
            "rust"@
        } else if e == "ts"@ {
            "typescript"@
        } else if e == "tsx"@ {
            "tsx"@
        } else if e == "js"@ || e == "jsx"@ {
            "javascript"@
        } else {
            e
        },
        None => ""@,
    }
}

/// The languages whose symbols and imports are extracted.
pub open spec fn parses_language(language: Seq<char>) -> bool {
    language == "rust"@ || language == "typescript"@ || language == "tsx"@ || language
        == "javascript"@
}

/// The language of a file, from its extension.
pub fn detect_language(path: &str) -> (r: String)
    ensures
        r@ == language_of(path@),
{
    proof {
        reveal_strlit("");
    }
    match path_extension(path) {
        Some(e) => {
            let es = e.as_str();
            if strings_equal(es, "rs") {
                String::from_str("rust")
            } else if strings_equal(es, "ts") {
                String::from_str("typescript")
            } else if strings_equal(es, "tsx") {
                String::from_str("tsx")
            } else if strings_equal(es, "js") || strings_equal(es, "jsx") {
                String::from_str("javascript")
            } else {
                e
            }
        },
        None => String::new(),
    }
}

/// Whether symbols and imports are extracted for `language`.
pub fn indexes_symbols(language: &str) -> (r: bool)
    ensures
        r == parses_language(language@),
{
    strings_equal(language, "rust") || strings_equal(language, "typescript") || strings_equal(
        language,
        "tsx",
    ) || strings_equal(language, "javascript")
}

/// The BLAKE3 digest of `data`.
pub uninterp spec fn blake3_of(data: Seq<u8>) -> Seq<u8>;

/// Hashes `data` with `blake3::hash` (the one-shot form of `Hasher::new`, `update`,
/// `finalize`) and returns the 32 bytes of the digest (`Hash::as_bytes`); the digest is
/// named [`blake3_of`].
#[verifier::external_body]
fn blake3_digest(data: &[u8]) -> (r: Vec<u8>)
    ensures
        r@ == blake3_of(data@),
        r@.len() == 32,
{
    blake3::hash(data).as_bytes().to_vec()
}

/// The lower-case hexadecimal digit for `n < 16`.
pub open spec fn hex_digit(n: int) -> char {
    if n == 0 {
        '0'
    } else if n == 1 {
        '1'
    } else if n == 2 {
        '2'
    } else if n == 3 {
        '3'
    } else if n == 4 {
        '4'
    } else if n == 5 {
        '5'
    } else if n == 6 {
        '6'
    } else if n == 7 {
        '7'
    } else if n == 8 {
        '8'
    } else if n == 9 {
        '9'
    } else if n == 10 {
        'a'
    } else if n == 11 {
        'b'
    } else if n == 12 {
        'c'
    } else if n == 13 {
        'd'
    } else if n == 14 {
        'e'
    } else {
        'f'
    }
}

/// Lower-case hexadecimal, two digits per byte, high nibble first (`Hash::to_hex`).
pub open spec fn hex_lower(bytes: Seq<u8>) -> Seq<char>
    decreases bytes.len(),
{
    if bytes.len() == 0 {
        Seq::empty()
    } else {
        hex_lower(bytes.drop_last()).push(hex_digit((bytes.last() / 16) as int)).push(
            hex_digit((bytes.last() % 16) as int),
        )
    }
}

fn hex_char(n: u8) -> (c: char)
    requires
        n < 16,
    ensures
        c == hex_digit(n as int),
{
    if n == 0 {
        '0'
    } else if n == 1 {
        '1'
    } else if n == 2 {
        '2'
    } else if n == 3 {
        '3'
    } else if n == 4 {
        '4'
    } else if n == 5 {
        '5'
    } else if n == 6 {
        '6'
    } else if n == 7 {
        '7'
    } else if n == 8 {
        '8'
    } else if n == 9 {
        '9'
    } else if n == 10 {
        'a'
    } else if n == 11 {
        'b'
    } else if n == 12 {
        'c'
    } else if n == 13 {
        'd'
    } else if n == 14 {
        'e'
    } else {
        'f'
    }
}

/// Lower-case hexadecimal of `bytes`, two digits per byte.
pub fn hex_encode(bytes: &[u8]) -> (r: String)
    ensures
        r@ == hex_lower(bytes@),
        r@.len() == 2 * bytes@.len(),
{
    let mut out: Vec<char> = Vec::new();
    let mut i: usize = 0;
    assert(bytes@.take(0) =~= Seq::<u8>::empty());
    while i < bytes.len()
        invariant
            i <= bytes.len(),
            out@ == hex_lower(bytes@.take(i as int)),
            out@.len() == 2 * i,
        decreases bytes.len() - i,
    {
        let b = bytes[i];
        assert(bytes@.take(i + 1).drop_last() =~= bytes@.take(i as int));
        out.push(hex_char(b / 16));
        out.push(hex_char(b % 16));
        i = i + 1;
    }
    assert(bytes@.take(bytes.len() as int) =~= bytes@);
    string_from_chars(&out)
}

/// The content hash that the index stores: the BLAKE3 digest of the file's bytes in
/// lower-case hexadecimal.
pub fn compute_hash(content: &[u8]) -> (r: String)
    ensures
        r@ == hex_lower(blake3_of(content@)),
        r@.len() == 64,
{
    let digest = blake3_digest(content);
    hex_encode(digest.as_slice())
}

/// The index already holds the file with content hash `hash`.
pub open spec fn index_is_current(existing: Option<FileRecord>, hash: Seq<char>) -> bool {
    existing is Some && existing->Some_0.hash@ == hash
}

/// Whether a file can be skipped: the index already holds it with the same hash.
pub fn unchanged_since_index(existing: &Option<FileRecord>, hash: &str) -> (r: bool)
    ensures
        r == index_is_current(*existing, hash@),
{
    match existing {
        Some(f) => strings_equal(f.hash.as_str(), hash),
        None => false,
    }
}

/// The stored form of a parsed symbol of file `file_id`; the database assigns the id.
pub fn symbol_record(file_id: i64, sym: ParsedSymbol) -> (r: SymbolRecord)
    ensures
        r.id == 0,
        r.file_id == file_id,
        r.name@ == sym.name@,
        r.kind@ == sym.kind@,
        r.start_line == sym.start_line,
        r.start_column == sym.start_column,
        r.end_line == sym.end_line,
        r.end_column == sym.end_column,
{
    SymbolRecord {
        id: 0,
        file_id,
        name: sym.name,
        kind: sym.kind,
        start_line: sym.start_line,
        start_column: sym.start_column,
        end_line: sym.end_line,
        end_column: sym.end_column,
    }
}

// ---------------------------------------------------------------------------
// Syntax trees
// ---------------------------------------------------------------------------

/// A grammar the parser knows.
#[derive(Clone, Copy, Debug, PartialEq, Eq, Structural)]
pub enum Grammar {
    Rust,
    TypeScript,
}

/// The grammar that parses a language, if any.
pub open spec fn grammar_for_spec(language: Seq<char>) -> Option<Grammar> {
    if language == "rust"@ {
        Some(Grammar::Rust)
    } else if language == "typescript"@ || language == "tsx"@ || language == "javascript"@ {
        Some(Grammar::TypeScript)
    } else {
        None
    }
}

/// The grammar that parses a language, if any.
pub fn grammar_for(language: &str) -> (r: Option<Grammar>)
    ensures
        r == grammar_for_spec(language@),
{
    if strings_equal(language, "rust") {
        Some(Grammar::Rust)
    } else if strings_equal(language, "typescript") || strings_equal(language, "tsx")
        || strings_equal(language, "javascript") {
        Some(Grammar::TypeScript)
    } else {
        None
    }
}

/// One node of a syntax tree, as plain values: its kind, byte range, start and end
/// positions, and the byte ranges of its `name`, `type` and `source` fields.
pub struct SyntaxNode {
    pub kind: String,
    pub start_byte: usize,
    pub end_byte: usize,
    pub start_row: usize,
    pub start_column: usize,
    pub end_row: usize,
    pub end_column: usize,
    pub name_range: Option<(usize, usize)>,
    pub type_range: Option<(usize, usize)>,
    pub source_range: Option<(usize, usize)>,
}

/// The plain values of a syntax node.
pub struct SyntaxNodeView {
    pub kind: Seq<char>,
    pub start_byte: usize,
    pub end_byte: usize,
    pub start_row: usize,
    pub start_column: usize,
    pub end_row: usize,
    pub end_column: usize,
    pub name_range: Option<(usize, usize)>,
    pub type_range: Option<(usize, usize)>,
    pub source_range: Option<(usize, usize)>,
}

impl View for SyntaxNode {
    type V = SyntaxNodeView;

    open spec fn view(&self) -> SyntaxNodeView {
        SyntaxNodeView {
            kind: self.kind@,
            start_byte: self.start_byte,
            end_byte: self.end_byte,
            start_row: self.start_row,
            start_column: self.start_column,
            end_row: self.end_row,
            end_column: self.end_column,
            name_range: self.name_range,
            type_range: self.type_range,
            source_range: self.source_range,
        }
    }
}

#[verifier::external_type_specification]
#[verifier::external_body]
pub struct ExSyntaxTree(tree_sitter::Tree);

/// The nodes a syntax tree holds, in pre-order: entry `i` is the root's `i`-th descendant
/// (`TreeCursor::goto_descendant(i)`, the root being the 0th), read with `Node::kind`,
/// `start_byte`, `end_byte`, `start_position`, `end_position` and `child_by_field_name`.
pub uninterp spec fn tree_outline(t: Tree) -> Seq<SyntaxNodeView>;

/// The nodes of the tree that the Rust grammar gives for `code`, `None` when parsing
/// gives no tree.
pub uninterp spec fn rust_syntax(code: Seq<char>) -> Option<Seq<SyntaxNodeView>>;

/// The nodes of the tree that the TypeScript grammar gives for `code`, `None` when the
/// parser refuses the grammar or gives no tree.
pub uninterp spec fn typescript_syntax(code: Seq<char>) -> Option<Seq<SyntaxNodeView>>;

/// Parses `code` with a new `tree_sitter::Parser` whose language is
/// `tree_sitter_rust::language()` (`Parser::parse` without an old tree); what the tree
/// holds is named [`rust_syntax`].
#[verifier::external_body]
fn parse_rust(code: &str) -> (r: Option<Tree>)
    ensures
        match r {
            Some(t) => rust_syntax(code@) == Some(tree_outline(t)),
            None => rust_syntax(code@) is None,
        },
{
    let mut parser = tree_sitter::Parser::new();
    parser.set_language(&tree_sitter_rust::language()).ok()?;
    parser.parse(code, None)
}

/// Parses `code` with a new `tree_sitter::Parser` whose language is
/// `tree_sitter_typescript::language_typescript()`; what the tree holds is named
/// [`typescript_syntax`].
#[verifier::external_body]
fn parse_typescript(code: &str) -> (r: Option<Tree>)
    ensures
        match r {
            Some(t) => typescript_syntax(code@) == Some(tree_outline(t)),
            None => typescript_syntax(code@) is None,
        },
{
    let mut parser = tree_sitter::Parser::new();
    parser.set_language(&tree_sitter_typescript::language_typescript()).ok()?;
    parser.parse(code, None)
}

/// `Node::descendant_count` of the root: the number of nodes the tree holds.
#[verifier::external_body]
fn tree_node_count(tree: &Tree) -> (n: usize)
    ensures
        n == tree_outline(*tree).len(),
{
    tree.root_node().descendant_count()
}

/// The `i`-th node of the tree in pre-order: a cursor on the root moved with
/// `TreeCursor::goto_descendant(i)`, its node's fields copied out. A node's end point is
/// its start point plus its extent (`ts_node_end_point`), so it ends on its start row or
/// a later one.
#[verifier::external_body]
fn tree_node_at(tree: &Tree, i: usize) -> (r: SyntaxNode)
    requires
        i < tree_outline(*tree).len(),
    ensures
        r@ == tree_outline(*tree)[i as int],
        r.start_row <= r.end_row,
{
    let mut cursor = tree.walk();
    cursor.goto_descendant(i);
    let n = cursor.node();
    let field = |f: &str| n.child_by_field_name(f).map(|c| (c.start_byte(), c.end_byte()));
    let (s, e) = (n.start_position(), n.end_position());
    SyntaxNode { kind: n.kind().to_string(), start_byte: n.start_byte(), end_byte: n.end_byte(),
        start_row: s.row, start_column: s.column, end_row: e.row, end_column: e.column,
        name_range: field("name"), type_range: field("type"), source_range: field("source") }
}

/// What `str::get(start..end)` returns for `code`: the characters whose UTF-8 encoding is
/// the bytes `start..end`, when `start <= end <= len` and both ends lie on character
/// boundaries; `None` otherwise.
pub open spec fn byte_slice(code: Seq<char>, start: usize, end: usize) -> Option<Seq<char>> {
    let b = encode_utf8(code);
    if start <= end && end <= b.len() && is_char_boundary(b, start as int) && is_char_boundary(
        b,
        end as int,
    ) {
        Some(decode_utf8(b.subrange(start as int, end as int)))
    } else {
        None
    }
}

/// A slice that `str::get` returns is a run of the characters of `code`.
pub proof fn lemma_byte_slice_in_code(code: Seq<char>, start: usize, end: usize)
    requires
        byte_slice(code, start, end) is Some,
    ensures
        has_substring(code, byte_slice(code, start, end)->Some_0),
{
    let b = encode_utf8(code);
    let s = start as int;
    let e = end as int;
    encode_utf8_valid_utf8(code);
    encode_utf8_decode_utf8(code);
    decode_utf8_split(b, s);
    valid_utf8_split(b, s);
    let b2 = b.subrange(s, b.len() as int);
    if e < b.len() {
        is_char_boundary_iff_not_is_continuation_byte(b, e);
        assert(b2[e - s] == b[e]);
        is_char_boundary_iff_not_is_continuation_byte(b2, e - s);
    } else {
        is_char_boundary_start_end_of_seq(b2);
        assert(e - s == b2.len());
    }
    assert(is_char_boundary(b2, e - s));
    decode_utf8_split(b2, e - s);
    assert(b2.subrange(0, e - s) =~= b.subrange(s, e));
    let x = decode_utf8(b.subrange(0, s));
    let t = decode_utf8(b.subrange(s, e));
    let y = decode_utf8(b2.subrange(e - s, b2.len() as int));
    assert(code =~= x + (t + y));
    assert(code.subrange(x.len() as int, (x.len() + t.len()) as int) =~= t);
}

/// The text of a non-empty range is a run of the characters of `code`.
pub proof fn lemma_range_text_in_code(code: Seq<char>, start: usize, end: usize)
    ensures
        range_text(code, start, end).len() > 0 ==> has_substring(
            code,
            range_text(code, start, end),
        ),
{
    if byte_slice(code, start, end) is Some {
        lemma_byte_slice_in_code(code, start, end);
    }
}

/// Calls `str::get` with a byte range; the result is [`byte_slice`].
#[verifier::external_body]
fn str_get(code: &str, start: usize, end: usize) -> (r: Option<String>)
    ensures
        r.deep_view() == byte_slice(code@, start, end),
        r is Some <==> (start <= end && end <= code.spec_bytes().len() && is_char_boundary(
            code.spec_bytes(),
            start as int,
        ) && is_char_boundary(code.spec_bytes(), end as int)),
        r matches Some(t) ==> encode_utf8(t@) == code.spec_bytes().subrange(
            start as int,
            end as int,
        ),
{
    code.get(start..end).map(|t| t.to_string())
}

/// The text of a byte range, empty when the range is not a slice of `code`.
pub open spec fn range_text(code: Seq<char>, start: usize, end: usize) -> Seq<char> {
    match byte_slice(code, start, end) {
        Some(t) => t,
        None => Seq::empty(),
    }
}

/// The kind of symbol a node of kind `kind` declares in `language`.
pub open spec fn symbol_kind_of(language: Seq<char>, kind: Seq<char>) -> Option<Seq<char>> {
    if language == "rust"@ && kind == "function_item"@ {
        Some("function"@)
    } else if language == "rust"@ && kind == "struct_item"@ {
        Some("struct"@)
    } else if language == "rust"@ && kind == "enum_item"@ {
        Some("enum"@)
    } else if language == "rust"@ && kind == "trait_item"@ {
        Some("trait"@)
    } else if language == "rust"@ && kind == "mod_item"@ {
        Some("module"@)
    } else if language == "rust"@ && kind == "impl_item"@ {
        Some("impl"@)
    } else if kind == "function_declaration"@ {
        Some("function"@)
    } else if kind == "class_declaration"@ {
        Some("class"@)
    } else if kind == "interface_declaration"@ {
        Some("interface"@)
    } else if kind == "enum_declaration"@ {
        Some("enum"@)
    } else if kind == "type_alias_declaration"@ {
        Some("type"@)
    } else {
        None
    }
}

/// The name of a declaration: the text of its `name` field (when that range is non-empty
/// and within the code), else for an `impl` the text of its `type` field or `impl`.
pub open spec fn symbol_name_of(
    code: Seq<char>,
    code_len: nat,
    n: SyntaxNodeView,
    sym_kind: Seq<char>,
) -> Seq<char> {
    match n.name_range {
        Some(r) => if r.1 <= code_len && r.0 < r.1 {
            range_text(code, r.0, r.1)
        } else {
            Seq::empty()
        },
        None => if sym_kind == "impl"@ {
            match n.type_range {
                Some(t) => range_text(code, t.0, t.1),
                None => "impl"@,
            }
        } else {
            Seq::empty()
        },
    }
}

/// A tree-sitter row turned into a 1-based line number (saturating at the integer limit).
pub open spec fn line_number(row: usize) -> usize {
    if row < usize::MAX {
        (row + 1) as usize
    } else {
        usize::MAX
    }
}

/// The kinds of symbol that are extracted.
pub open spec fn symbol_kind_name(k: Seq<char>) -> bool {
    k == "function"@ || k == "struct"@ || k == "enum"@ || k == "trait"@ || k == "module"@ || k
        == "impl"@ || k == "class"@ || k == "interface"@ || k == "type"@
}

/// Every node starts on a row no later than the row it ends on.
pub open spec fn rows_ordered(nodes: Seq<SyntaxNodeView>) -> bool {
    forall|i: int| 0 <= i < nodes.len() ==> #[trigger] nodes[i].start_row <= nodes[i].end_row
}

/// A well-formed symbol of `code`: a known kind, a non-empty name that occurs in the code
/// (an `impl` without a type is named `impl`), and 1-based lines in order.
pub open spec fn symbol_well_formed(s: SymbolView, code: Seq<char>) -> bool {
    &&& symbol_kind_name(s.kind)
    &&& s.name.len() > 0
    &&& (has_substring(code, s.name) || (s.kind == "impl"@ && s.name == "impl"@))
    &&& 1 <= s.start_line <= s.end_line
}

/// The symbols of nodes whose rows are in order are well formed.
pub proof fn lemma_symbols_well_formed(
    nodes: Seq<SyntaxNodeView>,
    code: Seq<char>,
    code_len: nat,
    language: Seq<char>,
)
    requires
        rows_ordered(nodes),
    ensures
        forall|i: int|
            0 <= i < symbols_in(nodes, code, code_len, language).len() ==> symbol_well_formed(
                #[trigger] symbols_in(nodes, code, code_len, language)[i],
                code,
            ),
    decreases nodes.len(),
{
    if nodes.len() > 0 {
        let prev = symbols_in(nodes.drop_last(), code, code_len, language);
        assert(rows_ordered(nodes.drop_last())) by {
            assert forall|i: int| 0 <= i < nodes.drop_last().len() implies #[trigger] nodes.drop_last()[i].start_row
                <= nodes.drop_last()[i].end_row by {
                assert(nodes.drop_last()[i] == nodes[i]);
            }
        }
        lemma_symbols_well_formed(nodes.drop_last(), code, code_len, language);
        let n = nodes.last();
        assert(n.start_row <= n.end_row) by {
            assert(nodes[nodes.len() - 1] == n);
        }
        let all = symbols_in(nodes, code, code_len, language);
        match symbol_kind_of(language, n.kind) {
            Some(k) => {
                let name = symbol_name_of(code, code_len, n, k);
                match n.name_range {
                    Some(r) => {
                        lemma_range_text_in_code(code, r.0, r.1);
                    },
                    None => {
                        match n.type_range {
                            Some(t) => {
                                lemma_range_text_in_code(code, t.0, t.1);
                            },
                            None => {},
                        }
                    },
                }
                assert forall|i: int| 0 <= i < all.len() implies symbol_well_formed(
                    #[trigger] all[i],
                    code,
                ) by {
                    if i < prev.len() {
                        assert(all[i] == prev[i]);
                    }
                }
            },
            None => {},
        }
    }
}

/// The symbols that the nodes declare, in pre-order.
pub open spec fn symbols_in(
    nodes: Seq<SyntaxNodeView>,
    code: Seq<char>,
    code_len: nat,
    language: Seq<char>,
) -> Seq<SymbolView>
    decreases nodes.len(),
{
    if nodes.len() == 0 {
        Seq::empty()
    } else {
        let prev = symbols_in(nodes.drop_last(), code, code_len, language);
        let n = nodes.last();
        match symbol_kind_of(language, n.kind) {
            Some(k) => {
                let name = symbol_name_of(code, code_len, n, k);
                if name.len() > 0 {
                    prev.push(
                        SymbolView {
                            name,
                            kind: k,
                            start_line: line_number(n.start_row),
                            start_column: n.start_column,
                            end_line: line_number(n.end_row),
                            end_column: n.end_column,
                        },
                    )
                } else {
                    prev
                }
            },
            None => prev,
        }
    }
}

/// A quote character of an import source.
pub open spec fn is_quote(c: char) -> bool {
    c == '\'' || c == '"' || c == '`'
}

/// `s` without leading and trailing quote characters.
pub open spec fn trim_quotes(s: Seq<char>) -> Seq<char>
    decreases s.len(),
{
    if s.len() > 0 && is_quote(s[0]) {
        trim_quotes(s.drop_first())
    } else if s.len() > 0 && is_quote(s.last()) {
        trim_quotes(s.drop_last())
    } else {
        s
    }
}

/// The import path of a Rust `use` declaration's text.
pub open spec fn use_path(text: Seq<char>) -> Seq<char> {
    let t0 = trim(text);
    let t1 = if has_prefix(t0, "use "@) {
        t0.skip(4)
    } else {
        t0
    };
    let t2 = if has_suffix(t1, ";"@) {
        t1.drop_last()
    } else {
        t1
    };
    trim(t2)
}

/// The import that a node contributes, if any.
pub open spec fn import_of(n: SyntaxNodeView, code: Seq<char>, language: Seq<char>) -> Option<
    Seq<char>,
> {
    if language == "rust"@ && n.kind == "use_declaration"@ {
        let p = use_path(range_text(code, n.start_byte, n.end_byte));
        if p.len() > 0 {
            Some(p)
        } else {
            None
        }
    } else if n.kind == "import_statement"@ {
        match n.source_range {
            Some(r) => {
                let p = trim_quotes(trim(range_text(code, r.0, r.1)));
                if p.len() > 0 {
                    Some(p)
                } else {
                    None
                }
            },
            None => None,
        }
    } else {
        None
    }
}

proof fn lemma_trim_quotes_in(s: Seq<char>)
    ensures
        has_substring(s, trim_quotes(s)),
    decreases s.len(),
{
    if s.len() > 0 && is_quote(s[0]) {
        lemma_trim_quotes_in(s.drop_first());
        lemma_subrange_in(s, 1, s.len() as int);
        assert(s.subrange(1, s.len() as int) =~= s.drop_first());
        lemma_substring_trans(s, s.drop_first(), trim_quotes(s.drop_first()));
    } else if s.len() > 0 && is_quote(s.last()) {
        lemma_trim_quotes_in(s.drop_last());
        lemma_subrange_in(s, 0, s.len() - 1);
        assert(s.subrange(0, s.len() - 1) =~= s.drop_last());
        lemma_substring_trans(s, s.drop_last(), trim_quotes(s.drop_last()));
    } else {
        lemma_subrange_in(s, 0, s.len() as int);
        assert(s.subrange(0, s.len() as int) =~= s);
    }
}

proof fn lemma_use_path_in(text: Seq<char>)
    ensures
        has_substring(text, use_path(text)),
{
    let t0 = trim(text);
    let t1 = if has_prefix(t0, "use "@) {
        t0.skip(4)
    } else {
        t0
    };
    let t2 = if has_suffix(t1, ";"@) {
        t1.drop_last()
    } else {
        t1
    };
    reveal_strlit("use ");
    reveal_strlit(";");
    lemma_trim_in(text);
    if has_prefix(t0, "use "@) {
        lemma_subrange_in(t0, 4, t0.len() as int);
        assert(t0.subrange(4, t0.len() as int) =~= t1);
    } else {
        lemma_subrange_in(t0, 0, t0.len() as int);
        assert(t0.subrange(0, t0.len() as int) =~= t1);
    }
    if has_suffix(t1, ";"@) {
        lemma_subrange_in(t1, 0, t1.len() - 1);
        assert(t1.subrange(0, t1.len() - 1) =~= t2);
    } else {
        lemma_subrange_in(t1, 0, t1.len() as int);
        assert(t1.subrange(0, t1.len() as int) =~= t2);
    }
    lemma_trim_in(t2);
    lemma_substring_trans(text, t0, t1);
    lemma_substring_trans(text, t1, t2);
    lemma_substring_trans(text, t2, trim(t2));
}

/// What an import node contributes is a non-empty run of the code's characters.
pub proof fn lemma_import_in_code(n: SyntaxNodeView, code: Seq<char>, language: Seq<char>)
    ensures
        import_of(n, code, language) matches Some(p) ==> p.len() > 0 && has_substring(code, p),
{
    if language == "rust"@ && n.kind == "use_declaration"@ {
        let text = range_text(code, n.start_byte, n.end_byte);
        lemma_use_path_in(text);
        lemma_range_text_in_code(code, n.start_byte, n.end_byte);
        if use_path(text).len() > 0 {
            lemma_substring_trans(code, text, use_path(text));
        }
    } else if n.kind == "import_statement"@ {
        match n.source_range {
            Some(r) => {
                let text = range_text(code, r.0, r.1);
                lemma_range_text_in_code(code, r.0, r.1);
                lemma_trim_in(text);
                lemma_trim_quotes_in(trim(text));
                let p = trim_quotes(trim(text));
                if p.len() > 0 {
                    lemma_substring_trans(text, trim(text), p);
                    lemma_substring_trans(code, text, p);
                }
            },
            None => {},
        }
    }
}

/// Every import path is a non-empty run of the code's characters.
pub proof fn lemma_imports_in_code(nodes: Seq<SyntaxNodeView>, code: Seq<char>, language: Seq<char>)
    ensures
        forall|i: int|
            0 <= i < imports_in(nodes, code, language).len() ==> (#[trigger] imports_in(
                nodes,
                code,
                language,
            )[i]).len() > 0 && has_substring(code, imports_in(nodes, code, language)[i]),
    decreases nodes.len(),
{
    if nodes.len() > 0 {
        lemma_imports_in_code(nodes.drop_last(), code, language);
        lemma_import_in_code(nodes.last(), code, language);
        let prev = imports_in(nodes.drop_last(), code, language);
        let all = imports_in(nodes, code, language);
        assert forall|i: int| 0 <= i < all.len() implies (#[trigger] all[i]).len() > 0
            && has_substring(code, all[i]) by {
            if i < prev.len() {
                assert(all[i] == prev[i]);
            }
        }
    }
}

/// The imports that the nodes declare, in pre-order.
pub open spec fn imports_in(nodes: Seq<SyntaxNodeView>, code: Seq<char>, language: Seq<char>) -> Seq<
    Seq<char>,
>
    decreases nodes.len(),
{
    if nodes.len() == 0 {
        Seq::empty()
    } else {
        let prev = imports_in(nodes.drop_last(), code, language);
        match import_of(nodes.last(), code, language) {
            Some(p) => prev.push(p),
            None => prev,
        }
    }
}

/// The nodes of `code` for `language`, or none when no grammar applies or parsing fails.
pub open spec fn outline_for(language: Seq<char>, code: Seq<char>) -> Seq<SyntaxNodeView> {
    match grammar_for_spec(language) {
        Some(Grammar::Rust) => match rust_syntax(code) {
            Some(ns) => ns,
            None => Seq::empty(),
        },
        Some(Grammar::TypeScript) => match typescript_syntax(code) {
            Some(ns) => ns,
            None => Seq::empty(),
        },
        None => Seq::empty(),
    }
}

/// The text of a byte range of `code`, empty when it is not a slice of `code`.
fn range_text_exec(code: &str, start: usize, end: usize) -> (r: String)
    ensures
        r@ == range_text(code@, start, end),
{
    match str_get(code, start, end) {
        Some(t) => t,
        None => String::new(),
    }
}

/// The symbol kind of a node kind in a language.
fn symbol_kind_exec(language: &str, kind: &str) -> (r: Option<&'static str>)
    ensures
        match r {
            Some(k) => symbol_kind_of(language@, kind@) == Some(k@),
            None => symbol_kind_of(language@, kind@) is None,
        },
{
    let rust = strings_equal(language, "rust");
    if rust && strings_equal(kind, "function_item") {
        Some("function")
    } else if rust && strings_equal(kind, "struct_item") {
        Some("struct")
    } else if rust && strings_equal(kind, "enum_item") {
        Some("enum")
    } else if rust && strings_equal(kind, "trait_item") {
        Some("trait")
    } else if rust && strings_equal(kind, "mod_item") {
        Some("module")
    } else if rust && strings_equal(kind, "impl_item") {
        Some("impl")
    } else if strings_equal(kind, "function_declaration") {
        Some("function")
    } else if strings_equal(kind, "class_declaration") {
        Some("class")
    } else if strings_equal(kind, "interface_declaration") {
        Some("interface")
    } else if strings_equal(kind, "enum_declaration") {
        Some("enum")
    } else if strings_equal(kind, "type_alias_declaration") {
        Some("type")
    } else {
        None
    }
}

/// The symbols declared by pre-ordered syntax nodes of `code`.
pub fn symbols_from_nodes(nodes: &Vec<SyntaxNode>, code: &str, language: &str) -> (r: Vec<
    ParsedSymbol,
>)
    ensures
        r@.map_values(|s: ParsedSymbol| s@) == symbols_in(
            nodes@.map_values(|n: SyntaxNode| n@),
            code@,
            code.spec_bytes().len() as usize as nat,
            language@,
        ),
{
    let ghost nv = nodes@.map_values(|n: SyntaxNode| n@);
    let code_len = code.len();
    let mut out: Vec<ParsedSymbol> = Vec::new();
    let mut i: usize = 0;
    assert(nv.take(0) =~= Seq::<SyntaxNodeView>::empty());
    assert(out@.map_values(|s: ParsedSymbol| s@) =~= Seq::<SymbolView>::empty());
    while i < nodes.len()
        invariant
            i <= nodes.len(),
            nv == nodes@.map_values(|n: SyntaxNode| n@),
            code_len == code.spec_bytes().len() as usize,
            out@.map_values(|s: ParsedSymbol| s@) == symbols_in(
                nv.take(i as int),
                code@,
                code_len as nat,
                language@,
            ),
        decreases nodes.len() - i,
    {
        assert(nv.take(i + 1).drop_last() =~= nv.take(i as int));
        assert(nv.take(i + 1).last() == nodes@[i as int]@);
        let n = &nodes[i];
        let ghost pre = out@.map_values(|s: ParsedSymbol| s@);
        match symbol_kind_exec(language, n.kind.as_str()) {
            Some(k) => {
                let name: String = match n.name_range {
                    Some(r) => {
                        if r.1 <= code_len && r.0 < r.1 {
                            range_text_exec(code, r.0, r.1)
                        } else {
                            String::new()
                        }
                    },
                    None => {
                        if strings_equal(k, "impl") {
                            match n.type_range {
                                Some(t) => range_text_exec(code, t.0, t.1),
                                None => String::from_str("impl"),
                            }
                        } else {
                            String::new()
                        }
                    },
                };
                assert(name@ == symbol_name_of(code@, code_len as nat, n@, k@));
                if !name.as_str().is_empty() {
                    let sl: usize = if n.start_row < usize::MAX {
                        n.start_row + 1
                    } else {
                        usize::MAX
                    };
                    let el: usize = if n.end_row < usize::MAX {
                        n.end_row + 1
                    } else {
                        usize::MAX
                    };
                    out.push(
                        ParsedSymbol {
                            name,
                            kind: String::from_str(k),
                            start_line: sl,
                            start_column: n.start_column,
                            end_line: el,
                            end_column: n.end_column,
                        },
                    );
                    assert(out@.map_values(|s: ParsedSymbol| s@) =~= pre.push(
                        SymbolView {
                            name: name@,
                            kind: k@,
                            start_line: line_number(n.start_row),
                            start_column: n.start_column,
                            end_line: line_number(n.end_row),
                            end_column: n.end_column,
                        },
                    ));
                }
            },
            None => {},
        }
        i = i + 1;
    }
    assert(nv.take(nodes.len() as int) =~= nv);
    out
}

/// The syntax nodes of `code` parsed for `language`.
pub fn outline(language: &str, code: &str) -> (r: Vec<SyntaxNode>)
    ensures
        r@.map_values(|n: SyntaxNode| n@) == outline_for(language@, code@),
        rows_ordered(r@.map_values(|n: SyntaxNode| n@)),
{
    let tree = match grammar_for(language) {
        Some(Grammar::Rust) => parse_rust(code),
        Some(Grammar::TypeScript) => parse_typescript(code),
        None => None,
    };
    let mut out: Vec<SyntaxNode> = Vec::new();
    assert(out@.map_values(|n: SyntaxNode| n@) =~= Seq::<SyntaxNodeView>::empty());
    match tree {
        None => out,
        Some(t) => {
            let ghost all = tree_outline(t);
            let count = tree_node_count(&t);
            let mut i: usize = 0;
            while i < count
                invariant
                    i <= count,
                    count == all.len(),
                    all == tree_outline(t),
                    out@.map_values(|n: SyntaxNode| n@) == all.take(i as int),
                    rows_ordered(out@.map_values(|n: SyntaxNode| n@)),
                decreases count - i,
            {
                let ghost pre = out@.map_values(|n: SyntaxNode| n@);
                out.push(tree_node_at(&t, i));
                assert(out@.map_values(|n: SyntaxNode| n@) =~= pre.push(all[i as int]));
                assert(all.take(i + 1) =~= all.take(i as int).push(all[i as int]));
                i = i + 1;
            }
            assert(all.take(count as int) =~= all);
            out
        },
    }
}

/// The declarations (functions, structs, classes, ...) of `code` in `language`.
pub fn extract_symbols(language: &str, code: &str) -> (r: Vec<ParsedSymbol>)
    ensures
        r@.map_values(|s: ParsedSymbol| s@) == symbols_in(
            outline_for(language@, code@),
            code@,
            code.spec_bytes().len() as usize as nat,
            language@,
        ),
        forall|i: int| 0 <= i < r@.len() ==> symbol_well_formed(#[trigger] r@[i]@, code@),
        !parses_language(language@) ==> r@.len() == 0,
{
    let nodes = outline(language, code);
    let r = symbols_from_nodes(&nodes, code, language);
    proof {
        let nv = nodes@.map_values(|n: SyntaxNode| n@);
        let len = code.spec_bytes().len() as usize as nat;
        lemma_symbols_well_formed(nv, code@, len, language@);
        assert forall|i: int| 0 <= i < r@.len() implies symbol_well_formed(#[trigger] r@[i]@, code@) by {
            assert(r@.map_values(|s: ParsedSymbol| s@)[i] == r@[i]@);
        }
        if !parses_language(language@) {
            assert(grammar_for_spec(language@) is None);
            assert(outline_for(language@, code@) =~= Seq::<SyntaxNodeView>::empty());
            assert(symbols_in(outline_for(language@, code@), code@, len, language@).len() == 0);
            assert(r@.map_values(|s: ParsedSymbol| s@).len() == r@.len());
        }
    }
    r
}

fn is_quote_exec(c: char) -> (r: bool)
    ensures
        r == is_quote(c),
{
    c == '\'' || c == '"' || c == '`'
}

proof fn lemma_trim_quotes_at(s: Seq<char>, a: int, b: int)
    requires
        0 <= a <= b <= s.len(),
        forall|j: int| 0 <= j < a ==> is_quote(#[trigger] s[j]),
        forall|j: int| b <= j < s.len() ==> is_quote(#[trigger] s[j]),
        a == b || (!is_quote(s[a]) && !is_quote(s[b - 1])),
    ensures
        trim_quotes(s) == s.subrange(a, b),
    decreases s.len(),
{
    if s.len() > 0 && is_quote(s[0]) {
        if a == 0 {
            // every character is a quote and a == b == 0
            assert(b == 0);
            let t = s.drop_first();
            assert forall|j: int| 0 <= j < t.len() implies is_quote(#[trigger] t[j]) by {
                assert(t[j] == s[j + 1]);
            }
            lemma_trim_quotes_at(t, 0, 0);
            assert(t.subrange(0, 0) =~= s.subrange(0, 0));
        } else {
            let t = s.drop_first();
            assert forall|j: int| 0 <= j < a - 1 implies is_quote(#[trigger] t[j]) by {
                assert(t[j] == s[j + 1]);
            }
            assert forall|j: int| b - 1 <= j < t.len() implies is_quote(#[trigger] t[j]) by {
                assert(t[j] == s[j + 1]);
            }
            if a != b {
                assert(t[a - 1] == s[a]);
                assert(t[b - 2] == s[b - 1]);
            }
            lemma_trim_quotes_at(t, a - 1, b - 1);
            assert(t.subrange(a - 1, b - 1) =~= s.subrange(a, b));
        }
    } else if s.len() > 0 && is_quote(s.last()) {
        let t = s.drop_last();
        assert(b < s.len() || a == b) by {
            if b == s.len() && a < b {
                assert(!is_quote(s[b - 1]));
            }
        }
        if a == b && b == s.len() {
            // s[0] is not a quote, so a == 0 would need s empty
            assert(a > 0 || s.len() == 0);
            assert(false);
        }
        let nb = if b == s.len() {
            b - 1
        } else {
            b
        };
        let na = if a > nb {
            nb
        } else {
            a
        };
        assert(a <= t.len());
        assert forall|j: int| 0 <= j < a implies is_quote(#[trigger] t[j]) by {
            assert(t[j] == s[j]);
        }
        assert forall|j: int| b <= j < t.len() implies is_quote(#[trigger] t[j]) by {
            assert(t[j] == s[j]);
        }
        assert(b <= t.len());
        if a != b {
            assert(t[a] == s[a]);
            assert(t[b - 1] == s[b - 1]);
        }
        lemma_trim_quotes_at(t, a, b);
        assert(t.subrange(a, b) =~= s.subrange(a, b));
    } else {
        if s.len() > 0 {
            assert(a == 0) by {
                if a > 0 {
                    assert(is_quote(s[0]));
                }
            }
            assert(b == s.len()) by {
                if b < s.len() {
                    assert(is_quote(s[s.len() - 1]));
                }
            }
        }
        assert(s.subrange(a, b) =~= s);
    }
}

/// `s` without leading and trailing quote characters.
fn trim_quotes_exec(s: &Vec<char>) -> (r: Vec<char>)
    ensures
        r@ == trim_quotes(s@),
{
    let n = s.len();
    let mut a: usize = 0;
    while a < n && is_quote_exec(s[a])
        invariant
            a <= n == s.len(),
            forall|j: int| 0 <= j < a ==> is_quote(#[trigger] s@[j]),
        decreases n - a,
    {
        a = a + 1;
    }
    let mut b: usize = n;
    while b > a && is_quote_exec(s[b - 1])
        invariant
            a <= b <= n == s.len(),
            forall|j: int| b <= j < n ==> is_quote(#[trigger] s@[j]),
        decreases b,
    {
        b = b - 1;
    }
    proof {
        lemma_trim_quotes_at(s@, a as int, b as int);
    }
    let mut out: Vec<char> = Vec::new();
    let mut k: usize = a;
    while k < b
        invariant
            a <= k <= b <= n == s.len(),
            out@ == s@.subrange(a as int, k as int),
        decreases b - k,
    {
        out.push(s[k]);
        assert(s@.subrange(a as int, k + 1) == s@.subrange(a as int, k as int).push(s@[k as int]));
        k = k + 1;
    }
    out
}

/// The path of a Rust `use` declaration's text.
fn use_path_exec(text: &str) -> (r: Vec<char>)
    ensures
        r@ == use_path(text@),
{
    proof {
        reveal_strlit("use ");
        reveal_strlit(";");
    }
    let tv = chars_of(text);
    let t0 = trim_chars(&tv);
    let prefix = chars_of("use ");
    let t1: Vec<char> = if crate::text::starts_with_chars(&t0, &prefix) {
        let mut v: Vec<char> = Vec::new();
        let mut k: usize = 4;
        while k < t0.len()
            invariant
                4 <= k <= t0.len(),
                v@ == t0@.subrange(4, k as int),
            decreases t0.len() - k,
        {
            v.push(t0[k]);
            assert(t0@.subrange(4, k + 1) == t0@.subrange(4, k as int).push(t0@[k as int]));
            k = k + 1;
        }
        assert(v@ =~= t0@.skip(4));
        v
    } else {
        t0
    };
    let semi = chars_of(";");
    let mut t2 = t1;
    if crate::text::ends_with_chars(&t2, &semi) {
        t2.pop();
    }
    trim_chars(&t2)
}

/// The imports declared by pre-ordered syntax nodes of `code`.
pub fn imports_from_nodes(nodes: &Vec<SyntaxNode>, code: &str, language: &str) -> (r: Vec<
    String,
>)
    ensures
        r.deep_view() == imports_in(nodes@.map_values(|n: SyntaxNode| n@), code@, language@),
{
    let ghost nv = nodes@.map_values(|n: SyntaxNode| n@);
    let rust = strings_equal(language, "rust");
    let mut out: Vec<String> = Vec::new();
    let mut i: usize = 0;
    assert(nv.take(0) =~= Seq::<SyntaxNodeView>::empty());
    while i < nodes.len()
        invariant
            i <= nodes.len(),
            nv == nodes@.map_values(|n: SyntaxNode| n@),
            rust == (language@ == "rust"@),
            out.deep_view() == imports_in(nv.take(i as int), code@, language@),
        decreases nodes.len() - i,
    {
        assert(nv.take(i + 1).drop_last() =~= nv.take(i as int));
        assert(nv.take(i + 1).last() == nodes@[i as int]@);
        let n = &nodes[i];
        let ghost pre = out.deep_view();
        if rust && strings_equal(n.kind.as_str(), "use_declaration") {
            let text = range_text_exec(code, n.start_byte, n.end_byte);
            let p = use_path_exec(text.as_str());
            if p.len() > 0 {
                out.push(string_from_chars(&p));
                assert(out.deep_view() =~= pre.push(p@));
            }
        } else if strings_equal(n.kind.as_str(), "import_statement") {
            match n.source_range {
                Some(r) => {
                    let text = range_text_exec(code, r.0, r.1);
                    let tv = chars_of(text.as_str());
                    let t = trim_chars(&tv);
                    let p = trim_quotes_exec(&t);
                    if p.len() > 0 {
                        out.push(string_from_chars(&p));
                        assert(out.deep_view() =~= pre.push(p@));
                    }
                },
                None => {},
            }
        }
        i = i + 1;
    }
    assert(nv.take(nodes.len() as int) =~= nv);
    out
}

/// The import paths of `code` in `language`: Rust `use` paths and module specifiers of
/// TypeScript/JavaScript `import` statements.
pub fn extract_imports(language: &str, code: &str) -> (r: Vec<String>)
    ensures
        r.deep_view() == imports_in(outline_for(language@, code@), code@, language@),
        forall|i: int|
            0 <= i < r.deep_view().len() ==> (#[trigger] r.deep_view()[i]).len() > 0
                && has_substring(code@, r.deep_view()[i]),
        !parses_language(language@) ==> r@.len() == 0,
{
    let nodes = outline(language, code);
    let r = imports_from_nodes(&nodes, code, language);
    proof {
        lemma_imports_in_code(outline_for(language@, code@), code@, language@);
        if !parses_language(language@) {
            assert(grammar_for_spec(language@) is None);
            assert(outline_for(language@, code@) =~= Seq::<SyntaxNodeView>::empty());
            assert(r.deep_view().len() == r@.len());
        }
    }
    r
}

// ---------------------------------------------------------------------------
// Dependency resolution
// ---------------------------------------------------------------------------

/// A file that an import may resolve to: the path to test for existence, and the path
/// relative to the workspace root that the index records (`None` when the candidate is not
/// under the root).
pub struct DependencyCandidate {
    pub full_path: String,
    pub relative: Option<String>,
}

/// The plain values of a candidate.
pub struct CandidateView {
    pub full_path: Seq<char>,
    pub relative: Option<Seq<char>>,
}

impl View for DependencyCandidate {
    type V = CandidateView;

    open spec fn view(&self) -> CandidateView {
        CandidateView { full_path: self.full_path@, relative: self.relative.deep_view() }
    }
}

/// The candidate for `full`, relative to `root` with forward slashes.
pub open spec fn candidate_under(full: Seq<char>, root: Seq<char>) -> CandidateView {
    CandidateView {
        full_path: full,
        relative: match strip_prefix_path(full, root) {
            Some(r) => Some(forward_slashes(r)),
            None => None,
        },
    }
}

/// The module path of a Rust import turned into a file path below `src`.
pub open spec fn rust_module_file(import_raw: Seq<char>) -> Seq<char> {
    crate::text::replace_all(crate::text::replace_all(import_raw, "crate::"@, ""@), "::"@, "/"@)
        + ".rs"@
}

/// The candidates an import resolves to, in the order they are tried. A relative import
/// (starting with `.`) is looked up next to the importing file with the extensions `ts`,
/// `tsx`, `js`, `jsx`, then as a directory with an `index` file of those extensions; any
/// other import is read as a Rust module path below `src` or `src/components`.
pub open spec fn dependency_candidates_spec(
    root: Seq<char>,
    source_rel: Seq<char>,
    import_raw: Seq<char>,
) -> Seq<CandidateView> {
    if import_raw.len() > 0 && import_raw[0] == '.' {
        match parent_path(join_path(root, source_rel)) {
            None => Seq::empty(),
            Some(par) => {
                let resolved = join_path(par, import_raw);
                seq![
                    candidate_under(with_extension_path(resolved, "ts"@), root),
                    candidate_under(with_extension_path(resolved, "tsx"@), root),
                    candidate_under(with_extension_path(resolved, "js"@), root),
                    candidate_under(with_extension_path(resolved, "jsx"@), root),
                    candidate_under(join_path(resolved, "index.ts"@), root),
                    candidate_under(join_path(resolved, "index.tsx"@), root),
                    candidate_under(join_path(resolved, "index.js"@), root),
                    candidate_under(join_path(resolved, "index.jsx"@), root),
                ]
            },
        }
    } else {
        let file = rust_module_file(import_raw);
        let c1 = join_path("src"@, file);
        let c2 = join_path(join_path("src"@, "components"@), file);
        seq![
            CandidateView { full_path: join_path(root, c1), relative: Some(forward_slashes(c1)) },
            CandidateView { full_path: join_path(root, c2), relative: Some(forward_slashes(c2)) },
        ]
    }
}

/// The first candidate that exists and lies under the root.
pub open spec fn first_resolved(cands: Seq<CandidateView>, exists: Seq<bool>) -> Option<
    Seq<char>,
>
    decreases cands.len(),
{
    if cands.len() == 0 {
        None
    } else if exists.len() > 0 && exists[0] && cands[0].relative is Some {
        cands[0].relative
    } else {
        first_resolved(cands.drop_first(), if exists.len() > 0 {
            exists.drop_first()
        } else {
            exists
        })
    }
}

fn candidate_exec(full: String, root: &str) -> (r: DependencyCandidate)
    ensures
        r@ == candidate_under(full@, root@),
{
    let relative = match path_strip_prefix(full.as_str(), root) {
        Some(rel) => Some(to_forward_slashes(rel.as_str())),
        None => None,
    };
    DependencyCandidate { full_path: full, relative }
}

/// The files an import of `source_rel` may resolve to, in the order they are tried.
pub fn dependency_candidates(root: &str, source_rel: &str, import_raw: &str) -> (r: Vec<
    DependencyCandidate,
>)
    ensures
        r@.map_values(|c: DependencyCandidate| c@) == dependency_candidates_spec(
            root@,
            source_rel@,
            import_raw@,
        ),
{
    let iv = chars_of(import_raw);
    let mut out: Vec<DependencyCandidate> = Vec::new();
    if iv.len() > 0 && iv[0] == '.' {
        let source_full = path_join(root, source_rel);
        let par = match path_parent(source_full.as_str()) {
            Some(p) => p,
            None => {
                assert(out@.map_values(|c: DependencyCandidate| c@) =~= Seq::<
                    CandidateView,
                >::empty());
                return out;
            },
        };
        let resolved = path_join(par.as_str(), import_raw);
        let r = resolved.as_str();
        out.push(candidate_exec(path_with_extension(r, "ts"), root));
        out.push(candidate_exec(path_with_extension(r, "tsx"), root));
        out.push(candidate_exec(path_with_extension(r, "js"), root));
        out.push(candidate_exec(path_with_extension(r, "jsx"), root));
        out.push(candidate_exec(path_join(r, "index.ts"), root));
        out.push(candidate_exec(path_join(r, "index.tsx"), root));
        out.push(candidate_exec(path_join(r, "index.js"), root));
        out.push(candidate_exec(path_join(r, "index.jsx"), root));
        assert(out@.map_values(|c: DependencyCandidate| c@) =~= dependency_candidates_spec(
            root@,
            source_rel@,
            import_raw@,
        ));
        out
    } else {
        proof {
            reveal_strlit("crate::");
            reveal_strlit("::");
        }
        let a = crate::text::replace_str(import_raw, "crate::", "");
        let b = crate::text::replace_str(a.as_str(), "::", "/");
        let mut file = b;
        file.append(".rs");
        let c1 = path_join("src", file.as_str());
        let comp = path_join("src", "components");
        let c2 = path_join(comp.as_str(), file.as_str());
        let f1 = to_forward_slashes(c1.as_str());
        let f2 = to_forward_slashes(c2.as_str());
        out.push(
            DependencyCandidate { full_path: path_join(root, c1.as_str()), relative: Some(f1) },
        );
        out.push(
            DependencyCandidate { full_path: path_join(root, c2.as_str()), relative: Some(f2) },
        );
        assert(out@.map_values(|c: DependencyCandidate| c@) =~= dependency_candidates_spec(
            root@,
            source_rel@,
            import_raw@,
        ));
        out
    }
}

/// The relative path an import resolves to: the first candidate that exists (`exists[i]`
/// tells whether `candidates[i].full_path` exists) and lies under the root.
pub fn resolve_dependency_path(candidates: &Vec<DependencyCandidate>, exists: &Vec<bool>) -> (r:
    Option<String>)
    ensures
        r.deep_view() == first_resolved(
            candidates@.map_values(|c: DependencyCandidate| c@),
            exists@,
        ),
{
    let ghost cv = candidates@.map_values(|c: DependencyCandidate| c@);
    let mut i: usize = 0;
    assert(cv.skip(0) =~= cv);
    assert(exists@.skip(0) =~= exists@);
    while i < candidates.len()
        invariant
            i <= candidates.len(),
            cv == candidates@.map_values(|c: DependencyCandidate| c@),
            first_resolved(cv, exists@) == first_resolved(
                cv.skip(i as int),
                if i <= exists.len() {
                    exists@.skip(i as int)
                } else {
                    Seq::empty()
                },
            ),
        decreases candidates.len() - i,
    {
        let ghost ex = if i <= exists.len() {
            exists@.skip(i as int)
        } else {
            Seq::empty()
        };
        assert(cv.skip(i as int)[0] == candidates@[i as int]@);
        assert(cv.skip(i as int).drop_first() =~= cv.skip(i + 1));
        if i < exists.len() && exists[i] {
            assert(ex[0] == exists@[i as int]);
            match &candidates[i].relative {
                Some(rel) => {
                    return Some(rel.clone());
                },
                None => {},
            }
        }
        proof {
            if i < exists.len() {
                assert(ex.drop_first() =~= exists@.skip(i + 1));
            } else {
                assert(ex.len() == 0) by {
                    if i == exists.len() {
                        assert(exists@.skip(i as int).len() == 0);
                    }
                }
                assert(ex =~= Seq::<bool>::empty());
            }
            assert(!(ex.len() > 0 && ex[0] && cv.skip(i as int)[0].relative is Some));
            assert(first_resolved(cv.skip(i as int), ex) == first_resolved(
                cv.skip(i as int).drop_first(),
                if ex.len() > 0 {
                    ex.drop_first()
                } else {
                    ex
                },
            ));
        }
        i = i + 1;
    }
    assert(cv.skip(candidates.len() as int).len() == 0);
    None
}

/// The entries a workspace walk never enters: git metadata, dependencies, build output
/// and the workspace's own storage, named by their path relative to the root.
pub open spec fn walk_skipped(rel: Seq<char>) -> bool {
    rel == ".git"@ || rel == "node_modules"@ || rel == "target"@ || rel == ".workspaceos"@
}

/// Whether the initial index walk skips the entry at `rel` (relative to the root).
pub fn walk_skips(rel: &str) -> (r: bool)
    ensures
        r == walk_skipped(rel@),
{
    strings_equal(rel, ".git") || strings_equal(rel, "node_modules") || strings_equal(
        rel,
        "target",
    ) || strings_equal(rel, ".workspaceos")
}

/// Indexing a file whose bytes have not changed since it was stored is skipped: the hash
/// stored for those bytes is the hash computed for them again, so the record is current.
pub proof fn law_unchanged_bytes_skip_reindexing(content: Seq<u8>, stored: FileRecord)
    requires
        stored.hash@ == hex_lower(blake3_of(content)),
    ensures
        index_is_current(Some(stored), hex_lower(blake3_of(content))),
{
}

/// The symbol a declaration node named by `name_range` yields, with kind `k`.
pub open spec fn declared_symbol(
    n: SyntaxNodeView,
    code: Seq<char>,
    r: (usize, usize),
    k: Seq<char>,
) -> SymbolView {
    SymbolView {
        name: range_text(code, r.0, r.1),
        kind: k,
        start_line: line_number(n.start_row),
        start_column: n.start_column,
        end_line: line_number(n.end_row),
        end_column: n.end_column,
    }
}

/// Every declaration kind of the table yields a symbol: a node whose `name` field holds a
/// non-empty range of the code adds exactly one symbol, named by that text, after the
/// symbols of the nodes before it. In any language, `function_declaration`,
/// `class_declaration`, `interface_declaration`, `enum_declaration` and
/// `type_alias_declaration` give `function`, `class`, `interface`, `enum` and `type`; in
/// Rust, `function_item`, `struct_item`, `enum_item`, `trait_item`, `mod_item` and
/// `impl_item` give `function`, `struct`, `enum`, `trait`, `module` and `impl`.
pub proof fn law_declarations_yield_symbols(
    nodes: Seq<SyntaxNodeView>,
    code: Seq<char>,
    code_len: nat,
    language: Seq<char>,
    n: SyntaxNodeView,
    r: (usize, usize),
)
    requires
        n.name_range == Some(r),
        r.0 < r.1,
        r.1 <= code_len,
        range_text(code, r.0, r.1).len() > 0,
    ensures
        n.kind == "function_declaration"@ ==> symbols_in(nodes.push(n), code, code_len, language)
            == symbols_in(nodes, code, code_len, language).push(
            declared_symbol(n, code, r, "function"@),
        ),
        n.kind == "class_declaration"@ ==> symbols_in(nodes.push(n), code, code_len, language)
            == symbols_in(nodes, code, code_len, language).push(
            declared_symbol(n, code, r, "class"@),
        ),
        n.kind == "interface_declaration"@ ==> symbols_in(nodes.push(n), code, code_len, language)
            == symbols_in(nodes, code, code_len, language).push(
            declared_symbol(n, code, r, "interface"@),
        ),
        n.kind == "enum_declaration"@ ==> symbols_in(nodes.push(n), code, code_len, language)
            == symbols_in(nodes, code, code_len, language).push(
            declared_symbol(n, code, r, "enum"@),
        ),
        n.kind == "type_alias_declaration"@ ==> symbols_in(nodes.push(n), code, code_len, language)
            == symbols_in(nodes, code, code_len, language).push(
            declared_symbol(n, code, r, "type"@),
        ),
        language == "rust"@ && n.kind == "function_item"@ ==> symbols_in(
            nodes.push(n),
            code,
            code_len,
            language,
        ) == symbols_in(nodes, code, code_len, language).push(
            declared_symbol(n, code, r, "function"@),
        ),
        language == "rust"@ && n.kind == "struct_item"@ ==> symbols_in(
            nodes.push(n),
            code,
            code_len,
            language,
        ) == symbols_in(nodes, code, code_len, language).push(
            declared_symbol(n, code, r, "struct"@),
        ),
        language == "rust"@ && n.kind == "enum_item"@ ==> symbols_in(
            nodes.push(n),
            code,
            code_len,
            language,
        ) == symbols_in(nodes, code, code_len, language).push(
            declared_symbol(n, code, r, "enum"@),
        ),
        language == "rust"@ && n.kind == "trait_item"@ ==> symbols_in(
            nodes.push(n),
            code,
            code_len,
            language,
        ) == symbols_in(nodes, code, code_len, language).push(
            declared_symbol(n, code, r, "trait"@),
        ),
        language == "rust"@ && n.kind == "mod_item"@ ==> symbols_in(
            nodes.push(n),
            code,
            code_len,
            language,
        ) == symbols_in(nodes, code, code_len, language).push(
            declared_symbol(n, code, r, "module"@),
        ),
        language == "rust"@ && n.kind == "impl_item"@ ==> symbols_in(
            nodes.push(n),
            code,
            code_len,
            language,
        ) == symbols_in(nodes, code, code_len, language).push(
            declared_symbol(n, code, r, "impl"@),
        ),
{
    reveal_strlit("rust");
    reveal_strlit("function_item");
    reveal_strlit("struct_item");
    reveal_strlit("enum_item");
    reveal_strlit("trait_item");
    reveal_strlit("mod_item");
    reveal_strlit("impl_item");
    reveal_strlit("function_declaration");
    reveal_strlit("class_declaration");
    reveal_strlit("interface_declaration");
    reveal_strlit("enum_declaration");
    reveal_strlit("type_alias_declaration");
    assert(nodes.push(n).drop_last() =~= nodes);
    assert(nodes.push(n).last() == n);
    let k = n.kind;
    assert("function_item"@.len() == 13 && "struct_item"@.len() == 11 && "enum_item"@.len() == 9
        && "trait_item"@.len() == 10 && "mod_item"@.len() == 8 && "impl_item"@.len() == 9);
    assert("function_declaration"@.len() == 20 && "class_declaration"@.len() == 17
        && "interface_declaration"@.len() == 21 && "enum_declaration"@.len() == 16
        && "type_alias_declaration"@.len() == 22);
    assert("enum_item"@[0] != "impl_item"@[0]);
    if k == "impl_item"@ {
        assert(k != "enum_item"@) by {
            assert(k[0] != "enum_item"@[0]);
        }
    }
}

} // verus!

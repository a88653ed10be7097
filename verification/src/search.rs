//! Search over the index: path and symbol filters, and the matching lines of full-text hits.
use vstd::prelude::*;
use vstd::string::*;
use crate::index::{FileRecord, SymbolRecord};
use crate::text::{
    chars_of, contains_chars, has_substring, lines_chars, lines_of, lowercase, split_words,
    string_from_chars, to_lowercase, trim, trim_chars, views, words_of,
};

verus! {

broadcast use vstd::string::group_string_axioms;

/// One line of a file that matched a text query.
pub struct CodeSearchResult {
    pub path: String,
    pub line: usize,
    pub content: String,
}

/// The plain values of a code search result.
pub struct CodeMatchView {
    pub path: Seq<char>,
    pub line: usize,
    pub content: Seq<char>,
}

impl View for CodeSearchResult {
    type V = CodeMatchView;

    open spec fn view(&self) -> CodeMatchView {
        CodeMatchView { path: self.path@, line: self.line, content: self.content@ }
    }
}

/// Case-insensitive substring test, as the searches perform it.
pub open spec fn matches_query(text: Seq<char>, query: Seq<char>) -> bool {
    has_substring(lowercase(text), lowercase(query))
}

/// The files whose path matches the query, in order.
pub open spec fn paths_matching(files: Seq<FileRecord>, query: Seq<char>) -> Seq<FileRecord>
    decreases files.len(),
{
    if files.len() == 0 {
        Seq::empty()
    } else {
        let prev = paths_matching(files.drop_last(), query);
        if matches_query(files.last().path@, query) {
            prev.push(files.last())
        } else {
            prev
        }
    }
}

/// The symbols whose name matches the query, in order.
pub open spec fn symbols_matching(syms: Seq<SymbolRecord>, query: Seq<char>) -> Seq<
    SymbolRecord,
>
    decreases syms.len(),
{
    if syms.len() == 0 {
        Seq::empty()
    } else {
        let prev = symbols_matching(syms.drop_last(), query);
        if matches_query(syms.last().name@, query) {
            prev.push(syms.last())
        } else {
            prev
        }
    }
}

/// Whether some query word occurs in the lower-cased line.
pub open spec fn line_hits(line: Seq<char>, words: Seq<Seq<char>>) -> bool {
    exists|w: int| 0 <= w < words.len() && has_substring(lowercase(line), #[trigger] words[w])
}

/// The matching lines among the first `n` lines: 1-based line number and trimmed text.
pub open spec fn lines_matching(
    path: Seq<char>,
    lines: Seq<Seq<char>>,
    words: Seq<Seq<char>>,
    n: nat,
) -> Seq<CodeMatchView>
    decreases n,
{
    if n == 0 {
        Seq::empty()
    } else {
        let prev = lines_matching(path, lines, words, (n - 1) as nat);
        let l = lines[n - 1];
        if line_hits(l, words) {
            prev.push(CodeMatchView { path, line: n as usize, content: trim(l) })
        } else {
            prev
        }
    }
}

/// The lines of a document that a full-text hit reports for `query`.
pub open spec fn document_matches(path: Seq<char>, body: Seq<char>, query: Seq<char>) -> Seq<
    CodeMatchView,
> {
    let lines = lines_of(body);
    lines_matching(path, lines, words_of(lowercase(query)), lines.len())
}

impl FileRecord {
    /// A copy of the record.
    pub fn duplicate(&self) -> (r: Self)
        ensures
            r == *self,
    {
        FileRecord {
            id: self.id,
            path: self.path.clone(),
            size: self.size,
            mtime: self.mtime,
            hash: self.hash.clone(),
            language: self.language.clone(),
        }
    }
}

impl SymbolRecord {
    /// A copy of the record.
    pub fn duplicate(&self) -> (r: Self)
        ensures
            r == *self,
    {
        SymbolRecord {
            id: self.id,
            file_id: self.file_id,
            name: self.name.clone(),
            kind: self.kind.clone(),
            start_line: self.start_line,
            start_column: self.start_column,
            end_line: self.end_line,
            end_column: self.end_column,
        }
    }
}

/// Case-insensitive substring test.
pub fn query_matches(text: &str, query: &str) -> (r: bool)
    ensures
        r == matches_query(text@, query@),
{
    let t = to_lowercase(text);
    let q = to_lowercase(query);
    let tv = chars_of(t.as_str());
    let qv = chars_of(q.as_str());
    contains_chars(&tv, &qv)
}

/// The path search of the search manager: the files whose lower-cased path contains the
/// lower-cased query.
pub fn filter_files_by_path(files: &Vec<FileRecord>, query: &str) -> (r: Vec<FileRecord>)
    ensures
        r@ == paths_matching(files@, query@),
{
    let mut out: Vec<FileRecord> = Vec::new();
    let mut i: usize = 0;
    assert(files@.take(0) =~= Seq::<FileRecord>::empty());
    while i < files.len()
        invariant
            i <= files.len(),
            out@ == paths_matching(files@.take(i as int), query@),
        decreases files.len() - i,
    {
        assert(files@.take(i + 1).drop_last() =~= files@.take(i as int));
        if query_matches(files[i].path.as_str(), query) {
            out.push(files[i].duplicate());
        }
        i = i + 1;
    }
    assert(files@.take(files.len() as int) =~= files@);
    out
}

/// The symbol search of the search manager: the symbols (listed file by file) whose
/// lower-cased name contains the lower-cased query.
pub fn filter_symbols_by_name(symbols: &Vec<SymbolRecord>, query: &str) -> (r: Vec<
    SymbolRecord,
>)
    ensures
        r@ == symbols_matching(symbols@, query@),
{
    let mut out: Vec<SymbolRecord> = Vec::new();
    let mut i: usize = 0;
    assert(symbols@.take(0) =~= Seq::<SymbolRecord>::empty());
    while i < symbols.len()
        invariant
            i <= symbols.len(),
            out@ == symbols_matching(symbols@.take(i as int), query@),
        decreases symbols.len() - i,
    {
        assert(symbols@.take(i + 1).drop_last() =~= symbols@.take(i as int));
        if query_matches(symbols[i].name.as_str(), query) {
            out.push(symbols[i].duplicate());
        }
        i = i + 1;
    }
    assert(symbols@.take(symbols.len() as int) =~= symbols@);
    out
}

/// Whether some word occurs in the lower-cased line.
fn line_hits_exec(line: &Vec<char>, words: &Vec<Vec<char>>) -> (r: bool)
    ensures
        r == line_hits(line@, views(words@)),
{
    let ls = string_from_chars(line);
    let lower = to_lowercase(ls.as_str());
    let lv = chars_of(lower.as_str());
    let mut i: usize = 0;
    while i < words.len()
        invariant
            i <= words.len(),
            lv@ == lowercase(line@),
            forall|w: int| 0 <= w < i ==> !has_substring(lowercase(line@), #[trigger] views(words@)[w]),
        decreases words.len() - i,
    {
        if contains_chars(&lv, &words[i]) {
            assert(has_substring(lowercase(line@), views(words@)[i as int]));
            return true;
        }
        i = i + 1;
    }
    false
}

/// The lines of a full-text hit that contain a word of the query (both compared in lower
/// case), numbered from 1 and trimmed.
pub fn matching_lines(path: &str, body: &str, query: &str) -> (r: Vec<CodeSearchResult>)
    ensures
        r@.map_values(|m: CodeSearchResult| m@) == document_matches(path@, body@, query@),
{
    let q = to_lowercase(query);
    let qv = chars_of(q.as_str());
    let words = split_words(&qv);
    let bv = chars_of(body);
    let lines = lines_chars(&bv);
    let ghost lv = views(lines@);
    let ghost wv = views(words@);
    let mut out: Vec<CodeSearchResult> = Vec::new();
    let mut i: usize = 0;
    assert(out@.map_values(|m: CodeSearchResult| m@) =~= Seq::<CodeMatchView>::empty());
    while i < lines.len()
        invariant
            i <= lines.len(),
            lv == views(lines@),
            wv == views(words@),
            wv == words_of(lowercase(query@)),
            lv == lines_of(body@),
            out@.map_values(|m: CodeSearchResult| m@) == lines_matching(
                path@,
                lv,
                wv,
                i as nat,
            ),
        decreases lines.len() - i,
    {
        let ghost pre = out@.map_values(|m: CodeSearchResult| m@);
        assert(lines@[i as int]@ == lv[i as int]);
        if line_hits_exec(&lines[i], &words) {
            let t = trim_chars(&lines[i]);
            let content = string_from_chars(&t);
            out.push(CodeSearchResult { path: String::from_str(path), line: i + 1, content });
            assert(out@.map_values(|m: CodeSearchResult| m@) =~= pre.push(
                CodeMatchView { path: path@, line: (i + 1) as usize, content: trim(lv[i as int]) },
            ));
        }
        i = i + 1;
    }
    out
}

/// The hybrid search entry point; it has no index of its own to consult.
pub struct SearchEngine;

impl SearchEngine {
    pub fn search(query: &str) -> (r: Vec<String>)
        ensures
            r@.len() == 0,
    {
        Vec::new()
    }
}

/// Path search is sound and complete: it keeps exactly the files whose path matches the
/// query, each as it was, in the order of the input.
pub proof fn law_path_search_keeps_exactly_the_matches(files: Seq<FileRecord>, query: Seq<char>)
    ensures
        forall|i: int|
            0 <= i < paths_matching(files, query).len() ==> has_substring(
                lowercase(#[trigger] paths_matching(files, query)[i].path@),
                lowercase(query),
            ) && files.contains(paths_matching(files, query)[i]),
        paths_matching(files, query).len() <= files.len(),
        forall|i: int|
            0 <= i < files.len() && has_substring(lowercase(#[trigger] files[i].path@), lowercase(query))
                ==> paths_matching(files, query).contains(files[i]),
    decreases files.len(),
{
    if files.len() > 0 {
        let prev = paths_matching(files.drop_last(), query);
        law_path_search_keeps_exactly_the_matches(files.drop_last(), query);
        assert forall|i: int|
            0 <= i < paths_matching(files, query).len() implies matches_query(
            #[trigger] paths_matching(files, query)[i].path@,
            query,
        ) && files.contains(paths_matching(files, query)[i]) by {
            if i < prev.len() {
                assert(0 <= i < paths_matching(files.drop_last(), query).len());
                assert(matches_query(paths_matching(files.drop_last(), query)[i].path@, query));
                assert(files.drop_last().contains(prev[i]));
                let j = choose|j: int|
                    0 <= j < files.drop_last().len() && files.drop_last()[j] == prev[i];
                assert(files[j] == prev[i]);
            } else {
                assert(files[files.len() - 1] == files.last());
            }
        }
        assert forall|i: int|
            0 <= i < files.len() && matches_query(
                #[trigger] files[i].path@,
                query,
            ) implies paths_matching(files, query).contains(files[i]) by {
            if i < files.len() - 1 {
                assert(files.drop_last()[i] == files[i]);
                let k = choose|k: int| 0 <= k < prev.len() && prev[k] == files[i];
                assert(paths_matching(files, query)[k] == files[i]);
            } else {
                let r = paths_matching(files, query);
                assert(r[r.len() - 1] == files[i]);
            }
        }
    }
}

/// Symbol search is sound and complete: it keeps exactly the symbols whose lower-cased
/// name contains the lower-cased query, each as it was, in the order of the input.
pub proof fn law_symbol_search_keeps_exactly_the_matches(syms: Seq<SymbolRecord>, query: Seq<char>)
    ensures
        forall|i: int|
            0 <= i < symbols_matching(syms, query).len() ==> has_substring(
                lowercase(#[trigger] symbols_matching(syms, query)[i].name@),
                lowercase(query),
            ) && syms.contains(symbols_matching(syms, query)[i]),
        symbols_matching(syms, query).len() <= syms.len(),
        forall|i: int|
            0 <= i < syms.len() && has_substring(lowercase(#[trigger] syms[i].name@), lowercase(query))
                ==> symbols_matching(syms, query).contains(syms[i]),
    decreases syms.len(),
{
    if syms.len() > 0 {
        let prev = symbols_matching(syms.drop_last(), query);
        let all = symbols_matching(syms, query);
        law_symbol_search_keeps_exactly_the_matches(syms.drop_last(), query);
        assert forall|i: int| 0 <= i < all.len() implies has_substring(
            lowercase(#[trigger] all[i].name@),
            lowercase(query),
        ) && syms.contains(all[i]) by {
            if i < prev.len() {
                assert(all[i] == prev[i]);
                assert(has_substring(lowercase(prev[i].name@), lowercase(query)));
                assert(syms.drop_last().contains(prev[i]));
                let j = choose|j: int|
                    0 <= j < syms.drop_last().len() && syms.drop_last()[j] == prev[i];
                assert(syms[j] == prev[i]);
            } else {
                assert(syms[syms.len() - 1] == syms.last());
            }
        }
        assert forall|i: int|
            0 <= i < syms.len() && has_substring(
                lowercase(#[trigger] syms[i].name@),
                lowercase(query),
            ) implies all.contains(syms[i]) by {
            if i < syms.len() - 1 {
                assert(syms.drop_last()[i] == syms[i]);
                assert(prev.contains(syms[i]));
                let k = choose|k: int| 0 <= k < prev.len() && prev[k] == syms[i];
                assert(all[k] == syms[i]);
            } else {
                assert(all[all.len() - 1] == syms[i]);
            }
        }
    }
}

/// `v` reports line `i` (0-based, below `bound`) of `lines`, with its 1-based number and
/// trimmed text, because its lower-cased text holds query word `words[w]`.
pub open spec fn reports_line_with_word(
    path: Seq<char>,
    lines: Seq<Seq<char>>,
    words: Seq<Seq<char>>,
    bound: int,
    v: CodeMatchView,
) -> bool {
    exists|i: int, w: int|
        #![trigger lines[i], words[w]]
        0 <= i < bound && 0 <= w < words.len() && has_substring(lowercase(lines[i]), words[w])
            && v == (CodeMatchView { path, line: (i + 1) as usize, content: trim(lines[i]) })
}

proof fn lemma_lines_matching_exact(
    path: Seq<char>,
    lines: Seq<Seq<char>>,
    words: Seq<Seq<char>>,
    n: nat,
)
    requires
        n <= lines.len(),
    ensures
        forall|i: int, w: int|
            #![trigger lines[i], words[w]]
            0 <= i < n && 0 <= w < words.len() && has_substring(lowercase(lines[i]), words[w])
                ==> lines_matching(path, lines, words, n).contains(
                CodeMatchView { path, line: (i + 1) as usize, content: trim(lines[i]) },
            ),
        forall|k: int|
            0 <= k < lines_matching(path, lines, words, n).len() ==> reports_line_with_word(
                path,
                lines,
                words,
                n as int,
                #[trigger] lines_matching(path, lines, words, n)[k],
            ),
    decreases n,
{
    if n > 0 {
        let m = (n - 1) as nat;
        lemma_lines_matching_exact(path, lines, words, m);
        let prev = lines_matching(path, lines, words, m);
        let all = lines_matching(path, lines, words, n);
        let l = lines[n - 1];
        let e = CodeMatchView { path, line: n as usize, content: trim(l) };
        assert forall|i: int, w: int|
            #![trigger lines[i], words[w]]
            0 <= i < n && 0 <= w < words.len() && has_substring(
                lowercase(lines[i]),
                words[w],
            ) implies all.contains(
            CodeMatchView { path, line: (i + 1) as usize, content: trim(lines[i]) },
        ) by {
            if i < m {
                let x = CodeMatchView { path, line: (i + 1) as usize, content: trim(lines[i]) };
                assert(prev.contains(x));
                let k = choose|k: int| 0 <= k < prev.len() && prev[k] == x;
                if line_hits(l, words) {
                    assert(all[k] == x);
                }
            } else {
                assert(line_hits(l, words));
                assert(all[all.len() - 1] == e);
            }
        }
        assert forall|k: int| 0 <= k < all.len() implies reports_line_with_word(
            path,
            lines,
            words,
            n as int,
            #[trigger] all[k],
        ) by {
            if k < prev.len() {
                assert(all[k] == prev[k]);
                assert(reports_line_with_word(path, lines, words, m as int, prev[k]));
                let (i, w) = choose|i: int, w: int|
                    #![trigger lines[i], words[w]]
                    0 <= i < m && 0 <= w < words.len() && has_substring(lowercase(lines[i]), words[w])
                        && prev[k] == (CodeMatchView {
                        path,
                        line: (i + 1) as usize,
                        content: trim(lines[i]),
                    });
                assert(lines[i] == lines[i] && words[w] == words[w]);
            } else {
                assert(line_hits(l, words));
                let w = choose|w: int| 0 <= w < words.len() && has_substring(lowercase(l), #[trigger] words[w]);
                assert(all[k] == e);
                let i = n - 1;
                assert(lines[i] == l && words[w] == words[w]);
            }
        }
    }
}

/// Full-text hits are exactly the lines that hold a query word: every line of the body
/// whose lower-cased text contains at least one whitespace-separated word of the
/// lower-cased query is reported (one word suffices), with its 1-based number and trimmed
/// text, and every reported hit is such a line.
pub proof fn law_document_matches_are_the_lines_with_a_query_word(
    path: Seq<char>,
    body: Seq<char>,
    query: Seq<char>,
)
    ensures
        forall|i: int, w: int|
            #![trigger lines_of(body)[i], words_of(lowercase(query))[w]]
            0 <= i < lines_of(body).len() && 0 <= w < words_of(lowercase(query)).len()
                && has_substring(lowercase(lines_of(body)[i]), words_of(lowercase(query))[w])
                ==> document_matches(path, body, query).contains(
                CodeMatchView {
                    path,
                    line: (i + 1) as usize,
                    content: trim(lines_of(body)[i]),
                },
            ),
        forall|k: int|
            0 <= k < document_matches(path, body, query).len() ==> reports_line_with_word(
                path,
                lines_of(body),
                words_of(lowercase(query)),
                lines_of(body).len() as int,
                #[trigger] document_matches(path, body, query)[k],
            ),
{
    let lines = lines_of(body);
    lemma_lines_matching_exact(path, lines, words_of(lowercase(query)), lines.len());
}

} // verus!

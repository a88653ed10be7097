//! The context engine: classifies what a query asks for, scores the files that the
//! searches and the dependency graph make relevant, ranks them, and packs as many as a
//! token budget allows.
use vstd::prelude::*;
use vstd::string::*;
use crate::index::{FileRecord, SymbolRecord};
use crate::search::CodeSearchResult;
use crate::text::{
    chars_of, contains_str, count_words, has_substring, join_strings, join_with, lines_chars,
    lines_of, lowercase, string_from_chars, strings_equal, to_lowercase, views, word_count,
};

verus! {

broadcast use vstd::string::group_string_axioms;

// ---------------------------------------------------------------------------
// Intent
// ---------------------------------------------------------------------------

/// What a query asks the assistant to do.
#[derive(Clone, Copy, Debug, PartialEq, Eq, Structural)]
pub enum Intent {
    BugFix,
    Feature,
    Refactor,
    ExplainCode,
}

/// The intent of an already lower-cased query: the first group with a keyword in it.
pub open spec fn intent_of(q: Seq<char>) -> Intent {
    if has_substring(q, "fix"@) || has_substring(q, "bug"@) || has_substring(q, "error"@)
        || has_substring(q, "fail"@) || has_substring(q, "issue"@) || has_substring(
        q,
        "crash"@,
    ) {
        Intent::BugFix
    } else if has_substring(q, "add"@) || has_substring(q, "implement"@) || has_substring(
        q,
        "create"@,
    ) || has_substring(q, "new"@) || has_substring(q, "feature"@) {
        Intent::Feature
    } else if has_substring(q, "refactor"@) || has_substring(q, "cleanup"@) || has_substring(
        q,
        "clean"@,
    ) || has_substring(q, "structure"@) {
        Intent::Refactor
    } else {
        Intent::ExplainCode
    }
}

// ---------------------------------------------------------------------------
// Scores
// ---------------------------------------------------------------------------

/// The plain values of a scored file.
pub struct ScoreView {
    pub path: Seq<char>,
    pub score: u64,
    pub reason: Seq<char>,
}

/// A file with its relevance score and the reason it was first scored.
pub struct ScoreEntry {
    pub path: String,
    pub score: u64,
    pub reason: String,
}

impl View for ScoreEntry {
    type V = ScoreView;

    open spec fn view(&self) -> ScoreView {
        ScoreView { path: self.path@, score: self.score, reason: self.reason@ }
    }
}

/// The views of a sequence of entries.
pub open spec fn entry_views(s: Seq<ScoreEntry>) -> Seq<ScoreView> {
    s.map_values(|e: ScoreEntry| e@)
}

/// `a + b`, capped at `u64::MAX`.
pub open spec fn sat_add(a: u64, b: u64) -> u64 {
    if a + b > u64::MAX {
        u64::MAX
    } else {
        (a + b) as u64
    }
}

/// Index of the first entry for `p`, or -1.
pub open spec fn index_of_path(es: Seq<ScoreView>, p: Seq<char>) -> int {
    if exists|i: int| 0 <= i < es.len() && #[trigger] es[i].path == p {
        choose|i: int|
            0 <= i < es.len() && #[trigger] es[i].path == p && forall|j: int|
                0 <= j < i ==> es[j].path != p
    } else {
        -1
    }
}

/// Index of the first file record with id `id`, or -1.
pub open spec fn index_of_file(files: Seq<FileRecord>, id: i64) -> int {
    if exists|i: int| 0 <= i < files.len() && #[trigger] files[i].id == id {
        choose|i: int|
            0 <= i < files.len() && #[trigger] files[i].id == id && forall|j: int|
                0 <= j < i ==> files[j].id != id
    } else {
        -1
    }
}

/// A direct path match: the entry for `p` becomes (50, "Direct path match").
pub open spec fn put_direct(es: Seq<ScoreView>, p: Seq<char>) -> Seq<ScoreView> {
    let k = index_of_path(es, p);
    let e = ScoreView { path: p, score: 50, reason: "Direct path match"@ };
    if k >= 0 {
        es.update(k, e)
    } else {
        es.push(e)
    }
}

/// Adds `amount` to the entry for `p` (created at 0 with an empty reason when missing) and
/// gives it `reason` when it has none yet.
pub open spec fn bump(es: Seq<ScoreView>, p: Seq<char>, amount: u64, reason: Seq<char>) -> Seq<
    ScoreView,
> {
    let k = index_of_path(es, p);
    if k >= 0 {
        let e = es[k];
        es.update(
            k,
            ScoreView {
                path: e.path,
                score: sat_add(e.score, amount),
                reason: if e.reason.len() == 0 {
                    reason
                } else {
                    e.reason
                },
            },
        )
    } else {
        es.push(ScoreView { path: p, score: amount, reason })
    }
}

pub open spec fn symbol_reason(name: Seq<char>) -> Seq<char> {
    "Contains matching symbol '"@ + name + "'"@
}

pub open spec fn text_reason(content: Seq<char>) -> Seq<char> {
    "Contains matching text occurrence: '"@ + content + "'"@
}

pub open spec fn import_reason(path: Seq<char>) -> Seq<char> {
    "Imported by relevant file '"@ + path + "'"@
}

/// Phase 1: direct path matches.
pub open spec fn score_paths(es: Seq<ScoreView>, ps: Seq<FileRecord>) -> Seq<ScoreView>
    decreases ps.len(),
{
    if ps.len() == 0 {
        es
    } else {
        put_direct(score_paths(es, ps.drop_last()), ps.last().path@)
    }
}

/// Phase 2: symbol matches, 30 for the file that holds the symbol.
pub open spec fn score_symbols(
    es: Seq<ScoreView>,
    syms: Seq<SymbolRecord>,
    files: Seq<FileRecord>,
) -> Seq<ScoreView>
    decreases syms.len(),
{
    if syms.len() == 0 {
        es
    } else {
        let prev = score_symbols(es, syms.drop_last(), files);
        let k = index_of_file(files, syms.last().file_id);
        if k >= 0 {
            bump(prev, files[k].path@, 30, symbol_reason(syms.last().name@))
        } else {
            prev
        }
    }
}

/// Phase 3: full-text matches, 20 for the file of each matching line.
pub open spec fn score_code(es: Seq<ScoreView>, ms: Seq<CodeSearchResult>) -> Seq<ScoreView>
    decreases ms.len(),
{
    if ms.len() == 0 {
        es
    } else {
        bump(score_code(es, ms.drop_last()), ms.last().path@, 20, text_reason(ms.last().content@))
    }
}

/// The dependency boosts of one relevant file: 15 for each file it imports.
pub open spec fn score_targets(
    es: Seq<ScoreView>,
    targets: Seq<i64>,
    files: Seq<FileRecord>,
    src: Seq<char>,
) -> Seq<ScoreView>
    decreases targets.len(),
{
    if targets.len() == 0 {
        es
    } else {
        let prev = score_targets(es, targets.drop_last(), files, src);
        let k = index_of_file(files, targets.last());
        if k >= 0 {
            bump(prev, files[k].path@, 15, import_reason(src))
        } else {
            prev
        }
    }
}

/// The imports recorded for the `i`-th file (none when the list is shorter).
pub open spec fn deps_at(deps: Seq<Vec<i64>>, i: int) -> Seq<i64> {
    if 0 <= i < deps.len() {
        deps[i]@
    } else {
        Seq::empty()
    }
}

/// Phase 4: files are visited in order; one with a positive score at that moment boosts
/// the files it imports.
pub open spec fn score_deps(
    es: Seq<ScoreView>,
    files: Seq<FileRecord>,
    deps: Seq<Vec<i64>>,
    n: nat,
) -> Seq<ScoreView>
    decreases n,
{
    if n == 0 {
        es
    } else {
        let prev = score_deps(es, files, deps, (n - 1) as nat);
        let f = files[n - 1];
        let k = index_of_path(prev, f.path@);
        if k >= 0 && prev[k].score > 0 {
            score_targets(prev, deps_at(deps, n - 1), files, f.path@)
        } else {
            prev
        }
    }
}

/// All four scoring phases.
pub open spec fn scores_of(
    path_matches: Seq<FileRecord>,
    symbol_matches: Seq<SymbolRecord>,
    code_matches: Seq<CodeSearchResult>,
    files: Seq<FileRecord>,
    deps: Seq<Vec<i64>>,
) -> Seq<ScoreView> {
    let s1 = score_paths(Seq::empty(), path_matches);
    let s2 = score_symbols(s1, symbol_matches, files);
    let s3 = score_code(s2, code_matches);
    score_deps(s3, files, deps, files.len())
}

/// Scores never increase along the sequence.
pub open spec fn sorted_by_score(s: Seq<ScoreView>) -> bool {
    forall|i: int, j: int| 0 <= i < j < s.len() ==> s[i].score >= s[j].score
}

/// No two entries share a path.
pub open spec fn unique_paths(s: Seq<ScoreView>) -> bool {
    forall|i: int, j: int| 0 <= i < j < s.len() ==> s[i].path != s[j].path
}

// ---------------------------------------------------------------------------
// Packing
// ---------------------------------------------------------------------------

/// The plain values of a snippet.
pub struct SnippetView {
    pub path: Seq<char>,
    pub content: Seq<char>,
    pub score: u64,
    pub reason: Seq<char>,
}

/// A file chosen for the context, with its contents.
pub struct ContextSnippet {
    pub path: String,
    pub content: String,
    pub score: u64,
    pub reason: String,
}

impl View for ContextSnippet {
    type V = SnippetView;

    open spec fn view(&self) -> SnippetView {
        SnippetView {
            path: self.path@,
            content: self.content@,
            score: self.score,
            reason: self.reason@,
        }
    }
}

/// The assembled context.
pub struct ContextProfile {
    pub intent: Intent,
    pub snippets: Vec<ContextSnippet>,
    pub total_tokens: usize,
}

/// A ranked file offered to the packer: its contents (`None` when it is not a readable
/// file), the token estimate of the contents and of their truncated form.
pub struct PackCandidate {
    pub path: String,
    pub score: u64,
    pub reason: String,
    pub content: Option<String>,
    pub tokens: usize,
    pub truncated_tokens: usize,
}

/// The number of leading lines kept when a single file exceeds the budget.
pub open spec fn kept_line_count(n: nat) -> int {
    if n < 100 {
        n as int
    } else {
        100
    }
}

/// The first 100 lines of `content`, joined by `\n`, with a truncation marker.
pub open spec fn truncated_text(content: Seq<char>) -> Seq<char> {
    let ls = lines_of(content);
    join_with(ls.take(kept_line_count(ls.len())), "\n"@) + "\n... (truncated)"@
}

/// The packer's state after the first candidates: snippets, tokens used, and whether it
/// has stopped.
pub open spec fn pack_state(cands: Seq<PackCandidate>, budget: usize) -> (
    Seq<SnippetView>,
    nat,
    bool,
)
    decreases cands.len(),
{
    if cands.len() == 0 {
        (Seq::empty(), 0, false)
    } else {
        let prev = pack_state(cands.drop_last(), budget);
        let c = cands.last();
        if prev.2 || c.content is None {
            prev
        } else if prev.1 + c.tokens <= budget {
            (
                prev.0.push(
                    SnippetView {
                        path: c.path@,
                        content: c.content->Some_0@,
                        score: c.score,
                        reason: c.reason@,
                    },
                ),
                prev.1 + c.tokens as nat,
                false,
            )
        } else if prev.0.len() == 0 {
            (
                prev.0.push(
                    SnippetView {
                        path: c.path@,
                        content: truncated_text(c.content->Some_0@),
                        score: c.score,
                        reason: c.reason@ + " (Truncated to fit budget)"@,
                    },
                ),
                prev.1 + c.truncated_tokens as nat,
                true,
            )
        } else {
            (prev.0, prev.1, true)
        }
    }
}

// ---------------------------------------------------------------------------
// Executable code
// ---------------------------------------------------------------------------

/// The first entry for `p`.
fn find_entry(es: &Vec<ScoreEntry>, p: &str) -> (r: Option<usize>)
    ensures
        match r {
            Some(k) => k < es.len() && k as int == index_of_path(entry_views(es@), p@),
            None => index_of_path(entry_views(es@), p@) == -1,
        },
{
    let ghost v = entry_views(es@);
    let mut i: usize = 0;
    while i < es.len()
        invariant
            i <= es.len(),
            v == entry_views(es@),
            forall|j: int| 0 <= j < i ==> v[j].path != p@,
        decreases es.len() - i,
    {
        if strings_equal(es[i].path.as_str(), p) {
            assert(v[i as int].path == p@);
            let ghost k = index_of_path(v, p@);
            assert(k == i as int) by {
                assert(exists|x: int| 0 <= x < v.len() && #[trigger] v[x].path == p@);
            }
            return Some(i);
        }
        i = i + 1;
    }
    None
}

/// The first file record with id `id`.
fn find_file(files: &Vec<FileRecord>, id: i64) -> (r: Option<usize>)
    ensures
        match r {
            Some(k) => k < files.len() && k as int == index_of_file(files@, id),
            None => index_of_file(files@, id) == -1,
        },
{
    let mut i: usize = 0;
    while i < files.len()
        invariant
            i <= files.len(),
            forall|j: int| 0 <= j < i ==> files@[j].id != id,
        decreases files.len() - i,
    {
        if files[i].id == id {
            let ghost k = index_of_file(files@, id);
            assert(k == i as int) by {
                assert(exists|x: int| 0 <= x < files@.len() && #[trigger] files@[x].id == id);
            }
            return Some(i);
        }
        i = i + 1;
    }
    None
}

/// [`bump`] on entries.
fn bump_exec(es: &mut Vec<ScoreEntry>, p: &str, amount: u64, reason: String)
    ensures
        entry_views(final(es)@) == bump(entry_views(old(es)@), p@, amount, reason@),
{
    let ghost v = entry_views(es@);
    match find_entry(es, p) {
        Some(k) => {
            let cur = es[k].score;
            let score = if cur > u64::MAX - amount {
                u64::MAX
            } else {
                cur + amount
            };
            let new_reason = if es[k].reason.as_str().is_empty() {
                reason
            } else {
                es[k].reason.clone()
            };
            let e = ScoreEntry { path: es[k].path.clone(), score, reason: new_reason };
            es.set(k, e);
            assert(entry_views(es@) =~= bump(v, p@, amount, reason@));
        },
        None => {
            es.push(ScoreEntry { path: String::from_str(p), score: amount, reason });
            assert(entry_views(es@) =~= bump(v, p@, amount, reason@));
        },
    }
}

/// [`put_direct`] on entries.
fn put_direct_exec(es: &mut Vec<ScoreEntry>, p: &str)
    ensures
        entry_views(final(es)@) == put_direct(entry_views(old(es)@), p@),
{
    let ghost v = entry_views(es@);
    let e = ScoreEntry {
        path: String::from_str(p),
        score: 50,
        reason: String::from_str("Direct path match"),
    };
    match find_entry(es, p) {
        Some(k) => {
            es.set(k, e);
            assert(entry_views(es@) =~= put_direct(v, p@));
        },
        None => {
            es.push(e);
            assert(entry_views(es@) =~= put_direct(v, p@));
        },
    }
}

/// `prefix` + `text` + `'`.
fn quoted_reason(prefix: &str, text: &str) -> (r: String)
    ensures
        r@ == prefix@ + text@ + "'"@,
{
    let mut s = String::from_str(prefix);
    s.append(text);
    s.append("'");
    s
}

/// [`score_targets`] on entries: 15 for each imported file, found by id.
#[verifier::rlimit(40)]
fn boost_imports(es: &mut Vec<ScoreEntry>, targets: &Vec<i64>, files: &Vec<FileRecord>, src: &str)
    ensures
        entry_views(final(es)@) == score_targets(entry_views(old(es)@), targets@, files@, src@),
{
    let ghost start = entry_views(es@);
    let mut j: usize = 0;
    assert(targets@.take(0) =~= Seq::<i64>::empty());
    while j < targets.len()
        invariant
            j <= targets.len(),
            entry_views(es@) == score_targets(start, targets@.take(j as int), files@, src@),
        decreases targets.len() - j,
    {
        assert(targets@.take(j + 1).drop_last() =~= targets@.take(j as int));
        match find_file(files, targets[j]) {
            Some(k) => {
                let reason = quoted_reason("Imported by relevant file '", src);
                bump_exec(es, files[k].path.as_str(), 15, reason);
            },
            None => {},
        }
        j = j + 1;
    }
    assert(targets@.take(targets.len() as int) =~= targets@);
}

/// The classification, search-independent part of intent detection, on a lower-cased query.
pub fn classify_intent(lowered: &str) -> (r: Intent)
    ensures
        r == intent_of(lowered@),
{
    let q = lowered;
    if contains_str(q, "fix") || contains_str(q, "bug") || contains_str(q, "error")
        || contains_str(q, "fail") || contains_str(q, "issue") || contains_str(q, "crash") {
        Intent::BugFix
    } else if contains_str(q, "add") || contains_str(q, "implement") || contains_str(q, "create")
        || contains_str(q, "new") || contains_str(q, "feature") {
        Intent::Feature
    } else if contains_str(q, "refactor") || contains_str(q, "cleanup") || contains_str(
        q,
        "clean",
    ) || contains_str(q, "structure") {
        Intent::Refactor
    } else {
        Intent::ExplainCode
    }
}

/// The context engine.
pub struct ContextEngine;

impl ContextEngine {
    /// The intent of a query, judged on its lower-cased form.
    pub fn detect_intent(query: &str) -> (r: Intent)
        ensures
            r == intent_of(lowercase(query@)),
    {
        let q = to_lowercase(query);
        classify_intent(q.as_str())
    }

    /// Scores the files that the searches return: 50 for a path match, 30 per matching
    /// symbol (in the file whose id it carries, looked up in `files`), 20 per matching
    /// line, and 15 per import of a file that already has a positive score (`deps[i]`
    /// lists the ids that `files[i]` imports). Each file keeps the first reason it got.
    #[verifier::rlimit(50)]
    #[verifier::spinoff_prover]
    pub fn score_files(
        path_matches: &Vec<FileRecord>,
        symbol_matches: &Vec<SymbolRecord>,
        code_matches: &Vec<CodeSearchResult>,
        files: &Vec<FileRecord>,
        deps: &Vec<Vec<i64>>,
    ) -> (r: Vec<ScoreEntry>)
        ensures
            entry_views(r@) == scores_of(
                path_matches@,
                symbol_matches@,
                code_matches@,
                files@,
                deps@,
            ),
    {
        let mut es: Vec<ScoreEntry> = Vec::new();
        // direct path matches
        let mut i: usize = 0;
        assert(entry_views(es@) =~= Seq::<ScoreView>::empty());
        assert(path_matches@.take(0) =~= Seq::<FileRecord>::empty());
        while i < path_matches.len()
            invariant
                i <= path_matches.len(),
                entry_views(es@) == score_paths(Seq::empty(), path_matches@.take(i as int)),
            decreases path_matches.len() - i,
        {
            assert(path_matches@.take(i + 1).drop_last() =~= path_matches@.take(i as int));
            put_direct_exec(&mut es, path_matches[i].path.as_str());
            i = i + 1;
        }
        assert(path_matches@.take(path_matches.len() as int) =~= path_matches@);
        let ghost s1 = entry_views(es@);
        // symbols, credited to the file that declares them
        let mut i: usize = 0;
        assert(symbol_matches@.take(0) =~= Seq::<SymbolRecord>::empty());
        while i < symbol_matches.len()
            invariant
                i <= symbol_matches.len(),
                entry_views(es@) == score_symbols(s1, symbol_matches@.take(i as int), files@),
            decreases symbol_matches.len() - i,
        {
            assert(symbol_matches@.take(i + 1).drop_last() =~= symbol_matches@.take(i as int));
            let sym = &symbol_matches[i];
            match find_file(files, sym.file_id) {
                Some(k) => {
                    let reason = quoted_reason("Contains matching symbol '", sym.name.as_str());
                    bump_exec(&mut es, files[k].path.as_str(), 30, reason);
                },
                None => {},
            }
            i = i + 1;
        }
        assert(symbol_matches@.take(symbol_matches.len() as int) =~= symbol_matches@);
        let ghost s2 = entry_views(es@);
        // full-text hits
        let mut i: usize = 0;
        assert(code_matches@.take(0) =~= Seq::<CodeSearchResult>::empty());
        while i < code_matches.len()
            invariant
                i <= code_matches.len(),
                entry_views(es@) == score_code(s2, code_matches@.take(i as int)),
            decreases code_matches.len() - i,
        {
            assert(code_matches@.take(i + 1).drop_last() =~= code_matches@.take(i as int));
            let m = &code_matches[i];
            let reason = quoted_reason(
                "Contains matching text occurrence: '",
                m.content.as_str(),
            );
            bump_exec(&mut es, m.path.as_str(), 20, reason);
            i = i + 1;
        }
        assert(code_matches@.take(code_matches.len() as int) =~= code_matches@);
        let ghost s3 = entry_views(es@);
        // imports of files that already score
        let mut i: usize = 0;
        while i < files.len()
            invariant
                i <= files.len(),
                entry_views(es@) == score_deps(s3, files@, deps@, i as nat),
            decreases files.len() - i,
        {
            let f = &files[i];
            let relevant = match find_entry(&es, f.path.as_str()) {
                Some(k) => es[k].score > 0,
                None => false,
            };
            if relevant && i < deps.len() {
                boost_imports(&mut es, &deps[i], files, f.path.as_str());
            }
            i = i + 1;
        }
        es
    }

    /// Orders scored files by descending score; files with equal scores keep their order.
    pub fn rank_by_score(entries: Vec<ScoreEntry>) -> (r: Vec<ScoreEntry>)
        ensures
            sorted_by_score(entry_views(r@)),
            entry_views(r@).to_multiset() == entry_views(entries@).to_multiset(),
    {
        let mut out: Vec<ScoreEntry> = Vec::new();
        let ghost all = entry_views(entries@);
        let mut i: usize = 0;
        assert(all.take(0) =~= Seq::<ScoreView>::empty());
        assert(entry_views(out@) =~= Seq::<ScoreView>::empty());
        while i < entries.len()
            invariant
                i <= entries.len(),
                all == entry_views(entries@),
                sorted_by_score(entry_views(out@)),
                entry_views(out@).to_multiset() == all.take(i as int).to_multiset(),
            decreases entries.len() - i,
        {
            let e = ScoreEntry {
                path: entries[i].path.clone(),
                score: entries[i].score,
                reason: entries[i].reason.clone(),
            };
            assert(e@ == all[i as int]);
            let ghost before_out = entry_views(out@);
            let mut pos: usize = 0;
            while pos < out.len() && out[pos].score >= e.score
                invariant
                    pos <= out.len(),
                    before_out == entry_views(out@),
                    forall|j: int| 0 <= j < pos ==> out@[j].score >= e.score,
                decreases out.len() - pos,
            {
                pos = pos + 1;
            }
            out.insert(pos, e);
            proof {
                assert(entry_views(out@) =~= before_out.insert(pos as int, all[i as int]));
                vstd::seq_lib::to_multiset_insert(before_out, pos as int, all[i as int]);
                assert(all.take(i + 1) =~= all.take(i as int).push(all[i as int]));
                vstd::seq_lib::to_multiset_build(all.take(i as int), all[i as int]);
                let nv = entry_views(out@);
                assert forall|a: int, b: int| 0 <= a < b < nv.len() implies nv[a].score
                    >= nv[b].score by {
                    if b < pos {
                        assert(nv[a] == before_out[a]);
                        assert(nv[b] == before_out[b]);
                    } else if b == pos {
                        assert(nv[a] == before_out[a]);
                    } else if a < pos {
                        assert(nv[a] == before_out[a]);
                        assert(nv[b] == before_out[b - 1]);
                    } else if a == pos {
                        assert(nv[b] == before_out[b - 1]);
                        assert(before_out[pos as int].score < e.score);
                    } else {
                        assert(nv[a] == before_out[a - 1]);
                        assert(nv[b] == before_out[b - 1]);
                    }
                }
            }
            i = i + 1;
        }
        assert(all.take(entries.len() as int) =~= all);
        out
    }

    /// The first 100 lines of `content`, joined by `\n`, followed by a truncation marker.
    pub fn truncate_for_budget(content: &str) -> (r: String)
        ensures
            r@ == truncated_text(content@),
    {
        let cv = chars_of(content);
        let ls = lines_chars(&cv);
        let n: usize = if ls.len() < 100 {
            ls.len()
        } else {
            100
        };
        let mut parts: Vec<String> = Vec::new();
        let mut i: usize = 0;
        while i < n
            invariant
                i <= n <= ls.len(),
                parts.deep_view() == views(ls@).take(i as int),
            decreases n - i,
        {
            let s = string_from_chars(&ls[i]);
            let ghost pre = parts.deep_view();
            parts.push(s);
            assert(parts.deep_view() =~= pre.push(ls@[i as int]@));
            assert(views(ls@).take(i + 1) =~= views(ls@).take(i as int).push(ls@[i as int]@));
            i = i + 1;
        }
        let mut joined = join_strings(&parts, "\n");
        joined.append("\n... (truncated)");
        joined
    }

    /// `split_whitespace().count()` of `content`: the word count that token estimates use.
    pub fn word_count(content: &str) -> (r: usize)
        ensures
            r == word_count(content@),
    {
        let cv = chars_of(content);
        count_words(&cv)
    }

    /// Packs ranked candidates into the budget, in order: a readable file whose tokens
    /// still fit is taken whole; the first one that does not fit ends the packing, and
    /// when nothing was taken yet it is taken truncated to its first 100 lines.
    pub fn pack_context(intent: Intent, candidates: &Vec<PackCandidate>, budget: usize) -> (r:
        ContextProfile)
        ensures
            r.intent == intent,
            r.snippets@.map_values(|s: ContextSnippet| s@) == pack_state(candidates@, budget).0,
            r.total_tokens == pack_state(candidates@, budget).1,
    {
        let mut snippets: Vec<ContextSnippet> = Vec::new();
        let mut total: usize = 0;
        let mut stopped = false;
        let mut i: usize = 0;
        assert(candidates@.take(0) =~= Seq::<PackCandidate>::empty());
        assert(snippets@.map_values(|s: ContextSnippet| s@) =~= Seq::<SnippetView>::empty());
        while i < candidates.len()
            invariant
                i <= candidates.len(),
                snippets@.map_values(|s: ContextSnippet| s@) == pack_state(
                    candidates@.take(i as int),
                    budget,
                ).0,
                total == pack_state(candidates@.take(i as int), budget).1,
                stopped == pack_state(candidates@.take(i as int), budget).2,
                !stopped ==> total <= budget,
                snippets.len() == 0 ==> total == 0,
            decreases candidates.len() - i,
        {
            assert(candidates@.take(i + 1).drop_last() =~= candidates@.take(i as int));
            assert(candidates@.take(i + 1).last() == candidates@[i as int]);
            let c = &candidates[i];
            let ghost pre = snippets@.map_values(|s: ContextSnippet| s@);
            if !stopped {
                match &c.content {
                    Some(content) => {
                        let fits = c.tokens <= budget - total;
                        if fits {
                            total = total + c.tokens;
                            snippets.push(
                                ContextSnippet {
                                    path: c.path.clone(),
                                    content: content.clone(),
                                    score: c.score,
                                    reason: c.reason.clone(),
                                },
                            );
                        } else if snippets.len() == 0 {
                            total = c.truncated_tokens;
                            let mut reason = c.reason.clone();
                            reason.append(" (Truncated to fit budget)");
                            snippets.push(
                                ContextSnippet {
                                    path: c.path.clone(),
                                    content: Self::truncate_for_budget(content.as_str()),
                                    score: c.score,
                                    reason,
                                },
                            );
                            stopped = true;
                        } else {
                            stopped = true;
                        }
                    },
                    None => {},
                }
            }
            assert(snippets@.map_values(|s: ContextSnippet| s@) =~= pack_state(
                candidates@.take(i + 1),
                budget,
            ).0);
            i = i + 1;
        }
        assert(candidates@.take(candidates.len() as int) =~= candidates@);
        ContextProfile { intent, snippets, total_tokens: total }
    }
}

/// Ranking keeps every scored file exactly once and orders them by descending score.
pub proof fn law_ranking_is_sorted_permutation(input: Seq<ScoreView>, output: Seq<ScoreView>)
    requires
        sorted_by_score(output),
        output.to_multiset() == input.to_multiset(),
    ensures
        output.len() == input.len(),
        forall|x: ScoreView| #[trigger] input.contains(x) <==> output.contains(x),
{
    input.to_multiset_ensures();
    output.to_multiset_ensures();
    assert forall|x: ScoreView| #[trigger] input.contains(x) <==> output.contains(x) by {
        assert(input.contains(x) <==> input.to_multiset().count(x) > 0);
        assert(output.contains(x) <==> output.to_multiset().count(x) > 0);
    }
}

/// The packer never exceeds the budget, except with the single truncated file it takes
/// when the first readable file is already too large.
pub proof fn law_pack_within_budget(cands: Seq<PackCandidate>, budget: usize)
    ensures
        pack_state(cands, budget).1 <= budget || (pack_state(cands, budget).0.len() == 1
            && pack_state(cands, budget).2),
        pack_state(cands, budget).0.len() <= cands.len(),
    decreases cands.len(),
{
    if cands.len() > 0 {
        law_pack_within_budget(cands.drop_last(), budget);
        lemma_pack_empty_total(cands.drop_last(), budget);
    }
}

proof fn lemma_pack_empty_total(cands: Seq<PackCandidate>, budget: usize)
    ensures
        pack_state(cands, budget).0.len() == 0 ==> pack_state(cands, budget).1 == 0,
        !pack_state(cands, budget).2 ==> pack_state(cands, budget).1 <= budget,
    decreases cands.len(),
{
    if cands.len() > 0 {
        lemma_pack_empty_total(cands.drop_last(), budget);
    }
}

/// Scoring keeps one entry per file: no two scored entries share a path.
pub proof fn law_scores_unique_paths(
    path_matches: Seq<FileRecord>,
    symbol_matches: Seq<SymbolRecord>,
    code_matches: Seq<CodeSearchResult>,
    files: Seq<FileRecord>,
    deps: Seq<Vec<i64>>,
)
    ensures
        unique_paths(scores_of(path_matches, symbol_matches, code_matches, files, deps)),
{
    let s1 = score_paths(Seq::empty(), path_matches);
    lemma_score_paths_unique(Seq::empty(), path_matches);
    let s2 = score_symbols(s1, symbol_matches, files);
    lemma_score_symbols_unique(s1, symbol_matches, files);
    let s3 = score_code(s2, code_matches);
    lemma_score_code_unique(s2, code_matches);
    lemma_score_deps_unique(s3, files, deps, files.len());
}

proof fn lemma_first_match(es: Seq<ScoreView>, p: Seq<char>, w: int)
    requires
        0 <= w < es.len(),
        es[w].path == p,
    ensures
        exists|i: int|
            0 <= i < es.len() && #[trigger] es[i].path == p && forall|j: int|
                0 <= j < i ==> es[j].path != p,
    decreases w,
{
    if exists|j: int| 0 <= j < w && #[trigger] es[j].path == p {
        let j = choose|j: int| 0 <= j < w && #[trigger] es[j].path == p;
        lemma_first_match(es, p, j);
    } else {
        assert(forall|j: int| 0 <= j < w ==> es[j].path != p);
    }
}

proof fn lemma_index_of_path(es: Seq<ScoreView>, p: Seq<char>)
    ensures
        index_of_path(es, p) == -1 ==> forall|i: int| 0 <= i < es.len() ==> es[i].path != p,
        index_of_path(es, p) != -1 ==> 0 <= index_of_path(es, p) < es.len() && es[index_of_path(
            es,
            p,
        )].path == p,
        index_of_path(es, p) != -1 ==> forall|j: int|
            0 <= j < index_of_path(es, p) ==> es[j].path != p,
{
    if exists|i: int| 0 <= i < es.len() && #[trigger] es[i].path == p {
        let w = choose|i: int| 0 <= i < es.len() && #[trigger] es[i].path == p;
        lemma_first_match(es, p, w);
    }
}

proof fn lemma_put_direct_unique(es: Seq<ScoreView>, p: Seq<char>)
    requires
        unique_paths(es),
    ensures
        unique_paths(put_direct(es, p)),
{
    lemma_index_of_path(es, p);
}

proof fn lemma_bump_unique(es: Seq<ScoreView>, p: Seq<char>, amount: u64, reason: Seq<char>)
    requires
        unique_paths(es),
    ensures
        unique_paths(bump(es, p, amount, reason)),
{
    lemma_index_of_path(es, p);
}

proof fn lemma_score_paths_unique(es: Seq<ScoreView>, ps: Seq<FileRecord>)
    requires
        unique_paths(es),
    ensures
        unique_paths(score_paths(es, ps)),
    decreases ps.len(),
{
    if ps.len() > 0 {
        lemma_score_paths_unique(es, ps.drop_last());
        lemma_put_direct_unique(score_paths(es, ps.drop_last()), ps.last().path@);
    }
}

proof fn lemma_score_symbols_unique(
    es: Seq<ScoreView>,
    syms: Seq<SymbolRecord>,
    files: Seq<FileRecord>,
)
    requires
        unique_paths(es),
    ensures
        unique_paths(score_symbols(es, syms, files)),
    decreases syms.len(),
{
    if syms.len() > 0 {
        let prev = score_symbols(es, syms.drop_last(), files);
        lemma_score_symbols_unique(es, syms.drop_last(), files);
        let k = index_of_file(files, syms.last().file_id);
        if k >= 0 {
            lemma_bump_unique(prev, files[k].path@, 30, symbol_reason(syms.last().name@));
        }
    }
}

proof fn lemma_score_code_unique(es: Seq<ScoreView>, ms: Seq<CodeSearchResult>)
    requires
        unique_paths(es),
    ensures
        unique_paths(score_code(es, ms)),
    decreases ms.len(),
{
    if ms.len() > 0 {
        lemma_score_code_unique(es, ms.drop_last());
        lemma_bump_unique(
            score_code(es, ms.drop_last()),
            ms.last().path@,
            20,
            text_reason(ms.last().content@),
        );
    }
}

proof fn lemma_score_targets_unique(
    es: Seq<ScoreView>,
    targets: Seq<i64>,
    files: Seq<FileRecord>,
    src: Seq<char>,
)
    requires
        unique_paths(es),
    ensures
        unique_paths(score_targets(es, targets, files, src)),
    decreases targets.len(),
{
    if targets.len() > 0 {
        let prev = score_targets(es, targets.drop_last(), files, src);
        lemma_score_targets_unique(es, targets.drop_last(), files, src);
        let k = index_of_file(files, targets.last());
        if k >= 0 {
            lemma_bump_unique(prev, files[k].path@, 15, import_reason(src));
        }
    }
}

proof fn lemma_score_deps_unique(
    es: Seq<ScoreView>,
    files: Seq<FileRecord>,
    deps: Seq<Vec<i64>>,
    n: nat,
)
    requires
        unique_paths(es),
    ensures
        unique_paths(score_deps(es, files, deps, n)),
    decreases n,
{
    if n > 0 {
        let prev = score_deps(es, files, deps, (n - 1) as nat);
        lemma_score_deps_unique(es, files, deps, (n - 1) as nat);
        lemma_score_targets_unique(prev, deps_at(deps, n - 1), files, files[n - 1].path@);
    }
}

/// The candidates whose contents could be read, in order.
pub open spec fn readable_candidates(cands: Seq<PackCandidate>) -> Seq<PackCandidate>
    decreases cands.len(),
{
    if cands.len() == 0 {
        Seq::empty()
    } else if cands.last().content is Some {
        readable_candidates(cands.drop_last()).push(cands.last())
    } else {
        readable_candidates(cands.drop_last())
    }
}

/// Unreadable candidates are skipped: packing gives the same snippets, token total and
/// stop as packing only the readable candidates, so a file that cannot be read never
/// keeps later files that fit from being taken.
pub proof fn law_unreadable_candidates_are_skipped(cands: Seq<PackCandidate>, budget: usize)
    ensures
        pack_state(cands, budget) == pack_state(readable_candidates(cands), budget),
    decreases cands.len(),
{
    if cands.len() > 0 {
        law_unreadable_candidates_are_skipped(cands.drop_last(), budget);
        let rc = readable_candidates(cands.drop_last());
        if cands.last().content is Some {
            let rs = rc.push(cands.last());
            assert(rs.drop_last() =~= rc);
            assert(rs.last() == cands.last());
        }
    }
}

/// Packing takes every readable candidate, whole and in order, as long as the running
/// token total stays within the budget: when the readable candidates' tokens all fit,
/// each of them becomes a snippet with its path, contents, score and reason.
pub proof fn law_fitting_candidates_are_all_taken(cands: Seq<PackCandidate>, budget: usize)
    requires
        forall|i: int| 0 <= i < cands.len() ==> (#[trigger] cands[i]).content is Some,
        tokens_total(cands) <= budget,
    ensures
        pack_state(cands, budget).0.len() == cands.len(),
        pack_state(cands, budget).1 == tokens_total(cands),
        !pack_state(cands, budget).2,
        forall|i: int|
            0 <= i < cands.len() ==> #[trigger] pack_state(cands, budget).0[i] == (SnippetView {
                path: cands[i].path@,
                content: cands[i].content->Some_0@,
                score: cands[i].score,
                reason: cands[i].reason@,
            }),
    decreases cands.len(),
{
    if cands.len() > 0 {
        let prev = cands.drop_last();
        assert forall|i: int| 0 <= i < prev.len() implies (#[trigger] prev[i]).content is Some by {
            assert(prev[i] == cands[i]);
        }
        assert(tokens_total(prev) <= tokens_total(cands));
        law_fitting_candidates_are_all_taken(prev, budget);
        assert(cands[cands.len() - 1] == cands.last());
        assert(cands.last().content is Some);
        let all = pack_state(cands, budget).0;
        assert forall|i: int|
            0 <= i < cands.len() implies #[trigger] all[i] == (SnippetView {
                path: cands[i].path@,
                content: cands[i].content->Some_0@,
                score: cands[i].score,
                reason: cands[i].reason@,
            }) by {
            if i < prev.len() {
                assert(prev[i] == cands[i]);
            }
        }
    }
}

/// The tokens of all candidates.
pub open spec fn tokens_total(cands: Seq<PackCandidate>) -> nat
    decreases cands.len(),
{
    if cands.len() == 0 {
        0
    } else {
        tokens_total(cands.drop_last()) + cands.last().tokens as nat
    }
}

/// Intent detection on a lower-cased query: any of `fix`, `bug`, `error`, `fail`, `issue`,
/// `crash` makes it a bug fix; otherwise any of `add`, `implement`, `create`, `new`,
/// `feature` a feature; otherwise any of `refactor`, `cleanup`, `clean`, `structure` a
/// refactoring; a query with none of these asks for an explanation.
pub proof fn law_intent_keywords(q: Seq<char>)
    ensures
        has_substring(q, "fix"@) ==> intent_of(q) == Intent::BugFix,
        has_substring(q, "bug"@) ==> intent_of(q) == Intent::BugFix,
        has_substring(q, "error"@) ==> intent_of(q) == Intent::BugFix,
        has_substring(q, "fail"@) ==> intent_of(q) == Intent::BugFix,
        has_substring(q, "issue"@) ==> intent_of(q) == Intent::BugFix,
        has_substring(q, "crash"@) ==> intent_of(q) == Intent::BugFix,
        intent_of(q) == Intent::BugFix ==> (has_substring(q, "fix"@) || has_substring(q, "bug"@)
            || has_substring(q, "error"@) || has_substring(q, "fail"@) || has_substring(
            q,
            "issue"@,
        ) || has_substring(q, "crash"@)),
        intent_of(q) != Intent::BugFix ==> ((has_substring(q, "add"@) || has_substring(
            q,
            "implement"@,
        ) || has_substring(q, "create"@) || has_substring(q, "new"@) || has_substring(
            q,
            "feature"@,
        )) <==> intent_of(q) == Intent::Feature),
        intent_of(q) != Intent::BugFix && intent_of(q) != Intent::Feature ==> ((has_substring(
            q,
            "refactor"@,
        ) || has_substring(q, "cleanup"@) || has_substring(q, "clean"@) || has_substring(
            q,
            "structure"@,
        )) <==> intent_of(q) == Intent::Refactor),
{
}

/// The score recorded for `p`, 0 when it has no entry.
pub open spec fn score_for(es: Seq<ScoreView>, p: Seq<char>) -> u64 {
    if index_of_path(es, p) >= 0 {
        es[index_of_path(es, p)].score
    } else {
        0
    }
}

proof fn lemma_index_of_path_is(es: Seq<ScoreView>, p: Seq<char>, k: int)
    requires
        0 <= k < es.len(),
        es[k].path == p,
        forall|j: int| 0 <= j < k ==> es[j].path != p,
    ensures
        index_of_path(es, p) == k,
{
    lemma_index_of_path(es, p);
    let i = index_of_path(es, p);
    assert(exists|x: int| 0 <= x < es.len() && #[trigger] es[x].path == p);
    assert(forall|j: int| 0 <= j < i ==> es[j].path != p);
    if i < k {
        assert(es[i].path == p);
    }
    if k < i {
        assert(es[k].path == p);
    }
}

proof fn lemma_bump_score(es: Seq<ScoreView>, p: Seq<char>, amount: u64, reason: Seq<char>)
    ensures
        score_for(bump(es, p, amount, reason), p) == sat_add(score_for(es, p), amount),
{
    lemma_index_of_path(es, p);
    let k = index_of_path(es, p);
    let b = bump(es, p, amount, reason);
    if k >= 0 {
        assert forall|j: int| 0 <= j < k implies b[j].path != p by {
            assert(b[j] == es[j]);
        }
        lemma_index_of_path_is(b, p, k);
    } else {
        assert forall|j: int| 0 <= j < es.len() implies b[j].path != p by {
            assert(b[j] == es[j]);
        }
        lemma_index_of_path_is(b, p, es.len() as int);
    }
}

proof fn lemma_put_direct_score(es: Seq<ScoreView>, p: Seq<char>)
    ensures
        score_for(put_direct(es, p), p) == 50,
        index_of_path(put_direct(es, p), p) >= 0,
        put_direct(es, p)[index_of_path(put_direct(es, p), p)].reason == "Direct path match"@,
{
    lemma_index_of_path(es, p);
    let k = index_of_path(es, p);
    let b = put_direct(es, p);
    if k >= 0 {
        assert forall|j: int| 0 <= j < k implies b[j].path != p by {
            assert(b[j] == es[j]);
        }
        lemma_index_of_path_is(b, p, k);
    } else {
        assert forall|j: int| 0 <= j < es.len() implies b[j].path != p by {
            assert(b[j] == es[j]);
        }
        lemma_index_of_path_is(b, p, es.len() as int);
    }
}

/// The weights of the evidence: a path match sets its file's score to 50 with the reason
/// "Direct path match"; each matching symbol adds 30 to the file that declares it; each
/// matching line adds 20 to its file; each import by a relevant file adds 15 to the
/// imported file (all capped at the largest `u64`).
pub proof fn law_evidence_weights(
    es: Seq<ScoreView>,
    ps: Seq<FileRecord>,
    f: FileRecord,
    syms: Seq<SymbolRecord>,
    s: SymbolRecord,
    files: Seq<FileRecord>,
    ms: Seq<CodeSearchResult>,
    m: CodeSearchResult,
    targets: Seq<i64>,
    t: i64,
    src: Seq<char>,
)
    ensures
        score_for(score_paths(es, ps.push(f)), f.path@) == 50,
        index_of_file(files, s.file_id) >= 0 ==> score_for(
            score_symbols(es, syms.push(s), files),
            files[index_of_file(files, s.file_id)].path@,
        ) == sat_add(
            score_for(score_symbols(es, syms, files), files[index_of_file(files, s.file_id)].path@),
            30,
        ),
        score_for(score_code(es, ms.push(m)), m.path@) == sat_add(
            score_for(score_code(es, ms), m.path@),
            20,
        ),
        index_of_file(files, t) >= 0 ==> score_for(
            score_targets(es, targets.push(t), files, src),
            files[index_of_file(files, t)].path@,
        ) == sat_add(
            score_for(score_targets(es, targets, files, src), files[index_of_file(files, t)].path@),
            15,
        ),
{
    assert(ps.push(f).drop_last() =~= ps);
    assert(syms.push(s).drop_last() =~= syms);
    assert(ms.push(m).drop_last() =~= ms);
    assert(targets.push(t).drop_last() =~= targets);
    lemma_put_direct_score(score_paths(es, ps), f.path@);
    let k = index_of_file(files, s.file_id);
    if k >= 0 {
        lemma_bump_score(
            score_symbols(es, syms, files),
            files[k].path@,
            30,
            symbol_reason(s.name@),
        );
    }
    lemma_bump_score(score_code(es, ms), m.path@, 20, text_reason(m.content@));
    let kt = index_of_file(files, t);
    if kt >= 0 {
        lemma_bump_score(score_targets(es, targets, files, src), files[kt].path@, 15, import_reason(src));
    }
}

} // verus!

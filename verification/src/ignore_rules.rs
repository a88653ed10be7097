//! Which paths of a workspace are ignored: build and tool directories always, and what
//! the workspace's `.gitignore` excludes.
use vstd::prelude::*;
use vstd::string::*;
use crate::path::{
    forward_slashes, lemma_parent_shorter, parent_path, path_parent, path_strip_prefix,
    strip_prefix_path, to_forward_slashes,
};
use crate::text::{
    chars_of, contains_str, ends_with_chars, has_substring, has_suffix, lines_chars, lines_of,
    string_from_chars, strings_equal, views,
};
use ignore::gitignore::{Gitignore, GitignoreBuilder};

verus! {

broadcast use vstd::string::group_string_axioms;

/// The root a `GitignoreBuilder` was made with.
pub uninterp spec fn builder_root(b: GitignoreBuilder) -> Seq<char>;

/// The lines a `GitignoreBuilder` accepted, in the order they were added.
pub uninterp spec fn builder_lines(b: GitignoreBuilder) -> Seq<Seq<char>>;

/// Whether `GitignoreBuilder::add_line` accepts `line` (a builder with default options
/// refuses only a line whose glob does not compile).
pub uninterp spec fn line_accepted(line: Seq<char>) -> bool;

/// The root of the builder a `Gitignore` was built from.
pub uninterp spec fn matcher_root(g: Gitignore) -> Seq<char>;

/// The lines of the builder a `Gitignore` was built from.
pub uninterp spec fn matcher_lines(g: Gitignore) -> Seq<Seq<char>>;

/// Whether `GitignoreBuilder::build` succeeds for a builder made with `root` that accepted
/// `lines` (it fails only when the glob set of those lines does not compile).
pub uninterp spec fn gitignore_builds(root: Seq<char>, lines: Seq<Seq<char>>) -> bool;

/// Whether a `Gitignore` built from a builder made with `root` and given `lines` ignores
/// `path` (a file, or a directory when `is_dir`): `matched(path, is_dir).is_ignore()`.
pub uninterp spec fn gitignore_ignores(
    root: Seq<char>,
    lines: Seq<Seq<char>>,
    path: Seq<char>,
    is_dir: bool,
) -> bool;

#[verifier::external_type_specification]
#[verifier::external_body]
pub struct ExGitignoreBuilder(ignore::gitignore::GitignoreBuilder);

#[verifier::external_type_specification]
#[verifier::external_body]
pub struct ExGitignore(ignore::gitignore::Gitignore);

/// `GitignoreBuilder::new(root)`: a builder made with `root` that holds no line yet.
#[verifier::external_body]
fn new_gitignore_builder(root: &str) -> (b: GitignoreBuilder)
    ensures
        builder_root(b) == root@,
        builder_lines(b) == Seq::<Seq<char>>::empty(),
{
    GitignoreBuilder::new(root)
}

/// `GitignoreBuilder::add_line(None, line)`, and whether it returned `Ok`. A refused line
/// leaves the builder as it was; an accepted one (comments and blank lines among them,
/// which add no glob) is appended to its lines.
#[verifier::external_body]
fn add_gitignore_line(b: &mut GitignoreBuilder, line: &str) -> (ok: bool)
    ensures
        ok == line_accepted(line@),
        builder_root(*final(b)) == builder_root(*old(b)),
        builder_lines(*final(b)) == if ok {
            builder_lines(*old(b)).push(line@)
        } else {
            builder_lines(*old(b))
        },
{
    b.add_line(None, line).is_ok()
}

/// `GitignoreBuilder::build`, `None` where it fails (a glob set that does not compile).
/// Whether it succeeds is named [`gitignore_builds`], a function of the builder's root and
/// lines; a built matcher holds that root and those lines.
#[verifier::external_body]
fn build_gitignore(b: &GitignoreBuilder) -> (r: Option<Gitignore>)
    ensures
        r is Some <==> gitignore_builds(builder_root(*b), builder_lines(*b)),
        r matches Some(g) ==> matcher_root(g) == builder_root(*b) && matcher_lines(g)
            == builder_lines(*b),
{
    b.build().ok()
}

/// `Gitignore::matched(path, is_dir).is_ignore()`; the answer is named
/// [`gitignore_ignores`].
#[verifier::external_body]
fn gitignore_matched(g: &Gitignore, path: &str, is_dir: bool) -> (r: bool)
    ensures
        r == gitignore_ignores(matcher_root(*g), matcher_lines(*g), path@, is_dir),
{
    g.matched(path, is_dir).is_ignore()
}

/// `s` without leading byte-order marks.
pub open spec fn strip_bom(s: Seq<char>) -> Seq<char>
    decreases s.len(),
{
    if s.len() > 0 && s[0] == '\u{feff}' {
        strip_bom(s.drop_first())
    } else {
        s
    }
}

/// Paths inside `.git`, `.workspaceos`, `node_modules` or `target` directories.
pub open spec fn always_ignored(path: Seq<char>) -> bool {
    let n = forward_slashes(path);
    has_substring(n, "/.git/"@) || has_suffix(n, "/.git"@) || has_substring(n, "/.workspaceos/"@)
        || has_suffix(n, "/.workspaceos"@) || has_substring(n, "/node_modules/"@) || has_substring(
        n,
        "/target/"@,
    )
}

/// The parents of `p`, nearest first, up to (and without) an empty or `.` parent.
pub open spec fn ancestor_dirs(p: Seq<char>) -> Seq<Seq<char>>
    decreases p.len(),
{
    match parent_path(p) {
        None => Seq::empty(),
        Some(q) => {
            if q.len() == 0 || q == "."@ {
                Seq::empty()
            } else if q.len() < p.len() {
                seq![q] + ancestor_dirs(q)
            } else {
                seq![q]
            }
        },
    }
}

/// The questions put to the `.gitignore` matcher for a path `rel` relative to the root,
/// in order: the path itself (with its own `is_dir`), then each of its parents as a
/// directory; paths are given with forward slashes.
pub open spec fn gitignore_queries_spec(rel: Seq<char>, is_dir: bool) -> Seq<(Seq<char>, bool)> {
    seq![(forward_slashes(rel), is_dir)] + ancestor_dirs(rel).map_values(
        |q: Seq<char>| (forward_slashes(q), true),
    )
}

/// Whether some query is ignored by a matcher built from `root` and `lines`.
pub open spec fn some_query_ignored(
    root: Seq<char>,
    lines: Seq<Seq<char>>,
    queries: Seq<(Seq<char>, bool)>,
) -> bool {
    exists|i: int|
        0 <= i < queries.len() && gitignore_ignores(root, lines, #[trigger] queries[i].0, queries[i].1)
}

/// Whether the workspace at `root` ignores `path`, given the root and lines its
/// `.gitignore` matcher was built from (`None` without one).
pub open spec fn ignored(
    root: Seq<char>,
    gitignore: Option<(Seq<char>, Seq<Seq<char>>)>,
    path: Seq<char>,
    is_dir: bool,
) -> bool {
    if always_ignored(path) {
        true
    } else {
        match gitignore {
            None => false,
            Some((groot, lines)) => match strip_prefix_path(path, root) {
                None => false,
                Some(rel) => some_query_ignored(groot, lines, gitignore_queries_spec(rel, is_dir)),
            },
        }
    }
}

/// The questions put to the `.gitignore` matcher for `rel`: the path itself, then its
/// parents as directories.
pub fn gitignore_queries(rel: &str, is_dir: bool) -> (r: Vec<(String, bool)>)
    ensures
        r@.map_values(|q: (String, bool)| (q.0@, q.1)) == gitignore_queries_spec(rel@, is_dir),
{
    let mut out: Vec<(String, bool)> = Vec::new();
    out.push((to_forward_slashes(rel), is_dir));
    let ghost head = seq![(forward_slashes(rel@), is_dir)];
    assert(out@.map_values(|q: (String, bool)| (q.0@, q.1)) =~= head);
    let mut current = String::from_str(rel);
    proof {
        reveal_strlit(".");
    }
    loop
        invariant
            head == seq![(forward_slashes(rel@), is_dir)],
            head + ancestor_dirs(rel@).map_values(|q: Seq<char>| (forward_slashes(q), true))
                == out@.map_values(|q: (String, bool)| (q.0@, q.1)) + ancestor_dirs(
                current@,
            ).map_values(|q: Seq<char>| (forward_slashes(q), true)),
        ensures
            out@.map_values(|q: (String, bool)| (q.0@, q.1)) == gitignore_queries_spec(
                rel@,
                is_dir,
            ),
        decreases current@.len(),
    {
        proof {
            lemma_parent_shorter(current@);
        }
        let ghost pre = out@.map_values(|q: (String, bool)| (q.0@, q.1));
        match path_parent(current.as_str()) {
            None => {
                assert(ancestor_dirs(current@).map_values(
                    |q: Seq<char>| (forward_slashes(q), true),
                ) =~= Seq::<(Seq<char>, bool)>::empty());
                assert(pre + Seq::<(Seq<char>, bool)>::empty() =~= pre);
                break;
            },
            Some(parent) => {
                if parent.as_str().is_empty() || strings_equal(parent.as_str(), ".") {
                    assert(ancestor_dirs(current@).map_values(
                        |q: Seq<char>| (forward_slashes(q), true),
                    ) =~= Seq::<(Seq<char>, bool)>::empty());
                    assert(pre + Seq::<(Seq<char>, bool)>::empty() =~= pre);
                    break;
                }
                let ghost rest = ancestor_dirs(parent@).map_values(
                    |q: Seq<char>| (forward_slashes(q), true),
                );
                assert(ancestor_dirs(current@) == seq![parent@] + ancestor_dirs(parent@));
                assert(ancestor_dirs(current@).map_values(
                    |q: Seq<char>| (forward_slashes(q), true),
                ) =~= seq![(forward_slashes(parent@), true)] + rest);
                out.push((to_forward_slashes(parent.as_str()), true));
                assert(out@.map_values(|q: (String, bool)| (q.0@, q.1)) =~= pre.push(
                    (forward_slashes(parent@), true),
                ));
                assert(pre + (seq![(forward_slashes(parent@), true)] + rest) =~= pre.push(
                    (forward_slashes(parent@), true),
                ) + rest);
                current = parent;
            },
        }
    }
    out
}

/// The lines of a `.gitignore` text that the builder accepts, in order.
pub open spec fn accepted_lines(lines: Seq<Seq<char>>) -> Seq<Seq<char>>
    decreases lines.len(),
{
    if lines.len() == 0 {
        Seq::empty()
    } else if line_accepted(lines.last()) {
        accepted_lines(lines.drop_last()).push(lines.last())
    } else {
        accepted_lines(lines.drop_last())
    }
}

/// The ignore rules of a workspace.
pub struct IgnoreMatcher {
    root: String,
    gitignore: Option<Gitignore>,
}

impl IgnoreMatcher {
    /// The workspace root.
    pub closed spec fn root_spec(&self) -> Seq<char> {
        self.root@
    }

    /// The root and the lines the `.gitignore` matcher was built from, if there is one.
    pub closed spec fn gitignore_spec(&self) -> Option<(Seq<char>, Seq<Seq<char>>)> {
        match self.gitignore {
            Some(g) => Some((matcher_root(g), matcher_lines(g))),
            None => None,
        }
    }

    /// A matcher for the workspace at `root`; `gitignore` holds the text of its
    /// `.gitignore`, or `None` when the file does not exist. Each line of the text (after
    /// leading byte-order marks) is offered to a builder made with `root`; a matcher that
    /// fails to build is left out, as is one for a missing file.
    pub fn new(root: &str, gitignore: Option<String>) -> (r: Self)
        ensures
            r.root_spec() == root@,
            gitignore is None ==> r.gitignore_spec() is None,
            gitignore matches Some(t) ==> (r.gitignore_spec() is Some <==> gitignore_builds(
                root@,
                accepted_lines(lines_of(strip_bom(t@))),
            )),
            r.gitignore_spec() matches Some(s) ==> gitignore matches Some(t) && s == (
                root@,
                accepted_lines(lines_of(strip_bom(t@))),
            ),
    {
        let gi = match gitignore {
            Some(t) => {
                let v = chars_of(t.as_str());
                let mut i: usize = 0;
                assert(v@.skip(0) =~= v@);
                while i < v.len() && v[i] == '\u{feff}'
                    invariant
                        i <= v.len(),
                        v@ == t@,
                        strip_bom(v@) == strip_bom(v@.skip(i as int)),
                    decreases v.len() - i,
                {
                    assert(v@.skip(i as int).drop_first() =~= v@.skip(i + 1));
                    i = i + 1;
                }
                let mut rest: Vec<char> = Vec::new();
                let mut k: usize = i;
                while k < v.len()
                    invariant
                        i <= k <= v.len(),
                        rest@ == v@.subrange(i as int, k as int),
                    decreases v.len() - k,
                {
                    rest.push(v[k]);
                    assert(v@.subrange(i as int, k + 1) == v@.subrange(i as int, k as int).push(
                        v@[k as int],
                    ));
                    k = k + 1;
                }
                assert(rest@ =~= v@.skip(i as int));
                assert(strip_bom(v@.skip(i as int)) == v@.skip(i as int));
                let lines = lines_chars(&rest);
                let ghost lv = views(lines@);
                let mut builder = new_gitignore_builder(root);
                let mut j: usize = 0;
                assert(lv.take(0) =~= Seq::<Seq<char>>::empty());
                while j < lines.len()
                    invariant
                        j <= lines.len(),
                        lv == views(lines@),
                        lv == lines_of(strip_bom(t@)),
                        builder_root(builder) == root@,
                        builder_lines(builder) == accepted_lines(lv.take(j as int)),
                    decreases lines.len() - j,
                {
                    assert(lv.take(j + 1).drop_last() =~= lv.take(j as int));
                    assert(lv.take(j + 1).last() == lines@[j as int]@);
                    let line = string_from_chars(&lines[j]);
                    add_gitignore_line(&mut builder, line.as_str());
                    j = j + 1;
                }
                assert(lv.take(lines.len() as int) =~= lv);
                build_gitignore(&builder)
            },
            None => None,
        };
        IgnoreMatcher { root: String::from_str(root), gitignore: gi }
    }

    /// Whether `path` is ignored; `is_dir` tells whether it names a directory.
    pub fn is_ignored(&self, path: &str, is_dir: bool) -> (r: bool)
        ensures
            r == ignored(self.root_spec(), self.gitignore_spec(), path@, is_dir),
    {
        let normalized = to_forward_slashes(path);
        let n = normalized.as_str();
        let nv = chars_of(n);
        let git = chars_of("/.git");
        let ws = chars_of("/.workspaceos");
        let forced = contains_str(n, "/.git/") || ends_with_chars(&nv, &git) || contains_str(
            n,
            "/.workspaceos/",
        ) || ends_with_chars(&nv, &ws) || contains_str(n, "/node_modules/") || contains_str(
            n,
            "/target/",
        );
        assert(forced == always_ignored(path@));
        if forced {
            return true;
        }
        let gi = match &self.gitignore {
            Some(g) => g,
            None => {
                return false;
            },
        };
        let relative = match path_strip_prefix(path, self.root.as_str()) {
            Some(rel) => rel,
            None => {
                return false;
            },
        };
        let queries = gitignore_queries(relative.as_str(), is_dir);
        let ghost qv = queries@.map_values(|q: (String, bool)| (q.0@, q.1));
        let ghost groot = matcher_root(*gi);
        let ghost glines = matcher_lines(*gi);
        assert(ignored(self.root_spec(), self.gitignore_spec(), path@, is_dir)
            == some_query_ignored(groot, glines, qv));
        let mut i: usize = 0;
        while i < queries.len()
            invariant
                i <= queries.len(),
                qv == queries@.map_values(|q: (String, bool)| (q.0@, q.1)),
                qv == gitignore_queries_spec(relative@, is_dir),
                ignored(self.root_spec(), self.gitignore_spec(), path@, is_dir)
                    == some_query_ignored(groot, glines, qv),
                groot == matcher_root(*gi),
                glines == matcher_lines(*gi),
                forall|j: int| 0 <= j < i ==> !gitignore_ignores(groot, glines, qv[j].0, qv[j].1),
            decreases queries.len() - i,
        {
            let q = &queries[i];
            assert(qv[i as int] == (q.0@, q.1));
            if gitignore_matched(gi, q.0.as_str(), q.1) {
                assert(gitignore_ignores(groot, glines, qv[i as int].0, qv[i as int].1));
                assert(some_query_ignored(groot, glines, qv));
                return true;
            }
            i = i + 1;
        }
        false
    }
}

/// Git metadata, the workspace's own storage, dependencies and build output are ignored
/// whatever the `.gitignore` says.
pub proof fn law_tool_directories_always_ignored(
    root: Seq<char>,
    gitignore: Option<(Seq<char>, Seq<Seq<char>>)>,
    path: Seq<char>,
    is_dir: bool,
)
    requires
        always_ignored(path),
    ensures
        ignored(root, gitignore, path, is_dir),
{
}

/// Without a `.gitignore`, only those directories are ignored.
pub proof fn law_no_gitignore_ignores_only_tool_directories(
    root: Seq<char>,
    path: Seq<char>,
    is_dir: bool,
)
    ensures
        ignored(root, None, path, is_dir) == always_ignored(path),
{
}

/// Everything below a directory that the `.gitignore` ignores is ignored, whatever the
/// rules say of the path itself (a `!` rule cannot re-include it).
pub proof fn law_below_ignored_directory_ignored(
    root: Seq<char>,
    groot: Seq<char>,
    lines: Seq<Seq<char>>,
    path: Seq<char>,
    is_dir: bool,
    dir: Seq<char>,
)
    requires
        strip_prefix_path(path, root) matches Some(rel) && ancestor_dirs(rel).contains(dir),
        gitignore_ignores(groot, lines, forward_slashes(dir), true),
    ensures
        ignored(root, Some((groot, lines)), path, is_dir),
{
    let rel = strip_prefix_path(path, root)->Some_0;
    let k = choose|k: int| 0 <= k < ancestor_dirs(rel).len() && ancestor_dirs(rel)[k] == dir;
    let qs = gitignore_queries_spec(rel, is_dir);
    assert(qs[k + 1] == (forward_slashes(dir), true));
    assert(gitignore_ignores(groot, lines, qs[k + 1].0, qs[k + 1].1));
}

/// The direct parent of a path, unless it is empty or `.`, is among the directories the
/// matcher is asked about.
pub proof fn law_parent_is_asked(rel: Seq<char>, dir: Seq<char>)
    requires
        parent_path(rel) == Some(dir),
        dir.len() > 0,
        dir != "."@,
    ensures
        ancestor_dirs(rel).contains(dir),
{
    lemma_parent_shorter(rel);
    assert(ancestor_dirs(rel)[0] == dir);
}

} // verus!

//! A model of Unix paths as strings, with the component semantics that `std::path`
//! gives them: comparison by components, joining, parents, prefix stripping and
//! file-name extensions. Every operation returns the exact string `std::path` returns.
use vstd::prelude::*;
use crate::text::{chars_of, join_with, lemma_split_nonempty, split_chars, split_sep, string_from_chars, views};

verus! {

// ---------------------------------------------------------------------------
// Specification
// ---------------------------------------------------------------------------

/// One component of a path.
pub enum Comp {
    Root,
    Cur,
    Parent,
    Normal(Seq<char>),
}

/// The path starts at the file-system root.
pub open spec fn rooted(s: Seq<char>) -> bool {
    s.len() > 0 && s[0] == '/'
}

/// The `/`-separated segments after the root.
pub open spec fn body(s: Seq<char>) -> Seq<Seq<char>> {
    if rooted(s) {
        split_sep(s.drop_first(), '/')
    } else {
        split_sep(s, '/')
    }
}

/// A segment that names no component: empty (from `//` or a trailing `/`) or `.`.
pub open spec fn skip_seg(g: Seq<char>) -> bool {
    g.len() == 0 || g == seq!['.']
}

/// A relative path that begins with `.` as its own segment.
pub open spec fn cur_lead(s: Seq<char>) -> bool {
    !rooted(s) && body(s)[0] == seq!['.']
}

/// The segments that are components, in order.
pub open spec fn kept(segs: Seq<Seq<char>>) -> Seq<Seq<char>>
    decreases segs.len(),
{
    if segs.len() == 0 {
        Seq::empty()
    } else if skip_seg(segs.last()) {
        kept(segs.drop_last())
    } else {
        kept(segs.drop_last()).push(segs.last())
    }
}

/// The component a kept segment stands for.
pub open spec fn seg_comp(g: Seq<char>) -> Comp {
    if g == seq!['.', '.'] {
        Comp::Parent
    } else {
        Comp::Normal(g)
    }
}

/// The leading component: the root, a leading `.`, or none.
pub open spec fn lead(s: Seq<char>) -> Seq<Comp> {
    if rooted(s) {
        seq![Comp::Root]
    } else if cur_lead(s) {
        seq![Comp::Cur]
    } else {
        Seq::empty()
    }
}

/// The components of a path (`Path::components`).
pub open spec fn components(s: Seq<char>) -> Seq<Comp> {
    lead(s) + kept(body(s)).map_values(|g: Seq<char>| seg_comp(g))
}

/// `a` is a prefix of `b`.
pub open spec fn seq_prefix<A>(a: Seq<A>, b: Seq<A>) -> bool {
    a.len() <= b.len() && b.take(a.len() as int) == a
}

/// `Path::starts_with`: the components of `base` begin the components of `s`.
pub open spec fn path_starts(s: Seq<char>, base: Seq<char>) -> bool {
    seq_prefix(components(base), components(s))
}

/// The string that the root marker and body segments spell.
pub open spec fn spell(is_rooted: bool, segs: Seq<Seq<char>>) -> Seq<char> {
    if is_rooted {
        seq!['/'] + join_with(segs, seq!['/'])
    } else {
        join_with(segs, seq!['/'])
    }
}

/// `segs` without its leading non-component segments.
pub open spec fn trim_front(segs: Seq<Seq<char>>) -> Seq<Seq<char>>
    decreases segs.len(),
{
    if segs.len() > 0 && skip_seg(segs[0]) {
        trim_front(segs.drop_first())
    } else {
        segs
    }
}

/// `segs` without its trailing non-component segments; the first segment stays when
/// `keep_first` holds.
pub open spec fn trim_back(segs: Seq<Seq<char>>, keep_first: bool) -> Seq<Seq<char>>
    decreases segs.len(),
{
    if segs.len() > (if keep_first {
        1int
    } else {
        0int
    }) && skip_seg(segs.last()) {
        trim_back(segs.drop_last(), keep_first)
    } else {
        segs
    }
}

/// `segs` without everything up to and including its first `m` component segments.
pub open spec fn drop_kept(segs: Seq<Seq<char>>, m: nat) -> Seq<Seq<char>>
    decreases segs.len(),
{
    if m == 0 || segs.len() == 0 {
        segs
    } else if skip_seg(segs[0]) {
        drop_kept(segs.drop_first(), m)
    } else {
        drop_kept(segs.drop_first(), (m - 1) as nat)
    }
}

/// Index of the last component segment, or -1.
pub open spec fn last_kept(segs: Seq<Seq<char>>) -> int
    decreases segs.len(),
{
    if segs.len() == 0 {
        -1
    } else if !skip_seg(segs.last()) {
        segs.len() - 1
    } else {
        last_kept(segs.drop_last())
    }
}

/// `PathBuf::push` / `Path::join`: an absolute `p` replaces `s`; otherwise `p` is appended,
/// with a `/` between them unless `s` is empty or already ends with one.
pub open spec fn join_path(s: Seq<char>, p: Seq<char>) -> Seq<char> {
    if rooted(p) {
        p
    } else if s.len() == 0 || s.last() == '/' {
        s + p
    } else {
        s + seq!['/'] + p
    }
}

/// `Path::parent`: `None` for a path without components or for the root alone.
pub open spec fn parent_path(s: Seq<char>) -> Option<Seq<char>> {
    let segs = body(s);
    let t = last_kept(segs);
    if t < 0 && !cur_lead(s) {
        None
    } else {
        let cut = if t < 0 {
            0
        } else {
            t
        };
        Some(spell(rooted(s), trim_back(segs.take(cut), cur_lead(s))))
    }
}

/// `Path::strip_prefix`: what is left of `s` once the components of `base` are removed.
pub open spec fn strip_prefix_path(s: Seq<char>, base: Seq<char>) -> Option<Seq<char>> {
    if !path_starts(s, base) {
        None
    } else if components(base).len() == 0 {
        Some(spell(rooted(s), trim_back(body(s), cur_lead(s))))
    } else {
        Some(
            join_with(
                trim_back(trim_front(drop_kept(body(s), kept(body(base)).len())), false),
                seq!['/'],
            ),
        )
    }
}

/// `Path::file_name`: the last component, if it is a normal one.
pub open spec fn file_name_of(s: Seq<char>) -> Option<Seq<char>> {
    let segs = body(s);
    let t = last_kept(segs);
    if t >= 0 && segs[t] != seq!['.', '.'] {
        Some(segs[t])
    } else {
        None
    }
}

/// Index of the last `.` in `g`, or -1.
pub open spec fn last_dot(g: Seq<char>) -> int
    decreases g.len(),
{
    if g.len() == 0 {
        -1
    } else if g.last() == '.' {
        g.len() - 1
    } else {
        last_dot(g.drop_last())
    }
}

/// The extension of a file name: after its last `.`, unless that `.` begins the name.
pub open spec fn name_extension(g: Seq<char>) -> Option<Seq<char>> {
    let d = last_dot(g);
    if d <= 0 {
        None
    } else {
        Some(g.skip(d + 1))
    }
}

/// The stem of a file name: before its last `.`, unless that `.` begins the name.
pub open spec fn name_stem(g: Seq<char>) -> Seq<char> {
    let d = last_dot(g);
    if d <= 0 {
        g
    } else {
        g.take(d)
    }
}

/// `Path::extension`.
pub open spec fn extension_of(s: Seq<char>) -> Option<Seq<char>> {
    match file_name_of(s) {
        Some(g) => name_extension(g),
        None => None,
    }
}

/// `Path::with_extension`: the file name's extension replaced by `ext` (removed when `ext`
/// is empty); a path without a file name is returned unchanged.
pub open spec fn with_extension_path(s: Seq<char>, ext: Seq<char>) -> Seq<char> {
    match file_name_of(s) {
        None => s,
        Some(g) => {
            let segs = body(s);
            let stem = name_stem(g);
            let named = if ext.len() == 0 {
                stem
            } else {
                stem + seq!['.'] + ext
            };
            spell(rooted(s), segs.take(last_kept(segs)).push(named))
        },
    }
}

/// Backslashes turned into forward slashes.
pub open spec fn forward_slashes(s: Seq<char>) -> Seq<char> {
    s.map_values(|c: char| if c == '\\' { '/' } else { c })
}

// ---------------------------------------------------------------------------
// Lemmas
// ---------------------------------------------------------------------------

proof fn lemma_kept_len(segs: Seq<Seq<char>>)
    ensures
        kept(segs).len() <= segs.len(),
    decreases segs.len(),
{
    if segs.len() > 0 {
        lemma_kept_len(segs.drop_last());
    }
}

/// The prefix test on components splits into the leading component and the kept segments.
proof fn lemma_starts_iff(s: Seq<char>, base: Seq<char>)
    ensures
        path_starts(s, base) == (components(base).len() == 0 || (lead(s) == lead(base)
            && seq_prefix(kept(body(base)), kept(body(s))))),
{
    let cs = components(s);
    let cb = components(base);
    let ks = kept(body(s));
    let kb = kept(body(base));
    let ms = ks.map_values(|g: Seq<char>| seg_comp(g));
    let mb = kb.map_values(|g: Seq<char>| seg_comp(g));
    assert forall|i: int| 0 <= i < ms.len() implies !(#[trigger] ms[i] is Root) && !(ms[i] is Cur) by {}
    assert forall|i: int| 0 <= i < mb.len() implies !(#[trigger] mb[i] is Root) && !(mb[i] is Cur) by {}
    if path_starts(s, base) && cb.len() > 0 {
        // the leading components agree
        if lead(base).len() > 0 {
            assert(cb[0] == cs[0]);
            assert(lead(s).len() > 0);
            assert(lead(s) =~= lead(base));
        } else {
            assert(cb[0] == mb[0]);
            assert(cs[0] == cb[0]);
            assert(lead(s).len() == 0);
            assert(lead(s) =~= lead(base));
        }
        let n = lead(s).len();
        assert forall|i: int| 0 <= i < kb.len() implies ks[i] == kb[i] by {
            assert(cs[n + i] == cb[n + i]);
            assert(cs[n + i] == ms[i]);
            assert(cb[n + i] == mb[i]);
            if kb[i] == seq!['.', '.'] {
                assert(ks[i] =~= seq!['.', '.']);
            }
        }
        assert(ks.take(kb.len() as int) =~= kb);
    }
    if cb.len() > 0 && lead(s) == lead(base) && seq_prefix(kb, ks) {
        let n = lead(s).len();
        assert forall|i: int| 0 <= i < cb.len() implies cs[i] == cb[i] by {
            if i >= n {
                assert(ks[i - n] == kb[i - n]);
            }
        }
        assert(cs.take(cb.len() as int) =~= cb);
    }
    if cb.len() == 0 {
        assert(cs.take(0) =~= cb);
    }
}

proof fn lemma_join_update_last(parts: Seq<Seq<char>>, ch: char, sep: Seq<char>)
    requires
        parts.len() >= 1,
    ensures
        join_with(parts.update(parts.len() - 1, parts.last().push(ch)), sep) == join_with(
            parts,
            sep,
        ).push(ch),
{
    let u = parts.update(parts.len() - 1, parts.last().push(ch));
    if parts.len() == 1 {
    } else {
        assert(u.drop_last() =~= parts.drop_last());
        assert(join_with(u, sep) == join_with(u.drop_last(), sep) + sep + u.last());
        assert(join_with(parts, sep) == join_with(parts.drop_last(), sep) + sep + parts.last());
        assert(join_with(u, sep) =~= join_with(parts, sep).push(ch));
    }
}

/// Splitting at `c` and joining with `c` gives the string back.
pub proof fn lemma_join_split(x: Seq<char>, c: char)
    ensures
        join_with(split_sep(x, c), seq![c]) == x,
    decreases x.len(),
{
    if x.len() > 0 {
        let init = split_sep(x.drop_last(), c);
        lemma_join_split(x.drop_last(), c);
        lemma_split_nonempty(x.drop_last(), c);
        if x.last() == c {
            let parts = init.push(Seq::empty());
            assert(parts.drop_last() =~= init);
            assert(join_with(parts, seq![c]) == join_with(init, seq![c]) + seq![c] + parts.last());
            assert(join_with(parts, seq![c]) =~= x);
        } else {
            lemma_join_update_last(init, x.last(), seq![c]);
            assert(x.drop_last().push(x.last()) =~= x);
        }
    }
}

proof fn lemma_join_take_len(segs: Seq<Seq<char>>, m: int, sep: Seq<char>)
    requires
        1 <= m <= segs.len(),
        sep.len() == 1,
    ensures
        join_with(segs, sep).len() >= join_with(segs.take(m), sep).len() + (segs.len() - m),
    decreases segs.len(),
{
    if m == segs.len() {
        assert(segs.take(m) =~= segs);
    } else {
        let d = segs.drop_last();
        lemma_join_take_len(d, m, sep);
        assert(d.take(m) =~= segs.take(m));
        assert(join_with(segs, sep) == join_with(d, sep) + sep + segs.last());
    }
}

proof fn lemma_join_at_least_seg(segs: Seq<Seq<char>>, t: int, sep: Seq<char>)
    requires
        0 <= t < segs.len(),
        sep.len() == 1,
    ensures
        join_with(segs, sep).len() >= segs[t].len(),
{
    lemma_join_take_len(segs, t + 1, sep);
    let p = segs.take(t + 1);
    if t == 0 {
        assert(p.len() == 1);
    } else {
        assert(join_with(p, sep) == join_with(p.drop_last(), sep) + sep + p.last());
    }
}

proof fn lemma_trim_back_take(x: Seq<Seq<char>>, k: bool) -> (j: int)
    ensures
        0 <= j <= x.len(),
        trim_back(x, k) == x.take(j),
        k && x.len() >= 1 ==> j >= 1,
    decreases x.len(),
{
    if x.len() > (if k {
        1int
    } else {
        0int
    }) && skip_seg(x.last()) {
        let j = lemma_trim_back_take(x.drop_last(), k);
        assert(x.drop_last().take(j) =~= x.take(j));
        j
    } else {
        assert(x.take(x.len() as int) =~= x);
        x.len() as int
    }
}

/// A path spells its root marker and body segments.
pub proof fn lemma_spell_body(s: Seq<char>)
    ensures
        s == spell(rooted(s), body(s)),
{
    if rooted(s) {
        lemma_join_split(s.drop_first(), '/');
        assert(seq!['/'] + s.drop_first() =~= s);
    } else {
        lemma_join_split(s, '/');
    }
}

/// A parent is strictly shorter than the path it is the parent of.
pub proof fn lemma_parent_shorter(s: Seq<char>)
    ensures
        parent_path(s) matches Some(q) ==> q.len() < s.len(),
{
    let segs = body(s);
    let t = last_kept(segs);
    lemma_last_kept_bounds(segs);
    lemma_split_len(if rooted(s) {
        s.drop_first()
    } else {
        s
    }, '/');
    if parent_path(s) is Some {
        let cut = if t < 0 {
            0
        } else {
            t
        };
        let x = segs.take(cut);
        let j = lemma_trim_back_take(x, cur_lead(s));
        let tr = x.take(j);
        assert(tr =~= segs.take(j));
        lemma_spell_body(s);
        let sep = seq!['/'];
        if j >= 1 {
            lemma_join_take_len(segs, j, sep);
        } else {
            assert(join_with(segs.take(j), sep).len() == 0);
            if t >= 0 {
                lemma_join_at_least_seg(segs, t, sep);
            } else {
                lemma_join_at_least_seg(segs, 0, sep);
            }
        }
    }
}

proof fn lemma_split_len(s: Seq<char>, sep: char)
    ensures
        split_sep(s, sep).len() >= 1,
{
    lemma_split_nonempty(s, sep);
}

// ---------------------------------------------------------------------------
// Executable building blocks
// ---------------------------------------------------------------------------

/// Whether two character vectors are equal.
pub fn chars_eq(a: &Vec<char>, b: &Vec<char>) -> (r: bool)
    ensures
        r == (a@ == b@),
{
    if a.len() != b.len() {
        return false;
    }
    let mut i: usize = 0;
    while i < a.len()
        invariant
            a.len() == b.len(),
            i <= a.len(),
            forall|j: int| 0 <= j < i ==> a@[j] == b@[j],
        decreases a.len() - i,
    {
        if a[i] != b[i] {
            return false;
        }
        i = i + 1;
    }
    assert(a@ =~= b@);
    true
}

fn is_skip(g: &Vec<char>) -> (r: bool)
    ensures
        r == skip_seg(g@),
{
    if g.len() == 0 {
        return true;
    }
    if g.len() == 1 && g[0] == '.' {
        assert(g@ =~= seq!['.']);
        return true;
    }
    assert(g@.len() != 1 || g@[0] != '.');
    false
}

fn is_dotdot(g: &Vec<char>) -> (r: bool)
    ensures
        r == (g@ == seq!['.', '.']),
{
    if g.len() == 2 && g[0] == '.' && g[1] == '.' {
        assert(g@ =~= seq!['.', '.']);
        true
    } else {
        false
    }
}

/// Whether the path is rooted, and its body segments.
fn path_body(s: &Vec<char>) -> (r: (bool, Vec<Vec<char>>))
    ensures
        r.0 == rooted(s@),
        views(r.1@) == body(s@),
        r.1.len() >= 1,
{
    let is_rooted = s.len() > 0 && s[0] == '/';
    if is_rooted {
        let mut rest: Vec<char> = Vec::new();
        let mut i: usize = 1;
        while i < s.len()
            invariant
                1 <= i <= s.len(),
                rest@ == s@.subrange(1, i as int),
            decreases s.len() - i,
        {
            rest.push(s[i]);
            assert(s@.subrange(1, i + 1) == s@.subrange(1, i as int).push(s@[i as int]));
            i = i + 1;
        }
        assert(rest@ =~= s@.drop_first());
        let segs = split_chars(&rest, '/');
        proof {
            lemma_split_len(rest@, '/');
        }
        (true, segs)
    } else {
        let segs = split_chars(s, '/');
        proof {
            lemma_split_len(s@, '/');
        }
        (false, segs)
    }
}

/// The component segments of `segs`.
fn kept_segs(segs: &Vec<Vec<char>>) -> (r: Vec<Vec<char>>)
    ensures
        views(r@) == kept(views(segs@)),
{
    let ghost sv = views(segs@);
    let mut out: Vec<Vec<char>> = Vec::new();
    let mut i: usize = 0;
    assert(sv.take(0) =~= Seq::<Seq<char>>::empty());
    while i < segs.len()
        invariant
            i <= segs.len(),
            sv == views(segs@),
            views(out@) == kept(sv.take(i as int)),
        decreases segs.len() - i,
    {
        assert(sv.take(i + 1).drop_last() =~= sv.take(i as int));
        assert(sv.take(i + 1).last() == segs@[i as int]@);
        if !is_skip(&segs[i]) {
            let ghost pre = out@;
            out.push(segs[i].clone());
            assert(views(out@) =~= views(pre).push(segs@[i as int]@));
        }
        i = i + 1;
    }
    assert(sv.take(segs.len() as int) =~= sv);
    out
}

/// Whether `a` is a prefix of `b`, segment by segment.
fn segs_prefix(a: &Vec<Vec<char>>, b: &Vec<Vec<char>>) -> (r: bool)
    ensures
        r == seq_prefix(views(a@), views(b@)),
{
    if a.len() > b.len() {
        return false;
    }
    let mut i: usize = 0;
    while i < a.len()
        invariant
            a.len() <= b.len(),
            i <= a.len(),
            forall|j: int| 0 <= j < i ==> a@[j]@ == b@[j]@,
        decreases a.len() - i,
    {
        if !chars_eq(&a[i], &b[i]) {
            assert(views(b@).take(a.len() as int)[i as int] != views(a@)[i as int]);
            return false;
        }
        i = i + 1;
    }
    assert(views(b@).take(a.len() as int) =~= views(a@));
    true
}

/// Code of the leading component: 0 none, 1 root, 2 current directory.
fn lead_code(is_rooted: bool, segs: &Vec<Vec<char>>) -> (r: u8)
    requires
        segs.len() >= 1,
    ensures
        r == 0 || r == 1 || r == 2,
        (r == 1) == is_rooted,
        (r == 2) == (!is_rooted && segs@[0]@ == seq!['.']),
{
    if is_rooted {
        1
    } else if segs[0].len() == 1 && segs[0][0] == '.' {
        assert(segs@[0]@ =~= seq!['.']);
        2
    } else {
        assert(segs@[0]@.len() != 1 || segs@[0]@[0] != '.');
        0
    }
}

proof fn lemma_lead_code(s: Seq<char>, code: u8)
    requires
        code == 0 || code == 1 || code == 2,
        (code == 1) == rooted(s),
        (code == 2) == cur_lead(s),
    ensures
        lead(s).len() == (if code == 0 {
            0int
        } else {
            1int
        }),
{
}

/// `segs` joined with `/`.
fn join_segs(segs: &Vec<Vec<char>>) -> (r: Vec<char>)
    ensures
        r@ == join_with(views(segs@), seq!['/']),
{
    let ghost sv = views(segs@);
    let mut out: Vec<char> = Vec::new();
    let mut i: usize = 0;
    assert(sv.take(0) =~= Seq::<Seq<char>>::empty());
    while i < segs.len()
        invariant
            i <= segs.len(),
            sv == views(segs@),
            out@ == join_with(sv.take(i as int), seq!['/']),
        decreases segs.len() - i,
    {
        assert(sv.take(i + 1).drop_last() =~= sv.take(i as int));
        assert(sv.take(i + 1).last() == segs@[i as int]@);
        let ghost pre = out@;
        if i > 0 {
            out.push('/');
        }
        let mut j: usize = 0;
        let ghost mid = out@;
        while j < segs[i].len()
            invariant
                i < segs.len(),
                j <= segs@[i as int]@.len(),
                out@ == mid + segs@[i as int]@.take(j as int),
            decreases segs@[i as int]@.len() - j,
        {
            out.push(segs[i][j]);
            assert(segs@[i as int]@.take(j + 1) == segs@[i as int]@.take(j as int).push(
                segs@[i as int]@[j as int],
            ));
            j = j + 1;
        }
        assert(segs@[i as int]@.take(j as int) =~= segs@[i as int]@);
        proof {
            if i == 0 {
                assert(sv.take(1) =~= seq![sv[0]]);
                assert(out@ =~= sv[0]);
            } else {
                assert(out@ =~= pre + seq!['/'] + sv[i as int]);
            }
        }
        i = i + 1;
    }
    assert(sv.take(segs.len() as int) =~= sv);
    out
}

/// The string spelled by a root marker and segments.
fn spell_exec(is_rooted: bool, segs: &Vec<Vec<char>>) -> (r: Vec<char>)
    ensures
        r@ == spell(is_rooted, views(segs@)),
{
    let joined = join_segs(segs);
    if is_rooted {
        let mut out: Vec<char> = Vec::new();
        out.push('/');
        let mut k: usize = 0;
        while k < joined.len()
            invariant
                k <= joined.len(),
                out@ == seq!['/'] + joined@.take(k as int),
            decreases joined.len() - k,
        {
            out.push(joined[k]);
            assert(joined@.take(k + 1) == joined@.take(k as int).push(joined@[k as int]));
            k = k + 1;
        }
        assert(joined@.take(joined.len() as int) =~= joined@);
        out
    } else {
        joined
    }
}

/// `trim_back` on a vector of segments.
fn trim_back_exec(segs: Vec<Vec<char>>, keep_first: bool) -> (r: Vec<Vec<char>>)
    ensures
        views(r@) == trim_back(views(segs@), keep_first),
    decreases segs.len(),
{
    let floor: usize = if keep_first {
        1
    } else {
        0
    };
    if segs.len() > floor && is_skip(&segs[segs.len() - 1]) {
        let mut shorter = segs;
        let ghost pre = shorter@;
        shorter.pop();
        assert(views(shorter@) =~= views(pre).drop_last());
        trim_back_exec(shorter, keep_first)
    } else {
        segs
    }
}

/// The segments from index `start` on.
fn segs_from(segs: &Vec<Vec<char>>, start: usize) -> (r: Vec<Vec<char>>)
    requires
        start <= segs.len(),
    ensures
        views(r@) == views(segs@).skip(start as int),
{
    let mut out: Vec<Vec<char>> = Vec::new();
    let mut i: usize = start;
    while i < segs.len()
        invariant
            start <= i <= segs.len(),
            views(out@) == views(segs@).subrange(start as int, i as int),
        decreases segs.len() - i,
    {
        let ghost pre = out@;
        out.push(segs[i].clone());
        assert(views(out@) =~= views(pre).push(segs@[i as int]@));
        assert(views(segs@).subrange(start as int, i + 1) =~= views(segs@).subrange(
            start as int,
            i as int,
        ).push(segs@[i as int]@));
        i = i + 1;
    }
    assert(views(segs@).subrange(start as int, segs.len() as int) =~= views(segs@).skip(
        start as int,
    ));
    out
}

/// The first `n` segments.
fn segs_take(segs: &Vec<Vec<char>>, n: usize) -> (r: Vec<Vec<char>>)
    requires
        n <= segs.len(),
    ensures
        views(r@) == views(segs@).take(n as int),
{
    let mut out: Vec<Vec<char>> = Vec::new();
    let mut i: usize = 0;
    while i < n
        invariant
            i <= n <= segs.len(),
            views(out@) == views(segs@).take(i as int),
        decreases n - i,
    {
        let ghost pre = out@;
        out.push(segs[i].clone());
        assert(views(out@) =~= views(pre).push(segs@[i as int]@));
        assert(views(segs@).take(i + 1) =~= views(segs@).take(i as int).push(segs@[i as int]@));
        i = i + 1;
    }
    out
}

proof fn lemma_trim_front_skip(segs: Seq<Seq<char>>, i: int)
    requires
        0 <= i <= segs.len(),
        forall|j: int| 0 <= j < i ==> skip_seg(#[trigger] segs[j]),
    ensures
        trim_front(segs) == trim_front(segs.skip(i)),
    decreases i,
{
    if i > 0 {
        assert(segs.skip(1) =~= segs.drop_first());
        let t = segs.drop_first();
        assert forall|j: int| 0 <= j < i - 1 implies skip_seg(#[trigger] t[j]) by {
            assert(t[j] == segs[j + 1]);
        }
        lemma_trim_front_skip(t, i - 1);
        assert(t.skip(i - 1) =~= segs.skip(i));
    } else {
        assert(segs.skip(0) =~= segs);
    }
}

/// `trim_front` on a vector of segments.
fn trim_front_exec(segs: &Vec<Vec<char>>) -> (r: Vec<Vec<char>>)
    ensures
        views(r@) == trim_front(views(segs@)),
{
    let mut i: usize = 0;
    while i < segs.len() && is_skip(&segs[i])
        invariant
            i <= segs.len(),
            forall|j: int| 0 <= j < i ==> skip_seg(#[trigger] views(segs@)[j]),
        decreases segs.len() - i,
    {
        i = i + 1;
    }
    proof {
        lemma_trim_front_skip(views(segs@), i as int);
        let t = views(segs@).skip(i as int);
        if t.len() > 0 {
            assert(t[0] == segs@[i as int]@);
        }
    }
    segs_from(segs, i)
}

/// Index after the first `m` component segments, with `drop_kept` as its meaning.
fn drop_kept_index(segs: &Vec<Vec<char>>, m: usize) -> (r: usize)
    ensures
        r <= segs.len(),
        views(segs@).skip(r as int) == drop_kept(views(segs@), m as nat),
{
    let ghost sv = views(segs@);
    let mut i: usize = 0;
    let mut left: usize = m;
    assert(sv.skip(0) =~= sv);
    while left > 0 && i < segs.len()
        invariant
            i <= segs.len(),
            sv == views(segs@),
            drop_kept(sv, m as nat) == drop_kept(sv.skip(i as int), left as nat),
        decreases segs.len() - i,
    {
        let ghost t = sv.skip(i as int);
        assert(t.drop_first() =~= sv.skip(i + 1));
        assert(t[0] == segs@[i as int]@);
        if !is_skip(&segs[i]) {
            left = left - 1;
        }
        i = i + 1;
    }
    i
}

/// Index of the last component segment, or `None`.
fn last_kept_exec(segs: &Vec<Vec<char>>) -> (r: Option<usize>)
    ensures
        match r {
            Some(t) => t < segs.len() && t as int == last_kept(views(segs@)),
            None => last_kept(views(segs@)) == -1,
        },
{
    let ghost sv = views(segs@);
    let mut i: usize = segs.len();
    assert(sv.take(segs.len() as int) =~= sv);
    while i > 0 && is_skip(&segs[i - 1])
        invariant
            i <= segs.len(),
            sv == views(segs@),
            last_kept(sv) == last_kept(sv.take(i as int)),
        decreases i,
    {
        assert(sv.take(i as int).drop_last() =~= sv.take(i - 1));
        assert(sv.take(i as int).last() == segs@[i - 1]@);
        i = i - 1;
    }
    proof {
        assert(sv.take(segs.len() as int) =~= sv);
    }
    if i == 0 {
        assert(sv.take(0).len() == 0);
        None
    } else {
        assert(sv.take(i as int).last() == segs@[i - 1]@);
        Some(i - 1)
    }
}

proof fn lemma_last_kept_bounds(segs: Seq<Seq<char>>)
    ensures
        -1 <= last_kept(segs) < segs.len(),
        last_kept(segs) >= 0 ==> !skip_seg(segs[last_kept(segs)]),
    decreases segs.len(),
{
    if segs.len() > 0 && skip_seg(segs.last()) {
        lemma_last_kept_bounds(segs.drop_last());
    }
}

// ---------------------------------------------------------------------------
// Public operations
// ---------------------------------------------------------------------------

/// The component segments of a path's body, in order.
pub fn kept_segments(s: &Vec<char>) -> (r: Vec<Vec<char>>)
    ensures
        views(r@) == kept(body(s@)),
{
    let (_is_rooted, segs) = path_body(s);
    kept_segs(&segs)
}

/// `Path::starts_with` on character vectors.
pub fn path_starts_chars(s: &Vec<char>, base: &Vec<char>) -> (r: bool)
    ensures
        r == path_starts(s@, base@),
{
    proof {
        lemma_starts_iff(s@, base@);
    }
    let (sr, sb) = path_body(s);
    let (br, bb) = path_body(base);
    let sc = lead_code(sr, &sb);
    let bc = lead_code(br, &bb);
    proof {
        lemma_lead_code(s@, sc);
        lemma_lead_code(base@, bc);
    }
    let sk = kept_segs(&sb);
    let bk = kept_segs(&bb);
    if bc == 0 && bk.len() == 0 {
        assert(components(base@).len() == 0);
        return true;
    }
    assert(components(base@).len() > 0);
    if sc != bc {
        assert(lead(s@) != lead(base@)) by {
            if sc == 0 || bc == 0 {
                assert(lead(s@).len() != lead(base@).len());
            } else {
                assert(lead(s@)[0] != lead(base@)[0]);
            }
        }
        return false;
    }
    assert(lead(s@) =~= lead(base@));
    segs_prefix(&bk, &sk)
}

/// `Path::starts_with`: whether the components of `base` begin the components of `path`.
pub fn path_starts_with(path: &str, base: &str) -> (r: bool)
    ensures
        r == path_starts(path@, base@),
{
    let s = chars_of(path);
    let b = chars_of(base);
    path_starts_chars(&s, &b)
}

/// `Path::join`.
pub fn path_join(base: &str, p: &str) -> (r: String)
    ensures
        r@ == join_path(base@, p@),
{
    let b = chars_of(base);
    let pv = chars_of(p);
    if pv.len() > 0 && pv[0] == '/' {
        return string_from_chars(&pv);
    }
    let mut out = b.clone();
    if b.len() > 0 && b[b.len() - 1] != '/' {
        out.push('/');
    }
    let mut i: usize = 0;
    let ghost mid = out@;
    while i < pv.len()
        invariant
            i <= pv.len(),
            out@ == mid + pv@.take(i as int),
        decreases pv.len() - i,
    {
        out.push(pv[i]);
        assert(pv@.take(i + 1) == pv@.take(i as int).push(pv@[i as int]));
        i = i + 1;
    }
    assert(pv@.take(pv.len() as int) =~= pv@);
    proof {
        if b.len() > 0 && b@.last() != '/' {
            assert(mid =~= b@ + seq!['/']);
        } else {
            assert(mid =~= b@);
        }
    }
    string_from_chars(&out)
}

/// `Path::parent` on character vectors.
pub fn path_parent_chars(s: &Vec<char>) -> (r: Option<Vec<char>>)
    ensures
        match r {
            Some(p) => parent_path(s@) == Some(p@),
            None => parent_path(s@) is None,
        },
{
    let (is_rooted, segs) = path_body(s);
    let code = lead_code(is_rooted, &segs);
    let cur = code == 2;
    let cut: usize = match last_kept_exec(&segs) {
        Some(t) => t,
        None => {
            if !cur {
                return None;
            }
            0
        },
    };
    let taken = segs_take(&segs, cut);
    let trimmed = trim_back_exec(taken, cur);
    Some(spell_exec(is_rooted, &trimmed))
}

/// `Path::parent`.
pub fn path_parent(p: &str) -> (r: Option<String>)
    ensures
        match r {
            Some(q) => parent_path(p@) == Some(q@),
            None => parent_path(p@) is None,
        },
{
    let s = chars_of(p);
    match path_parent_chars(&s) {
        Some(v) => Some(string_from_chars(&v)),
        None => None,
    }
}

/// `Path::strip_prefix` on character vectors.
pub fn path_strip_prefix_chars(s: &Vec<char>, base: &Vec<char>) -> (r: Option<Vec<char>>)
    ensures
        match r {
            Some(p) => strip_prefix_path(s@, base@) == Some(p@),
            None => strip_prefix_path(s@, base@) is None,
        },
{
    if !path_starts_chars(s, base) {
        return None;
    }
    let (is_rooted, segs) = path_body(s);
    let code = lead_code(is_rooted, &segs);
    let (br, bb) = path_body(base);
    let bc = lead_code(br, &bb);
    proof {
        lemma_lead_code(base@, bc);
    }
    let bk = kept_segs(&bb);
    if bc == 0 && bk.len() == 0 {
        assert(components(base@).len() == 0);
        let trimmed = trim_back_exec(segs, code == 2);
        return Some(spell_exec(is_rooted, &trimmed));
    }
    assert(components(base@).len() > 0);
    let j = drop_kept_index(&segs, bk.len());
    let rest = segs_from(&segs, j);
    let front = trim_front_exec(&rest);
    let back = trim_back_exec(front, false);
    Some(join_segs(&back))
}

/// `Path::strip_prefix`: the rest of `path` after the components of `base`, or `None` when
/// `path` does not start with `base`.
pub fn path_strip_prefix(path: &str, base: &str) -> (r: Option<String>)
    ensures
        match r {
            Some(q) => strip_prefix_path(path@, base@) == Some(q@),
            None => strip_prefix_path(path@, base@) is None,
        },
{
    let s = chars_of(path);
    let b = chars_of(base);
    match path_strip_prefix_chars(&s, &b) {
        Some(v) => Some(string_from_chars(&v)),
        None => None,
    }
}

/// Index of the last `.` in `g`.
fn last_dot_exec(g: &Vec<char>) -> (r: Option<usize>)
    ensures
        match r {
            Some(d) => d < g.len() && d as int == last_dot(g@),
            None => last_dot(g@) == -1,
        },
{
    let mut i: usize = g.len();
    assert(g@.take(g.len() as int) =~= g@);
    while i > 0 && g[i - 1] != '.'
        invariant
            i <= g.len(),
            last_dot(g@) == last_dot(g@.take(i as int)),
        decreases i,
    {
        assert(g@.take(i as int).drop_last() =~= g@.take(i - 1));
        i = i - 1;
    }
    assert(g@.take(g.len() as int) =~= g@);
    if i == 0 {
        None
    } else {
        assert(g@.take(i as int).last() == '.');
        Some(i - 1)
    }
}

/// The characters of `g` from index `a` up to `b`.
fn sub_chars(g: &Vec<char>, a: usize, b: usize) -> (r: Vec<char>)
    requires
        a <= b <= g.len(),
    ensures
        r@ == g@.subrange(a as int, b as int),
{
    let mut out: Vec<char> = Vec::new();
    let mut i: usize = a;
    while i < b
        invariant
            a <= i <= b <= g.len(),
            out@ == g@.subrange(a as int, i as int),
        decreases b - i,
    {
        out.push(g[i]);
        assert(g@.subrange(a as int, i + 1) == g@.subrange(a as int, i as int).push(g@[i as int]));
        i = i + 1;
    }
    out
}

/// `Path::extension`.
pub fn path_extension(path: &str) -> (r: Option<String>)
    ensures
        match r {
            Some(q) => extension_of(path@) == Some(q@),
            None => extension_of(path@) is None,
        },
{
    let s = chars_of(path);
    let (_is_rooted, segs) = path_body(&s);
    let t = match last_kept_exec(&segs) {
        Some(t) => t,
        None => {
            return None;
        },
    };
    if is_dotdot(&segs[t]) {
        return None;
    }
    let name = &segs[t];
    match last_dot_exec(name) {
        Some(d) => {
            if d == 0 {
                None
            } else {
                let e = sub_chars(name, d + 1, name.len());
                assert(e@ =~= name@.skip(d + 1));
                Some(string_from_chars(&e))
            }
        },
        None => None,
    }
}

/// `Path::with_extension`.
pub fn path_with_extension(path: &str, ext: &str) -> (r: String)
    ensures
        r@ == with_extension_path(path@, ext@),
{
    let s = chars_of(path);
    let (is_rooted, segs) = path_body(&s);
    let t = match last_kept_exec(&segs) {
        Some(t) => t,
        None => {
            return string_from_chars(&s);
        },
    };
    if is_dotdot(&segs[t]) {
        return string_from_chars(&s);
    }
    let name = &segs[t];
    let mut stem: Vec<char> = match last_dot_exec(name) {
        Some(d) => {
            if d == 0 {
                name.clone()
            } else {
                let st = sub_chars(name, 0, d);
                assert(st@ =~= name@.take(d as int));
                st
            }
        },
        None => name.clone(),
    };
    let ev = chars_of(ext);
    let ghost stem_v = stem@;
    if ev.len() > 0 {
        stem.push('.');
        let mut i: usize = 0;
        while i < ev.len()
            invariant
                i <= ev.len(),
                stem@ == stem_v + seq!['.'] + ev@.take(i as int),
            decreases ev.len() - i,
        {
            stem.push(ev[i]);
            assert(ev@.take(i + 1) == ev@.take(i as int).push(ev@[i as int]));
            i = i + 1;
        }
        assert(ev@.take(ev.len() as int) =~= ev@);
    }
    let mut front = segs_take(&segs, t);
    let ghost pre = front@;
    front.push(stem);
    assert(views(front@) =~= views(pre).push(front@[t as int]@));
    let out = spell_exec(is_rooted, &front);
    string_from_chars(&out)
}

/// Every backslash turned into a forward slash (`str::replace('\\', "/")`).
pub fn to_forward_slashes(s: &str) -> (r: String)
    ensures
        r@ == forward_slashes(s@),
{
    let v = chars_of(s);
    let mut out: Vec<char> = Vec::new();
    let mut i: usize = 0;
    while i < v.len()
        invariant
            i <= v.len(),
            out@ == forward_slashes(v@.take(i as int)),
        decreases v.len() - i,
    {
        let c = if v[i] == '\\' {
            '/'
        } else {
            v[i]
        };
        out.push(c);
        assert(forward_slashes(v@.take(i + 1)) =~= forward_slashes(v@.take(i as int)).push(c));
        i = i + 1;
    }
    assert(v@.take(v.len() as int) =~= v@);
    string_from_chars(&out)
}

} // verus!

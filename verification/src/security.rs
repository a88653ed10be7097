//! Capability checks, token validation, path containment and audit entries.
use vstd::prelude::*;
use vstd::string::*;
use crate::path::{
    body, components, join_path, kept, parent_path, path_join, path_parent_chars, path_starts,
    path_starts_with, rooted,
};
use crate::text::{
    chars_of, decimal, lines_chars, lines_of, string_from_chars, strings_equal, u64_to_decimal,
    views,
};
use crate::workspace::Workspace;

verus! {

broadcast use vstd::string::group_string_axioms;

/// A capability that a tool call may need.
#[derive(Clone, Copy, Debug, PartialEq, Eq, Structural)]
pub enum Capability {
    FilesystemRead,
    FilesystemWrite,
    FilesystemDelete,
    TerminalExecute,
    GitRead,
    GitWrite,
}

/// The name a capability carries in configuration files.
pub open spec fn capability_name(c: Capability) -> Seq<char> {
    match c {
        Capability::FilesystemRead => "filesystem.read"@,
        Capability::FilesystemWrite => "filesystem.write"@,
        Capability::FilesystemDelete => "filesystem.delete"@,
        Capability::TerminalExecute => "terminal.execute"@,
        Capability::GitRead => "git.read"@,
        Capability::GitWrite => "git.write"@,
    }
}

impl Capability {
    /// The name the capability carries in configuration files and audit entries.
    pub fn name(self) -> (r: &'static str)
        ensures
            r@ == capability_name(self),
    {
        match self {
            Capability::FilesystemRead => "filesystem.read",
            Capability::FilesystemWrite => "filesystem.write",
            Capability::FilesystemDelete => "filesystem.delete",
            Capability::TerminalExecute => "terminal.execute",
            Capability::GitRead => "git.read",
            Capability::GitWrite => "git.write",
        }
    }
}

/// What `format!("{:?}", Path::new(s))` prints: the path quoted, with escapes.
pub uninterp spec fn path_debug(s: Seq<char>) -> Seq<char>;

/// Formats a path with `Debug` (`<Path as Debug>::fmt`); the result is named [`path_debug`].
#[verifier::external_body]
pub(crate) fn debug_path(s: &str) -> (r: String)
    ensures
        r@ == path_debug(s@),
{
    format!("{:?}", std::path::Path::new(s))
}

/// The refusal of an absolute path outside the workspace.
pub open spec fn absolute_escape_message(path: Seq<char>) -> Seq<char> {
    "Security Violation: Root-relative or absolute path outside workspace containment boundary: "@
        + path_debug(path)
}

/// The refusal of a path that resolves outside the workspace.
pub open spec fn traversal_escape_message(path: Seq<char>) -> Seq<char> {
    "Security Violation: Path traversal escape detected on "@ + path_debug(path)
}

/// One step of lexical normalization: `..` pops the last component (`PathBuf::pop`),
/// any other component is pushed (`PathBuf::push`).
pub open spec fn normalize_step(acc: Seq<char>, g: Seq<char>) -> Seq<char> {
    if g == seq!['.', '.'] {
        match parent_path(acc) {
            Some(p) => p,
            None => acc,
        }
    } else {
        join_path(acc, g)
    }
}

/// `start` with the component segments `segs` applied in order.
pub open spec fn normalize_from(start: Seq<char>, segs: Seq<Seq<char>>) -> Seq<char>
    decreases segs.len(),
{
    if segs.len() == 0 {
        start
    } else {
        normalize_step(normalize_from(start, segs.drop_last()), segs.last())
    }
}

/// The path to canonicalize for `path`: joined to the root when relative.
pub open spec fn full_path_of(root: Seq<char>, path: Seq<char>) -> Seq<char> {
    if !rooted(path) {
        join_path(root, path)
    } else {
        path
    }
}

/// The outcome of the containment check, given what canonicalizing the root and the
/// full path gave (`None` where canonicalization failed).
pub open spec fn containment_outcome(
    root: Seq<char>,
    path: Seq<char>,
    canonical_root: Option<Seq<char>>,
    canonical_full: Option<Seq<char>>,
) -> Result<Seq<char>, Seq<char>> {
    let croot = match canonical_root {
        Some(c) => c,
        None => root,
    };
    if rooted(path) && !path_starts(path, root) && !path_starts(path, croot) {
        Err(absolute_escape_message(path))
    } else {
        let canon = match canonical_full {
            Some(c) => c,
            None => normalize_from(root, kept(body(path))),
        };
        if path_starts(canon, croot) {
            Ok(canon)
        } else {
            Err(traversal_escape_message(path))
        }
    }
}

/// Whether the token authenticates: it equals the configured key, or, without one, is
/// non-empty.
pub open spec fn token_valid(token: Seq<char>, api_key: Option<Seq<char>>) -> bool {
    match api_key {
        Some(k) => token == k,
        None => token.len() > 0,
    }
}

/// The line an audit entry adds to the log.
pub open spec fn audit_line_spec(
    timestamp: u64,
    action: Seq<char>,
    event: Seq<char>,
    success: bool,
) -> Seq<char> {
    "["@ + decimal(timestamp as nat) + "] "@ + (if success {
        "SUCCESS"@
    } else {
        "DENIED"@
    }) + " - Action: "@ + action + ", Details: "@ + event + "\n"@
}

/// Authentication, authorization and containment checks.
pub struct SecurityEvaluator;

impl SecurityEvaluator {
    /// Whether `capability` is among `required_caps`.
    pub fn authorize(
        _workspace: &Workspace,
        capability: &Capability,
        required_caps: &[Capability],
    ) -> (r: bool)
        ensures
            r == required_caps@.contains(*capability),
    {
        let mut i: usize = 0;
        while i < required_caps.len()
            invariant
                i <= required_caps@.len(),
                forall|j: int| 0 <= j < i ==> required_caps@[j] != *capability,
            decreases required_caps@.len() - i,
        {
            if required_caps[i] == *capability {
                return true;
            }
            i = i + 1;
        }
        false
    }

    /// Whether `token` authenticates, given the configured API key (read from the
    /// `WORKSPACEOS_API_KEY` environment variable by the caller).
    pub fn validate_token(token: &str, api_key: Option<&str>) -> (r: bool)
        ensures
            r == token_valid(
                token@,
                match api_key {
                    Some(k) => Some(k@),
                    None => None,
                },
            ),
    {
        match api_key {
            Some(k) => strings_equal(token, k),
            None => !token.is_empty(),
        }
    }

    /// The path whose canonical form the containment check needs: `path` joined to the
    /// workspace root when it is relative.
    pub fn containment_full_path(ws: &Workspace, path: &str) -> (r: String)
        ensures
            r@ == full_path_of(ws.root@, path@),
    {
        let pv = chars_of(path);
        if pv.len() > 0 && pv[0] == '/' {
            string_from_chars(&pv)
        } else {
            path_join(ws.root.as_str(), path)
        }
    }

    /// Lexical normalization of `path` onto the workspace root.
    fn normalize_onto(root: &str, path: &str) -> (r: Vec<char>)
        ensures
            r@ == normalize_from(root@, kept(body(path@))),
    {
        let pv = chars_of(path);
        let segs = crate::path::kept_segments(&pv);
        let ghost sv = views(segs@);
        let mut acc = chars_of(root);
        let mut i: usize = 0;
        assert(sv.take(0) =~= Seq::<Seq<char>>::empty());
        while i < segs.len()
            invariant
                i <= segs.len(),
                sv == views(segs@),
                sv == kept(body(pv@)),
                pv@ == path@,
                acc@ == normalize_from(root@, sv.take(i as int)),
            decreases segs.len() - i,
        {
            assert(sv.take(i + 1).drop_last() =~= sv.take(i as int));
            assert(sv.take(i + 1).last() == segs@[i as int]@);
            let g = &segs[i];
            if g.len() == 2 && g[0] == '.' && g[1] == '.' {
                assert(g@ =~= seq!['.', '.']);
                match path_parent_chars(&acc) {
                    Some(p) => {
                        acc = p;
                    },
                    None => {},
                }
            } else {
                assert(g@ != seq!['.', '.']);
                let a = string_from_chars(&acc);
                let gs = string_from_chars(g);
                let joined = path_join(a.as_str(), gs.as_str());
                acc = chars_of(joined.as_str());
            }
            i = i + 1;
        }
        assert(sv.take(segs.len() as int) =~= sv);
        acc
    }

    /// Confines `path` to the workspace. `canonical_root` and `canonical_full` are what
    /// canonicalizing the workspace root and [`Self::containment_full_path`] gave, or
    /// `None` where the path does not exist. An absolute path outside the root is
    /// refused; otherwise the canonical path (or, for a path that does not exist, the
    /// lexically normalized one) is returned when it lies under the canonical root.
    pub fn enforce_path_containment(
        ws: &Workspace,
        path: &str,
        canonical_root: Option<String>,
        canonical_full: Option<String>,
    ) -> (r: Result<String, String>)
        ensures
            match r {
                Ok(p) => containment_outcome(
                    ws.root@,
                    path@,
                    canonical_root.deep_view(),
                    canonical_full.deep_view(),
                ) == Ok::<Seq<char>, Seq<char>>(p@),
                Err(e) => containment_outcome(
                    ws.root@,
                    path@,
                    canonical_root.deep_view(),
                    canonical_full.deep_view(),
                ) == Err::<Seq<char>, Seq<char>>(e@),
            },
            // the accepted path lies under the (canonical) workspace root
            r is Ok ==> path_starts(
                r->Ok_0@,
                match canonical_root {
                    Some(c) => c@,
                    None => ws.root@,
                },
            ),
    {
        let croot: String = match &canonical_root {
            Some(c) => c.clone(),
            None => ws.root.clone(),
        };
        let pv = chars_of(path);
        let has_root = pv.len() > 0 && pv[0] == '/';
        if has_root && !path_starts_with(path, ws.root.as_str()) && !path_starts_with(
            path,
            croot.as_str(),
        ) {
            let mut msg = String::from_str(
                "Security Violation: Root-relative or absolute path outside workspace containment boundary: ",
            );
            let d = debug_path(path);
            msg.append(d.as_str());
            return Err(msg);
        }
        let canon: String = match canonical_full {
            Some(c) => c,
            None => {
                let n = Self::normalize_onto(ws.root.as_str(), path);
                string_from_chars(&n)
            },
        };
        if path_starts_with(canon.as_str(), croot.as_str()) {
            Ok(canon)
        } else {
            let mut msg = String::from_str("Security Violation: Path traversal escape detected on ");
            let d = debug_path(path);
            msg.append(d.as_str());
            Err(msg)
        }
    }

    /// The line that [`Self::audit_entry`] appends to `.workspaceos/audit.log`.
    pub fn audit_entry(timestamp: u64, action: &str, event: &str, success: bool) -> (r: String)
        ensures
            r@ == audit_line_spec(timestamp, action@, event@, success),
    {
        let mut line = String::from_str("[");
        let ts = u64_to_decimal(timestamp);
        line.append(ts.as_str());
        line.append("] ");
        if success {
            line.append("SUCCESS");
        } else {
            line.append("DENIED");
        }
        line.append(" - Action: ");
        line.append(action);
        line.append(", Details: ");
        line.append(event);
        line.append("\n");
        line
    }

    /// Where the audit log of a workspace lives.
    pub fn audit_log_path(ws: &Workspace) -> (r: String)
        ensures
            r@ == join_path(join_path(ws.root@, ".workspaceos"@), "audit.log"@),
    {
        let dir = path_join(ws.root.as_str(), ".workspaceos");
        path_join(dir.as_str(), "audit.log")
    }
}

/// Containment: whatever the check accepts lies under the canonical workspace root.
pub proof fn law_containment_result_within_root(
    root: Seq<char>,
    path: Seq<char>,
    canonical_root: Option<Seq<char>>,
    canonical_full: Option<Seq<char>>,
)
    ensures
        containment_outcome(root, path, canonical_root, canonical_full) is Ok ==> path_starts(
            containment_outcome(root, path, canonical_root, canonical_full)->Ok_0,
            match canonical_root {
                Some(c) => c,
                None => root,
            },
        ),
{
}

/// An absolute path that is not under the root (nor under its canonical form) is refused
/// before anything is resolved.
pub proof fn law_absolute_outside_refused(
    root: Seq<char>,
    path: Seq<char>,
    canonical_root: Option<Seq<char>>,
    canonical_full: Option<Seq<char>>,
)
    requires
        rooted(path),
        !path_starts(path, root),
        !path_starts(
            path,
            match canonical_root {
                Some(c) => c,
                None => root,
            },
        ),
    ensures
        containment_outcome(root, path, canonical_root, canonical_full) == Err::<
            Seq<char>,
            Seq<char>,
        >(absolute_escape_message(path)),
{
}

/// The line shown when a workspace has no audit log yet.
pub open spec fn empty_audit_notice() -> Seq<char> {
    "[INFO] Audit log file is empty or does not exist yet."@
}

/// The lines of the audit log as the desktop shows them: the log's lines, or a notice
/// when there is no log (`content` is `None`).
pub fn audit_log_lines(content: Option<&str>) -> (r: Vec<String>)
    ensures
        r.deep_view() == match content {
            Some(c) => lines_of(c@),
            None => seq![empty_audit_notice()],
        },
{
    match content {
        None => {
            let mut out: Vec<String> = Vec::new();
            out.push(String::from_str("[INFO] Audit log file is empty or does not exist yet."));
            assert(out.deep_view() =~= seq![empty_audit_notice()]);
            out
        },
        Some(c) => {
            let cv = chars_of(c);
            let ls = lines_chars(&cv);
            let mut out: Vec<String> = Vec::new();
            let mut i: usize = 0;
            while i < ls.len()
                invariant
                    i <= ls.len(),
                    out.deep_view() == views(ls@).take(i as int),
                decreases ls.len() - i,
            {
                let ghost pre = out.deep_view();
                out.push(string_from_chars(&ls[i]));
                assert(out.deep_view() =~= pre.push(ls@[i as int]@));
                assert(views(ls@).take(i + 1) =~= views(ls@).take(i as int).push(ls@[i as int]@));
                i = i + 1;
            }
            assert(views(ls@).take(ls.len() as int) =~= views(ls@));
            out
        },
    }
}

} // verus!

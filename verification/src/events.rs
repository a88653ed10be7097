//! Workspace events: what a file-system notification becomes, and what the incremental
//! indexers do with each event.
use vstd::prelude::*;
use vstd::string::*;
use crate::ignore_rules::{ignored, IgnoreMatcher};
use crate::path::{path_strip_prefix, strip_prefix_path};
use crate::text::{has_prefix, starts_with_str, strings_equal};
use crate::workspace::WorkspaceState;

verus! {

broadcast use vstd::string::group_string_axioms;

/// A change below a workspace root; paths are relative to the root.
#[derive(Clone, Debug)]
pub enum FsEvent {
    Created(String),
    Modified(String),
    Deleted(String),
    Renamed(String, String),
}

/// The plain values of a file-system event.
pub enum FsEventView {
    Created(Seq<char>),
    Modified(Seq<char>),
    Deleted(Seq<char>),
    Renamed(Seq<char>, Seq<char>),
}

impl View for FsEvent {
    type V = FsEventView;

    open spec fn view(&self) -> FsEventView {
        match self {
            FsEvent::Created(p) => FsEventView::Created(p@),
            FsEvent::Modified(p) => FsEventView::Modified(p@),
            FsEvent::Deleted(p) => FsEventView::Deleted(p@),
            FsEvent::Renamed(a, b) => FsEventView::Renamed(a@, b@),
        }
    }
}

/// An event on the workspace bus.
#[derive(Clone, Debug)]
pub enum WorkspaceEvent {
    WorkspaceCreated { id: String, name: String, root: String },
    WorkspaceLoaded { id: String },
    WorkspaceActivated { id: String },
    WorkspaceStateChanged { id: String, old_state: WorkspaceState, new_state: WorkspaceState },
    WorkspaceDeleted { id: String },
    FsUpdate { id: String, event: FsEvent },
}

/// The kind of a file-system notification, as the watcher reports it.
#[derive(Clone, Copy, Debug, PartialEq, Eq, Structural)]
pub enum WatchEventKind {
    /// Something was created.
    Create,
    /// A rename that reports both the old and the new path.
    RenameBoth,
    /// Any other modification.
    Modify,
    /// Something was removed.
    Remove,
    /// An event of unknown kind.
    Any,
    /// Access and other events that change nothing.
    Other,
}

/// Whether the `i`-th notified path is a directory (missing entries count as files).
pub open spec fn dir_flag(is_dir: Seq<bool>, i: int) -> bool {
    if 0 <= i < is_dir.len() {
        is_dir[i]
    } else {
        false
    }
}

/// The notified paths that the workspace does not ignore (`is_dir[i]` tells whether
/// `paths[i]` is a directory; missing entries count as files).
pub open spec fn unignored_paths(
    root: Seq<char>,
    gitignore: Option<(Seq<char>, Seq<Seq<char>>)>,
    paths: Seq<Seq<char>>,
    is_dir: Seq<bool>,
) -> Seq<Seq<char>>
    decreases paths.len(),
{
    if paths.len() == 0 {
        Seq::empty()
    } else {
        let prev = unignored_paths(root, gitignore, paths.drop_last(), is_dir);
        if ignored(root, gitignore, paths.last(), dir_flag(is_dir, paths.len() - 1)) {
            prev
        } else {
            prev.push(paths.last())
        }
    }
}

/// `path` relative to `root`, or `path` itself when it is not under `root`.
pub open spec fn relative_or_self(path: Seq<char>, root: Seq<char>) -> Seq<char> {
    match strip_prefix_path(path, root) {
        Some(r) => r,
        None => path,
    }
}

/// The event that a notification becomes, given its unignored paths.
pub open spec fn fs_event_of(root: Seq<char>, kind: WatchEventKind, kept: Seq<Seq<char>>) -> Option<
    FsEventView,
> {
    if kept.len() == 0 {
        None
    } else {
        let first = strip_prefix_path(kept[0], root);
        match kind {
            WatchEventKind::Create => match first {
                Some(p) => Some(FsEventView::Created(p)),
                None => None,
            },
            WatchEventKind::RenameBoth => if kept.len() >= 2 {
                Some(
                    FsEventView::Renamed(
                        relative_or_self(kept[0], root),
                        relative_or_self(kept[1], root),
                    ),
                )
            } else {
                match first {
                    Some(p) => Some(FsEventView::Modified(p)),
                    None => None,
                }
            },
            WatchEventKind::Modify | WatchEventKind::Any => match first {
                Some(p) => Some(FsEventView::Modified(p)),
                None => None,
            },
            WatchEventKind::Remove => match first {
                Some(p) => Some(FsEventView::Deleted(p)),
                None => None,
            },
            WatchEventKind::Other => None,
        }
    }
}

/// What the workspace watcher publishes for one notification: the paths the workspace
/// ignores are dropped, and the rest, relative to `root`, become an event of the
/// notification's kind.
pub fn watch_event_to_fs_event(
    matcher: &IgnoreMatcher,
    root: &str,
    kind: WatchEventKind,
    paths: &Vec<String>,
    is_dir: &Vec<bool>,
) -> (r: Option<FsEvent>)
    ensures
        match r {
            Some(e) => fs_event_of(
                root@,
                kind,
                unignored_paths(
                    matcher.root_spec(),
                    matcher.gitignore_spec(),
                    paths.deep_view(),
                    is_dir@,
                ),
            ) == Some(e@),
            None => fs_event_of(
                root@,
                kind,
                unignored_paths(
                    matcher.root_spec(),
                    matcher.gitignore_spec(),
                    paths.deep_view(),
                    is_dir@,
                ),
            ) is None,
        },
{
    let ghost pv = paths.deep_view();
    let mut kept: Vec<String> = Vec::new();
    let mut i: usize = 0;
    assert(pv.take(0) =~= Seq::<Seq<char>>::empty());
    while i < paths.len()
        invariant
            i <= paths.len(),
            pv == paths.deep_view(),
            kept.deep_view() == unignored_paths(
                matcher.root_spec(),
                matcher.gitignore_spec(),
                pv.take(i as int),
                is_dir@,
            ),
        decreases paths.len() - i,
    {
        assert(pv.take(i + 1).drop_last() =~= pv.take(i as int));
        assert(pv.take(i + 1).last() == paths@[i as int]@);
        let d = if i < is_dir.len() {
            is_dir[i]
        } else {
            false
        };
        let ghost pre = kept.deep_view();
        if !matcher.is_ignored(paths[i].as_str(), d) {
            kept.push(paths[i].clone());
            assert(kept.deep_view() =~= pre.push(paths@[i as int]@));
        }
        i = i + 1;
    }
    assert(pv.take(paths.len() as int) =~= pv);
    if kept.len() == 0 {
        return None;
    }
    let first = path_strip_prefix(kept[0].as_str(), root);
    match kind {
        WatchEventKind::Create => match first {
            Some(p) => Some(FsEvent::Created(p)),
            None => None,
        },
        WatchEventKind::RenameBoth => {
            if kept.len() >= 2 {
                let from = match path_strip_prefix(kept[0].as_str(), root) {
                    Some(p) => p,
                    None => kept[0].clone(),
                };
                let to = match path_strip_prefix(kept[1].as_str(), root) {
                    Some(p) => p,
                    None => kept[1].clone(),
                };
                Some(FsEvent::Renamed(from, to))
            } else {
                match first {
                    Some(p) => Some(FsEvent::Modified(p)),
                    None => None,
                }
            }
        },
        WatchEventKind::Modify | WatchEventKind::Any => match first {
            Some(p) => Some(FsEvent::Modified(p)),
            None => None,
        },
        WatchEventKind::Remove => match first {
            Some(p) => Some(FsEvent::Deleted(p)),
            None => None,
        },
        WatchEventKind::Other => None,
    }
}

// ---------------------------------------------------------------------------
// Incremental listeners
// ---------------------------------------------------------------------------

/// What an incremental listener does with a path: index it again, or drop it.
pub enum IndexAction {
    Index(String),
    Delete(String),
}

/// The plain values of an action.
pub enum ActionView {
    Index(Seq<char>),
    Delete(Seq<char>),
}

impl View for IndexAction {
    type V = ActionView;

    open spec fn view(&self) -> ActionView {
        match self {
            IndexAction::Index(p) => ActionView::Index(p@),
            IndexAction::Delete(p) => ActionView::Delete(p@),
        }
    }
}

/// The file-system change that an event reports for workspace `ws_id`, if any.
pub open spec fn fs_update_for(ws_id: Seq<char>, e: WorkspaceEvent) -> Option<FsEventView> {
    match e {
        WorkspaceEvent::FsUpdate { id, event } => if id@ == ws_id {
            Some(event@)
        } else {
            None
        },
        _ => None,
    }
}

/// What the symbol indexer does with a change: re-index created and modified files, drop
/// deleted ones, and for a rename drop the old path and index the new one.
pub open spec fn index_actions_spec(change: Option<FsEventView>) -> Seq<ActionView> {
    match change {
        Some(FsEventView::Created(p)) => seq![ActionView::Index(p)],
        Some(FsEventView::Modified(p)) => seq![ActionView::Index(p)],
        Some(FsEventView::Deleted(p)) => seq![ActionView::Delete(p)],
        Some(FsEventView::Renamed(a, b)) => seq![ActionView::Delete(a), ActionView::Index(b)],
        None => Seq::empty(),
    }
}

/// Paths of the index's own storage and of git, which full-text search never indexes.
pub open spec fn internal_path(p: Seq<char>) -> bool {
    has_prefix(p, ".workspaceos"@) || has_prefix(p, ".git"@)
}

/// What the full-text indexer does with a change: as the symbol indexer, except that
/// changes to internal paths (for a rename: to the new path) are skipped.
pub open spec fn search_actions_spec(change: Option<FsEventView>) -> Seq<ActionView> {
    match change {
        Some(FsEventView::Created(p)) => if internal_path(p) {
            Seq::empty()
        } else {
            seq![ActionView::Index(p)]
        },
        Some(FsEventView::Modified(p)) => if internal_path(p) {
            Seq::empty()
        } else {
            seq![ActionView::Index(p)]
        },
        Some(FsEventView::Deleted(p)) => if internal_path(p) {
            Seq::empty()
        } else {
            seq![ActionView::Delete(p)]
        },
        Some(FsEventView::Renamed(a, b)) => if internal_path(b) {
            Seq::empty()
        } else {
            seq![ActionView::Delete(a), ActionView::Index(b)]
        },
        None => Seq::empty(),
    }
}

fn copy_string(s: &String) -> (r: String)
    ensures
        r@ == s@,
{
    s.clone()
}

/// The change an event reports for workspace `ws_id`.
fn fs_update_exec<'a>(ws_id: &str, event: &'a WorkspaceEvent) -> (r: Option<&'a FsEvent>)
    ensures
        match r {
            Some(e) => fs_update_for(ws_id@, *event) == Some(e@),
            None => fs_update_for(ws_id@, *event) is None,
        },
{
    match event {
        WorkspaceEvent::FsUpdate { id, event } => {
            if strings_equal(id.as_str(), ws_id) {
                Some(event)
            } else {
                None
            }
        },
        _ => None,
    }
}

/// What the incremental symbol indexer of workspace `ws_id` does with a bus event.
pub fn index_actions(ws_id: &str, event: &WorkspaceEvent) -> (r: Vec<IndexAction>)
    ensures
        r@.map_values(|a: IndexAction| a@) == index_actions_spec(fs_update_for(ws_id@, *event)),
{
    let mut out: Vec<IndexAction> = Vec::new();
    match fs_update_exec(ws_id, event) {
        Some(FsEvent::Created(p)) => out.push(IndexAction::Index(copy_string(p))),
        Some(FsEvent::Modified(p)) => out.push(IndexAction::Index(copy_string(p))),
        Some(FsEvent::Deleted(p)) => out.push(IndexAction::Delete(copy_string(p))),
        Some(FsEvent::Renamed(a, b)) => {
            out.push(IndexAction::Delete(copy_string(a)));
            out.push(IndexAction::Index(copy_string(b)));
        },
        None => {},
    }
    assert(out@.map_values(|a: IndexAction| a@) =~= index_actions_spec(
        fs_update_for(ws_id@, *event),
    ));
    out
}

fn internal_exec(p: &str) -> (r: bool)
    ensures
        r == internal_path(p@),
{
    starts_with_str(p, ".workspaceos") || starts_with_str(p, ".git")
}

/// What the incremental full-text indexer of workspace `ws_id` does with a bus event.
pub fn search_actions(ws_id: &str, event: &WorkspaceEvent) -> (r: Vec<IndexAction>)
    ensures
        r@.map_values(|a: IndexAction| a@) == search_actions_spec(fs_update_for(ws_id@, *event)),
{
    let mut out: Vec<IndexAction> = Vec::new();
    match fs_update_exec(ws_id, event) {
        Some(FsEvent::Created(p)) => {
            if !internal_exec(p.as_str()) {
                out.push(IndexAction::Index(copy_string(p)));
            }
        },
        Some(FsEvent::Modified(p)) => {
            if !internal_exec(p.as_str()) {
                out.push(IndexAction::Index(copy_string(p)));
            }
        },
        Some(FsEvent::Deleted(p)) => {
            if !internal_exec(p.as_str()) {
                out.push(IndexAction::Delete(copy_string(p)));
            }
        },
        Some(FsEvent::Renamed(a, b)) => {
            if !internal_exec(b.as_str()) {
                out.push(IndexAction::Delete(copy_string(a)));
                out.push(IndexAction::Index(copy_string(b)));
            }
        },
        None => {},
    }
    assert(out@.map_values(|a: IndexAction| a@) =~= search_actions_spec(
        fs_update_for(ws_id@, *event),
    ));
    out
}

/// Events of other workspaces, and events that are not file-system changes, leave both
/// indexers idle.
pub proof fn law_foreign_events_ignored(ws_id: Seq<char>, e: WorkspaceEvent)
    requires
        fs_update_for(ws_id, e) is None,
    ensures
        index_actions_spec(fs_update_for(ws_id, e)).len() == 0,
        search_actions_spec(fs_update_for(ws_id, e)).len() == 0,
{
}

/// The full-text indexer acts on a subset of what the symbol indexer acts on: it takes the
/// same actions, or none.
pub proof fn law_search_actions_subset(change: Option<FsEventView>)
    ensures
        search_actions_spec(change) == index_actions_spec(change) || search_actions_spec(
            change,
        ).len() == 0,
{
}

proof fn lemma_unignored_are_notified(
    root: Seq<char>,
    gitignore: Option<(Seq<char>, Seq<Seq<char>>)>,
    paths: Seq<Seq<char>>,
    is_dir: Seq<bool>,
)
    ensures
        forall|k: int|
            0 <= k < unignored_paths(root, gitignore, paths, is_dir).len() ==> exists|i: int|
                0 <= i < paths.len() && paths[i] == #[trigger] unignored_paths(
                    root,
                    gitignore,
                    paths,
                    is_dir,
                )[k] && !ignored(root, gitignore, paths[i], dir_flag(is_dir, i)),
    decreases paths.len(),
{
    if paths.len() > 0 {
        let up = unignored_paths(root, gitignore, paths, is_dir);
        let prev = unignored_paths(root, gitignore, paths.drop_last(), is_dir);
        lemma_unignored_are_notified(root, gitignore, paths.drop_last(), is_dir);
        assert forall|k: int| 0 <= k < up.len() implies exists|i: int|
            0 <= i < paths.len() && paths[i] == #[trigger] up[k] && !ignored(
                root,
                gitignore,
                paths[i],
                dir_flag(is_dir, i),
            ) by {
            if k < prev.len() {
                assert(up[k] == prev[k]);
                let i = choose|i: int|
                    0 <= i < paths.drop_last().len() && paths.drop_last()[i] == prev[k]
                        && !ignored(root, gitignore, paths.drop_last()[i], dir_flag(is_dir, i));
                assert(paths[i] == paths.drop_last()[i]);
            } else {
                let i = paths.len() - 1;
                assert(paths[i] == paths.last());
            }
        }
    }
}

/// The watcher only reports paths the workspace does not ignore: the path of a created,
/// modified or deleted event is, relative to the root, one of the notified paths that is
/// not ignored; both paths of a rename are notified paths that are not ignored, each
/// relative to the root when it lies under it.
pub proof fn law_events_name_unignored_paths(
    root: Seq<char>,
    matcher_root: Seq<char>,
    gitignore: Option<(Seq<char>, Seq<Seq<char>>)>,
    kind: WatchEventKind,
    paths: Seq<Seq<char>>,
    is_dir: Seq<bool>,
)
    ensures
        fs_event_of(root, kind, unignored_paths(matcher_root, gitignore, paths, is_dir)) matches Some(
            e,
        ) ==> match e {
            FsEventView::Created(p) | FsEventView::Modified(p) | FsEventView::Deleted(p) => exists|
                i: int,
            |
                0 <= i < paths.len() && !ignored(
                    matcher_root,
                    gitignore,
                    paths[i],
                    dir_flag(is_dir, i),
                ) && strip_prefix_path(#[trigger] paths[i], root) == Some(p),
            FsEventView::Renamed(a, b) => (exists|i: int|
                0 <= i < paths.len() && !ignored(
                    matcher_root,
                    gitignore,
                    paths[i],
                    dir_flag(is_dir, i),
                ) && relative_or_self(#[trigger] paths[i], root) == a) && (exists|j: int|
                0 <= j < paths.len() && !ignored(
                    matcher_root,
                    gitignore,
                    paths[j],
                    dir_flag(is_dir, j),
                ) && relative_or_self(#[trigger] paths[j], root) == b),
        },
{
    let up = unignored_paths(matcher_root, gitignore, paths, is_dir);
    lemma_unignored_are_notified(matcher_root, gitignore, paths, is_dir);
    if up.len() > 0 {
        let i = choose|i: int|
            0 <= i < paths.len() && paths[i] == up[0] && !ignored(
                matcher_root,
                gitignore,
                paths[i],
                dir_flag(is_dir, i),
            );
        assert(paths[i] == up[0]);
        if up.len() > 1 {
            let j = choose|j: int|
                0 <= j < paths.len() && paths[j] == up[1] && !ignored(
                    matcher_root,
                    gitignore,
                    paths[j],
                    dir_flag(is_dir, j),
                );
            assert(paths[j] == up[1]);
        }
    }
}

proof fn lemma_all_ignored_none_kept(
    root: Seq<char>,
    gitignore: Option<(Seq<char>, Seq<Seq<char>>)>,
    paths: Seq<Seq<char>>,
    is_dir: Seq<bool>,
)
    requires
        forall|i: int|
            0 <= i < paths.len() ==> ignored(root, gitignore, #[trigger] paths[i], dir_flag(is_dir, i)),
    ensures
        unignored_paths(root, gitignore, paths, is_dir).len() == 0,
    decreases paths.len(),
{
    if paths.len() > 0 {
        assert forall|i: int| 0 <= i < paths.drop_last().len() implies ignored(
            root,
            gitignore,
            #[trigger] paths.drop_last()[i],
            dir_flag(is_dir, i),
        ) by {
            assert(paths.drop_last()[i] == paths[i]);
        }
        lemma_all_ignored_none_kept(root, gitignore, paths.drop_last(), is_dir);
        assert(ignored(root, gitignore, paths[paths.len() - 1], dir_flag(is_dir, paths.len() - 1)));
    }
}

/// A change that touches only ignored paths publishes nothing.
pub proof fn law_ignored_changes_publish_nothing(
    root: Seq<char>,
    matcher_root: Seq<char>,
    gitignore: Option<(Seq<char>, Seq<Seq<char>>)>,
    kind: WatchEventKind,
    paths: Seq<Seq<char>>,
    is_dir: Seq<bool>,
)
    requires
        forall|i: int|
            0 <= i < paths.len() ==> ignored(
                matcher_root,
                gitignore,
                #[trigger] paths[i],
                dir_flag(is_dir, i),
            ),
    ensures
        fs_event_of(root, kind, unignored_paths(matcher_root, gitignore, paths, is_dir)) is None,
{
    lemma_all_ignored_none_kept(matcher_root, gitignore, paths, is_dir);
}

/// What the indexers do with a change of their own workspace: the symbol indexer indexes
/// a created or modified path, drops a deleted one, and for a rename drops the old path
/// then indexes the new one; the full-text indexer does the same except for paths under
/// `.workspaceos` or `.git` (for a rename, the new path), which it leaves alone.
pub proof fn law_indexers_follow_changes(ws_id: Seq<char>, e: WorkspaceEvent)
    ensures
        fs_update_for(ws_id, e) matches Some(FsEventView::Created(p)) ==> index_actions_spec(
            fs_update_for(ws_id, e),
        ) == seq![ActionView::Index(p)],
        fs_update_for(ws_id, e) matches Some(FsEventView::Modified(p)) ==> index_actions_spec(
            fs_update_for(ws_id, e),
        ) == seq![ActionView::Index(p)],
        fs_update_for(ws_id, e) matches Some(FsEventView::Deleted(p)) ==> index_actions_spec(
            fs_update_for(ws_id, e),
        ) == seq![ActionView::Delete(p)],
        fs_update_for(ws_id, e) matches Some(FsEventView::Renamed(a, b)) ==> index_actions_spec(
            fs_update_for(ws_id, e),
        ) == seq![ActionView::Delete(a), ActionView::Index(b)],
        fs_update_for(ws_id, e) matches Some(FsEventView::Created(p)) ==> search_actions_spec(
            fs_update_for(ws_id, e),
        ) == if has_prefix(p, ".workspaceos"@) || has_prefix(p, ".git"@) {
            Seq::empty()
        } else {
            seq![ActionView::Index(p)]
        },
        fs_update_for(ws_id, e) matches Some(FsEventView::Modified(p)) ==> search_actions_spec(
            fs_update_for(ws_id, e),
        ) == if has_prefix(p, ".workspaceos"@) || has_prefix(p, ".git"@) {
            Seq::empty()
        } else {
            seq![ActionView::Index(p)]
        },
        fs_update_for(ws_id, e) matches Some(FsEventView::Deleted(p)) ==> search_actions_spec(
            fs_update_for(ws_id, e),
        ) == if has_prefix(p, ".workspaceos"@) || has_prefix(p, ".git"@) {
            Seq::empty()
        } else {
            seq![ActionView::Delete(p)]
        },
        fs_update_for(ws_id, e) matches Some(FsEventView::Renamed(a, b)) ==> search_actions_spec(
            fs_update_for(ws_id, e),
        ) == if has_prefix(b, ".workspaceos"@) || has_prefix(b, ".git"@) {
            Seq::empty()
        } else {
            seq![ActionView::Delete(a), ActionView::Index(b)]
        },
        (e matches WorkspaceEvent::FsUpdate { id, event } && id@ == ws_id) <==> fs_update_for(
            ws_id,
            e,
        ) is Some,
{
}

} // verus!

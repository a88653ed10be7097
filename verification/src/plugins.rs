//! Plugins: the built-in companions, and which manifests of a workspace's plugin
//! directory join them.
use vstd::prelude::*;
use vstd::string::*;
use crate::path::{extension_of, join_path, path_extension, path_join};
use crate::text::strings_equal;
use crate::workspace::Workspace;

verus! {

broadcast use vstd::string::group_string_axioms;

/// What a plugin manifest declares.
pub struct PluginMetadata {
    pub name: String,
    pub version: String,
    pub description: String,
    pub capabilities: Vec<String>,
}

/// The plain values of a manifest.
pub struct PluginView {
    pub name: Seq<char>,
    pub version: Seq<char>,
    pub description: Seq<char>,
    pub capabilities: Seq<Seq<char>>,
}

impl View for PluginMetadata {
    type V = PluginView;

    open spec fn view(&self) -> PluginView {
        PluginView {
            name: self.name@,
            version: self.version@,
            description: self.description@,
            capabilities: self.capabilities.deep_view(),
        }
    }
}

/// The plugins every workspace has.
pub open spec fn builtin_plugins_spec() -> Seq<PluginView> {
    seq![
        PluginView {
            name: "git-companion"@,
            version: "1.0.0"@,
            description: "Exposes Git status, commit, and history tools"@,
            capabilities: seq!["git.read"@, "git.write"@],
        },
        PluginView {
            name: "db-inspector"@,
            version: "0.9.0"@,
            description: "Direct SQLite inspection utilities for structured databases"@,
            capabilities: seq!["filesystem.read"@],
        },
    ]
}

/// The views of a list of manifests.
pub open spec fn plugin_views(ps: Seq<PluginMetadata>) -> Seq<PluginView> {
    ps.map_values(|p: PluginMetadata| p@)
}

/// Discovers the plugins of a workspace.
pub struct PluginHost;

impl PluginHost {
    /// The built-in companion plugins.
    pub fn builtin_plugins() -> (r: Vec<PluginMetadata>)
        ensures
            plugin_views(r@) == builtin_plugins_spec(),
    {
        let mut git_caps: Vec<String> = Vec::new();
        git_caps.push(String::from_str("git.read"));
        git_caps.push(String::from_str("git.write"));
        let git = PluginMetadata {
            name: String::from_str("git-companion"),
            version: String::from_str("1.0.0"),
            description: String::from_str("Exposes Git status, commit, and history tools"),
            capabilities: git_caps,
        };
        assert(git@.capabilities =~= builtin_plugins_spec()[0].capabilities);
        let mut db_caps: Vec<String> = Vec::new();
        db_caps.push(String::from_str("filesystem.read"));
        let db = PluginMetadata {
            name: String::from_str("db-inspector"),
            version: String::from_str("0.9.0"),
            description: String::from_str(
                "Direct SQLite inspection utilities for structured databases",
            ),
            capabilities: db_caps,
        };
        assert(db@.capabilities =~= builtin_plugins_spec()[1].capabilities);
        let mut out: Vec<PluginMetadata> = Vec::new();
        out.push(git);
        out.push(db);
        assert(plugin_views(out@) =~= builtin_plugins_spec());
        out
    }

    /// The directory whose manifests extend the plugin list: `.workspaceos/plugins`
    /// under the workspace root.
    pub fn plugins_dir(ws: &Workspace) -> (r: String)
        ensures
            r@ == join_path(join_path(ws.root@, ".workspaceos"@), "plugins"@),
    {
        let d = path_join(ws.root.as_str(), ".workspaceos");
        path_join(d.as_str(), "plugins")
    }

    /// Whether a directory entry is read as a manifest: a file whose extension is `json`.
    pub fn is_manifest_candidate(path: &str, is_file: bool) -> (r: bool)
        ensures
            r == (is_file && extension_of(path@) == Some("json"@)),
    {
        if !is_file {
            return false;
        }
        match path_extension(path) {
            Some(e) => strings_equal(e.as_str(), "json"),
            None => false,
        }
    }

    /// The plugins of a workspace: the built-in ones, then the manifests of its plugin
    /// directory that parsed, in the order they were read.
    pub fn list_plugins(_ws: &Workspace, manifests: Vec<PluginMetadata>) -> (r: Vec<
        PluginMetadata,
    >)
        ensures
            plugin_views(r@) == builtin_plugins_spec() + plugin_views(manifests@),
    {
        let mut out = Self::builtin_plugins();
        let mut rest = manifests;
        out.append(&mut rest);
        assert(plugin_views(out@) =~= builtin_plugins_spec() + plugin_views(manifests@));
        out
    }
}

} // verus!

use workspaceos::plugins::{PluginHost, PluginMetadata};
use workspaceos::workspace::Workspace;

#[test]
fn test_plugin_host_listing() {
    let ws = Workspace::new("ws-id".to_string(), "Test Workspace".to_string(), "/tmp/root".to_string());
    assert_eq!(PluginHost::plugins_dir(&ws), "/tmp/root/.workspaceos/plugins");
    assert!(PluginHost::is_manifest_candidate("/tmp/root/.workspaceos/plugins/test-plugin.json", true));

    let external = PluginMetadata {
        name: "test-plugin".to_string(),
        version: "1.2.3".to_string(),
        description: "A test plugin".to_string(),
        capabilities: vec!["filesystem.read".to_string()],
    };
    let plugins = PluginHost::list_plugins(&ws, vec![external]);
    assert_eq!(plugins.len(), 3);
    assert!(plugins.iter().any(|p| p.name == "git-companion"));
    assert!(plugins.iter().any(|p| p.name == "db-inspector"));
    let ext = plugins.iter().find(|p| p.name == "test-plugin").unwrap();
    assert_eq!(ext.version, "1.2.3");
}

#[test]
fn builtins_come_first() {
    let b = PluginHost::builtin_plugins();
    assert_eq!(b.len(), 2);
    assert_eq!(b[0].name, "git-companion");
    assert_eq!(b[0].version, "1.0.0");
    assert_eq!(b[0].capabilities, vec!["git.read".to_string(), "git.write".to_string()]);
    assert_eq!(b[1].name, "db-inspector");
    assert_eq!(b[1].version, "0.9.0");
    assert_eq!(b[1].capabilities, vec!["filesystem.read".to_string()]);
    let ws = Workspace::new("w".to_string(), "W".to_string(), "/r".to_string());
    assert_eq!(PluginHost::list_plugins(&ws, vec![]).len(), 2);
}

#[test]
fn only_json_files_are_manifests() {
    assert!(!PluginHost::is_manifest_candidate("/p/readme.md", true));
    assert!(!PluginHost::is_manifest_candidate("/p/dir.json", false));
    assert!(!PluginHost::is_manifest_candidate("/p/json", true));
    assert!(PluginHost::is_manifest_candidate("/p/a.b.json", true));
}
